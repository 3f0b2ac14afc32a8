use drbd_events::drbd::{
    BackingDevice, Device, DiskState, EventType, EventUpdate, PeerDevice, ReplicationState,
    Resource, Role,
};
use drbd_events::events::{
    events2_line_update, parse_events2_line, parse_kv, Events2Supervisor, NextStep, ParseError,
    RunEnd, RESTART_DELAY_SECS,
};
use drbd_events::number::{parse_i32, parse_u64};
use drbd_events::text::{split_words, str_eq, trim_str};

fn resource_of(line: &str) -> Resource {
    match parse_events2_line(line).unwrap() {
        EventUpdate::Resource(_, r) => r,
        other => panic!("not a resource: {:?}", other),
    }
}

fn device_of(line: &str) -> Device {
    match parse_events2_line(line).unwrap() {
        EventUpdate::Device(_, d) => d,
        other => panic!("not a device: {:?}", other),
    }
}

fn invalid(key: &str, value: &str) -> ParseError {
    ParseError::InvalidValue { key: key.to_string(), value: value.to_string() }
}

#[test]
fn parse_kv_splits_at_first_colon() {
    assert_eq!(parse_kv("local:ipv4:1.2.3.4:7020"), Some(("local", "ipv4:1.2.3.4:7020")));
    assert_eq!(parse_kv("name:foo"), Some(("name", "foo")));
    assert_eq!(parse_kv(":x"), Some(("", "x")));
    assert_eq!(parse_kv("k:"), Some(("k", "")));
    assert_eq!(parse_kv("nocolon"), None);
    assert_eq!(parse_kv(""), None);
}

#[test]
fn words_split_on_any_whitespace() {
    assert_eq!(split_words("  a\tb \n c  "), vec!["a", "b", "c"]);
    assert_eq!(split_words("a\u{3000}b\u{a0}c"), vec!["a", "b", "c"]);
    assert_eq!(split_words(""), Vec::<&str>::new());
    assert_eq!(split_words(" \t "), Vec::<&str>::new());
    assert_eq!(split_words("é:ü x"), vec!["é:ü", "x"]);
}

#[test]
fn trim_removes_outer_whitespace_only() {
    assert_eq!(trim_str("\t exists -  \n"), "exists -");
    assert_eq!(trim_str("   "), "");
    assert_eq!(trim_str("a  b"), "a  b");
}

#[test]
fn str_eq_compares_characters() {
    assert!(str_eq("abc", "abc"));
    assert!(!str_eq("abc", "abd"));
    assert!(!str_eq("abc", "ab"));
    assert!(str_eq("", ""));
}

#[test]
fn integers_read_like_str_parse() {
    assert_eq!(parse_u64("0"), Some(0));
    assert_eq!(parse_u64("+7"), Some(7));
    assert_eq!(parse_u64("18446744073709551615"), Some(u64::MAX));
    assert_eq!(parse_u64("18446744073709551616"), None);
    assert_eq!(parse_u64("-1"), None);
    assert_eq!(parse_u64(""), None);
    assert_eq!(parse_u64("+"), None);
    assert_eq!(parse_u64("1x"), None);
    assert_eq!(parse_i32("-2147483648"), Some(i32::MIN));
    assert_eq!(parse_i32("2147483647"), Some(i32::MAX));
    assert_eq!(parse_i32("2147483648"), None);
    assert_eq!(parse_i32("-2147483649"), None);
    assert_eq!(parse_i32("-0"), Some(0));
    assert_eq!(parse_i32("+12"), Some(12));
    assert_eq!(parse_i32("-"), None);
    for s in ["0", "42", "+42", "-42", "99999999999", "00012", "1 2", "٣"] {
        assert_eq!(parse_u64(s), s.parse::<u64>().ok(), "{}", s);
        assert_eq!(parse_i32(s), s.parse::<i32>().ok(), "{}", s);
    }
}

#[test]
fn unset_fields_keep_their_defaults() {
    let r = resource_of("create resource name:r0");
    assert_eq!(r.name, "r0");
    assert_eq!(r.role, Role::Unknown);
    assert!(!r.suspended);
    assert_eq!(r.promotion_score, 0);
    let d = device_of("destroy device");
    assert_eq!(d.disk_state, DiskState::DUnknown);
    assert_eq!(d.backing_dev, BackingDevice(None));
    assert_eq!(d.name, "");
}

#[test]
fn later_value_of_a_key_wins() {
    let r = resource_of("exists resource name:a name:b role:Primary role:Secondary");
    assert_eq!(r.name, "b");
    assert_eq!(r.role, Role::Secondary);
}

#[test]
fn negative_and_signed_numbers() {
    let r = resource_of("exists resource promotion_score:-5");
    assert_eq!(r.promotion_score, -5);
    let d = device_of("exists device size:18446744073709551615");
    assert_eq!(d.size, u64::MAX);
}

#[test]
fn invalid_values_are_refused_with_key_and_value() {
    assert_eq!(
        parse_events2_line("exists resource role:Boss"),
        Err(invalid("role", "Boss"))
    );
    assert_eq!(
        parse_events2_line("exists device size:18446744073709551616"),
        Err(invalid("size", "18446744073709551616"))
    );
    assert_eq!(
        parse_events2_line("exists device volume:-1 minor:x volume:y"),
        Err(invalid("minor", "x"))
    );
    assert_eq!(
        parse_events2_line("exists resource promotion_score:2147483648"),
        Err(invalid("promotion_score", "2147483648"))
    );
    assert_eq!(
        parse_events2_line("exists connection connection:Up"),
        Err(invalid("connection", "Up"))
    );
    assert_eq!(
        parse_events2_line("exists peer-device replication:Nowhere"),
        Err(invalid("replication", "Nowhere"))
    );
    assert_eq!(
        parse_events2_line("exists peer-device peer-disk:Gone"),
        Err(invalid("peer-disk", "Gone"))
    );
    assert_eq!(
        parse_events2_line("exists path peer-node-id:a"),
        Err(invalid("peer-node-id", "a"))
    );
}

#[test]
fn unknown_event_type_and_object_are_named() {
    assert_eq!(
        parse_events2_line("xxx resource name:foo"),
        Err(ParseError::UnknownEventType("xxx".to_string()))
    );
    assert_eq!(parse_events2_line(""), Err(ParseError::UnknownEventType(String::new())));
    assert_eq!(
        parse_events2_line("exists xxx name:foo"),
        Err(ParseError::UnknownObject("xxx".to_string()))
    );
    assert_eq!(parse_events2_line("exists"), Err(ParseError::UnknownObject(String::new())));
    assert_eq!(parse_events2_line("exists -"), Err(ParseError::UnknownObject("-".to_string())));
}

#[test]
fn unknown_keys_anywhere_are_ignored() {
    let base = "exists resource name:foo role:Primary promotion_score:3";
    let expected = parse_events2_line(base).unwrap();
    for line in [
        "exists resource zzz:1 name:foo role:Primary promotion_score:3",
        "exists resource name:foo plain role:Primary promotion_score:3",
        "exists resource name:foo role:Primary promotion_score:3 disk:Bogus",
        "exists resource name:foo role:Primary promotion_score:3 volume:notanumber",
    ] {
        assert_eq!(parse_events2_line(line).unwrap(), expected, "{}", line);
    }
    let pd = parse_events2_line("exists peer-device name:x done:12.5 eta:77 dbdt1:0.0 replication:SyncSource").unwrap();
    match pd {
        EventUpdate::PeerDevice(EventType::Exists, p) => {
            let mut want = PeerDevice::default();
            want.name = "x".to_string();
            want.replication_state = ReplicationState::SyncSource;
            assert_eq!(p, want);
        }
        other => panic!("unexpected {:?}", other),
    }
}

#[test]
fn all_event_types_are_read() {
    for (verb, et) in [
        ("exists", EventType::Exists),
        ("create", EventType::Create),
        ("destroy", EventType::Destroy),
        ("change", EventType::Change),
    ] {
        let line = format!("{} path name:p", verb);
        match parse_events2_line(&line).unwrap() {
            EventUpdate::Path(got, p) => {
                assert_eq!(got, et);
                assert_eq!(p.name, "p");
            }
            other => panic!("unexpected {:?}", other),
        }
    }
}

#[test]
fn stream_lines_are_trimmed_and_marker_skipped() {
    assert!(events2_line_update("exists -\n").is_none());
    assert!(events2_line_update("  exists -  ").is_none());
    match events2_line_update("change resource name:r0 role:Secondary\n") {
        Some(Ok(EventUpdate::Resource(EventType::Change, r))) => {
            assert_eq!(r.name, "r0");
            assert_eq!(r.role, Role::Secondary);
        }
        other => panic!("unexpected {:?}", other),
    }
    assert_eq!(
        events2_line_update("exists  -\n"),
        Some(Err(ParseError::UnknownObject("-".to_string())))
    );
    assert!(matches!(events2_line_update("call helper\n"), Some(Err(_))));
}

#[test]
fn supervisor_flushes_after_first_run_and_restarts_on_failure() {
    let mut s = Events2Supervisor::new();
    assert!(!s.flush_first());
    assert_eq!(s.after_run(RunEnd::Failed), NextStep::Restart { delay_secs: RESTART_DELAY_SECS });
    assert_eq!(RESTART_DELAY_SECS, 2);
    assert!(s.flush_first());
    assert_eq!(s.after_run(RunEnd::ChannelClosed), NextStep::GiveUp);
    let mut s = Events2Supervisor::new();
    assert_eq!(s.after_run(RunEnd::Finished), NextStep::Stop);
    assert!(s.flush_first());
}

#[test]
fn splitting_and_trimming_agree_with_std() {
    for s in [
        "",
        " ",
        "exists resource name:r0",
        "\t\u{2003}change  device\u{85}minor:1 \u{3000}",
        "a\u{200b}b c",
        "x\u{1680}y\u{2028}z\u{202f}w\u{205f}v\u{0b}u\u{0c}t",
    ] {
        assert_eq!(split_words(s), s.split_whitespace().collect::<Vec<_>>(), "{:?}", s);
        assert_eq!(trim_str(s), s.trim(), "{:?}", s);
    }
}
