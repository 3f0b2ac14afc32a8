use drbd_events::drbd::{
    BackingDevice, Connection, ConnectionState, Device, DiskState, EventType, EventUpdate, Path,
    PeerDevice, ReplicationState, Resource, Role,
};
use drbd_events::events::{parse_events2_line, str_to_bool};

#[test]
fn string_to_bool() {
    assert!(str_to_bool("yes"));
    assert!(!str_to_bool("no"));
    assert!(str_to_bool("true"));
    assert!(!str_to_bool("false"));
    assert!(str_to_bool("user"));
}

#[test]
fn all_parsed_resource_update() {
    let up = parse_events2_line("exists resource name:foo role:Primary suspended:yes write-ordering:foo may_promote:yes promotion_score:23").unwrap();
    let expected = EventUpdate::Resource(
        EventType::Exists,
        Resource {
            name: "foo".to_string(),
            role: Role::Primary,
            suspended: true,
            write_ordering: "foo".to_string(),
            may_promote: true,
            promotion_score: 23,
            force_io_failures: false,
            devices: vec![],
            connections: vec![],
        },
    );
    assert_eq!(up, expected);
    let up = parse_events2_line("exists resource xxx:bla name:foo role:Primary suspended:yes write-ordering:foo may_promote:yes promotion_score:23").unwrap();
    assert_eq!(up, expected);
}

#[test]
fn all_parsed_device_update() {
    let up = parse_events2_line("change device name:foo volume:1 minor:1 disk:Attaching backing_dev:/dev/sda1 client:no quorum:yes size:1 read:1 written:1 al-writes:1 bm-writes:1 upper-pending:1 lower-pending:1 al-suspended:yes blocked:upper").unwrap();
    let expected = EventUpdate::Device(
        EventType::Change,
        Device {
            name: "foo".to_string(),
            volume: 1,
            minor: 1,
            disk_state: DiskState::Attaching,
            client: false,
            backing_dev: BackingDevice(Some("/dev/sda1".to_string())),
            quorum: true,
            size: 1,
            read: 1,
            written: 1,
            al_writes: 1,
            bm_writes: 1,
            upper_pending: 1,
            lower_pending: 1,
            al_suspended: true,
            blocked: "upper".to_string(),
        },
    );
    assert_eq!(up, expected);
    let up = parse_events2_line("change device name:foo xxx:bla volume:1 minor:1 disk:Attaching backing_dev:/dev/sda1 client:no quorum:yes size:1 read:1 written:1 al-writes:1 bm-writes:1 upper-pending:1 lower-pending:1 al-suspended:yes blocked:upper").unwrap();
    assert_eq!(up, expected);

    // backing_dev as none
    let up = parse_events2_line("change device name:foo volume:1 minor:1 disk:Attaching backing_dev:none client:yes quorum:yes size:1 read:1 written:1 al-writes:1 bm-writes:1 upper-pending:1 lower-pending:1 al-suspended:yes blocked:no").unwrap();
    let expected = EventUpdate::Device(
        EventType::Change,
        Device {
            name: "foo".to_string(),
            volume: 1,
            minor: 1,
            disk_state: DiskState::Attaching,
            client: true,
            backing_dev: BackingDevice(None),
            quorum: true,
            size: 1,
            read: 1,
            written: 1,
            al_writes: 1,
            bm_writes: 1,
            upper_pending: 1,
            lower_pending: 1,
            al_suspended: true,
            blocked: "no".to_string(),
        },
    );
    assert_eq!(up, expected);
}

#[test]
fn all_parsed_connection_update() {
    let up = parse_events2_line("exists connection name:foo peer-node-id:1 conn-name:bar connection:Connected role:Primary congested:yes ap-in-flight:1 rs-in-flight:1").unwrap();
    let expected = EventUpdate::Connection(
        EventType::Exists,
        Connection {
            name: "foo".to_string(),
            peer_node_id: 1,
            conn_name: "bar".to_string(),
            connection: ConnectionState::Connected,
            peer_role: Role::Primary,
            congested: true,
            ap_in_flight: 1,
            rs_in_flight: 1,
            peerdevices: vec![],
            paths: vec![],
        },
    );
    assert_eq!(up, expected);
    let up = parse_events2_line("exists connection name:foo xxx:bla peer-node-id:1 conn-name:bar connection:Connected role:Primary congested:yes ap-in-flight:1 rs-in-flight:1").unwrap();
    assert_eq!(up, expected);
}

#[test]
fn all_parsed_peerdevice_update() {
    let up = parse_events2_line("exists peer-device name:foo peer-node-id:1 conn-name:bar volume:1 replication:Established peer-disk:UpToDate peer-client:yes resync-suspended:yes received:1 sent:1 out-of-sync:1 pending:1 unacked:1").unwrap();
    let expected = EventUpdate::PeerDevice(
        EventType::Exists,
        PeerDevice {
            name: "foo".to_string(),
            peer_node_id: 1,
            conn_name: "bar".to_string(),
            volume: 1,
            replication_state: ReplicationState::Established,
            peer_disk_state: DiskState::UpToDate,
            peer_client: true,
            resync_suspended: true,
            received: 1,
            sent: 1,
            out_of_sync: 1,
            pending: 1,
            unacked: 1,
            has_sync_details: false,
            has_online_verify_details: false,
        },
    );
    assert_eq!(up, expected);
    let up = parse_events2_line("exists peer-device name:foo xxx:bla peer-node-id:1 conn-name:bar volume:1 replication:Established peer-disk:UpToDate peer-client:yes resync-suspended:yes received:1 sent:1 out-of-sync:1 pending:1 unacked:1").unwrap();
    assert_eq!(up, expected);
}

#[test]
fn all_parsed_path_update() {
    let up = parse_events2_line("change path name:foo peer-node-id:3 conn-name:bar local:ipv4:1.2.3.4:7020 peer:ipv4:1.2.3.5:7020 established:yes").unwrap();
    let expected = EventUpdate::Path(
        EventType::Change,
        Path {
            name: "foo".to_string(),
            peer_node_id: 3,
            conn_name: "bar".to_string(),
            local: "ipv4:1.2.3.4:7020".to_string(),
            peer: "ipv4:1.2.3.5:7020".to_string(),
            established: true,
        },
    );
    assert_eq!(up, expected);
}

#[test]
fn wrong_et() {
    assert!(parse_events2_line("xxx resource name:foo").is_err());
    // these will be implemented soon, but for now they are errors
    assert!(parse_events2_line("call helper").is_err());
    assert!(parse_events2_line("response helper").is_err());
}

#[test]
fn wrong_what() {
    assert!(parse_events2_line("exists xxx name:foo").is_err());
}
