//! Properties of the events2 reader that hold across its functions.

use vstd::prelude::*;
use crate::drbd::{
    Connection, ConnectionState, Device, DiskState, EventType, EventUpdateModel, Path, PeerDevice,
    ReplicationState, Resource, Role,
};
use crate::events::{
    apply_words, spec_parse_events2_line, spec_parse_words, ApplyKeyValue, ParseErrorModel,
};
use crate::text::{split_kv, words};

verus! {

/// The keys that set a field of a Resource.
pub open spec fn resource_key(key: Seq<char>) -> bool {
    key == "name"@
        || key == "role"@
        || key == "suspended"@
        || key == "write-ordering"@
        || key == "force-io-failures"@
        || key == "may_promote"@
        || key == "promotion_score"@
}

/// The keys that set a field of a Device.
pub open spec fn device_key(key: Seq<char>) -> bool {
    key == "name"@
        || key == "volume"@
        || key == "minor"@
        || key == "disk"@
        || key == "client"@
        || key == "backing_dev"@
        || key == "quorum"@
        || key == "size"@
        || key == "read"@
        || key == "written"@
        || key == "al-writes"@
        || key == "bm-writes"@
        || key == "upper-pending"@
        || key == "lower-pending"@
        || key == "al-suspended"@
        || key == "blocked"@
}

/// The keys that set a field of a Connection.
pub open spec fn connection_key(key: Seq<char>) -> bool {
    key == "name"@
        || key == "peer-node-id"@
        || key == "conn-name"@
        || key == "connection"@
        || key == "role"@
        || key == "congested"@
        || key == "ap-in-flight"@
        || key == "rs-in-flight"@
}

/// The keys that set a field of a PeerDevice.
pub open spec fn peer_device_key(key: Seq<char>) -> bool {
    key == "name"@
        || key == "conn-name"@
        || key == "volume"@
        || key == "peer-node-id"@
        || key == "replication"@
        || key == "peer-disk"@
        || key == "peer-client"@
        || key == "resync-suspended"@
        || key == "received"@
        || key == "sent"@
        || key == "out-of-sync"@
        || key == "pending"@
        || key == "unacked"@
}

/// The keys that set a field of a Path.
pub open spec fn path_key(key: Seq<char>) -> bool {
    key == "name"@
        || key == "peer-node-id"@
        || key == "conn-name"@
        || key == "local"@
        || key == "peer"@
        || key == "established"@
}

/// The keys that set a field of the kind of object that `what` names.
pub open spec fn recognised_key(what: Seq<char>, key: Seq<char>) -> bool {
    if what == "resource"@ {
        resource_key(key)
    } else if what == "device"@ {
        device_key(key)
    } else if what == "connection"@ {
        connection_key(key)
    } else if what == "peer-device"@ {
        peer_device_key(key)
    } else if what == "path"@ {
        path_key(key)
    } else {
        false
    }
}

/// A word that says nothing about an object of kind `what`: it holds no
/// colon, or its key sets no field of such an object.
pub open spec fn ignored_word(what: Seq<char>, w: Seq<char>) -> bool {
    match split_kv(w) {
        None => true,
        Some((k, _)) => !recognised_key(what, k),
    }
}

/// A word that leaves every object of type `T` as it is.
pub open spec fn inert_for<T: ApplyKeyValue>(w: Seq<char>) -> bool {
    match split_kv(w) {
        None => true,
        Some((k, v)) => forall|m: T::V| #[trigger] T::spec_apply(m, k, v) == Ok::<T::V, ParseErrorModel>(m),
    }
}

/// Inserting a word that changes no object, anywhere among the words, leaves
/// what they describe as it was.
proof fn lemma_insert_inert_word<T: ApplyKeyValue>(ws: Seq<Seq<char>>, j: int, w: Seq<char>)
    requires
        0 <= j <= ws.len(),
        inert_for::<T>(w),
    ensures
        apply_words::<T>(ws.insert(j, w)) == apply_words::<T>(ws),
    decreases ws.len(),
{
    let u = ws.insert(j, w);
    if j == ws.len() {
        assert(u.drop_last() =~= ws);
        assert(u.last() == w);
        match apply_words::<T>(ws) {
            Ok(m) => {
                match split_kv(w) {
                    Some((k, v)) => {
                        assert(T::spec_apply(m, k, v) == Ok::<T::V, ParseErrorModel>(m));
                    },
                    None => {},
                }
            },
            Err(_) => {},
        }
    } else {
        assert(u.drop_last() =~= ws.drop_last().insert(j, w));
        assert(u.last() == ws.last());
        lemma_insert_inert_word::<T>(ws.drop_last(), j, w);
    }
}

proof fn lemma_resource_word_inert(w: Seq<char>)
    requires
        split_kv(w) matches Some((k, _)) ==> !resource_key(k),
    ensures
        inert_for::<Resource>(w),
{
    if let Some((k, v)) = split_kv(w) {
        assert forall|m: <Resource as View>::V| #[trigger] Resource::spec_apply(m, k, v) == Ok::<
            <Resource as View>::V,
            ParseErrorModel,
        >(m) by {}
    }
}

proof fn lemma_device_word_inert(w: Seq<char>)
    requires
        split_kv(w) matches Some((k, _)) ==> !device_key(k),
    ensures
        inert_for::<Device>(w),
{
    if let Some((k, v)) = split_kv(w) {
        assert forall|m: <Device as View>::V| #[trigger] Device::spec_apply(m, k, v) == Ok::<
            <Device as View>::V,
            ParseErrorModel,
        >(m) by {}
    }
}

proof fn lemma_connection_word_inert(w: Seq<char>)
    requires
        split_kv(w) matches Some((k, _)) ==> !connection_key(k),
    ensures
        inert_for::<Connection>(w),
{
    if let Some((k, v)) = split_kv(w) {
        assert forall|m: <Connection as View>::V| #[trigger] Connection::spec_apply(m, k, v) == Ok::<
            <Connection as View>::V,
            ParseErrorModel,
        >(m) by {}
    }
}

proof fn lemma_peer_device_word_inert(w: Seq<char>)
    requires
        split_kv(w) matches Some((k, _)) ==> !peer_device_key(k),
    ensures
        inert_for::<PeerDevice>(w),
{
    if let Some((k, v)) = split_kv(w) {
        assert forall|m: <PeerDevice as View>::V| #[trigger] PeerDevice::spec_apply(m, k, v) == Ok::<
            <PeerDevice as View>::V,
            ParseErrorModel,
        >(m) by {}
    }
}

proof fn lemma_path_word_inert(w: Seq<char>)
    requires
        split_kv(w) matches Some((k, _)) ==> !path_key(k),
    ensures
        inert_for::<Path>(w),
{
    if let Some((k, v)) = split_kv(w) {
        assert forall|m: <Path as View>::V| #[trigger] Path::spec_apply(m, k, v) == Ok::<
            <Path as View>::V,
            ParseErrorModel,
        >(m) by {}
    }
}

proof fn lemma_ignored_word_is_inert(what: Seq<char>, w: Seq<char>)
    requires
        ignored_word(what, w),
    ensures
        what == "resource"@ ==> inert_for::<Resource>(w),
        what == "device"@ ==> inert_for::<Device>(w),
        what == "connection"@ ==> inert_for::<Connection>(w),
        what == "peer-device"@ ==> inert_for::<PeerDevice>(w),
        what == "path"@ ==> inert_for::<Path>(w),
{
    reveal_strlit("resource");
    reveal_strlit("device");
    reveal_strlit("connection");
    reveal_strlit("peer-device");
    reveal_strlit("path");
    assert("resource"@.len() == 8);
    assert("device"@.len() == 6);
    assert("connection"@.len() == 10);
    assert("peer-device"@.len() == 11);
    assert("path"@.len() == 4);
    if what == "resource"@ {
        lemma_resource_word_inert(w);
    } else if what == "device"@ {
        lemma_device_word_inert(w);
    } else if what == "connection"@ {
        lemma_connection_word_inert(w);
    } else if what == "peer-device"@ {
        lemma_peer_device_word_inert(w);
    } else if what == "path"@ {
        lemma_path_word_inert(w);
    }
}

/// A word whose key the object does not know (or that holds no colon) may
/// stand anywhere after the first two words without changing what the line
/// reports: such words are passed over.
pub proof fn law_unknown_keys_ignored(ws: Seq<Seq<char>>, j: int, w: Seq<char>)
    requires
        2 <= j <= ws.len(),
        ignored_word(ws[1], w),
    ensures
        spec_parse_words(ws.insert(j, w)) == spec_parse_words(ws),
{
    let u = ws.insert(j, w);
    assert(u[0] == ws[0]);
    assert(u[1] == ws[1]);
    assert(u.skip(2) =~= ws.skip(2).insert(j - 2, w));
    lemma_ignored_word_is_inert(ws[1], w);
    let what = ws[1];
    if what == "resource"@ {
        lemma_insert_inert_word::<Resource>(ws.skip(2), j - 2, w);
    } else if what == "device"@ {
        lemma_insert_inert_word::<Device>(ws.skip(2), j - 2, w);
    } else if what == "connection"@ {
        lemma_insert_inert_word::<Connection>(ws.skip(2), j - 2, w);
    } else if what == "peer-device"@ {
        lemma_insert_inert_word::<PeerDevice>(ws.skip(2), j - 2, w);
    } else if what == "path"@ {
        lemma_insert_inert_word::<Path>(ws.skip(2), j - 2, w);
    }
}

/// The same, for whole lines: two lines whose words differ only by such a
/// word report the same.
pub proof fn law_unknown_keys_ignored_in_lines(a: Seq<char>, b: Seq<char>, j: int, w: Seq<char>)
    requires
        2 <= j <= words(a).len(),
        words(b) == words(a).insert(j, w),
        ignored_word(words(a)[1], w),
    ensures
        spec_parse_events2_line(b) == spec_parse_events2_line(a),
{
    law_unknown_keys_ignored(words(a), j, w);
}

/// A line whose first word is not an event type is refused, and the error
/// names that word.
pub proof fn law_unknown_event_type_refused(ws: Seq<Seq<char>>)
    requires
        ws.len() > 0,
        EventType::spec_from_keyword(ws[0]) is None,
    ensures
        spec_parse_words(ws) == Err::<crate::drbd::EventUpdateModel, ParseErrorModel>(
            ParseErrorModel::UnknownEventType(ws[0]),
        ),
{
}

/// A line with an event type whose second word names no known kind of
/// object is refused, and the error names that word.
pub proof fn law_unknown_object_refused(ws: Seq<Seq<char>>)
    requires
        ws.len() > 1,
        EventType::spec_from_keyword(ws[0]) is Some,
        ws[1] != "resource"@,
        ws[1] != "device"@,
        ws[1] != "connection"@,
        ws[1] != "peer-device"@,
        ws[1] != "path"@,
    ensures
        spec_parse_words(ws) == Err::<crate::drbd::EventUpdateModel, ParseErrorModel>(
            ParseErrorModel::UnknownObject(ws[1]),
        ),
{
}

/// A word reads as a EventType exactly when it is the name of that value, so
/// distinct names give distinct values and every value is read from its own name.
pub proof fn law_event_type_keywords(s: Seq<char>, x: EventType)
    ensures
        EventType::spec_from_keyword(s) == Some(x) <==> x.keyword() == s,
{
    reveal_strlit("exists");
    reveal_strlit("create");
    reveal_strlit("destroy");
    reveal_strlit("change");
    assert("exists"@.len() == 6);
    assert("create"@.len() == 6);
    assert("destroy"@.len() == 7);
    assert("change"@.len() == 6);
    assert("exists"@[0] != "create"@[0]);
    assert("exists"@[0] != "change"@[0]);
    assert("create"@[1] != "change"@[1]);
}

/// A word reads as a Role exactly when it is the name of that value, so
/// distinct names give distinct values and every value is read from its own name.
pub proof fn law_role_keywords(s: Seq<char>, x: Role)
    ensures
        Role::spec_from_keyword(s) == Some(x) <==> x.keyword() == s,
{
    reveal_strlit("Unknown");
    reveal_strlit("Primary");
    reveal_strlit("Secondary");
    assert("Unknown"@.len() == 7);
    assert("Primary"@.len() == 7);
    assert("Secondary"@.len() == 9);
    assert("Unknown"@[0] != "Primary"@[0]);
}

/// A word reads as a DiskState exactly when it is the name of that value, so
/// distinct names give distinct values and every value is read from its own name.
pub proof fn law_disk_state_keywords(s: Seq<char>, x: DiskState)
    ensures
        DiskState::spec_from_keyword(s) == Some(x) <==> x.keyword() == s,
{
    reveal_strlit("Diskless");
    reveal_strlit("Attaching");
    reveal_strlit("Detaching");
    reveal_strlit("Failed");
    reveal_strlit("Negotiating");
    reveal_strlit("Inconsistent");
    reveal_strlit("Outdated");
    reveal_strlit("DUnknown");
    reveal_strlit("Consistent");
    reveal_strlit("UpToDate");
    assert("Diskless"@.len() == 8);
    assert("Attaching"@.len() == 9);
    assert("Detaching"@.len() == 9);
    assert("Failed"@.len() == 6);
    assert("Negotiating"@.len() == 11);
    assert("Inconsistent"@.len() == 12);
    assert("Outdated"@.len() == 8);
    assert("DUnknown"@.len() == 8);
    assert("Consistent"@.len() == 10);
    assert("UpToDate"@.len() == 8);
    assert("Diskless"@[0] != "Outdated"@[0]);
    assert("Diskless"@[1] != "DUnknown"@[1]);
    assert("Diskless"@[0] != "UpToDate"@[0]);
    assert("Attaching"@[0] != "Detaching"@[0]);
    assert("Outdated"@[0] != "DUnknown"@[0]);
    assert("Outdated"@[0] != "UpToDate"@[0]);
    assert("DUnknown"@[0] != "UpToDate"@[0]);
}

/// A word reads as a ConnectionState exactly when it is the name of that value, so
/// distinct names give distinct values and every value is read from its own name.
pub proof fn law_connection_state_keywords(s: Seq<char>, x: ConnectionState)
    ensures
        ConnectionState::spec_from_keyword(s) == Some(x) <==> x.keyword() == s,
{
    reveal_strlit("StandAlone");
    reveal_strlit("Disconnecting");
    reveal_strlit("Unconnected");
    reveal_strlit("Timeout");
    reveal_strlit("BrokenPipe");
    reveal_strlit("NetworkFailure");
    reveal_strlit("ProtocolError");
    reveal_strlit("TearDown");
    reveal_strlit("Connecting");
    reveal_strlit("Connected");
    assert("StandAlone"@.len() == 10);
    assert("Disconnecting"@.len() == 13);
    assert("Unconnected"@.len() == 11);
    assert("Timeout"@.len() == 7);
    assert("BrokenPipe"@.len() == 10);
    assert("NetworkFailure"@.len() == 14);
    assert("ProtocolError"@.len() == 13);
    assert("TearDown"@.len() == 8);
    assert("Connecting"@.len() == 10);
    assert("Connected"@.len() == 9);
    assert("StandAlone"@[0] != "BrokenPipe"@[0]);
    assert("StandAlone"@[0] != "Connecting"@[0]);
    assert("Disconnecting"@[0] != "ProtocolError"@[0]);
    assert("BrokenPipe"@[0] != "Connecting"@[0]);
}

/// A word reads as a ReplicationState exactly when it is the name of that value, so
/// distinct names give distinct values and every value is read from its own name.
pub proof fn law_replication_state_keywords(s: Seq<char>, x: ReplicationState)
    ensures
        ReplicationState::spec_from_keyword(s) == Some(x) <==> x.keyword() == s,
{
    reveal_strlit("Off");
    reveal_strlit("Established");
    reveal_strlit("StartingSyncS");
    reveal_strlit("StartingSyncT");
    reveal_strlit("WFBitMapS");
    reveal_strlit("WFBitMapT");
    reveal_strlit("WFSyncUUID");
    reveal_strlit("SyncSource");
    reveal_strlit("SyncTarget");
    reveal_strlit("VerifyS");
    reveal_strlit("VerifyT");
    reveal_strlit("PausedSyncS");
    reveal_strlit("PausedSyncT");
    reveal_strlit("Ahead");
    reveal_strlit("Behind");
    assert("Off"@.len() == 3);
    assert("Established"@.len() == 11);
    assert("StartingSyncS"@.len() == 13);
    assert("StartingSyncT"@.len() == 13);
    assert("WFBitMapS"@.len() == 9);
    assert("WFBitMapT"@.len() == 9);
    assert("WFSyncUUID"@.len() == 10);
    assert("SyncSource"@.len() == 10);
    assert("SyncTarget"@.len() == 10);
    assert("VerifyS"@.len() == 7);
    assert("VerifyT"@.len() == 7);
    assert("PausedSyncS"@.len() == 11);
    assert("PausedSyncT"@.len() == 11);
    assert("Ahead"@.len() == 5);
    assert("Behind"@.len() == 6);
    assert("Established"@[0] != "PausedSyncS"@[0]);
    assert("Established"@[0] != "PausedSyncT"@[0]);
    assert("StartingSyncS"@[12] != "StartingSyncT"@[12]);
    assert("WFBitMapS"@[8] != "WFBitMapT"@[8]);
    assert("WFSyncUUID"@[0] != "SyncSource"@[0]);
    assert("WFSyncUUID"@[0] != "SyncTarget"@[0]);
    assert("SyncSource"@[4] != "SyncTarget"@[4]);
    assert("VerifyS"@[6] != "VerifyT"@[6]);
    assert("PausedSyncS"@[10] != "PausedSyncT"@[10]);
}

/// The word that names the kind of object an update reports.
pub open spec fn update_kind(u: EventUpdateModel) -> Seq<char> {
    match u {
        EventUpdateModel::Resource(..) => "resource"@,
        EventUpdateModel::Device(..) => "device"@,
        EventUpdateModel::Connection(..) => "connection"@,
        EventUpdateModel::PeerDevice(..) => "peer-device"@,
        EventUpdateModel::Path(..) => "path"@,
        EventUpdateModel::Flush => Seq::empty(),
    }
}

/// The event type an update reports, if it reports one.
pub open spec fn update_event_type(u: EventUpdateModel) -> Option<EventType> {
    match u {
        EventUpdateModel::Resource(et, _) => Some(et),
        EventUpdateModel::Device(et, _) => Some(et),
        EventUpdateModel::Connection(et, _) => Some(et),
        EventUpdateModel::PeerDevice(et, _) => Some(et),
        EventUpdateModel::Path(et, _) => Some(et),
        EventUpdateModel::Flush => None,
    }
}

/// A line that is read reports the event type that its first word names and
/// the kind of object that its second word names.
pub proof fn law_update_follows_first_two_words(ws: Seq<Seq<char>>)
    ensures
        spec_parse_words(ws) matches Ok(u) ==> {
            &&& ws.len() >= 2
            &&& update_kind(u) == ws[1]
            &&& update_event_type(u) matches Some(et) && et.keyword() == ws[0]
        },
{
    reveal_strlit("resource");
    reveal_strlit("device");
    reveal_strlit("connection");
    reveal_strlit("peer-device");
    reveal_strlit("path");
    assert("resource"@.len() == 8);
    assert("device"@.len() == 6);
    assert("connection"@.len() == 10);
    assert("peer-device"@.len() == 11);
    assert("path"@.len() == 4);
    if ws.len() > 0 {
        if let Some(et) = EventType::spec_from_keyword(ws[0]) {
            law_event_type_keywords(ws[0], et);
        }
    }
}

} // verus!
