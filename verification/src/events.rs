//! Reading one line of `drbdsetup events2` output into an [`EventUpdate`].

use vstd::prelude::*;
use crate::drbd::{
    BackingDevice, Connection, ConnectionModel, ConnectionState, Device, DeviceModel, DiskState,
    EventType, EventUpdate, EventUpdateModel, Path, PathModel, PeerDevice, PeerDeviceModel,
    ReplicationState, Resource, ResourceModel, Role,
};
use crate::number::{parse_i32, parse_u64, spec_parse_i32, spec_parse_u64};
use crate::text::{
    first_colon_at, law_trim_keeps_words, split_kv, split_words, str_eq, trim, trim_str, views_of,
    words,
};

verus! {

/// Why a line could not be read.
#[derive(Debug, Clone, PartialEq)]
pub enum ParseError {
    /// The first word is not one of `exists`, `create`, `destroy`, `change`.
    UnknownEventType(String),
    /// The second word names no kind of object that this reader knows.
    UnknownObject(String),
    /// The value given for a key is not one that the key takes.
    InvalidValue { key: String, value: String },
}

/// The contents of a [`ParseError`].
pub enum ParseErrorModel {
    UnknownEventType(Seq<char>),
    UnknownObject(Seq<char>),
    InvalidValue(Seq<char>, Seq<char>),
}

impl View for ParseError {
    type V = ParseErrorModel;

    open spec fn view(&self) -> ParseErrorModel {
        match self {
            ParseError::UnknownEventType(verb) => ParseErrorModel::UnknownEventType(verb@),
            ParseError::UnknownObject(what) => ParseErrorModel::UnknownObject(what@),
            ParseError::InvalidValue { key, value } => ParseErrorModel::InvalidValue(
                key@,
                value@,
            ),
        }
    }
}

impl ParseError {
    /// The error for a value that `key` does not take.
    pub fn invalid_value(key: &str, value: &str) -> (e: ParseError)
        ensures
            e@ == ParseErrorModel::InvalidValue(key@, value@),
    {
        ParseError::InvalidValue { key: String::from_str(key), value: String::from_str(value) }
    }
}

/// How an events2 flag reads: everything but `no` and `false` is true, so
/// that values such as `suspended:user` count as set.
pub open spec fn spec_str_to_bool(s: Seq<char>) -> bool {
    !(s == "no"@ || s == "false"@)
}

/// Reads an events2 flag.
pub fn str_to_bool(s: &str) -> (b: bool)
    ensures
        b == spec_str_to_bool(s@),
{
    !(str_eq(s, "no") || str_eq(s, "false"))
}

/// Splits a `key:value` word at its first colon.
pub fn parse_kv(item: &str) -> (r: Option<(&str, &str)>)
    ensures
        match r {
            Some((k, v)) => split_kv(item@) == Some((k@, v@)),
            None => split_kv(item@) is None,
        },
{
    let n = item.unicode_len();
    let mut i: usize = 0;
    while i < n
        invariant
            n == item@.len(),
            i <= n,
            forall|j: int| 0 <= j < i ==> item@[j] != ':',
        decreases n - i,
    {
        if item.get_char(i) == ':' {
            let ghost w = item@;
            assert(first_colon_at(w, i as int));
            assert(w.contains(':'));
            let ghost p = choose|p: int| first_colon_at(w, p);
            assert(p == i) by {
                if p < i {
                    assert(w[p] != ':');
                } else if p > i {
                    assert(w[i as int] != ':');
                }
            }
            return Some((item.substring_char(0, i), item.substring_char(i + 1, n)));
        }
        i += 1;
    }
    None
}


/// An object that a line describes by `key:value` words.
pub trait ApplyKeyValue: View + Sized {
    /// The model of an object of which nothing has been said yet.
    spec fn spec_initial() -> Self::V;

    /// The model after `key:value` has been read into `m`, or the error that it raises.
    spec fn spec_apply(m: Self::V, key: Seq<char>, value: Seq<char>) -> Result<Self::V, ParseErrorModel>;

    /// An object of which nothing has been said yet.
    fn initial() -> (r: Self)
        ensures
            r@ == Self::spec_initial(),
    ;

    /// Reads `key:value` into this object.
    fn apply_kv(&mut self, key: &str, value: &str) -> (r: Result<(), ParseError>)
        ensures
            match Self::spec_apply(old(self)@, key@, value@) {
                Ok(m) => r is Ok && final(self)@ == m,
                Err(e) => r matches Err(x) && x@ == e && final(self)@ == old(self)@,
            },
    ;
}

impl ApplyKeyValue for Resource {
    open spec fn spec_initial() -> ResourceModel {
        ResourceModel::initial()
    }

    open spec fn spec_apply(m: ResourceModel, key: Seq<char>, value: Seq<char>) -> Result<ResourceModel, ParseErrorModel> {
        if key == "name"@ {
            Ok(ResourceModel { name: value, ..m })
        } else if key == "role"@ {
            match Role::spec_from_keyword(value) {
                Some(role) => Ok(ResourceModel { role, ..m }),
                None => Err(ParseErrorModel::InvalidValue(key, value)),
            }
        } else if key == "suspended"@ {
            Ok(ResourceModel { suspended: spec_str_to_bool(value), ..m })
        } else if key == "write-ordering"@ {
            Ok(ResourceModel { write_ordering: value, ..m })
        } else if key == "force-io-failures"@ {
            Ok(ResourceModel { force_io_failures: spec_str_to_bool(value), ..m })
        } else if key == "may_promote"@ {
            Ok(ResourceModel { may_promote: spec_str_to_bool(value), ..m })
        } else if key == "promotion_score"@ {
            match spec_parse_i32(value) {
                Some(score) => Ok(ResourceModel { promotion_score: score, ..m }),
                None => Err(ParseErrorModel::InvalidValue(key, value)),
            }
        } else {
            Ok(m)
        }
    }

    fn initial() -> (r: Resource) {
        Resource::default()
    }

    fn apply_kv(&mut self, key: &str, value: &str) -> (r: Result<(), ParseError>) {
        if str_eq(key, "name") {
            self.name = String::from_str(value);
        } else if str_eq(key, "role") {
            match Role::from_keyword(value) {
                Some(role) => self.role = role,
                None => return Err(ParseError::invalid_value(key, value)),
            }
        } else if str_eq(key, "suspended") {
            self.suspended = str_to_bool(value);
        } else if str_eq(key, "write-ordering") {
            self.write_ordering = String::from_str(value);
        } else if str_eq(key, "force-io-failures") {
            self.force_io_failures = str_to_bool(value);
        } else if str_eq(key, "may_promote") {
            self.may_promote = str_to_bool(value);
        } else if str_eq(key, "promotion_score") {
            match parse_i32(value) {
                Some(score) => self.promotion_score = score,
                None => return Err(ParseError::invalid_value(key, value)),
            }
        }
        Ok(())
    }
}

impl ApplyKeyValue for Device {
    open spec fn spec_initial() -> DeviceModel {
        DeviceModel::initial()
    }

    open spec fn spec_apply(m: DeviceModel, key: Seq<char>, value: Seq<char>) -> Result<DeviceModel, ParseErrorModel> {
        if key == "name"@ {
            Ok(DeviceModel { name: value, ..m })
        } else if key == "volume"@ {
            match spec_parse_i32(value) {
                Some(x) => Ok(DeviceModel { volume: x, ..m }),
                None => Err(ParseErrorModel::InvalidValue(key, value)),
            }
        } else if key == "minor"@ {
            match spec_parse_i32(value) {
                Some(x) => Ok(DeviceModel { minor: x, ..m }),
                None => Err(ParseErrorModel::InvalidValue(key, value)),
            }
        } else if key == "disk"@ {
            match DiskState::spec_from_keyword(value) {
                Some(x) => Ok(DeviceModel { disk_state: x, ..m }),
                None => Err(ParseErrorModel::InvalidValue(key, value)),
            }
        } else if key == "client"@ {
            Ok(DeviceModel { client: spec_str_to_bool(value), ..m })
        } else if key == "backing_dev"@ {
            Ok(DeviceModel { backing_dev: BackingDevice::spec_from_value(value), ..m })
        } else if key == "quorum"@ {
            Ok(DeviceModel { quorum: spec_str_to_bool(value), ..m })
        } else if key == "size"@ {
            match spec_parse_u64(value) {
                Some(x) => Ok(DeviceModel { size: x, ..m }),
                None => Err(ParseErrorModel::InvalidValue(key, value)),
            }
        } else if key == "read"@ {
            match spec_parse_u64(value) {
                Some(x) => Ok(DeviceModel { read: x, ..m }),
                None => Err(ParseErrorModel::InvalidValue(key, value)),
            }
        } else if key == "written"@ {
            match spec_parse_u64(value) {
                Some(x) => Ok(DeviceModel { written: x, ..m }),
                None => Err(ParseErrorModel::InvalidValue(key, value)),
            }
        } else if key == "al-writes"@ {
            match spec_parse_u64(value) {
                Some(x) => Ok(DeviceModel { al_writes: x, ..m }),
                None => Err(ParseErrorModel::InvalidValue(key, value)),
            }
        } else if key == "bm-writes"@ {
            match spec_parse_u64(value) {
                Some(x) => Ok(DeviceModel { bm_writes: x, ..m }),
                None => Err(ParseErrorModel::InvalidValue(key, value)),
            }
        } else if key == "upper-pending"@ {
            match spec_parse_u64(value) {
                Some(x) => Ok(DeviceModel { upper_pending: x, ..m }),
                None => Err(ParseErrorModel::InvalidValue(key, value)),
            }
        } else if key == "lower-pending"@ {
            match spec_parse_u64(value) {
                Some(x) => Ok(DeviceModel { lower_pending: x, ..m }),
                None => Err(ParseErrorModel::InvalidValue(key, value)),
            }
        } else if key == "al-suspended"@ {
            Ok(DeviceModel { al_suspended: spec_str_to_bool(value), ..m })
        } else if key == "blocked"@ {
            Ok(DeviceModel { blocked: value, ..m })
        } else {
            Ok(m)
        }
    }

    fn initial() -> (r: Device) {
        Device::default()
    }

    fn apply_kv(&mut self, key: &str, value: &str) -> (r: Result<(), ParseError>) {
        if str_eq(key, "name") {
            self.name = String::from_str(value);
        } else if str_eq(key, "volume") {
            match parse_i32(value) {
                Some(x) => self.volume = x,
                None => return Err(ParseError::invalid_value(key, value)),
            }
        } else if str_eq(key, "minor") {
            match parse_i32(value) {
                Some(x) => self.minor = x,
                None => return Err(ParseError::invalid_value(key, value)),
            }
        } else if str_eq(key, "disk") {
            match DiskState::from_keyword(value) {
                Some(x) => self.disk_state = x,
                None => return Err(ParseError::invalid_value(key, value)),
            }
        } else if str_eq(key, "client") {
            self.client = str_to_bool(value);
        } else if str_eq(key, "backing_dev") {
            self.backing_dev = BackingDevice::from_value(value);
        } else if str_eq(key, "quorum") {
            self.quorum = str_to_bool(value);
        } else if str_eq(key, "size") {
            match parse_u64(value) {
                Some(x) => self.size = x,
                None => return Err(ParseError::invalid_value(key, value)),
            }
        } else if str_eq(key, "read") {
            match parse_u64(value) {
                Some(x) => self.read = x,
                None => return Err(ParseError::invalid_value(key, value)),
            }
        } else if str_eq(key, "written") {
            match parse_u64(value) {
                Some(x) => self.written = x,
                None => return Err(ParseError::invalid_value(key, value)),
            }
        } else if str_eq(key, "al-writes") {
            match parse_u64(value) {
                Some(x) => self.al_writes = x,
                None => return Err(ParseError::invalid_value(key, value)),
            }
        } else if str_eq(key, "bm-writes") {
            match parse_u64(value) {
                Some(x) => self.bm_writes = x,
                None => return Err(ParseError::invalid_value(key, value)),
            }
        } else if str_eq(key, "upper-pending") {
            match parse_u64(value) {
                Some(x) => self.upper_pending = x,
                None => return Err(ParseError::invalid_value(key, value)),
            }
        } else if str_eq(key, "lower-pending") {
            match parse_u64(value) {
                Some(x) => self.lower_pending = x,
                None => return Err(ParseError::invalid_value(key, value)),
            }
        } else if str_eq(key, "al-suspended") {
            self.al_suspended = str_to_bool(value);
        } else if str_eq(key, "blocked") {
            self.blocked = String::from_str(value);
        }
        Ok(())
    }
}

impl ApplyKeyValue for Connection {
    open spec fn spec_initial() -> ConnectionModel {
        ConnectionModel::initial()
    }

    open spec fn spec_apply(m: ConnectionModel, key: Seq<char>, value: Seq<char>) -> Result<ConnectionModel, ParseErrorModel> {
        if key == "name"@ {
            Ok(ConnectionModel { name: value, ..m })
        } else if key == "peer-node-id"@ {
            match spec_parse_i32(value) {
                Some(x) => Ok(ConnectionModel { peer_node_id: x, ..m }),
                None => Err(ParseErrorModel::InvalidValue(key, value)),
            }
        } else if key == "conn-name"@ {
            Ok(ConnectionModel { conn_name: value, ..m })
        } else if key == "connection"@ {
            match ConnectionState::spec_from_keyword(value) {
                Some(x) => Ok(ConnectionModel { connection: x, ..m }),
                None => Err(ParseErrorModel::InvalidValue(key, value)),
            }
        } else if key == "role"@ {
            match Role::spec_from_keyword(value) {
                Some(x) => Ok(ConnectionModel { peer_role: x, ..m }),
                None => Err(ParseErrorModel::InvalidValue(key, value)),
            }
        } else if key == "congested"@ {
            Ok(ConnectionModel { congested: spec_str_to_bool(value), ..m })
        } else if key == "ap-in-flight"@ {
            match spec_parse_u64(value) {
                Some(x) => Ok(ConnectionModel { ap_in_flight: x, ..m }),
                None => Err(ParseErrorModel::InvalidValue(key, value)),
            }
        } else if key == "rs-in-flight"@ {
            match spec_parse_u64(value) {
                Some(x) => Ok(ConnectionModel { rs_in_flight: x, ..m }),
                None => Err(ParseErrorModel::InvalidValue(key, value)),
            }
        } else {
            Ok(m)
        }
    }

    fn initial() -> (r: Connection) {
        Connection::default()
    }

    fn apply_kv(&mut self, key: &str, value: &str) -> (r: Result<(), ParseError>) {
        if str_eq(key, "name") {
            self.name = String::from_str(value);
        } else if str_eq(key, "peer-node-id") {
            match parse_i32(value) {
                Some(x) => self.peer_node_id = x,
                None => return Err(ParseError::invalid_value(key, value)),
            }
        } else if str_eq(key, "conn-name") {
            self.conn_name = String::from_str(value);
        } else if str_eq(key, "connection") {
            match ConnectionState::from_keyword(value) {
                Some(x) => self.connection = x,
                None => return Err(ParseError::invalid_value(key, value)),
            }
        } else if str_eq(key, "role") {
            match Role::from_keyword(value) {
                Some(x) => self.peer_role = x,
                None => return Err(ParseError::invalid_value(key, value)),
            }
        } else if str_eq(key, "congested") {
            self.congested = str_to_bool(value);
        } else if str_eq(key, "ap-in-flight") {
            match parse_u64(value) {
                Some(x) => self.ap_in_flight = x,
                None => return Err(ParseError::invalid_value(key, value)),
            }
        } else if str_eq(key, "rs-in-flight") {
            match parse_u64(value) {
                Some(x) => self.rs_in_flight = x,
                None => return Err(ParseError::invalid_value(key, value)),
            }
        }
        Ok(())
    }
}

impl ApplyKeyValue for PeerDevice {
    open spec fn spec_initial() -> PeerDeviceModel {
        PeerDeviceModel::initial()
    }

    open spec fn spec_apply(m: PeerDeviceModel, key: Seq<char>, value: Seq<char>) -> Result<PeerDeviceModel, ParseErrorModel> {
        if key == "name"@ {
            Ok(PeerDeviceModel { name: value, ..m })
        } else if key == "conn-name"@ {
            Ok(PeerDeviceModel { conn_name: value, ..m })
        } else if key == "volume"@ {
            match spec_parse_i32(value) {
                Some(x) => Ok(PeerDeviceModel { volume: x, ..m }),
                None => Err(ParseErrorModel::InvalidValue(key, value)),
            }
        } else if key == "peer-node-id"@ {
            match spec_parse_i32(value) {
                Some(x) => Ok(PeerDeviceModel { peer_node_id: x, ..m }),
                None => Err(ParseErrorModel::InvalidValue(key, value)),
            }
        } else if key == "replication"@ {
            match ReplicationState::spec_from_keyword(value) {
                Some(x) => Ok(PeerDeviceModel { replication_state: x, ..m }),
                None => Err(ParseErrorModel::InvalidValue(key, value)),
            }
        } else if key == "peer-disk"@ {
            match DiskState::spec_from_keyword(value) {
                Some(x) => Ok(PeerDeviceModel { peer_disk_state: x, ..m }),
                None => Err(ParseErrorModel::InvalidValue(key, value)),
            }
        } else if key == "peer-client"@ {
            Ok(PeerDeviceModel { peer_client: spec_str_to_bool(value), ..m })
        } else if key == "resync-suspended"@ {
            Ok(PeerDeviceModel { resync_suspended: spec_str_to_bool(value), ..m })
        } else if key == "received"@ {
            match spec_parse_u64(value) {
                Some(x) => Ok(PeerDeviceModel { received: x, ..m }),
                None => Err(ParseErrorModel::InvalidValue(key, value)),
            }
        } else if key == "sent"@ {
            match spec_parse_u64(value) {
                Some(x) => Ok(PeerDeviceModel { sent: x, ..m }),
                None => Err(ParseErrorModel::InvalidValue(key, value)),
            }
        } else if key == "out-of-sync"@ {
            match spec_parse_u64(value) {
                Some(x) => Ok(PeerDeviceModel { out_of_sync: x, ..m }),
                None => Err(ParseErrorModel::InvalidValue(key, value)),
            }
        } else if key == "pending"@ {
            match spec_parse_u64(value) {
                Some(x) => Ok(PeerDeviceModel { pending: x, ..m }),
                None => Err(ParseErrorModel::InvalidValue(key, value)),
            }
        } else if key == "unacked"@ {
            match spec_parse_u64(value) {
                Some(x) => Ok(PeerDeviceModel { unacked: x, ..m }),
                None => Err(ParseErrorModel::InvalidValue(key, value)),
            }
        } else if key == "done"@ {
            Ok(m)
        } else if key == "eta"@ {
            Ok(m)
        } else if key == "dbdt1"@ {
            Ok(m)
        } else {
            Ok(m)
        }
    }

    fn initial() -> (r: PeerDevice) {
        PeerDevice::default()
    }

    fn apply_kv(&mut self, key: &str, value: &str) -> (r: Result<(), ParseError>) {
        if str_eq(key, "name") {
            self.name = String::from_str(value);
        } else if str_eq(key, "conn-name") {
            self.conn_name = String::from_str(value);
        } else if str_eq(key, "volume") {
            match parse_i32(value) {
                Some(x) => self.volume = x,
                None => return Err(ParseError::invalid_value(key, value)),
            }
        } else if str_eq(key, "peer-node-id") {
            match parse_i32(value) {
                Some(x) => self.peer_node_id = x,
                None => return Err(ParseError::invalid_value(key, value)),
            }
        } else if str_eq(key, "replication") {
            match ReplicationState::from_keyword(value) {
                Some(x) => self.replication_state = x,
                None => return Err(ParseError::invalid_value(key, value)),
            }
        } else if str_eq(key, "peer-disk") {
            match DiskState::from_keyword(value) {
                Some(x) => self.peer_disk_state = x,
                None => return Err(ParseError::invalid_value(key, value)),
            }
        } else if str_eq(key, "peer-client") {
            self.peer_client = str_to_bool(value);
        } else if str_eq(key, "resync-suspended") {
            self.resync_suspended = str_to_bool(value);
        } else if str_eq(key, "received") {
            match parse_u64(value) {
                Some(x) => self.received = x,
                None => return Err(ParseError::invalid_value(key, value)),
            }
        } else if str_eq(key, "sent") {
            match parse_u64(value) {
                Some(x) => self.sent = x,
                None => return Err(ParseError::invalid_value(key, value)),
            }
        } else if str_eq(key, "out-of-sync") {
            match parse_u64(value) {
                Some(x) => self.out_of_sync = x,
                None => return Err(ParseError::invalid_value(key, value)),
            }
        } else if str_eq(key, "pending") {
            match parse_u64(value) {
                Some(x) => self.pending = x,
                None => return Err(ParseError::invalid_value(key, value)),
            }
        } else if str_eq(key, "unacked") {
            match parse_u64(value) {
                Some(x) => self.unacked = x,
                None => return Err(ParseError::invalid_value(key, value)),
            }
        }
        Ok(())
    }
}

impl ApplyKeyValue for Path {
    open spec fn spec_initial() -> PathModel {
        PathModel::initial()
    }

    open spec fn spec_apply(m: PathModel, key: Seq<char>, value: Seq<char>) -> Result<PathModel, ParseErrorModel> {
        if key == "name"@ {
            Ok(PathModel { name: value, ..m })
        } else if key == "peer-node-id"@ {
            match spec_parse_i32(value) {
                Some(x) => Ok(PathModel { peer_node_id: x, ..m }),
                None => Err(ParseErrorModel::InvalidValue(key, value)),
            }
        } else if key == "conn-name"@ {
            Ok(PathModel { conn_name: value, ..m })
        } else if key == "local"@ {
            Ok(PathModel { local: value, ..m })
        } else if key == "peer"@ {
            Ok(PathModel { peer: value, ..m })
        } else if key == "established"@ {
            Ok(PathModel { established: spec_str_to_bool(value), ..m })
        } else {
            Ok(m)
        }
    }

    fn initial() -> (r: Path) {
        Path::default()
    }

    fn apply_kv(&mut self, key: &str, value: &str) -> (r: Result<(), ParseError>) {
        if str_eq(key, "name") {
            self.name = String::from_str(value);
        } else if str_eq(key, "peer-node-id") {
            match parse_i32(value) {
                Some(x) => self.peer_node_id = x,
                None => return Err(ParseError::invalid_value(key, value)),
            }
        } else if str_eq(key, "conn-name") {
            self.conn_name = String::from_str(value);
        } else if str_eq(key, "local") {
            self.local = String::from_str(value);
        } else if str_eq(key, "peer") {
            self.peer = String::from_str(value);
        } else if str_eq(key, "established") {
            self.established = str_to_bool(value);
        }
        Ok(())
    }
}

/// The object that the words `ws` describe, read one `key:value` word after
/// the other; a word without a colon says nothing, and the first value that
/// its key does not take is the error.
pub open spec fn apply_words<T: ApplyKeyValue>(ws: Seq<Seq<char>>) -> Result<T::V, ParseErrorModel>
    decreases ws.len(),
{
    if ws.len() == 0 {
        Ok(T::spec_initial())
    } else {
        match apply_words::<T>(ws.drop_last()) {
            Ok(m) => match split_kv(ws.last()) {
                Some((k, v)) => T::spec_apply(m, k, v),
                None => Ok(m),
            },
            Err(e) => Err(e),
        }
    }
}

/// Once a prefix of the words has raised an error, the whole does too.
proof fn lemma_apply_words_error_prefix<T: ApplyKeyValue>(ws: Seq<Seq<char>>, i: int)
    requires
        0 <= i <= ws.len(),
        apply_words::<T>(ws.take(i)) is Err,
    ensures
        apply_words::<T>(ws) == apply_words::<T>(ws.take(i)),
    decreases ws.len(),
{
    if i == ws.len() {
        assert(ws.take(i) =~= ws);
    } else {
        assert(ws.drop_last().take(i) =~= ws.take(i));
        lemma_apply_words_error_prefix::<T>(ws.drop_last(), i);
    }
}

/// Reads the object that `words[2..]` describe.
fn object_from_words<T: ApplyKeyValue>(words: &Vec<&str>) -> (r: Result<T, ParseError>)
    requires
        words@.len() >= 2,
    ensures
        match apply_words::<T>(views_of(words@).skip(2)) {
            Ok(m) => r matches Ok(x) && x@ == m,
            Err(e) => r matches Err(x) && x@ == e,
        },
{
    let ghost rest = views_of(words@).skip(2);
    let n = words.len();
    let mut obj = T::initial();
    let mut i: usize = 2;
    assert(rest.take(0) =~= Seq::<Seq<char>>::empty());
    while i < n
        invariant
            n == words@.len(),
            2 <= i <= n,
            rest == views_of(words@).skip(2),
            apply_words::<T>(rest.take(i - 2)) == Ok::<T::V, ParseErrorModel>(obj@),
        decreases n - i,
    {
        let ghost pre = rest.take(i - 2);
        let ghost next = rest.take(i - 1);
        assert(next.drop_last() =~= pre);
        assert(next.last() == words@[i as int]@);
        match parse_kv(words[i]) {
            Some((k, v)) => {
                match obj.apply_kv(k, v) {
                    Ok(()) => {},
                    Err(e) => {
                        proof {
                            lemma_apply_words_error_prefix::<T>(rest, i - 1);
                        }
                        return Err(e);
                    },
                }
            },
            None => {},
        }
        i += 1;
    }
    assert(rest.take(n - 2) =~= rest);
    Ok(obj)
}

/// The words that follow the first two, if there are two.
pub open spec fn key_value_words(ws: Seq<Seq<char>>) -> Seq<Seq<char>> {
    if ws.len() >= 2 {
        ws.skip(2)
    } else {
        seq![]
    }
}

/// What a line whose words are `ws` reports: the first word is the event
/// type, the second the kind of object, and the rest describe the object.
pub open spec fn spec_parse_words(ws: Seq<Seq<char>>) -> Result<EventUpdateModel, ParseErrorModel> {
    let verb = if ws.len() > 0 {
        ws[0]
    } else {
        seq![]
    };
    let what = if ws.len() > 1 {
        ws[1]
    } else {
        seq![]
    };
    let kvs = key_value_words(ws);
    match EventType::spec_from_keyword(verb) {
        None => Err(ParseErrorModel::UnknownEventType(verb)),
        Some(et) => if what == "resource"@ {
            match apply_words::<Resource>(kvs) {
                Ok(m) => Ok(EventUpdateModel::Resource(et, m)),
                Err(e) => Err(e),
            }
        } else if what == "device"@ {
            match apply_words::<Device>(kvs) {
                Ok(m) => Ok(EventUpdateModel::Device(et, m)),
                Err(e) => Err(e),
            }
        } else if what == "connection"@ {
            match apply_words::<Connection>(kvs) {
                Ok(m) => Ok(EventUpdateModel::Connection(et, m)),
                Err(e) => Err(e),
            }
        } else if what == "peer-device"@ {
            match apply_words::<PeerDevice>(kvs) {
                Ok(m) => Ok(EventUpdateModel::PeerDevice(et, m)),
                Err(e) => Err(e),
            }
        } else if what == "path"@ {
            match apply_words::<Path>(kvs) {
                Ok(m) => Ok(EventUpdateModel::Path(et, m)),
                Err(e) => Err(e),
            }
        } else {
            Err(ParseErrorModel::UnknownObject(what))
        },
    }
}

/// What a line of `drbdsetup events2` output reports.
pub open spec fn spec_parse_events2_line(line: Seq<char>) -> Result<EventUpdateModel, ParseErrorModel> {
    spec_parse_words(words(line))
}

/// Reads one line of `drbdsetup events2` output.
pub fn parse_events2_line(line: &str) -> (r: Result<EventUpdate, ParseError>)
    ensures
        match spec_parse_events2_line(line@) {
            Ok(u) => r matches Ok(x) && x@ == u,
            Err(e) => r matches Err(x) && x@ == e,
        },
{
    let words = split_words(line);
    let ghost ws = views_of(words@);
    proof {
        reveal_strlit("");
    }
    let verb: &str = if words.len() > 0 {
        words[0]
    } else {
        ""
    };
    assert(verb@ == (if ws.len() > 0 {
        ws[0]
    } else {
        seq![]
    }));
    let et = match EventType::from_keyword(verb) {
        Some(et) => et,
        None => return Err(ParseError::UnknownEventType(String::from_str(verb))),
    };
    let what: &str = if words.len() > 1 {
        words[1]
    } else {
        ""
    };
    assert(what@ == (if ws.len() > 1 {
        ws[1]
    } else {
        seq![]
    }));
    proof {
        reveal_strlit("resource");
        reveal_strlit("device");
        reveal_strlit("connection");
        reveal_strlit("peer-device");
        reveal_strlit("path");
    }
    if str_eq(what, "resource") {
        match object_from_words::<Resource>(&words) {
            Ok(r) => Ok(EventUpdate::Resource(et, r)),
            Err(e) => Err(e),
        }
    } else if str_eq(what, "device") {
        match object_from_words::<Device>(&words) {
            Ok(d) => Ok(EventUpdate::Device(et, d)),
            Err(e) => Err(e),
        }
    } else if str_eq(what, "connection") {
        match object_from_words::<Connection>(&words) {
            Ok(c) => Ok(EventUpdate::Connection(et, c)),
            Err(e) => Err(e),
        }
    } else if str_eq(what, "peer-device") {
        match object_from_words::<PeerDevice>(&words) {
            Ok(p) => Ok(EventUpdate::PeerDevice(et, p)),
            Err(e) => Err(e),
        }
    } else if str_eq(what, "path") {
        match object_from_words::<Path>(&words) {
            Ok(p) => Ok(EventUpdate::Path(et, p)),
            Err(e) => Err(e),
        }
    } else {
        Err(ParseError::UnknownObject(String::from_str(what)))
    }
}

/// What the reader does with one raw line of the stream: the line is trimmed;
/// the marker `exists -`, which closes the initial state dump, is passed
/// over (`None`); every other line is read (`Some`).
pub fn events2_line_update(raw: &str) -> (r: Option<Result<EventUpdate, ParseError>>)
    ensures
        trim(raw@) == "exists -"@ <==> r is None,
        r matches Some(res) ==> match spec_parse_events2_line(raw@) {
            Ok(u) => res matches Ok(x) && x@ == u,
            Err(e) => res matches Err(x) && x@ == e,
        },
{
    proof {
        law_trim_keeps_words(raw@);
    }
    let line = trim_str(raw);
    if str_eq(line, "exists -") {
        None
    } else {
        Some(parse_events2_line(line))
    }
}

/// How a run of the events2 reader came to an end.
#[derive(Debug, Clone, Copy, PartialEq, Eq)]
pub enum RunEnd {
    /// The run ended without an error.
    Finished,
    /// The receiving end of the update channel is gone.
    ChannelClosed,
    /// Anything else went wrong: the process could not be started, or its
    /// output ended.
    Failed,
}

/// What the supervisor of the events2 reader does next.
#[derive(Debug, Clone, Copy, PartialEq, Eq)]
pub enum NextStep {
    /// Stop, with success.
    Stop,
    /// Stop, and hand the channel error back.
    GiveUp,
    /// Wait this many seconds, then start a new run.
    Restart { delay_secs: u64 },
}

/// The seconds the supervisor waits before it starts a failed reader again.
pub const RESTART_DELAY_SECS: u64 = 2;

/// The decisions of the loop that keeps the events2 reader running.
pub struct Events2Supervisor {
    send_flush: bool,
}

impl Events2Supervisor {
    /// Whether the next run starts by sending [`EventUpdate::Flush`].
    pub closed spec fn spec_flush_first(&self) -> bool {
        self.send_flush
    }

    /// A supervisor before its first run.
    pub fn new() -> (s: Events2Supervisor)
        ensures
            !s.spec_flush_first(),
    {
        Events2Supervisor { send_flush: false }
    }

    /// Whether a run that starts now first tells the receiver that earlier
    /// state is stale.
    pub fn flush_first(&self) -> (b: bool)
        ensures
            b == self.spec_flush_first(),
    {
        self.send_flush
    }

    /// What to do once a run has ended: every later run starts with a flush,
    /// a finished run stops the loop, a closed channel ends it with that
    /// error, and any other failure restarts the reader after a pause.
    pub fn after_run(&mut self, end: RunEnd) -> (next: NextStep)
        ensures
            final(self).spec_flush_first(),
            next == (match end {
                RunEnd::Finished => NextStep::Stop,
                RunEnd::ChannelClosed => NextStep::GiveUp,
                RunEnd::Failed => NextStep::Restart { delay_secs: RESTART_DELAY_SECS },
            }),
    {
        self.send_flush = true;
        match end {
            RunEnd::Finished => NextStep::Stop,
            RunEnd::ChannelClosed => NextStep::GiveUp,
            RunEnd::Failed => NextStep::Restart { delay_secs: RESTART_DELAY_SECS },
        }
    }
}

} // verus!
