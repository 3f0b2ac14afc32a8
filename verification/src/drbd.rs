//! The DRBD objects that an events2 line describes, with their models.

use vstd::prelude::*;
use crate::text::str_eq;

verus! {

/// What happened to the object a line describes.
#[derive(Debug, Clone, Copy, PartialEq, Eq)]
pub enum EventType {
    Exists,
    Create,
    Destroy,
    Change,
}

impl EventType {
    /// The word that names this value in the events2 stream.
    pub open spec fn keyword(self) -> Seq<char> {
        match self {
            EventType::Exists => "exists"@,
            EventType::Create => "create"@,
            EventType::Destroy => "destroy"@,
            EventType::Change => "change"@,
        }
    }

    /// The event type that a line's first word names.
    pub open spec fn spec_from_keyword(s: Seq<char>) -> Option<EventType> {
        if s == "exists"@ {
            Some(EventType::Exists)
        } else if s == "create"@ {
            Some(EventType::Create)
        } else if s == "destroy"@ {
            Some(EventType::Destroy)
        } else if s == "change"@ {
            Some(EventType::Change)
        } else {
            None
        }
    }

    /// Reads an event type from its keyword.
    pub fn from_keyword(s: &str) -> (r: Option<EventType>)
        ensures
            r == EventType::spec_from_keyword(s@),
    {
        if str_eq(s, "exists") {
            Some(EventType::Exists)
        } else if str_eq(s, "create") {
            Some(EventType::Create)
        } else if str_eq(s, "destroy") {
            Some(EventType::Destroy)
        } else if str_eq(s, "change") {
            Some(EventType::Change)
        } else {
            None
        }
    }
}

/// The role of a resource, or of a connection's peer.
#[derive(Debug, Clone, Copy, PartialEq, Eq)]
pub enum Role {
    Unknown,
    Primary,
    Secondary,
}

impl Role {
    /// The word that names this value in the events2 stream.
    pub open spec fn keyword(self) -> Seq<char> {
        match self {
            Role::Unknown => "Unknown"@,
            Role::Primary => "Primary"@,
            Role::Secondary => "Secondary"@,
        }
    }

    /// The role that a value names.
    pub open spec fn spec_from_keyword(s: Seq<char>) -> Option<Role> {
        if s == "Unknown"@ {
            Some(Role::Unknown)
        } else if s == "Primary"@ {
            Some(Role::Primary)
        } else if s == "Secondary"@ {
            Some(Role::Secondary)
        } else {
            None
        }
    }

    /// Reads a role from its name.
    pub fn from_keyword(s: &str) -> (r: Option<Role>)
        ensures
            r == Role::spec_from_keyword(s@),
    {
        if str_eq(s, "Unknown") {
            Some(Role::Unknown)
        } else if str_eq(s, "Primary") {
            Some(Role::Primary)
        } else if str_eq(s, "Secondary") {
            Some(Role::Secondary)
        } else {
            None
        }
    }
}

impl Default for Role {
    fn default() -> (r: Role)
        ensures
            r == Role::Unknown,
    {
        Role::Unknown
    }
}

/// The state of a local or a peer disk.
#[derive(Debug, Clone, Copy, PartialEq, Eq)]
pub enum DiskState {
    Diskless,
    Attaching,
    Detaching,
    Failed,
    Negotiating,
    Inconsistent,
    Outdated,
    DUnknown,
    Consistent,
    UpToDate,
}

impl DiskState {
    /// The word that names this value in the events2 stream.
    pub open spec fn keyword(self) -> Seq<char> {
        match self {
            DiskState::Diskless => "Diskless"@,
            DiskState::Attaching => "Attaching"@,
            DiskState::Detaching => "Detaching"@,
            DiskState::Failed => "Failed"@,
            DiskState::Negotiating => "Negotiating"@,
            DiskState::Inconsistent => "Inconsistent"@,
            DiskState::Outdated => "Outdated"@,
            DiskState::DUnknown => "DUnknown"@,
            DiskState::Consistent => "Consistent"@,
            DiskState::UpToDate => "UpToDate"@,
        }
    }

    /// The disk state that a value names.
    pub open spec fn spec_from_keyword(s: Seq<char>) -> Option<DiskState> {
        if s == "Diskless"@ {
            Some(DiskState::Diskless)
        } else if s == "Attaching"@ {
            Some(DiskState::Attaching)
        } else if s == "Detaching"@ {
            Some(DiskState::Detaching)
        } else if s == "Failed"@ {
            Some(DiskState::Failed)
        } else if s == "Negotiating"@ {
            Some(DiskState::Negotiating)
        } else if s == "Inconsistent"@ {
            Some(DiskState::Inconsistent)
        } else if s == "Outdated"@ {
            Some(DiskState::Outdated)
        } else if s == "DUnknown"@ {
            Some(DiskState::DUnknown)
        } else if s == "Consistent"@ {
            Some(DiskState::Consistent)
        } else if s == "UpToDate"@ {
            Some(DiskState::UpToDate)
        } else {
            None
        }
    }

    /// Reads a disk state from its name.
    pub fn from_keyword(s: &str) -> (r: Option<DiskState>)
        ensures
            r == DiskState::spec_from_keyword(s@),
    {
        if str_eq(s, "Diskless") {
            Some(DiskState::Diskless)
        } else if str_eq(s, "Attaching") {
            Some(DiskState::Attaching)
        } else if str_eq(s, "Detaching") {
            Some(DiskState::Detaching)
        } else if str_eq(s, "Failed") {
            Some(DiskState::Failed)
        } else if str_eq(s, "Negotiating") {
            Some(DiskState::Negotiating)
        } else if str_eq(s, "Inconsistent") {
            Some(DiskState::Inconsistent)
        } else if str_eq(s, "Outdated") {
            Some(DiskState::Outdated)
        } else if str_eq(s, "DUnknown") {
            Some(DiskState::DUnknown)
        } else if str_eq(s, "Consistent") {
            Some(DiskState::Consistent)
        } else if str_eq(s, "UpToDate") {
            Some(DiskState::UpToDate)
        } else {
            None
        }
    }
}

impl Default for DiskState {
    fn default() -> (r: DiskState)
        ensures
            r == DiskState::DUnknown,
    {
        DiskState::DUnknown
    }
}

/// The state of a connection to a peer.
#[derive(Debug, Clone, Copy, PartialEq, Eq)]
pub enum ConnectionState {
    StandAlone,
    Disconnecting,
    Unconnected,
    Timeout,
    BrokenPipe,
    NetworkFailure,
    ProtocolError,
    TearDown,
    Connecting,
    Connected,
}

impl ConnectionState {
    /// The word that names this value in the events2 stream.
    pub open spec fn keyword(self) -> Seq<char> {
        match self {
            ConnectionState::StandAlone => "StandAlone"@,
            ConnectionState::Disconnecting => "Disconnecting"@,
            ConnectionState::Unconnected => "Unconnected"@,
            ConnectionState::Timeout => "Timeout"@,
            ConnectionState::BrokenPipe => "BrokenPipe"@,
            ConnectionState::NetworkFailure => "NetworkFailure"@,
            ConnectionState::ProtocolError => "ProtocolError"@,
            ConnectionState::TearDown => "TearDown"@,
            ConnectionState::Connecting => "Connecting"@,
            ConnectionState::Connected => "Connected"@,
        }
    }

    /// The connection state that a value names.
    pub open spec fn spec_from_keyword(s: Seq<char>) -> Option<ConnectionState> {
        if s == "StandAlone"@ {
            Some(ConnectionState::StandAlone)
        } else if s == "Disconnecting"@ {
            Some(ConnectionState::Disconnecting)
        } else if s == "Unconnected"@ {
            Some(ConnectionState::Unconnected)
        } else if s == "Timeout"@ {
            Some(ConnectionState::Timeout)
        } else if s == "BrokenPipe"@ {
            Some(ConnectionState::BrokenPipe)
        } else if s == "NetworkFailure"@ {
            Some(ConnectionState::NetworkFailure)
        } else if s == "ProtocolError"@ {
            Some(ConnectionState::ProtocolError)
        } else if s == "TearDown"@ {
            Some(ConnectionState::TearDown)
        } else if s == "Connecting"@ {
            Some(ConnectionState::Connecting)
        } else if s == "Connected"@ {
            Some(ConnectionState::Connected)
        } else {
            None
        }
    }

    /// Reads a connection state from its name.
    pub fn from_keyword(s: &str) -> (r: Option<ConnectionState>)
        ensures
            r == ConnectionState::spec_from_keyword(s@),
    {
        if str_eq(s, "StandAlone") {
            Some(ConnectionState::StandAlone)
        } else if str_eq(s, "Disconnecting") {
            Some(ConnectionState::Disconnecting)
        } else if str_eq(s, "Unconnected") {
            Some(ConnectionState::Unconnected)
        } else if str_eq(s, "Timeout") {
            Some(ConnectionState::Timeout)
        } else if str_eq(s, "BrokenPipe") {
            Some(ConnectionState::BrokenPipe)
        } else if str_eq(s, "NetworkFailure") {
            Some(ConnectionState::NetworkFailure)
        } else if str_eq(s, "ProtocolError") {
            Some(ConnectionState::ProtocolError)
        } else if str_eq(s, "TearDown") {
            Some(ConnectionState::TearDown)
        } else if str_eq(s, "Connecting") {
            Some(ConnectionState::Connecting)
        } else if str_eq(s, "Connected") {
            Some(ConnectionState::Connected)
        } else {
            None
        }
    }
}

impl Default for ConnectionState {
    fn default() -> (r: ConnectionState)
        ensures
            r == ConnectionState::StandAlone,
    {
        ConnectionState::StandAlone
    }
}

/// The replication state between a device and its peer.
#[derive(Debug, Clone, Copy, PartialEq, Eq)]
pub enum ReplicationState {
    Off,
    Established,
    StartingSyncS,
    StartingSyncT,
    WFBitMapS,
    WFBitMapT,
    WFSyncUUID,
    SyncSource,
    SyncTarget,
    VerifyS,
    VerifyT,
    PausedSyncS,
    PausedSyncT,
    Ahead,
    Behind,
}

impl ReplicationState {
    /// The word that names this value in the events2 stream.
    pub open spec fn keyword(self) -> Seq<char> {
        match self {
            ReplicationState::Off => "Off"@,
            ReplicationState::Established => "Established"@,
            ReplicationState::StartingSyncS => "StartingSyncS"@,
            ReplicationState::StartingSyncT => "StartingSyncT"@,
            ReplicationState::WFBitMapS => "WFBitMapS"@,
            ReplicationState::WFBitMapT => "WFBitMapT"@,
            ReplicationState::WFSyncUUID => "WFSyncUUID"@,
            ReplicationState::SyncSource => "SyncSource"@,
            ReplicationState::SyncTarget => "SyncTarget"@,
            ReplicationState::VerifyS => "VerifyS"@,
            ReplicationState::VerifyT => "VerifyT"@,
            ReplicationState::PausedSyncS => "PausedSyncS"@,
            ReplicationState::PausedSyncT => "PausedSyncT"@,
            ReplicationState::Ahead => "Ahead"@,
            ReplicationState::Behind => "Behind"@,
        }
    }

    /// The replication state that a value names.
    pub open spec fn spec_from_keyword(s: Seq<char>) -> Option<ReplicationState> {
        if s == "Off"@ {
            Some(ReplicationState::Off)
        } else if s == "Established"@ {
            Some(ReplicationState::Established)
        } else if s == "StartingSyncS"@ {
            Some(ReplicationState::StartingSyncS)
        } else if s == "StartingSyncT"@ {
            Some(ReplicationState::StartingSyncT)
        } else if s == "WFBitMapS"@ {
            Some(ReplicationState::WFBitMapS)
        } else if s == "WFBitMapT"@ {
            Some(ReplicationState::WFBitMapT)
        } else if s == "WFSyncUUID"@ {
            Some(ReplicationState::WFSyncUUID)
        } else if s == "SyncSource"@ {
            Some(ReplicationState::SyncSource)
        } else if s == "SyncTarget"@ {
            Some(ReplicationState::SyncTarget)
        } else if s == "VerifyS"@ {
            Some(ReplicationState::VerifyS)
        } else if s == "VerifyT"@ {
            Some(ReplicationState::VerifyT)
        } else if s == "PausedSyncS"@ {
            Some(ReplicationState::PausedSyncS)
        } else if s == "PausedSyncT"@ {
            Some(ReplicationState::PausedSyncT)
        } else if s == "Ahead"@ {
            Some(ReplicationState::Ahead)
        } else if s == "Behind"@ {
            Some(ReplicationState::Behind)
        } else {
            None
        }
    }

    /// Reads a replication state from its name.
    pub fn from_keyword(s: &str) -> (r: Option<ReplicationState>)
        ensures
            r == ReplicationState::spec_from_keyword(s@),
    {
        if str_eq(s, "Off") {
            Some(ReplicationState::Off)
        } else if str_eq(s, "Established") {
            Some(ReplicationState::Established)
        } else if str_eq(s, "StartingSyncS") {
            Some(ReplicationState::StartingSyncS)
        } else if str_eq(s, "StartingSyncT") {
            Some(ReplicationState::StartingSyncT)
        } else if str_eq(s, "WFBitMapS") {
            Some(ReplicationState::WFBitMapS)
        } else if str_eq(s, "WFBitMapT") {
            Some(ReplicationState::WFBitMapT)
        } else if str_eq(s, "WFSyncUUID") {
            Some(ReplicationState::WFSyncUUID)
        } else if str_eq(s, "SyncSource") {
            Some(ReplicationState::SyncSource)
        } else if str_eq(s, "SyncTarget") {
            Some(ReplicationState::SyncTarget)
        } else if str_eq(s, "VerifyS") {
            Some(ReplicationState::VerifyS)
        } else if str_eq(s, "VerifyT") {
            Some(ReplicationState::VerifyT)
        } else if str_eq(s, "PausedSyncS") {
            Some(ReplicationState::PausedSyncS)
        } else if str_eq(s, "PausedSyncT") {
            Some(ReplicationState::PausedSyncT)
        } else if str_eq(s, "Ahead") {
            Some(ReplicationState::Ahead)
        } else if str_eq(s, "Behind") {
            Some(ReplicationState::Behind)
        } else {
            None
        }
    }
}

impl Default for ReplicationState {
    fn default() -> (r: ReplicationState)
        ensures
            r == ReplicationState::Off,
    {
        ReplicationState::Off
    }
}


/// The block device under a DRBD device, if it has one.
#[derive(Debug, Clone, PartialEq)]
pub struct BackingDevice(pub Option<String>);

impl View for BackingDevice {
    type V = Option<Seq<char>>;

    open spec fn view(&self) -> Option<Seq<char>> {
        match &self.0 {
            Some(path) => Some(path@),
            None => None,
        }
    }
}

impl BackingDevice {
    /// The backing device that a value names: `none` stands for no device.
    pub open spec fn spec_from_value(s: Seq<char>) -> Option<Seq<char>> {
        if s == "none"@ {
            None
        } else {
            Some(s)
        }
    }

    /// Reads a backing device from a value.
    pub fn from_value(s: &str) -> (r: BackingDevice)
        ensures
            r@ == BackingDevice::spec_from_value(s@),
    {
        if str_eq(s, "none") {
            BackingDevice(None)
        } else {
            BackingDevice(Some(String::from_str(s)))
        }
    }
}

impl Default for BackingDevice {
    fn default() -> (r: BackingDevice)
        ensures
            r@ == None::<Seq<char>>,
    {
        BackingDevice(None)
    }
}

/// A DRBD resource.
#[derive(Debug, Clone, PartialEq)]
pub struct Resource {
    pub name: String,
    pub role: Role,
    pub suspended: bool,
    pub write_ordering: String,
    pub force_io_failures: bool,
    pub may_promote: bool,
    pub promotion_score: i32,
    pub devices: Vec<Device>,
    pub connections: Vec<Connection>,
}

/// The contents of a [`Resource`].
pub struct ResourceModel {
    pub name: Seq<char>,
    pub role: Role,
    pub suspended: bool,
    pub write_ordering: Seq<char>,
    pub force_io_failures: bool,
    pub may_promote: bool,
    pub promotion_score: i32,
    pub devices: Seq<DeviceModel>,
    pub connections: Seq<ConnectionModel>,
}

impl View for Resource {
    type V = ResourceModel;

    open spec fn view(&self) -> ResourceModel {
        ResourceModel {
            name: self.name@,
            role: self.role,
            suspended: self.suspended,
            write_ordering: self.write_ordering@,
            force_io_failures: self.force_io_failures,
            may_promote: self.may_promote,
            promotion_score: self.promotion_score,
            devices: self.devices@.map_values(|d: Device| d@),
            connections: self.connections@.map_values(|c: Connection| c@),
        }
    }
}

impl ResourceModel {
    /// A resource that nothing has been said of yet.
    pub open spec fn initial() -> ResourceModel {
        ResourceModel {
            name: seq![],
            role: Role::Unknown,
            suspended: false,
            write_ordering: seq![],
            force_io_failures: false,
            may_promote: false,
            promotion_score: 0,
            devices: seq![],
            connections: seq![],
        }
    }
}

impl Default for Resource {
    fn default() -> (r: Resource)
        ensures
            r@ == ResourceModel::initial(),
    {
        let r = Resource {
            name: String::new(),
            role: Role::Unknown,
            suspended: false,
            write_ordering: String::new(),
            force_io_failures: false,
            may_promote: false,
            promotion_score: 0,
            devices: Vec::new(),
            connections: Vec::new(),
        };
        assert(r@.devices =~= Seq::<DeviceModel>::empty());
        assert(r@.connections =~= Seq::<ConnectionModel>::empty());
        r
    }
}

/// A DRBD device (a volume of a resource).
#[derive(Debug, Clone, PartialEq)]
pub struct Device {
    pub name: String,
    pub volume: i32,
    pub minor: i32,
    pub disk_state: DiskState,
    pub client: bool,
    pub quorum: bool,
    pub size: u64,
    pub read: u64,
    pub written: u64,
    pub al_writes: u64,
    pub bm_writes: u64,
    pub upper_pending: u64,
    pub lower_pending: u64,
    pub al_suspended: bool,
    pub blocked: String,
    pub backing_dev: BackingDevice,
}

/// The contents of a [`Device`].
pub struct DeviceModel {
    pub name: Seq<char>,
    pub volume: i32,
    pub minor: i32,
    pub disk_state: DiskState,
    pub client: bool,
    pub quorum: bool,
    pub size: u64,
    pub read: u64,
    pub written: u64,
    pub al_writes: u64,
    pub bm_writes: u64,
    pub upper_pending: u64,
    pub lower_pending: u64,
    pub al_suspended: bool,
    pub blocked: Seq<char>,
    pub backing_dev: Option<Seq<char>>,
}

impl View for Device {
    type V = DeviceModel;

    open spec fn view(&self) -> DeviceModel {
        DeviceModel {
            name: self.name@,
            volume: self.volume,
            minor: self.minor,
            disk_state: self.disk_state,
            client: self.client,
            quorum: self.quorum,
            size: self.size,
            read: self.read,
            written: self.written,
            al_writes: self.al_writes,
            bm_writes: self.bm_writes,
            upper_pending: self.upper_pending,
            lower_pending: self.lower_pending,
            al_suspended: self.al_suspended,
            blocked: self.blocked@,
            backing_dev: self.backing_dev@,
        }
    }
}

impl DeviceModel {
    /// A device that nothing has been said of yet.
    pub open spec fn initial() -> DeviceModel {
        DeviceModel {
            name: seq![],
            volume: 0,
            minor: 0,
            disk_state: DiskState::DUnknown,
            client: false,
            quorum: false,
            size: 0,
            read: 0,
            written: 0,
            al_writes: 0,
            bm_writes: 0,
            upper_pending: 0,
            lower_pending: 0,
            al_suspended: false,
            blocked: seq![],
            backing_dev: None,
        }
    }
}

impl Default for Device {
    fn default() -> (r: Device)
        ensures
            r@ == DeviceModel::initial(),
    {
        Device {
            name: String::new(),
            volume: 0,
            minor: 0,
            disk_state: DiskState::DUnknown,
            client: false,
            quorum: false,
            size: 0,
            read: 0,
            written: 0,
            al_writes: 0,
            bm_writes: 0,
            upper_pending: 0,
            lower_pending: 0,
            al_suspended: false,
            blocked: String::new(),
            backing_dev: BackingDevice(None),
        }
    }
}

/// A connection of a resource to a peer node.
#[derive(Debug, Clone, PartialEq)]
pub struct Connection {
    pub name: String,
    pub peer_node_id: i32,
    pub conn_name: String,
    pub connection: ConnectionState,
    pub peer_role: Role,
    pub congested: bool,
    pub ap_in_flight: u64,
    pub rs_in_flight: u64,
    pub peerdevices: Vec<PeerDevice>,
    pub paths: Vec<Path>,
}

/// The contents of a [`Connection`].
pub struct ConnectionModel {
    pub name: Seq<char>,
    pub peer_node_id: i32,
    pub conn_name: Seq<char>,
    pub connection: ConnectionState,
    pub peer_role: Role,
    pub congested: bool,
    pub ap_in_flight: u64,
    pub rs_in_flight: u64,
    pub peerdevices: Seq<PeerDeviceModel>,
    pub paths: Seq<PathModel>,
}

impl View for Connection {
    type V = ConnectionModel;

    open spec fn view(&self) -> ConnectionModel {
        ConnectionModel {
            name: self.name@,
            peer_node_id: self.peer_node_id,
            conn_name: self.conn_name@,
            connection: self.connection,
            peer_role: self.peer_role,
            congested: self.congested,
            ap_in_flight: self.ap_in_flight,
            rs_in_flight: self.rs_in_flight,
            peerdevices: self.peerdevices@.map_values(|p: PeerDevice| p@),
            paths: self.paths@.map_values(|p: Path| p@),
        }
    }
}

impl ConnectionModel {
    /// A connection that nothing has been said of yet.
    pub open spec fn initial() -> ConnectionModel {
        ConnectionModel {
            name: seq![],
            peer_node_id: 0,
            conn_name: seq![],
            connection: ConnectionState::StandAlone,
            peer_role: Role::Unknown,
            congested: false,
            ap_in_flight: 0,
            rs_in_flight: 0,
            peerdevices: seq![],
            paths: seq![],
        }
    }
}

impl Default for Connection {
    fn default() -> (r: Connection)
        ensures
            r@ == ConnectionModel::initial(),
    {
        let r = Connection {
            name: String::new(),
            peer_node_id: 0,
            conn_name: String::new(),
            connection: ConnectionState::StandAlone,
            peer_role: Role::Unknown,
            congested: false,
            ap_in_flight: 0,
            rs_in_flight: 0,
            peerdevices: Vec::new(),
            paths: Vec::new(),
        };
        assert(r@.peerdevices =~= Seq::<PeerDeviceModel>::empty());
        assert(r@.paths =~= Seq::<PathModel>::empty());
        r
    }
}

/// A device as seen over a connection: the peer's copy of a volume.
#[derive(Debug, Clone, PartialEq)]
pub struct PeerDevice {
    pub name: String,
    pub conn_name: String,
    pub volume: i32,
    pub peer_node_id: i32,
    pub replication_state: ReplicationState,
    pub peer_disk_state: DiskState,
    pub peer_client: bool,
    pub resync_suspended: bool,
    pub received: u64,
    pub sent: u64,
    pub out_of_sync: u64,
    pub pending: u64,
    pub unacked: u64,
    pub has_sync_details: bool,
    pub has_online_verify_details: bool,
}

/// The contents of a [`PeerDevice`].
pub struct PeerDeviceModel {
    pub name: Seq<char>,
    pub conn_name: Seq<char>,
    pub volume: i32,
    pub peer_node_id: i32,
    pub replication_state: ReplicationState,
    pub peer_disk_state: DiskState,
    pub peer_client: bool,
    pub resync_suspended: bool,
    pub received: u64,
    pub sent: u64,
    pub out_of_sync: u64,
    pub pending: u64,
    pub unacked: u64,
    pub has_sync_details: bool,
    pub has_online_verify_details: bool,
}

impl View for PeerDevice {
    type V = PeerDeviceModel;

    open spec fn view(&self) -> PeerDeviceModel {
        PeerDeviceModel {
            name: self.name@,
            conn_name: self.conn_name@,
            volume: self.volume,
            peer_node_id: self.peer_node_id,
            replication_state: self.replication_state,
            peer_disk_state: self.peer_disk_state,
            peer_client: self.peer_client,
            resync_suspended: self.resync_suspended,
            received: self.received,
            sent: self.sent,
            out_of_sync: self.out_of_sync,
            pending: self.pending,
            unacked: self.unacked,
            has_sync_details: self.has_sync_details,
            has_online_verify_details: self.has_online_verify_details,
        }
    }
}

impl PeerDeviceModel {
    /// A peer device that nothing has been said of yet.
    pub open spec fn initial() -> PeerDeviceModel {
        PeerDeviceModel {
            name: seq![],
            conn_name: seq![],
            volume: 0,
            peer_node_id: 0,
            replication_state: ReplicationState::Off,
            peer_disk_state: DiskState::DUnknown,
            peer_client: false,
            resync_suspended: false,
            received: 0,
            sent: 0,
            out_of_sync: 0,
            pending: 0,
            unacked: 0,
            has_sync_details: false,
            has_online_verify_details: false,
        }
    }
}

impl Default for PeerDevice {
    fn default() -> (r: PeerDevice)
        ensures
            r@ == PeerDeviceModel::initial(),
    {
        PeerDevice {
            name: String::new(),
            conn_name: String::new(),
            volume: 0,
            peer_node_id: 0,
            replication_state: ReplicationState::Off,
            peer_disk_state: DiskState::DUnknown,
            peer_client: false,
            resync_suspended: false,
            received: 0,
            sent: 0,
            out_of_sync: 0,
            pending: 0,
            unacked: 0,
            has_sync_details: false,
            has_online_verify_details: false,
        }
    }
}

/// A network path of a connection.
#[derive(Debug, Clone, PartialEq)]
pub struct Path {
    pub name: String,
    pub peer_node_id: i32,
    pub conn_name: String,
    pub local: String,
    pub peer: String,
    pub established: bool,
}

/// The contents of a [`Path`].
pub struct PathModel {
    pub name: Seq<char>,
    pub peer_node_id: i32,
    pub conn_name: Seq<char>,
    pub local: Seq<char>,
    pub peer: Seq<char>,
    pub established: bool,
}

impl View for Path {
    type V = PathModel;

    open spec fn view(&self) -> PathModel {
        PathModel {
            name: self.name@,
            peer_node_id: self.peer_node_id,
            conn_name: self.conn_name@,
            local: self.local@,
            peer: self.peer@,
            established: self.established,
        }
    }
}

impl PathModel {
    /// A path that nothing has been said of yet.
    pub open spec fn initial() -> PathModel {
        PathModel {
            name: seq![],
            peer_node_id: 0,
            conn_name: seq![],
            local: seq![],
            peer: seq![],
            established: false,
        }
    }
}

impl Default for Path {
    fn default() -> (r: Path)
        ensures
            r@ == PathModel::initial(),
    {
        Path {
            name: String::new(),
            peer_node_id: 0,
            conn_name: String::new(),
            local: String::new(),
            peer: String::new(),
            established: false,
        }
    }
}

/// What one line of the events2 stream, or the stream itself, reports.
#[derive(Debug, Clone, PartialEq)]
pub enum EventUpdate {
    Resource(EventType, Resource),
    Device(EventType, Device),
    PeerDevice(EventType, PeerDevice),
    Connection(EventType, Connection),
    Path(EventType, Path),
    /// The stream was started again: what was known before may be stale.
    Flush,
}

/// The contents of an [`EventUpdate`].
pub enum EventUpdateModel {
    Resource(EventType, ResourceModel),
    Device(EventType, DeviceModel),
    PeerDevice(EventType, PeerDeviceModel),
    Connection(EventType, ConnectionModel),
    Path(EventType, PathModel),
    Flush,
}

impl View for EventUpdate {
    type V = EventUpdateModel;

    open spec fn view(&self) -> EventUpdateModel {
        match self {
            EventUpdate::Resource(et, r) => EventUpdateModel::Resource(*et, r@),
            EventUpdate::Device(et, d) => EventUpdateModel::Device(*et, d@),
            EventUpdate::PeerDevice(et, p) => EventUpdateModel::PeerDevice(*et, p@),
            EventUpdate::Connection(et, c) => EventUpdateModel::Connection(*et, c@),
            EventUpdate::Path(et, p) => EventUpdateModel::Path(*et, p@),
            EventUpdate::Flush => EventUpdateModel::Flush,
        }
    }
}

} // verus!
