//! Where each field of a parsed object comes from: the value of the last
//! word that names its key, read by the rule for the field's type, or the
//! field's default when no word names it.

use vstd::prelude::*;
use crate::drbd::{
    ConnectionModel, Connection, ConnectionState, Device, DeviceModel, DiskState, EventUpdateModel,
    Path, PathModel, PeerDevice, PeerDeviceModel, ReplicationState, Resource, ResourceModel, Role,
};
use crate::events::{apply_words, spec_parse_words, ApplyKeyValue};
use crate::laws::{
    law_connection_state_keywords, law_disk_state_keywords, law_replication_state_keywords,
    law_role_keywords,
};
use crate::number::{spec_parse_i32, spec_parse_u64};
use crate::text::split_kv;

verus! {

/// The value of the last `key:value` word of `ws` whose key is `key`.
pub open spec fn last_value_of(ws: Seq<Seq<char>>, key: Seq<char>) -> Option<Seq<char>>
    decreases ws.len(),
{
    if ws.len() == 0 {
        None
    } else {
        match split_kv(ws.last()) {
            Some((k, v)) => if k == key {
                Some(v)
            } else {
                last_value_of(ws.drop_last(), key)
            },
            None => last_value_of(ws.drop_last(), key),
        }
    }
}

/// A text field holds the last value given for its key, or is empty.
pub open spec fn text_field(last: Option<Seq<char>>, f: Seq<char>) -> bool {
    match last {
        Some(v) => f == v,
        None => f == Seq::<char>::empty(),
    }
}

/// A flag is false exactly when the last value given for it is `no` or
/// `false`, and false when no value is given.
pub open spec fn flag_field(last: Option<Seq<char>>, f: bool) -> bool {
    match last {
        Some(v) => f == !(v == "no"@ || v == "false"@),
        None => !f,
    }
}

/// A signed field holds the decimal value of the last value given for it, or 0.
pub open spec fn i32_field(last: Option<Seq<char>>, f: i32) -> bool {
    match last {
        Some(v) => spec_parse_i32(v) == Some(f),
        None => f == 0,
    }
}

/// A counter holds the decimal value of the last value given for it, or 0.
pub open spec fn u64_field(last: Option<Seq<char>>, f: u64) -> bool {
    match last {
        Some(v) => spec_parse_u64(v) == Some(f),
        None => f == 0,
    }
}

/// A backing device is absent when its last value is `none` or when none is
/// given, and is that value otherwise.
pub open spec fn backing_field(last: Option<Seq<char>>, f: Option<Seq<char>>) -> bool {
    match last {
        Some(v) => f == (if v == "none"@ {
            None
        } else {
            Some(v)
        }),
        None => f is None,
    }
}

/// A Role field is the value whose name is the last value given for it, or Role::Unknown.
pub open spec fn role_field(last: Option<Seq<char>>, f: Role) -> bool {
    match last {
        Some(v) => f.keyword() == v,
        None => f == Role::Unknown,
    }
}

/// A DiskState field is the value whose name is the last value given for it, or DiskState::DUnknown.
pub open spec fn disk_state_field(last: Option<Seq<char>>, f: DiskState) -> bool {
    match last {
        Some(v) => f.keyword() == v,
        None => f == DiskState::DUnknown,
    }
}

/// A ConnectionState field is the value whose name is the last value given for it, or ConnectionState::StandAlone.
pub open spec fn connection_state_field(last: Option<Seq<char>>, f: ConnectionState) -> bool {
    match last {
        Some(v) => f.keyword() == v,
        None => f == ConnectionState::StandAlone,
    }
}

/// A ReplicationState field is the value whose name is the last value given for it, or ReplicationState::Off.
pub open spec fn replication_state_field(last: Option<Seq<char>>, f: ReplicationState) -> bool {
    match last {
        Some(v) => f.keyword() == v,
        None => f == ReplicationState::Off,
    }
}

/// The field that `proj` picks out is set from the value of `key` alone, by
/// `read`: it ends up read from the last value of that key, or as it was in
/// the initial object.
proof fn lemma_field_follows_last_value<T: ApplyKeyValue, X>(
    ws: Seq<Seq<char>>,
    key: Seq<char>,
    proj: spec_fn(T::V) -> X,
    read: spec_fn(Seq<char>) -> Option<X>,
)
    requires
        forall|m: T::V, v: Seq<char>|
            (#[trigger] T::spec_apply(m, key, v)) is Ok ==> read(v) == Some(
                proj(T::spec_apply(m, key, v)->Ok_0),
            ),
        forall|m: T::V, k: Seq<char>, v: Seq<char>|
            k != key && (#[trigger] T::spec_apply(m, k, v)) is Ok ==> proj(
                T::spec_apply(m, k, v)->Ok_0,
            ) == proj(m),
        apply_words::<T>(ws) is Ok,
    ensures
        match last_value_of(ws, key) {
            Some(v) => read(v) == Some(proj(apply_words::<T>(ws)->Ok_0)),
            None => proj(apply_words::<T>(ws)->Ok_0) == proj(T::spec_initial()),
        },
    decreases ws.len(),
{
    if ws.len() > 0 {
        lemma_field_follows_last_value::<T, X>(ws.drop_last(), key, proj, read);
    }
}

/// A field that no key sets keeps its initial value.
proof fn lemma_field_never_set<T: ApplyKeyValue, X>(ws: Seq<Seq<char>>, proj: spec_fn(T::V) -> X)
    requires
        forall|m: T::V, k: Seq<char>, v: Seq<char>|
            (#[trigger] T::spec_apply(m, k, v)) is Ok ==> proj(T::spec_apply(m, k, v)->Ok_0)
                == proj(m),
        apply_words::<T>(ws) is Ok,
    ensures
        proj(apply_words::<T>(ws)->Ok_0) == proj(T::spec_initial()),
    decreases ws.len(),
{
    if ws.len() > 0 {
        lemma_field_never_set::<T, X>(ws.drop_last(), proj);
    }
}

proof fn lemma_resource_name(ws: Seq<Seq<char>>)
    requires
        apply_words::<Resource>(ws) is Ok,
    ensures
        text_field(last_value_of(ws, "name"@), apply_words::<Resource>(ws)->Ok_0.name),
{
    reveal_strlit("name");
    assert("name"@.len() == 4);
    let proj = |m: ResourceModel| m.name;
    let read = |v: Seq<char>| Some(v);
    assert forall|m: ResourceModel, v: Seq<char>|
        (#[trigger] Resource::spec_apply(m, "name"@, v)) is Ok implies read(v) == Some(
        proj(Resource::spec_apply(m, "name"@, v)->Ok_0),
    ) by {}
    assert forall|m: ResourceModel, k: Seq<char>, v: Seq<char>|
        k != "name"@ && (#[trigger] Resource::spec_apply(m, k, v)) is Ok implies proj(
        Resource::spec_apply(m, k, v)->Ok_0,
    ) == proj(m) by {}
    lemma_field_follows_last_value::<Resource, Seq<char>>(ws, "name"@, proj, read);
}

proof fn lemma_resource_role(ws: Seq<Seq<char>>)
    requires
        apply_words::<Resource>(ws) is Ok,
    ensures
        role_field(last_value_of(ws, "role"@), apply_words::<Resource>(ws)->Ok_0.role),
{
    reveal_strlit("name");
    reveal_strlit("role");
    assert("name"@.len() == 4);
    assert("role"@.len() == 4);
    assert("name"@[0] != "role"@[0]);
    let proj = |m: ResourceModel| m.role;
    let read = |v: Seq<char>| Role::spec_from_keyword(v);
    assert forall|m: ResourceModel, v: Seq<char>|
        (#[trigger] Resource::spec_apply(m, "role"@, v)) is Ok implies read(v) == Some(
        proj(Resource::spec_apply(m, "role"@, v)->Ok_0),
    ) by {}
    assert forall|m: ResourceModel, k: Seq<char>, v: Seq<char>|
        k != "role"@ && (#[trigger] Resource::spec_apply(m, k, v)) is Ok implies proj(
        Resource::spec_apply(m, k, v)->Ok_0,
    ) == proj(m) by {}
    lemma_field_follows_last_value::<Resource, Role>(ws, "role"@, proj, read);
    if let Some(v) = last_value_of(ws, "role"@) {
        law_role_keywords(v, apply_words::<Resource>(ws)->Ok_0.role);
    }
}

proof fn lemma_resource_suspended(ws: Seq<Seq<char>>)
    requires
        apply_words::<Resource>(ws) is Ok,
    ensures
        flag_field(last_value_of(ws, "suspended"@), apply_words::<Resource>(ws)->Ok_0.suspended),
{
    reveal_strlit("name");
    reveal_strlit("role");
    reveal_strlit("suspended");
    assert("name"@.len() == 4);
    assert("role"@.len() == 4);
    assert("suspended"@.len() == 9);
    let proj = |m: ResourceModel| m.suspended;
    let read = |v: Seq<char>| Some(!(v == "no"@ || v == "false"@));
    assert forall|m: ResourceModel, v: Seq<char>|
        (#[trigger] Resource::spec_apply(m, "suspended"@, v)) is Ok implies read(v) == Some(
        proj(Resource::spec_apply(m, "suspended"@, v)->Ok_0),
    ) by {}
    assert forall|m: ResourceModel, k: Seq<char>, v: Seq<char>|
        k != "suspended"@ && (#[trigger] Resource::spec_apply(m, k, v)) is Ok implies proj(
        Resource::spec_apply(m, k, v)->Ok_0,
    ) == proj(m) by {}
    lemma_field_follows_last_value::<Resource, bool>(ws, "suspended"@, proj, read);
}

proof fn lemma_resource_write_ordering(ws: Seq<Seq<char>>)
    requires
        apply_words::<Resource>(ws) is Ok,
    ensures
        text_field(last_value_of(ws, "write-ordering"@), apply_words::<Resource>(ws)->Ok_0.write_ordering),
{
    reveal_strlit("name");
    reveal_strlit("role");
    reveal_strlit("suspended");
    reveal_strlit("write-ordering");
    assert("name"@.len() == 4);
    assert("role"@.len() == 4);
    assert("suspended"@.len() == 9);
    assert("write-ordering"@.len() == 14);
    let proj = |m: ResourceModel| m.write_ordering;
    let read = |v: Seq<char>| Some(v);
    assert forall|m: ResourceModel, v: Seq<char>|
        (#[trigger] Resource::spec_apply(m, "write-ordering"@, v)) is Ok implies read(v) == Some(
        proj(Resource::spec_apply(m, "write-ordering"@, v)->Ok_0),
    ) by {}
    assert forall|m: ResourceModel, k: Seq<char>, v: Seq<char>|
        k != "write-ordering"@ && (#[trigger] Resource::spec_apply(m, k, v)) is Ok implies proj(
        Resource::spec_apply(m, k, v)->Ok_0,
    ) == proj(m) by {}
    lemma_field_follows_last_value::<Resource, Seq<char>>(ws, "write-ordering"@, proj, read);
}

proof fn lemma_resource_force_io_failures(ws: Seq<Seq<char>>)
    requires
        apply_words::<Resource>(ws) is Ok,
    ensures
        flag_field(last_value_of(ws, "force-io-failures"@), apply_words::<Resource>(ws)->Ok_0.force_io_failures),
{
    reveal_strlit("name");
    reveal_strlit("role");
    reveal_strlit("suspended");
    reveal_strlit("write-ordering");
    reveal_strlit("force-io-failures");
    assert("name"@.len() == 4);
    assert("role"@.len() == 4);
    assert("suspended"@.len() == 9);
    assert("write-ordering"@.len() == 14);
    assert("force-io-failures"@.len() == 17);
    let proj = |m: ResourceModel| m.force_io_failures;
    let read = |v: Seq<char>| Some(!(v == "no"@ || v == "false"@));
    assert forall|m: ResourceModel, v: Seq<char>|
        (#[trigger] Resource::spec_apply(m, "force-io-failures"@, v)) is Ok implies read(v) == Some(
        proj(Resource::spec_apply(m, "force-io-failures"@, v)->Ok_0),
    ) by {}
    assert forall|m: ResourceModel, k: Seq<char>, v: Seq<char>|
        k != "force-io-failures"@ && (#[trigger] Resource::spec_apply(m, k, v)) is Ok implies proj(
        Resource::spec_apply(m, k, v)->Ok_0,
    ) == proj(m) by {}
    lemma_field_follows_last_value::<Resource, bool>(ws, "force-io-failures"@, proj, read);
}

proof fn lemma_resource_may_promote(ws: Seq<Seq<char>>)
    requires
        apply_words::<Resource>(ws) is Ok,
    ensures
        flag_field(last_value_of(ws, "may_promote"@), apply_words::<Resource>(ws)->Ok_0.may_promote),
{
    reveal_strlit("name");
    reveal_strlit("role");
    reveal_strlit("suspended");
    reveal_strlit("write-ordering");
    reveal_strlit("force-io-failures");
    reveal_strlit("may_promote");
    assert("name"@.len() == 4);
    assert("role"@.len() == 4);
    assert("suspended"@.len() == 9);
    assert("write-ordering"@.len() == 14);
    assert("force-io-failures"@.len() == 17);
    assert("may_promote"@.len() == 11);
    let proj = |m: ResourceModel| m.may_promote;
    let read = |v: Seq<char>| Some(!(v == "no"@ || v == "false"@));
    assert forall|m: ResourceModel, v: Seq<char>|
        (#[trigger] Resource::spec_apply(m, "may_promote"@, v)) is Ok implies read(v) == Some(
        proj(Resource::spec_apply(m, "may_promote"@, v)->Ok_0),
    ) by {}
    assert forall|m: ResourceModel, k: Seq<char>, v: Seq<char>|
        k != "may_promote"@ && (#[trigger] Resource::spec_apply(m, k, v)) is Ok implies proj(
        Resource::spec_apply(m, k, v)->Ok_0,
    ) == proj(m) by {}
    lemma_field_follows_last_value::<Resource, bool>(ws, "may_promote"@, proj, read);
}

proof fn lemma_resource_promotion_score(ws: Seq<Seq<char>>)
    requires
        apply_words::<Resource>(ws) is Ok,
    ensures
        i32_field(last_value_of(ws, "promotion_score"@), apply_words::<Resource>(ws)->Ok_0.promotion_score),
{
    reveal_strlit("name");
    reveal_strlit("role");
    reveal_strlit("suspended");
    reveal_strlit("write-ordering");
    reveal_strlit("force-io-failures");
    reveal_strlit("may_promote");
    reveal_strlit("promotion_score");
    assert("name"@.len() == 4);
    assert("role"@.len() == 4);
    assert("suspended"@.len() == 9);
    assert("write-ordering"@.len() == 14);
    assert("force-io-failures"@.len() == 17);
    assert("may_promote"@.len() == 11);
    assert("promotion_score"@.len() == 15);
    let proj = |m: ResourceModel| m.promotion_score;
    let read = |v: Seq<char>| spec_parse_i32(v);
    assert forall|m: ResourceModel, v: Seq<char>|
        (#[trigger] Resource::spec_apply(m, "promotion_score"@, v)) is Ok implies read(v) == Some(
        proj(Resource::spec_apply(m, "promotion_score"@, v)->Ok_0),
    ) by {}
    assert forall|m: ResourceModel, k: Seq<char>, v: Seq<char>|
        k != "promotion_score"@ && (#[trigger] Resource::spec_apply(m, k, v)) is Ok implies proj(
        Resource::spec_apply(m, k, v)->Ok_0,
    ) == proj(m) by {}
    lemma_field_follows_last_value::<Resource, i32>(ws, "promotion_score"@, proj, read);
}

proof fn lemma_resource_devices(ws: Seq<Seq<char>>)
    requires
        apply_words::<Resource>(ws) is Ok,
    ensures
        apply_words::<Resource>(ws)->Ok_0.devices == ResourceModel::initial().devices,
{
    let proj = |m: ResourceModel| m.devices;
    assert forall|m: ResourceModel, k: Seq<char>, v: Seq<char>|
        (#[trigger] Resource::spec_apply(m, k, v)) is Ok implies proj(
        Resource::spec_apply(m, k, v)->Ok_0,
    ) == proj(m) by {}
    lemma_field_never_set::<Resource, _>(ws, proj);
}

proof fn lemma_resource_connections(ws: Seq<Seq<char>>)
    requires
        apply_words::<Resource>(ws) is Ok,
    ensures
        apply_words::<Resource>(ws)->Ok_0.connections == ResourceModel::initial().connections,
{
    let proj = |m: ResourceModel| m.connections;
    assert forall|m: ResourceModel, k: Seq<char>, v: Seq<char>|
        (#[trigger] Resource::spec_apply(m, k, v)) is Ok implies proj(
        Resource::spec_apply(m, k, v)->Ok_0,
    ) == proj(m) by {}
    lemma_field_never_set::<Resource, _>(ws, proj);
}

/// Every field of a resource that a line reports is read from the last word
/// that names its key (texts as given, flags false only for `no` and `false`,
/// numbers in decimal, states by their names), and keeps its default when no
/// word names it. This holds of the words of any line: `words(line)`.
pub proof fn law_resource_fields(ws: Seq<Seq<char>>)
    requires
        ws.len() >= 2,
        ws[1] == "resource"@,
    ensures
        spec_parse_words(ws) matches Ok(EventUpdateModel::Resource(_, m)) ==> {
            let kvs = ws.skip(2);
            &&& text_field(last_value_of(kvs, "name"@), m.name)
            &&& role_field(last_value_of(kvs, "role"@), m.role)
            &&& flag_field(last_value_of(kvs, "suspended"@), m.suspended)
            &&& text_field(last_value_of(kvs, "write-ordering"@), m.write_ordering)
            &&& flag_field(last_value_of(kvs, "force-io-failures"@), m.force_io_failures)
            &&& flag_field(last_value_of(kvs, "may_promote"@), m.may_promote)
            &&& i32_field(last_value_of(kvs, "promotion_score"@), m.promotion_score)
            &&& m.devices == Seq::<DeviceModel>::empty()
            &&& m.connections == Seq::<ConnectionModel>::empty()
        },
{
    reveal_strlit("resource");
    assert("resource"@.len() == 8);
    let kvs = ws.skip(2);
    if apply_words::<Resource>(kvs) is Ok {
        lemma_resource_name(kvs);
        lemma_resource_role(kvs);
        lemma_resource_suspended(kvs);
        lemma_resource_write_ordering(kvs);
        lemma_resource_force_io_failures(kvs);
        lemma_resource_may_promote(kvs);
        lemma_resource_promotion_score(kvs);
        lemma_resource_devices(kvs);
        lemma_resource_connections(kvs);
    }
}

proof fn lemma_device_name(ws: Seq<Seq<char>>)
    requires
        apply_words::<Device>(ws) is Ok,
    ensures
        text_field(last_value_of(ws, "name"@), apply_words::<Device>(ws)->Ok_0.name),
{
    reveal_strlit("name");
    assert("name"@.len() == 4);
    let proj = |m: DeviceModel| m.name;
    let read = |v: Seq<char>| Some(v);
    assert forall|m: DeviceModel, v: Seq<char>|
        (#[trigger] Device::spec_apply(m, "name"@, v)) is Ok implies read(v) == Some(
        proj(Device::spec_apply(m, "name"@, v)->Ok_0),
    ) by {}
    assert forall|m: DeviceModel, k: Seq<char>, v: Seq<char>|
        k != "name"@ && (#[trigger] Device::spec_apply(m, k, v)) is Ok implies proj(
        Device::spec_apply(m, k, v)->Ok_0,
    ) == proj(m) by {}
    lemma_field_follows_last_value::<Device, Seq<char>>(ws, "name"@, proj, read);
}

proof fn lemma_device_volume(ws: Seq<Seq<char>>)
    requires
        apply_words::<Device>(ws) is Ok,
    ensures
        i32_field(last_value_of(ws, "volume"@), apply_words::<Device>(ws)->Ok_0.volume),
{
    reveal_strlit("name");
    reveal_strlit("volume");
    assert("name"@.len() == 4);
    assert("volume"@.len() == 6);
    let proj = |m: DeviceModel| m.volume;
    let read = |v: Seq<char>| spec_parse_i32(v);
    assert forall|m: DeviceModel, v: Seq<char>|
        (#[trigger] Device::spec_apply(m, "volume"@, v)) is Ok implies read(v) == Some(
        proj(Device::spec_apply(m, "volume"@, v)->Ok_0),
    ) by {}
    assert forall|m: DeviceModel, k: Seq<char>, v: Seq<char>|
        k != "volume"@ && (#[trigger] Device::spec_apply(m, k, v)) is Ok implies proj(
        Device::spec_apply(m, k, v)->Ok_0,
    ) == proj(m) by {}
    lemma_field_follows_last_value::<Device, i32>(ws, "volume"@, proj, read);
}

proof fn lemma_device_minor(ws: Seq<Seq<char>>)
    requires
        apply_words::<Device>(ws) is Ok,
    ensures
        i32_field(last_value_of(ws, "minor"@), apply_words::<Device>(ws)->Ok_0.minor),
{
    reveal_strlit("name");
    reveal_strlit("volume");
    reveal_strlit("minor");
    assert("name"@.len() == 4);
    assert("volume"@.len() == 6);
    assert("minor"@.len() == 5);
    let proj = |m: DeviceModel| m.minor;
    let read = |v: Seq<char>| spec_parse_i32(v);
    assert forall|m: DeviceModel, v: Seq<char>|
        (#[trigger] Device::spec_apply(m, "minor"@, v)) is Ok implies read(v) == Some(
        proj(Device::spec_apply(m, "minor"@, v)->Ok_0),
    ) by {}
    assert forall|m: DeviceModel, k: Seq<char>, v: Seq<char>|
        k != "minor"@ && (#[trigger] Device::spec_apply(m, k, v)) is Ok implies proj(
        Device::spec_apply(m, k, v)->Ok_0,
    ) == proj(m) by {}
    lemma_field_follows_last_value::<Device, i32>(ws, "minor"@, proj, read);
}

proof fn lemma_device_disk_state(ws: Seq<Seq<char>>)
    requires
        apply_words::<Device>(ws) is Ok,
    ensures
        disk_state_field(last_value_of(ws, "disk"@), apply_words::<Device>(ws)->Ok_0.disk_state),
{
    reveal_strlit("name");
    reveal_strlit("volume");
    reveal_strlit("minor");
    reveal_strlit("disk");
    assert("name"@.len() == 4);
    assert("volume"@.len() == 6);
    assert("minor"@.len() == 5);
    assert("disk"@.len() == 4);
    assert("name"@[0] != "disk"@[0]);
    let proj = |m: DeviceModel| m.disk_state;
    let read = |v: Seq<char>| DiskState::spec_from_keyword(v);
    assert forall|m: DeviceModel, v: Seq<char>|
        (#[trigger] Device::spec_apply(m, "disk"@, v)) is Ok implies read(v) == Some(
        proj(Device::spec_apply(m, "disk"@, v)->Ok_0),
    ) by {}
    assert forall|m: DeviceModel, k: Seq<char>, v: Seq<char>|
        k != "disk"@ && (#[trigger] Device::spec_apply(m, k, v)) is Ok implies proj(
        Device::spec_apply(m, k, v)->Ok_0,
    ) == proj(m) by {}
    lemma_field_follows_last_value::<Device, DiskState>(ws, "disk"@, proj, read);
    if let Some(v) = last_value_of(ws, "disk"@) {
        law_disk_state_keywords(v, apply_words::<Device>(ws)->Ok_0.disk_state);
    }
}

proof fn lemma_device_client(ws: Seq<Seq<char>>)
    requires
        apply_words::<Device>(ws) is Ok,
    ensures
        flag_field(last_value_of(ws, "client"@), apply_words::<Device>(ws)->Ok_0.client),
{
    reveal_strlit("name");
    reveal_strlit("volume");
    reveal_strlit("minor");
    reveal_strlit("disk");
    reveal_strlit("client");
    assert("name"@.len() == 4);
    assert("volume"@.len() == 6);
    assert("minor"@.len() == 5);
    assert("disk"@.len() == 4);
    assert("client"@.len() == 6);
    assert("volume"@[0] != "client"@[0]);
    let proj = |m: DeviceModel| m.client;
    let read = |v: Seq<char>| Some(!(v == "no"@ || v == "false"@));
    assert forall|m: DeviceModel, v: Seq<char>|
        (#[trigger] Device::spec_apply(m, "client"@, v)) is Ok implies read(v) == Some(
        proj(Device::spec_apply(m, "client"@, v)->Ok_0),
    ) by {}
    assert forall|m: DeviceModel, k: Seq<char>, v: Seq<char>|
        k != "client"@ && (#[trigger] Device::spec_apply(m, k, v)) is Ok implies proj(
        Device::spec_apply(m, k, v)->Ok_0,
    ) == proj(m) by {}
    lemma_field_follows_last_value::<Device, bool>(ws, "client"@, proj, read);
}

proof fn lemma_device_backing_dev(ws: Seq<Seq<char>>)
    requires
        apply_words::<Device>(ws) is Ok,
    ensures
        backing_field(last_value_of(ws, "backing_dev"@), apply_words::<Device>(ws)->Ok_0.backing_dev),
{
    reveal_strlit("name");
    reveal_strlit("volume");
    reveal_strlit("minor");
    reveal_strlit("disk");
    reveal_strlit("client");
    reveal_strlit("backing_dev");
    assert("name"@.len() == 4);
    assert("volume"@.len() == 6);
    assert("minor"@.len() == 5);
    assert("disk"@.len() == 4);
    assert("client"@.len() == 6);
    assert("backing_dev"@.len() == 11);
    let proj = |m: DeviceModel| m.backing_dev;
    let read = |v: Seq<char>| Some(if v == "none"@ { None } else { Some(v) });
    assert forall|m: DeviceModel, v: Seq<char>|
        (#[trigger] Device::spec_apply(m, "backing_dev"@, v)) is Ok implies read(v) == Some(
        proj(Device::spec_apply(m, "backing_dev"@, v)->Ok_0),
    ) by {}
    assert forall|m: DeviceModel, k: Seq<char>, v: Seq<char>|
        k != "backing_dev"@ && (#[trigger] Device::spec_apply(m, k, v)) is Ok implies proj(
        Device::spec_apply(m, k, v)->Ok_0,
    ) == proj(m) by {}
    lemma_field_follows_last_value::<Device, Option<Seq<char>>>(ws, "backing_dev"@, proj, read);
}

proof fn lemma_device_quorum(ws: Seq<Seq<char>>)
    requires
        apply_words::<Device>(ws) is Ok,
    ensures
        flag_field(last_value_of(ws, "quorum"@), apply_words::<Device>(ws)->Ok_0.quorum),
{
    reveal_strlit("name");
    reveal_strlit("volume");
    reveal_strlit("minor");
    reveal_strlit("disk");
    reveal_strlit("client");
    reveal_strlit("backing_dev");
    reveal_strlit("quorum");
    assert("name"@.len() == 4);
    assert("volume"@.len() == 6);
    assert("minor"@.len() == 5);
    assert("disk"@.len() == 4);
    assert("client"@.len() == 6);
    assert("backing_dev"@.len() == 11);
    assert("quorum"@.len() == 6);
    assert("volume"@[0] != "quorum"@[0]);
    assert("client"@[0] != "quorum"@[0]);
    let proj = |m: DeviceModel| m.quorum;
    let read = |v: Seq<char>| Some(!(v == "no"@ || v == "false"@));
    assert forall|m: DeviceModel, v: Seq<char>|
        (#[trigger] Device::spec_apply(m, "quorum"@, v)) is Ok implies read(v) == Some(
        proj(Device::spec_apply(m, "quorum"@, v)->Ok_0),
    ) by {}
    assert forall|m: DeviceModel, k: Seq<char>, v: Seq<char>|
        k != "quorum"@ && (#[trigger] Device::spec_apply(m, k, v)) is Ok implies proj(
        Device::spec_apply(m, k, v)->Ok_0,
    ) == proj(m) by {}
    lemma_field_follows_last_value::<Device, bool>(ws, "quorum"@, proj, read);
}

proof fn lemma_device_size(ws: Seq<Seq<char>>)
    requires
        apply_words::<Device>(ws) is Ok,
    ensures
        u64_field(last_value_of(ws, "size"@), apply_words::<Device>(ws)->Ok_0.size),
{
    reveal_strlit("name");
    reveal_strlit("volume");
    reveal_strlit("minor");
    reveal_strlit("disk");
    reveal_strlit("client");
    reveal_strlit("backing_dev");
    reveal_strlit("quorum");
    reveal_strlit("size");
    assert("name"@.len() == 4);
    assert("volume"@.len() == 6);
    assert("minor"@.len() == 5);
    assert("disk"@.len() == 4);
    assert("client"@.len() == 6);
    assert("backing_dev"@.len() == 11);
    assert("quorum"@.len() == 6);
    assert("size"@.len() == 4);
    assert("name"@[0] != "size"@[0]);
    assert("disk"@[0] != "size"@[0]);
    let proj = |m: DeviceModel| m.size;
    let read = |v: Seq<char>| spec_parse_u64(v);
    assert forall|m: DeviceModel, v: Seq<char>|
        (#[trigger] Device::spec_apply(m, "size"@, v)) is Ok implies read(v) == Some(
        proj(Device::spec_apply(m, "size"@, v)->Ok_0),
    ) by {}
    assert forall|m: DeviceModel, k: Seq<char>, v: Seq<char>|
        k != "size"@ && (#[trigger] Device::spec_apply(m, k, v)) is Ok implies proj(
        Device::spec_apply(m, k, v)->Ok_0,
    ) == proj(m) by {}
    lemma_field_follows_last_value::<Device, u64>(ws, "size"@, proj, read);
}

proof fn lemma_device_read(ws: Seq<Seq<char>>)
    requires
        apply_words::<Device>(ws) is Ok,
    ensures
        u64_field(last_value_of(ws, "read"@), apply_words::<Device>(ws)->Ok_0.read),
{
    reveal_strlit("name");
    reveal_strlit("volume");
    reveal_strlit("minor");
    reveal_strlit("disk");
    reveal_strlit("client");
    reveal_strlit("backing_dev");
    reveal_strlit("quorum");
    reveal_strlit("size");
    reveal_strlit("read");
    assert("name"@.len() == 4);
    assert("volume"@.len() == 6);
    assert("minor"@.len() == 5);
    assert("disk"@.len() == 4);
    assert("client"@.len() == 6);
    assert("backing_dev"@.len() == 11);
    assert("quorum"@.len() == 6);
    assert("size"@.len() == 4);
    assert("read"@.len() == 4);
    assert("name"@[0] != "read"@[0]);
    assert("disk"@[0] != "read"@[0]);
    assert("size"@[0] != "read"@[0]);
    let proj = |m: DeviceModel| m.read;
    let read = |v: Seq<char>| spec_parse_u64(v);
    assert forall|m: DeviceModel, v: Seq<char>|
        (#[trigger] Device::spec_apply(m, "read"@, v)) is Ok implies read(v) == Some(
        proj(Device::spec_apply(m, "read"@, v)->Ok_0),
    ) by {}
    assert forall|m: DeviceModel, k: Seq<char>, v: Seq<char>|
        k != "read"@ && (#[trigger] Device::spec_apply(m, k, v)) is Ok implies proj(
        Device::spec_apply(m, k, v)->Ok_0,
    ) == proj(m) by {}
    lemma_field_follows_last_value::<Device, u64>(ws, "read"@, proj, read);
}

proof fn lemma_device_written(ws: Seq<Seq<char>>)
    requires
        apply_words::<Device>(ws) is Ok,
    ensures
        u64_field(last_value_of(ws, "written"@), apply_words::<Device>(ws)->Ok_0.written),
{
    reveal_strlit("name");
    reveal_strlit("volume");
    reveal_strlit("minor");
    reveal_strlit("disk");
    reveal_strlit("client");
    reveal_strlit("backing_dev");
    reveal_strlit("quorum");
    reveal_strlit("size");
    reveal_strlit("read");
    reveal_strlit("written");
    assert("name"@.len() == 4);
    assert("volume"@.len() == 6);
    assert("minor"@.len() == 5);
    assert("disk"@.len() == 4);
    assert("client"@.len() == 6);
    assert("backing_dev"@.len() == 11);
    assert("quorum"@.len() == 6);
    assert("size"@.len() == 4);
    assert("read"@.len() == 4);
    assert("written"@.len() == 7);
    let proj = |m: DeviceModel| m.written;
    let read = |v: Seq<char>| spec_parse_u64(v);
    assert forall|m: DeviceModel, v: Seq<char>|
        (#[trigger] Device::spec_apply(m, "written"@, v)) is Ok implies read(v) == Some(
        proj(Device::spec_apply(m, "written"@, v)->Ok_0),
    ) by {}
    assert forall|m: DeviceModel, k: Seq<char>, v: Seq<char>|
        k != "written"@ && (#[trigger] Device::spec_apply(m, k, v)) is Ok implies proj(
        Device::spec_apply(m, k, v)->Ok_0,
    ) == proj(m) by {}
    lemma_field_follows_last_value::<Device, u64>(ws, "written"@, proj, read);
}

proof fn lemma_device_al_writes(ws: Seq<Seq<char>>)
    requires
        apply_words::<Device>(ws) is Ok,
    ensures
        u64_field(last_value_of(ws, "al-writes"@), apply_words::<Device>(ws)->Ok_0.al_writes),
{
    reveal_strlit("name");
    reveal_strlit("volume");
    reveal_strlit("minor");
    reveal_strlit("disk");
    reveal_strlit("client");
    reveal_strlit("backing_dev");
    reveal_strlit("quorum");
    reveal_strlit("size");
    reveal_strlit("read");
    reveal_strlit("written");
    reveal_strlit("al-writes");
    assert("name"@.len() == 4);
    assert("volume"@.len() == 6);
    assert("minor"@.len() == 5);
    assert("disk"@.len() == 4);
    assert("client"@.len() == 6);
    assert("backing_dev"@.len() == 11);
    assert("quorum"@.len() == 6);
    assert("size"@.len() == 4);
    assert("read"@.len() == 4);
    assert("written"@.len() == 7);
    assert("al-writes"@.len() == 9);
    let proj = |m: DeviceModel| m.al_writes;
    let read = |v: Seq<char>| spec_parse_u64(v);
    assert forall|m: DeviceModel, v: Seq<char>|
        (#[trigger] Device::spec_apply(m, "al-writes"@, v)) is Ok implies read(v) == Some(
        proj(Device::spec_apply(m, "al-writes"@, v)->Ok_0),
    ) by {}
    assert forall|m: DeviceModel, k: Seq<char>, v: Seq<char>|
        k != "al-writes"@ && (#[trigger] Device::spec_apply(m, k, v)) is Ok implies proj(
        Device::spec_apply(m, k, v)->Ok_0,
    ) == proj(m) by {}
    lemma_field_follows_last_value::<Device, u64>(ws, "al-writes"@, proj, read);
}

proof fn lemma_device_bm_writes(ws: Seq<Seq<char>>)
    requires
        apply_words::<Device>(ws) is Ok,
    ensures
        u64_field(last_value_of(ws, "bm-writes"@), apply_words::<Device>(ws)->Ok_0.bm_writes),
{
    reveal_strlit("name");
    reveal_strlit("volume");
    reveal_strlit("minor");
    reveal_strlit("disk");
    reveal_strlit("client");
    reveal_strlit("backing_dev");
    reveal_strlit("quorum");
    reveal_strlit("size");
    reveal_strlit("read");
    reveal_strlit("written");
    reveal_strlit("al-writes");
    reveal_strlit("bm-writes");
    assert("name"@.len() == 4);
    assert("volume"@.len() == 6);
    assert("minor"@.len() == 5);
    assert("disk"@.len() == 4);
    assert("client"@.len() == 6);
    assert("backing_dev"@.len() == 11);
    assert("quorum"@.len() == 6);
    assert("size"@.len() == 4);
    assert("read"@.len() == 4);
    assert("written"@.len() == 7);
    assert("al-writes"@.len() == 9);
    assert("bm-writes"@.len() == 9);
    assert("al-writes"@[0] != "bm-writes"@[0]);
    let proj = |m: DeviceModel| m.bm_writes;
    let read = |v: Seq<char>| spec_parse_u64(v);
    assert forall|m: DeviceModel, v: Seq<char>|
        (#[trigger] Device::spec_apply(m, "bm-writes"@, v)) is Ok implies read(v) == Some(
        proj(Device::spec_apply(m, "bm-writes"@, v)->Ok_0),
    ) by {}
    assert forall|m: DeviceModel, k: Seq<char>, v: Seq<char>|
        k != "bm-writes"@ && (#[trigger] Device::spec_apply(m, k, v)) is Ok implies proj(
        Device::spec_apply(m, k, v)->Ok_0,
    ) == proj(m) by {}
    lemma_field_follows_last_value::<Device, u64>(ws, "bm-writes"@, proj, read);
}

proof fn lemma_device_upper_pending(ws: Seq<Seq<char>>)
    requires
        apply_words::<Device>(ws) is Ok,
    ensures
        u64_field(last_value_of(ws, "upper-pending"@), apply_words::<Device>(ws)->Ok_0.upper_pending),
{
    reveal_strlit("name");
    reveal_strlit("volume");
    reveal_strlit("minor");
    reveal_strlit("disk");
    reveal_strlit("client");
    reveal_strlit("backing_dev");
    reveal_strlit("quorum");
    reveal_strlit("size");
    reveal_strlit("read");
    reveal_strlit("written");
    reveal_strlit("al-writes");
    reveal_strlit("bm-writes");
    reveal_strlit("upper-pending");
    assert("name"@.len() == 4);
    assert("volume"@.len() == 6);
    assert("minor"@.len() == 5);
    assert("disk"@.len() == 4);
    assert("client"@.len() == 6);
    assert("backing_dev"@.len() == 11);
    assert("quorum"@.len() == 6);
    assert("size"@.len() == 4);
    assert("read"@.len() == 4);
    assert("written"@.len() == 7);
    assert("al-writes"@.len() == 9);
    assert("bm-writes"@.len() == 9);
    assert("upper-pending"@.len() == 13);
    let proj = |m: DeviceModel| m.upper_pending;
    let read = |v: Seq<char>| spec_parse_u64(v);
    assert forall|m: DeviceModel, v: Seq<char>|
        (#[trigger] Device::spec_apply(m, "upper-pending"@, v)) is Ok implies read(v) == Some(
        proj(Device::spec_apply(m, "upper-pending"@, v)->Ok_0),
    ) by {}
    assert forall|m: DeviceModel, k: Seq<char>, v: Seq<char>|
        k != "upper-pending"@ && (#[trigger] Device::spec_apply(m, k, v)) is Ok implies proj(
        Device::spec_apply(m, k, v)->Ok_0,
    ) == proj(m) by {}
    lemma_field_follows_last_value::<Device, u64>(ws, "upper-pending"@, proj, read);
}

proof fn lemma_device_lower_pending(ws: Seq<Seq<char>>)
    requires
        apply_words::<Device>(ws) is Ok,
    ensures
        u64_field(last_value_of(ws, "lower-pending"@), apply_words::<Device>(ws)->Ok_0.lower_pending),
{
    reveal_strlit("name");
    reveal_strlit("volume");
    reveal_strlit("minor");
    reveal_strlit("disk");
    reveal_strlit("client");
    reveal_strlit("backing_dev");
    reveal_strlit("quorum");
    reveal_strlit("size");
    reveal_strlit("read");
    reveal_strlit("written");
    reveal_strlit("al-writes");
    reveal_strlit("bm-writes");
    reveal_strlit("upper-pending");
    reveal_strlit("lower-pending");
    assert("name"@.len() == 4);
    assert("volume"@.len() == 6);
    assert("minor"@.len() == 5);
    assert("disk"@.len() == 4);
    assert("client"@.len() == 6);
    assert("backing_dev"@.len() == 11);
    assert("quorum"@.len() == 6);
    assert("size"@.len() == 4);
    assert("read"@.len() == 4);
    assert("written"@.len() == 7);
    assert("al-writes"@.len() == 9);
    assert("bm-writes"@.len() == 9);
    assert("upper-pending"@.len() == 13);
    assert("lower-pending"@.len() == 13);
    assert("upper-pending"@[0] != "lower-pending"@[0]);
    let proj = |m: DeviceModel| m.lower_pending;
    let read = |v: Seq<char>| spec_parse_u64(v);
    assert forall|m: DeviceModel, v: Seq<char>|
        (#[trigger] Device::spec_apply(m, "lower-pending"@, v)) is Ok implies read(v) == Some(
        proj(Device::spec_apply(m, "lower-pending"@, v)->Ok_0),
    ) by {}
    assert forall|m: DeviceModel, k: Seq<char>, v: Seq<char>|
        k != "lower-pending"@ && (#[trigger] Device::spec_apply(m, k, v)) is Ok implies proj(
        Device::spec_apply(m, k, v)->Ok_0,
    ) == proj(m) by {}
    lemma_field_follows_last_value::<Device, u64>(ws, "lower-pending"@, proj, read);
}

proof fn lemma_device_al_suspended(ws: Seq<Seq<char>>)
    requires
        apply_words::<Device>(ws) is Ok,
    ensures
        flag_field(last_value_of(ws, "al-suspended"@), apply_words::<Device>(ws)->Ok_0.al_suspended),
{
    reveal_strlit("name");
    reveal_strlit("volume");
    reveal_strlit("minor");
    reveal_strlit("disk");
    reveal_strlit("client");
    reveal_strlit("backing_dev");
    reveal_strlit("quorum");
    reveal_strlit("size");
    reveal_strlit("read");
    reveal_strlit("written");
    reveal_strlit("al-writes");
    reveal_strlit("bm-writes");
    reveal_strlit("upper-pending");
    reveal_strlit("lower-pending");
    reveal_strlit("al-suspended");
    assert("name"@.len() == 4);
    assert("volume"@.len() == 6);
    assert("minor"@.len() == 5);
    assert("disk"@.len() == 4);
    assert("client"@.len() == 6);
    assert("backing_dev"@.len() == 11);
    assert("quorum"@.len() == 6);
    assert("size"@.len() == 4);
    assert("read"@.len() == 4);
    assert("written"@.len() == 7);
    assert("al-writes"@.len() == 9);
    assert("bm-writes"@.len() == 9);
    assert("upper-pending"@.len() == 13);
    assert("lower-pending"@.len() == 13);
    assert("al-suspended"@.len() == 12);
    let proj = |m: DeviceModel| m.al_suspended;
    let read = |v: Seq<char>| Some(!(v == "no"@ || v == "false"@));
    assert forall|m: DeviceModel, v: Seq<char>|
        (#[trigger] Device::spec_apply(m, "al-suspended"@, v)) is Ok implies read(v) == Some(
        proj(Device::spec_apply(m, "al-suspended"@, v)->Ok_0),
    ) by {}
    assert forall|m: DeviceModel, k: Seq<char>, v: Seq<char>|
        k != "al-suspended"@ && (#[trigger] Device::spec_apply(m, k, v)) is Ok implies proj(
        Device::spec_apply(m, k, v)->Ok_0,
    ) == proj(m) by {}
    lemma_field_follows_last_value::<Device, bool>(ws, "al-suspended"@, proj, read);
}

proof fn lemma_device_blocked(ws: Seq<Seq<char>>)
    requires
        apply_words::<Device>(ws) is Ok,
    ensures
        text_field(last_value_of(ws, "blocked"@), apply_words::<Device>(ws)->Ok_0.blocked),
{
    reveal_strlit("name");
    reveal_strlit("volume");
    reveal_strlit("minor");
    reveal_strlit("disk");
    reveal_strlit("client");
    reveal_strlit("backing_dev");
    reveal_strlit("quorum");
    reveal_strlit("size");
    reveal_strlit("read");
    reveal_strlit("written");
    reveal_strlit("al-writes");
    reveal_strlit("bm-writes");
    reveal_strlit("upper-pending");
    reveal_strlit("lower-pending");
    reveal_strlit("al-suspended");
    reveal_strlit("blocked");
    assert("name"@.len() == 4);
    assert("volume"@.len() == 6);
    assert("minor"@.len() == 5);
    assert("disk"@.len() == 4);
    assert("client"@.len() == 6);
    assert("backing_dev"@.len() == 11);
    assert("quorum"@.len() == 6);
    assert("size"@.len() == 4);
    assert("read"@.len() == 4);
    assert("written"@.len() == 7);
    assert("al-writes"@.len() == 9);
    assert("bm-writes"@.len() == 9);
    assert("upper-pending"@.len() == 13);
    assert("lower-pending"@.len() == 13);
    assert("al-suspended"@.len() == 12);
    assert("blocked"@.len() == 7);
    assert("written"@[0] != "blocked"@[0]);
    let proj = |m: DeviceModel| m.blocked;
    let read = |v: Seq<char>| Some(v);
    assert forall|m: DeviceModel, v: Seq<char>|
        (#[trigger] Device::spec_apply(m, "blocked"@, v)) is Ok implies read(v) == Some(
        proj(Device::spec_apply(m, "blocked"@, v)->Ok_0),
    ) by {}
    assert forall|m: DeviceModel, k: Seq<char>, v: Seq<char>|
        k != "blocked"@ && (#[trigger] Device::spec_apply(m, k, v)) is Ok implies proj(
        Device::spec_apply(m, k, v)->Ok_0,
    ) == proj(m) by {}
    lemma_field_follows_last_value::<Device, Seq<char>>(ws, "blocked"@, proj, read);
}

/// Every field of a device that a line reports is read from the last word
/// that names its key (texts as given, flags false only for `no` and `false`,
/// numbers in decimal, states by their names), and keeps its default when no
/// word names it. This holds of the words of any line: `words(line)`.
pub proof fn law_device_fields(ws: Seq<Seq<char>>)
    requires
        ws.len() >= 2,
        ws[1] == "device"@,
    ensures
        spec_parse_words(ws) matches Ok(EventUpdateModel::Device(_, m)) ==> {
            let kvs = ws.skip(2);
            &&& text_field(last_value_of(kvs, "name"@), m.name)
            &&& i32_field(last_value_of(kvs, "volume"@), m.volume)
            &&& i32_field(last_value_of(kvs, "minor"@), m.minor)
            &&& disk_state_field(last_value_of(kvs, "disk"@), m.disk_state)
            &&& flag_field(last_value_of(kvs, "client"@), m.client)
            &&& backing_field(last_value_of(kvs, "backing_dev"@), m.backing_dev)
            &&& flag_field(last_value_of(kvs, "quorum"@), m.quorum)
            &&& u64_field(last_value_of(kvs, "size"@), m.size)
            &&& u64_field(last_value_of(kvs, "read"@), m.read)
            &&& u64_field(last_value_of(kvs, "written"@), m.written)
            &&& u64_field(last_value_of(kvs, "al-writes"@), m.al_writes)
            &&& u64_field(last_value_of(kvs, "bm-writes"@), m.bm_writes)
            &&& u64_field(last_value_of(kvs, "upper-pending"@), m.upper_pending)
            &&& u64_field(last_value_of(kvs, "lower-pending"@), m.lower_pending)
            &&& flag_field(last_value_of(kvs, "al-suspended"@), m.al_suspended)
            &&& text_field(last_value_of(kvs, "blocked"@), m.blocked)
        },
{
    reveal_strlit("resource");
    reveal_strlit("device");
    assert("resource"@.len() == 8);
    assert("device"@.len() == 6);
    let kvs = ws.skip(2);
    if apply_words::<Device>(kvs) is Ok {
        lemma_device_name(kvs);
        lemma_device_volume(kvs);
        lemma_device_minor(kvs);
        lemma_device_disk_state(kvs);
        lemma_device_client(kvs);
        lemma_device_backing_dev(kvs);
        lemma_device_quorum(kvs);
        lemma_device_size(kvs);
        lemma_device_read(kvs);
        lemma_device_written(kvs);
        lemma_device_al_writes(kvs);
        lemma_device_bm_writes(kvs);
        lemma_device_upper_pending(kvs);
        lemma_device_lower_pending(kvs);
        lemma_device_al_suspended(kvs);
        lemma_device_blocked(kvs);
    }
}

proof fn lemma_connection_name(ws: Seq<Seq<char>>)
    requires
        apply_words::<Connection>(ws) is Ok,
    ensures
        text_field(last_value_of(ws, "name"@), apply_words::<Connection>(ws)->Ok_0.name),
{
    reveal_strlit("name");
    assert("name"@.len() == 4);
    let proj = |m: ConnectionModel| m.name;
    let read = |v: Seq<char>| Some(v);
    assert forall|m: ConnectionModel, v: Seq<char>|
        (#[trigger] Connection::spec_apply(m, "name"@, v)) is Ok implies read(v) == Some(
        proj(Connection::spec_apply(m, "name"@, v)->Ok_0),
    ) by {}
    assert forall|m: ConnectionModel, k: Seq<char>, v: Seq<char>|
        k != "name"@ && (#[trigger] Connection::spec_apply(m, k, v)) is Ok implies proj(
        Connection::spec_apply(m, k, v)->Ok_0,
    ) == proj(m) by {}
    lemma_field_follows_last_value::<Connection, Seq<char>>(ws, "name"@, proj, read);
}

proof fn lemma_connection_peer_node_id(ws: Seq<Seq<char>>)
    requires
        apply_words::<Connection>(ws) is Ok,
    ensures
        i32_field(last_value_of(ws, "peer-node-id"@), apply_words::<Connection>(ws)->Ok_0.peer_node_id),
{
    reveal_strlit("name");
    reveal_strlit("peer-node-id");
    assert("name"@.len() == 4);
    assert("peer-node-id"@.len() == 12);
    let proj = |m: ConnectionModel| m.peer_node_id;
    let read = |v: Seq<char>| spec_parse_i32(v);
    assert forall|m: ConnectionModel, v: Seq<char>|
        (#[trigger] Connection::spec_apply(m, "peer-node-id"@, v)) is Ok implies read(v) == Some(
        proj(Connection::spec_apply(m, "peer-node-id"@, v)->Ok_0),
    ) by {}
    assert forall|m: ConnectionModel, k: Seq<char>, v: Seq<char>|
        k != "peer-node-id"@ && (#[trigger] Connection::spec_apply(m, k, v)) is Ok implies proj(
        Connection::spec_apply(m, k, v)->Ok_0,
    ) == proj(m) by {}
    lemma_field_follows_last_value::<Connection, i32>(ws, "peer-node-id"@, proj, read);
}

proof fn lemma_connection_conn_name(ws: Seq<Seq<char>>)
    requires
        apply_words::<Connection>(ws) is Ok,
    ensures
        text_field(last_value_of(ws, "conn-name"@), apply_words::<Connection>(ws)->Ok_0.conn_name),
{
    reveal_strlit("name");
    reveal_strlit("peer-node-id");
    reveal_strlit("conn-name");
    assert("name"@.len() == 4);
    assert("peer-node-id"@.len() == 12);
    assert("conn-name"@.len() == 9);
    let proj = |m: ConnectionModel| m.conn_name;
    let read = |v: Seq<char>| Some(v);
    assert forall|m: ConnectionModel, v: Seq<char>|
        (#[trigger] Connection::spec_apply(m, "conn-name"@, v)) is Ok implies read(v) == Some(
        proj(Connection::spec_apply(m, "conn-name"@, v)->Ok_0),
    ) by {}
    assert forall|m: ConnectionModel, k: Seq<char>, v: Seq<char>|
        k != "conn-name"@ && (#[trigger] Connection::spec_apply(m, k, v)) is Ok implies proj(
        Connection::spec_apply(m, k, v)->Ok_0,
    ) == proj(m) by {}
    lemma_field_follows_last_value::<Connection, Seq<char>>(ws, "conn-name"@, proj, read);
}

proof fn lemma_connection_connection(ws: Seq<Seq<char>>)
    requires
        apply_words::<Connection>(ws) is Ok,
    ensures
        connection_state_field(last_value_of(ws, "connection"@), apply_words::<Connection>(ws)->Ok_0.connection),
{
    reveal_strlit("name");
    reveal_strlit("peer-node-id");
    reveal_strlit("conn-name");
    reveal_strlit("connection");
    assert("name"@.len() == 4);
    assert("peer-node-id"@.len() == 12);
    assert("conn-name"@.len() == 9);
    assert("connection"@.len() == 10);
    let proj = |m: ConnectionModel| m.connection;
    let read = |v: Seq<char>| ConnectionState::spec_from_keyword(v);
    assert forall|m: ConnectionModel, v: Seq<char>|
        (#[trigger] Connection::spec_apply(m, "connection"@, v)) is Ok implies read(v) == Some(
        proj(Connection::spec_apply(m, "connection"@, v)->Ok_0),
    ) by {}
    assert forall|m: ConnectionModel, k: Seq<char>, v: Seq<char>|
        k != "connection"@ && (#[trigger] Connection::spec_apply(m, k, v)) is Ok implies proj(
        Connection::spec_apply(m, k, v)->Ok_0,
    ) == proj(m) by {}
    lemma_field_follows_last_value::<Connection, ConnectionState>(ws, "connection"@, proj, read);
    if let Some(v) = last_value_of(ws, "connection"@) {
        law_connection_state_keywords(v, apply_words::<Connection>(ws)->Ok_0.connection);
    }
}

proof fn lemma_connection_peer_role(ws: Seq<Seq<char>>)
    requires
        apply_words::<Connection>(ws) is Ok,
    ensures
        role_field(last_value_of(ws, "role"@), apply_words::<Connection>(ws)->Ok_0.peer_role),
{
    reveal_strlit("name");
    reveal_strlit("peer-node-id");
    reveal_strlit("conn-name");
    reveal_strlit("connection");
    reveal_strlit("role");
    assert("name"@.len() == 4);
    assert("peer-node-id"@.len() == 12);
    assert("conn-name"@.len() == 9);
    assert("connection"@.len() == 10);
    assert("role"@.len() == 4);
    assert("name"@[0] != "role"@[0]);
    let proj = |m: ConnectionModel| m.peer_role;
    let read = |v: Seq<char>| Role::spec_from_keyword(v);
    assert forall|m: ConnectionModel, v: Seq<char>|
        (#[trigger] Connection::spec_apply(m, "role"@, v)) is Ok implies read(v) == Some(
        proj(Connection::spec_apply(m, "role"@, v)->Ok_0),
    ) by {}
    assert forall|m: ConnectionModel, k: Seq<char>, v: Seq<char>|
        k != "role"@ && (#[trigger] Connection::spec_apply(m, k, v)) is Ok implies proj(
        Connection::spec_apply(m, k, v)->Ok_0,
    ) == proj(m) by {}
    lemma_field_follows_last_value::<Connection, Role>(ws, "role"@, proj, read);
    if let Some(v) = last_value_of(ws, "role"@) {
        law_role_keywords(v, apply_words::<Connection>(ws)->Ok_0.peer_role);
    }
}

proof fn lemma_connection_congested(ws: Seq<Seq<char>>)
    requires
        apply_words::<Connection>(ws) is Ok,
    ensures
        flag_field(last_value_of(ws, "congested"@), apply_words::<Connection>(ws)->Ok_0.congested),
{
    reveal_strlit("name");
    reveal_strlit("peer-node-id");
    reveal_strlit("conn-name");
    reveal_strlit("connection");
    reveal_strlit("role");
    reveal_strlit("congested");
    assert("name"@.len() == 4);
    assert("peer-node-id"@.len() == 12);
    assert("conn-name"@.len() == 9);
    assert("connection"@.len() == 10);
    assert("role"@.len() == 4);
    assert("congested"@.len() == 9);
    assert("conn-name"@[3] != "congested"@[3]);
    let proj = |m: ConnectionModel| m.congested;
    let read = |v: Seq<char>| Some(!(v == "no"@ || v == "false"@));
    assert forall|m: ConnectionModel, v: Seq<char>|
        (#[trigger] Connection::spec_apply(m, "congested"@, v)) is Ok implies read(v) == Some(
        proj(Connection::spec_apply(m, "congested"@, v)->Ok_0),
    ) by {}
    assert forall|m: ConnectionModel, k: Seq<char>, v: Seq<char>|
        k != "congested"@ && (#[trigger] Connection::spec_apply(m, k, v)) is Ok implies proj(
        Connection::spec_apply(m, k, v)->Ok_0,
    ) == proj(m) by {}
    lemma_field_follows_last_value::<Connection, bool>(ws, "congested"@, proj, read);
}

proof fn lemma_connection_ap_in_flight(ws: Seq<Seq<char>>)
    requires
        apply_words::<Connection>(ws) is Ok,
    ensures
        u64_field(last_value_of(ws, "ap-in-flight"@), apply_words::<Connection>(ws)->Ok_0.ap_in_flight),
{
    reveal_strlit("name");
    reveal_strlit("peer-node-id");
    reveal_strlit("conn-name");
    reveal_strlit("connection");
    reveal_strlit("role");
    reveal_strlit("congested");
    reveal_strlit("ap-in-flight");
    assert("name"@.len() == 4);
    assert("peer-node-id"@.len() == 12);
    assert("conn-name"@.len() == 9);
    assert("connection"@.len() == 10);
    assert("role"@.len() == 4);
    assert("congested"@.len() == 9);
    assert("ap-in-flight"@.len() == 12);
    assert("peer-node-id"@[0] != "ap-in-flight"@[0]);
    let proj = |m: ConnectionModel| m.ap_in_flight;
    let read = |v: Seq<char>| spec_parse_u64(v);
    assert forall|m: ConnectionModel, v: Seq<char>|
        (#[trigger] Connection::spec_apply(m, "ap-in-flight"@, v)) is Ok implies read(v) == Some(
        proj(Connection::spec_apply(m, "ap-in-flight"@, v)->Ok_0),
    ) by {}
    assert forall|m: ConnectionModel, k: Seq<char>, v: Seq<char>|
        k != "ap-in-flight"@ && (#[trigger] Connection::spec_apply(m, k, v)) is Ok implies proj(
        Connection::spec_apply(m, k, v)->Ok_0,
    ) == proj(m) by {}
    lemma_field_follows_last_value::<Connection, u64>(ws, "ap-in-flight"@, proj, read);
}

proof fn lemma_connection_rs_in_flight(ws: Seq<Seq<char>>)
    requires
        apply_words::<Connection>(ws) is Ok,
    ensures
        u64_field(last_value_of(ws, "rs-in-flight"@), apply_words::<Connection>(ws)->Ok_0.rs_in_flight),
{
    reveal_strlit("name");
    reveal_strlit("peer-node-id");
    reveal_strlit("conn-name");
    reveal_strlit("connection");
    reveal_strlit("role");
    reveal_strlit("congested");
    reveal_strlit("ap-in-flight");
    reveal_strlit("rs-in-flight");
    assert("name"@.len() == 4);
    assert("peer-node-id"@.len() == 12);
    assert("conn-name"@.len() == 9);
    assert("connection"@.len() == 10);
    assert("role"@.len() == 4);
    assert("congested"@.len() == 9);
    assert("ap-in-flight"@.len() == 12);
    assert("rs-in-flight"@.len() == 12);
    assert("peer-node-id"@[0] != "rs-in-flight"@[0]);
    assert("ap-in-flight"@[0] != "rs-in-flight"@[0]);
    let proj = |m: ConnectionModel| m.rs_in_flight;
    let read = |v: Seq<char>| spec_parse_u64(v);
    assert forall|m: ConnectionModel, v: Seq<char>|
        (#[trigger] Connection::spec_apply(m, "rs-in-flight"@, v)) is Ok implies read(v) == Some(
        proj(Connection::spec_apply(m, "rs-in-flight"@, v)->Ok_0),
    ) by {}
    assert forall|m: ConnectionModel, k: Seq<char>, v: Seq<char>|
        k != "rs-in-flight"@ && (#[trigger] Connection::spec_apply(m, k, v)) is Ok implies proj(
        Connection::spec_apply(m, k, v)->Ok_0,
    ) == proj(m) by {}
    lemma_field_follows_last_value::<Connection, u64>(ws, "rs-in-flight"@, proj, read);
}

proof fn lemma_connection_peerdevices(ws: Seq<Seq<char>>)
    requires
        apply_words::<Connection>(ws) is Ok,
    ensures
        apply_words::<Connection>(ws)->Ok_0.peerdevices == ConnectionModel::initial().peerdevices,
{
    let proj = |m: ConnectionModel| m.peerdevices;
    assert forall|m: ConnectionModel, k: Seq<char>, v: Seq<char>|
        (#[trigger] Connection::spec_apply(m, k, v)) is Ok implies proj(
        Connection::spec_apply(m, k, v)->Ok_0,
    ) == proj(m) by {}
    lemma_field_never_set::<Connection, _>(ws, proj);
}

proof fn lemma_connection_paths(ws: Seq<Seq<char>>)
    requires
        apply_words::<Connection>(ws) is Ok,
    ensures
        apply_words::<Connection>(ws)->Ok_0.paths == ConnectionModel::initial().paths,
{
    let proj = |m: ConnectionModel| m.paths;
    assert forall|m: ConnectionModel, k: Seq<char>, v: Seq<char>|
        (#[trigger] Connection::spec_apply(m, k, v)) is Ok implies proj(
        Connection::spec_apply(m, k, v)->Ok_0,
    ) == proj(m) by {}
    lemma_field_never_set::<Connection, _>(ws, proj);
}

/// Every field of a connection that a line reports is read from the last word
/// that names its key (texts as given, flags false only for `no` and `false`,
/// numbers in decimal, states by their names), and keeps its default when no
/// word names it. This holds of the words of any line: `words(line)`.
pub proof fn law_connection_fields(ws: Seq<Seq<char>>)
    requires
        ws.len() >= 2,
        ws[1] == "connection"@,
    ensures
        spec_parse_words(ws) matches Ok(EventUpdateModel::Connection(_, m)) ==> {
            let kvs = ws.skip(2);
            &&& text_field(last_value_of(kvs, "name"@), m.name)
            &&& i32_field(last_value_of(kvs, "peer-node-id"@), m.peer_node_id)
            &&& text_field(last_value_of(kvs, "conn-name"@), m.conn_name)
            &&& connection_state_field(last_value_of(kvs, "connection"@), m.connection)
            &&& role_field(last_value_of(kvs, "role"@), m.peer_role)
            &&& flag_field(last_value_of(kvs, "congested"@), m.congested)
            &&& u64_field(last_value_of(kvs, "ap-in-flight"@), m.ap_in_flight)
            &&& u64_field(last_value_of(kvs, "rs-in-flight"@), m.rs_in_flight)
            &&& m.peerdevices == Seq::<PeerDeviceModel>::empty()
            &&& m.paths == Seq::<PathModel>::empty()
        },
{
    reveal_strlit("resource");
    reveal_strlit("device");
    reveal_strlit("connection");
    assert("resource"@.len() == 8);
    assert("device"@.len() == 6);
    assert("connection"@.len() == 10);
    let kvs = ws.skip(2);
    if apply_words::<Connection>(kvs) is Ok {
        lemma_connection_name(kvs);
        lemma_connection_peer_node_id(kvs);
        lemma_connection_conn_name(kvs);
        lemma_connection_connection(kvs);
        lemma_connection_peer_role(kvs);
        lemma_connection_congested(kvs);
        lemma_connection_ap_in_flight(kvs);
        lemma_connection_rs_in_flight(kvs);
        lemma_connection_peerdevices(kvs);
        lemma_connection_paths(kvs);
    }
}

proof fn lemma_peer_device_name(ws: Seq<Seq<char>>)
    requires
        apply_words::<PeerDevice>(ws) is Ok,
    ensures
        text_field(last_value_of(ws, "name"@), apply_words::<PeerDevice>(ws)->Ok_0.name),
{
    reveal_strlit("name");
    assert("name"@.len() == 4);
    let proj = |m: PeerDeviceModel| m.name;
    let read = |v: Seq<char>| Some(v);
    assert forall|m: PeerDeviceModel, v: Seq<char>|
        (#[trigger] PeerDevice::spec_apply(m, "name"@, v)) is Ok implies read(v) == Some(
        proj(PeerDevice::spec_apply(m, "name"@, v)->Ok_0),
    ) by {}
    assert forall|m: PeerDeviceModel, k: Seq<char>, v: Seq<char>|
        k != "name"@ && (#[trigger] PeerDevice::spec_apply(m, k, v)) is Ok implies proj(
        PeerDevice::spec_apply(m, k, v)->Ok_0,
    ) == proj(m) by {}
    lemma_field_follows_last_value::<PeerDevice, Seq<char>>(ws, "name"@, proj, read);
}

proof fn lemma_peer_device_conn_name(ws: Seq<Seq<char>>)
    requires
        apply_words::<PeerDevice>(ws) is Ok,
    ensures
        text_field(last_value_of(ws, "conn-name"@), apply_words::<PeerDevice>(ws)->Ok_0.conn_name),
{
    reveal_strlit("name");
    reveal_strlit("conn-name");
    assert("name"@.len() == 4);
    assert("conn-name"@.len() == 9);
    let proj = |m: PeerDeviceModel| m.conn_name;
    let read = |v: Seq<char>| Some(v);
    assert forall|m: PeerDeviceModel, v: Seq<char>|
        (#[trigger] PeerDevice::spec_apply(m, "conn-name"@, v)) is Ok implies read(v) == Some(
        proj(PeerDevice::spec_apply(m, "conn-name"@, v)->Ok_0),
    ) by {}
    assert forall|m: PeerDeviceModel, k: Seq<char>, v: Seq<char>|
        k != "conn-name"@ && (#[trigger] PeerDevice::spec_apply(m, k, v)) is Ok implies proj(
        PeerDevice::spec_apply(m, k, v)->Ok_0,
    ) == proj(m) by {}
    lemma_field_follows_last_value::<PeerDevice, Seq<char>>(ws, "conn-name"@, proj, read);
}

proof fn lemma_peer_device_volume(ws: Seq<Seq<char>>)
    requires
        apply_words::<PeerDevice>(ws) is Ok,
    ensures
        i32_field(last_value_of(ws, "volume"@), apply_words::<PeerDevice>(ws)->Ok_0.volume),
{
    reveal_strlit("name");
    reveal_strlit("conn-name");
    reveal_strlit("volume");
    assert("name"@.len() == 4);
    assert("conn-name"@.len() == 9);
    assert("volume"@.len() == 6);
    let proj = |m: PeerDeviceModel| m.volume;
    let read = |v: Seq<char>| spec_parse_i32(v);
    assert forall|m: PeerDeviceModel, v: Seq<char>|
        (#[trigger] PeerDevice::spec_apply(m, "volume"@, v)) is Ok implies read(v) == Some(
        proj(PeerDevice::spec_apply(m, "volume"@, v)->Ok_0),
    ) by {}
    assert forall|m: PeerDeviceModel, k: Seq<char>, v: Seq<char>|
        k != "volume"@ && (#[trigger] PeerDevice::spec_apply(m, k, v)) is Ok implies proj(
        PeerDevice::spec_apply(m, k, v)->Ok_0,
    ) == proj(m) by {}
    lemma_field_follows_last_value::<PeerDevice, i32>(ws, "volume"@, proj, read);
}

proof fn lemma_peer_device_peer_node_id(ws: Seq<Seq<char>>)
    requires
        apply_words::<PeerDevice>(ws) is Ok,
    ensures
        i32_field(last_value_of(ws, "peer-node-id"@), apply_words::<PeerDevice>(ws)->Ok_0.peer_node_id),
{
    reveal_strlit("name");
    reveal_strlit("conn-name");
    reveal_strlit("volume");
    reveal_strlit("peer-node-id");
    assert("name"@.len() == 4);
    assert("conn-name"@.len() == 9);
    assert("volume"@.len() == 6);
    assert("peer-node-id"@.len() == 12);
    let proj = |m: PeerDeviceModel| m.peer_node_id;
    let read = |v: Seq<char>| spec_parse_i32(v);
    assert forall|m: PeerDeviceModel, v: Seq<char>|
        (#[trigger] PeerDevice::spec_apply(m, "peer-node-id"@, v)) is Ok implies read(v) == Some(
        proj(PeerDevice::spec_apply(m, "peer-node-id"@, v)->Ok_0),
    ) by {}
    assert forall|m: PeerDeviceModel, k: Seq<char>, v: Seq<char>|
        k != "peer-node-id"@ && (#[trigger] PeerDevice::spec_apply(m, k, v)) is Ok implies proj(
        PeerDevice::spec_apply(m, k, v)->Ok_0,
    ) == proj(m) by {}
    lemma_field_follows_last_value::<PeerDevice, i32>(ws, "peer-node-id"@, proj, read);
}

proof fn lemma_peer_device_replication_state(ws: Seq<Seq<char>>)
    requires
        apply_words::<PeerDevice>(ws) is Ok,
    ensures
        replication_state_field(last_value_of(ws, "replication"@), apply_words::<PeerDevice>(ws)->Ok_0.replication_state),
{
    reveal_strlit("name");
    reveal_strlit("conn-name");
    reveal_strlit("volume");
    reveal_strlit("peer-node-id");
    reveal_strlit("replication");
    assert("name"@.len() == 4);
    assert("conn-name"@.len() == 9);
    assert("volume"@.len() == 6);
    assert("peer-node-id"@.len() == 12);
    assert("replication"@.len() == 11);
    let proj = |m: PeerDeviceModel| m.replication_state;
    let read = |v: Seq<char>| ReplicationState::spec_from_keyword(v);
    assert forall|m: PeerDeviceModel, v: Seq<char>|
        (#[trigger] PeerDevice::spec_apply(m, "replication"@, v)) is Ok implies read(v) == Some(
        proj(PeerDevice::spec_apply(m, "replication"@, v)->Ok_0),
    ) by {}
    assert forall|m: PeerDeviceModel, k: Seq<char>, v: Seq<char>|
        k != "replication"@ && (#[trigger] PeerDevice::spec_apply(m, k, v)) is Ok implies proj(
        PeerDevice::spec_apply(m, k, v)->Ok_0,
    ) == proj(m) by {}
    lemma_field_follows_last_value::<PeerDevice, ReplicationState>(ws, "replication"@, proj, read);
    if let Some(v) = last_value_of(ws, "replication"@) {
        law_replication_state_keywords(v, apply_words::<PeerDevice>(ws)->Ok_0.replication_state);
    }
}

proof fn lemma_peer_device_peer_disk_state(ws: Seq<Seq<char>>)
    requires
        apply_words::<PeerDevice>(ws) is Ok,
    ensures
        disk_state_field(last_value_of(ws, "peer-disk"@), apply_words::<PeerDevice>(ws)->Ok_0.peer_disk_state),
{
    reveal_strlit("name");
    reveal_strlit("conn-name");
    reveal_strlit("volume");
    reveal_strlit("peer-node-id");
    reveal_strlit("replication");
    reveal_strlit("peer-disk");
    assert("name"@.len() == 4);
    assert("conn-name"@.len() == 9);
    assert("volume"@.len() == 6);
    assert("peer-node-id"@.len() == 12);
    assert("replication"@.len() == 11);
    assert("peer-disk"@.len() == 9);
    assert("conn-name"@[0] != "peer-disk"@[0]);
    let proj = |m: PeerDeviceModel| m.peer_disk_state;
    let read = |v: Seq<char>| DiskState::spec_from_keyword(v);
    assert forall|m: PeerDeviceModel, v: Seq<char>|
        (#[trigger] PeerDevice::spec_apply(m, "peer-disk"@, v)) is Ok implies read(v) == Some(
        proj(PeerDevice::spec_apply(m, "peer-disk"@, v)->Ok_0),
    ) by {}
    assert forall|m: PeerDeviceModel, k: Seq<char>, v: Seq<char>|
        k != "peer-disk"@ && (#[trigger] PeerDevice::spec_apply(m, k, v)) is Ok implies proj(
        PeerDevice::spec_apply(m, k, v)->Ok_0,
    ) == proj(m) by {}
    lemma_field_follows_last_value::<PeerDevice, DiskState>(ws, "peer-disk"@, proj, read);
    if let Some(v) = last_value_of(ws, "peer-disk"@) {
        law_disk_state_keywords(v, apply_words::<PeerDevice>(ws)->Ok_0.peer_disk_state);
    }
}

proof fn lemma_peer_device_peer_client(ws: Seq<Seq<char>>)
    requires
        apply_words::<PeerDevice>(ws) is Ok,
    ensures
        flag_field(last_value_of(ws, "peer-client"@), apply_words::<PeerDevice>(ws)->Ok_0.peer_client),
{
    reveal_strlit("name");
    reveal_strlit("conn-name");
    reveal_strlit("volume");
    reveal_strlit("peer-node-id");
    reveal_strlit("replication");
    reveal_strlit("peer-disk");
    reveal_strlit("peer-client");
    assert("name"@.len() == 4);
    assert("conn-name"@.len() == 9);
    assert("volume"@.len() == 6);
    assert("peer-node-id"@.len() == 12);
    assert("replication"@.len() == 11);
    assert("peer-disk"@.len() == 9);
    assert("peer-client"@.len() == 11);
    assert("replication"@[0] != "peer-client"@[0]);
    let proj = |m: PeerDeviceModel| m.peer_client;
    let read = |v: Seq<char>| Some(!(v == "no"@ || v == "false"@));
    assert forall|m: PeerDeviceModel, v: Seq<char>|
        (#[trigger] PeerDevice::spec_apply(m, "peer-client"@, v)) is Ok implies read(v) == Some(
        proj(PeerDevice::spec_apply(m, "peer-client"@, v)->Ok_0),
    ) by {}
    assert forall|m: PeerDeviceModel, k: Seq<char>, v: Seq<char>|
        k != "peer-client"@ && (#[trigger] PeerDevice::spec_apply(m, k, v)) is Ok implies proj(
        PeerDevice::spec_apply(m, k, v)->Ok_0,
    ) == proj(m) by {}
    lemma_field_follows_last_value::<PeerDevice, bool>(ws, "peer-client"@, proj, read);
}

proof fn lemma_peer_device_resync_suspended(ws: Seq<Seq<char>>)
    requires
        apply_words::<PeerDevice>(ws) is Ok,
    ensures
        flag_field(last_value_of(ws, "resync-suspended"@), apply_words::<PeerDevice>(ws)->Ok_0.resync_suspended),
{
    reveal_strlit("name");
    reveal_strlit("conn-name");
    reveal_strlit("volume");
    reveal_strlit("peer-node-id");
    reveal_strlit("replication");
    reveal_strlit("peer-disk");
    reveal_strlit("peer-client");
    reveal_strlit("resync-suspended");
    assert("name"@.len() == 4);
    assert("conn-name"@.len() == 9);
    assert("volume"@.len() == 6);
    assert("peer-node-id"@.len() == 12);
    assert("replication"@.len() == 11);
    assert("peer-disk"@.len() == 9);
    assert("peer-client"@.len() == 11);
    assert("resync-suspended"@.len() == 16);
    let proj = |m: PeerDeviceModel| m.resync_suspended;
    let read = |v: Seq<char>| Some(!(v == "no"@ || v == "false"@));
    assert forall|m: PeerDeviceModel, v: Seq<char>|
        (#[trigger] PeerDevice::spec_apply(m, "resync-suspended"@, v)) is Ok implies read(v) == Some(
        proj(PeerDevice::spec_apply(m, "resync-suspended"@, v)->Ok_0),
    ) by {}
    assert forall|m: PeerDeviceModel, k: Seq<char>, v: Seq<char>|
        k != "resync-suspended"@ && (#[trigger] PeerDevice::spec_apply(m, k, v)) is Ok implies proj(
        PeerDevice::spec_apply(m, k, v)->Ok_0,
    ) == proj(m) by {}
    lemma_field_follows_last_value::<PeerDevice, bool>(ws, "resync-suspended"@, proj, read);
}

proof fn lemma_peer_device_received(ws: Seq<Seq<char>>)
    requires
        apply_words::<PeerDevice>(ws) is Ok,
    ensures
        u64_field(last_value_of(ws, "received"@), apply_words::<PeerDevice>(ws)->Ok_0.received),
{
    reveal_strlit("name");
    reveal_strlit("conn-name");
    reveal_strlit("volume");
    reveal_strlit("peer-node-id");
    reveal_strlit("replication");
    reveal_strlit("peer-disk");
    reveal_strlit("peer-client");
    reveal_strlit("resync-suspended");
    reveal_strlit("received");
    assert("name"@.len() == 4);
    assert("conn-name"@.len() == 9);
    assert("volume"@.len() == 6);
    assert("peer-node-id"@.len() == 12);
    assert("replication"@.len() == 11);
    assert("peer-disk"@.len() == 9);
    assert("peer-client"@.len() == 11);
    assert("resync-suspended"@.len() == 16);
    assert("received"@.len() == 8);
    let proj = |m: PeerDeviceModel| m.received;
    let read = |v: Seq<char>| spec_parse_u64(v);
    assert forall|m: PeerDeviceModel, v: Seq<char>|
        (#[trigger] PeerDevice::spec_apply(m, "received"@, v)) is Ok implies read(v) == Some(
        proj(PeerDevice::spec_apply(m, "received"@, v)->Ok_0),
    ) by {}
    assert forall|m: PeerDeviceModel, k: Seq<char>, v: Seq<char>|
        k != "received"@ && (#[trigger] PeerDevice::spec_apply(m, k, v)) is Ok implies proj(
        PeerDevice::spec_apply(m, k, v)->Ok_0,
    ) == proj(m) by {}
    lemma_field_follows_last_value::<PeerDevice, u64>(ws, "received"@, proj, read);
}

proof fn lemma_peer_device_sent(ws: Seq<Seq<char>>)
    requires
        apply_words::<PeerDevice>(ws) is Ok,
    ensures
        u64_field(last_value_of(ws, "sent"@), apply_words::<PeerDevice>(ws)->Ok_0.sent),
{
    reveal_strlit("name");
    reveal_strlit("conn-name");
    reveal_strlit("volume");
    reveal_strlit("peer-node-id");
    reveal_strlit("replication");
    reveal_strlit("peer-disk");
    reveal_strlit("peer-client");
    reveal_strlit("resync-suspended");
    reveal_strlit("received");
    reveal_strlit("sent");
    assert("name"@.len() == 4);
    assert("conn-name"@.len() == 9);
    assert("volume"@.len() == 6);
    assert("peer-node-id"@.len() == 12);
    assert("replication"@.len() == 11);
    assert("peer-disk"@.len() == 9);
    assert("peer-client"@.len() == 11);
    assert("resync-suspended"@.len() == 16);
    assert("received"@.len() == 8);
    assert("sent"@.len() == 4);
    assert("name"@[0] != "sent"@[0]);
    let proj = |m: PeerDeviceModel| m.sent;
    let read = |v: Seq<char>| spec_parse_u64(v);
    assert forall|m: PeerDeviceModel, v: Seq<char>|
        (#[trigger] PeerDevice::spec_apply(m, "sent"@, v)) is Ok implies read(v) == Some(
        proj(PeerDevice::spec_apply(m, "sent"@, v)->Ok_0),
    ) by {}
    assert forall|m: PeerDeviceModel, k: Seq<char>, v: Seq<char>|
        k != "sent"@ && (#[trigger] PeerDevice::spec_apply(m, k, v)) is Ok implies proj(
        PeerDevice::spec_apply(m, k, v)->Ok_0,
    ) == proj(m) by {}
    lemma_field_follows_last_value::<PeerDevice, u64>(ws, "sent"@, proj, read);
}

proof fn lemma_peer_device_out_of_sync(ws: Seq<Seq<char>>)
    requires
        apply_words::<PeerDevice>(ws) is Ok,
    ensures
        u64_field(last_value_of(ws, "out-of-sync"@), apply_words::<PeerDevice>(ws)->Ok_0.out_of_sync),
{
    reveal_strlit("name");
    reveal_strlit("conn-name");
    reveal_strlit("volume");
    reveal_strlit("peer-node-id");
    reveal_strlit("replication");
    reveal_strlit("peer-disk");
    reveal_strlit("peer-client");
    reveal_strlit("resync-suspended");
    reveal_strlit("received");
    reveal_strlit("sent");
    reveal_strlit("out-of-sync");
    assert("name"@.len() == 4);
    assert("conn-name"@.len() == 9);
    assert("volume"@.len() == 6);
    assert("peer-node-id"@.len() == 12);
    assert("replication"@.len() == 11);
    assert("peer-disk"@.len() == 9);
    assert("peer-client"@.len() == 11);
    assert("resync-suspended"@.len() == 16);
    assert("received"@.len() == 8);
    assert("sent"@.len() == 4);
    assert("out-of-sync"@.len() == 11);
    assert("replication"@[0] != "out-of-sync"@[0]);
    assert("peer-client"@[0] != "out-of-sync"@[0]);
    let proj = |m: PeerDeviceModel| m.out_of_sync;
    let read = |v: Seq<char>| spec_parse_u64(v);
    assert forall|m: PeerDeviceModel, v: Seq<char>|
        (#[trigger] PeerDevice::spec_apply(m, "out-of-sync"@, v)) is Ok implies read(v) == Some(
        proj(PeerDevice::spec_apply(m, "out-of-sync"@, v)->Ok_0),
    ) by {}
    assert forall|m: PeerDeviceModel, k: Seq<char>, v: Seq<char>|
        k != "out-of-sync"@ && (#[trigger] PeerDevice::spec_apply(m, k, v)) is Ok implies proj(
        PeerDevice::spec_apply(m, k, v)->Ok_0,
    ) == proj(m) by {}
    lemma_field_follows_last_value::<PeerDevice, u64>(ws, "out-of-sync"@, proj, read);
}

proof fn lemma_peer_device_pending(ws: Seq<Seq<char>>)
    requires
        apply_words::<PeerDevice>(ws) is Ok,
    ensures
        u64_field(last_value_of(ws, "pending"@), apply_words::<PeerDevice>(ws)->Ok_0.pending),
{
    reveal_strlit("name");
    reveal_strlit("conn-name");
    reveal_strlit("volume");
    reveal_strlit("peer-node-id");
    reveal_strlit("replication");
    reveal_strlit("peer-disk");
    reveal_strlit("peer-client");
    reveal_strlit("resync-suspended");
    reveal_strlit("received");
    reveal_strlit("sent");
    reveal_strlit("out-of-sync");
    reveal_strlit("pending");
    assert("name"@.len() == 4);
    assert("conn-name"@.len() == 9);
    assert("volume"@.len() == 6);
    assert("peer-node-id"@.len() == 12);
    assert("replication"@.len() == 11);
    assert("peer-disk"@.len() == 9);
    assert("peer-client"@.len() == 11);
    assert("resync-suspended"@.len() == 16);
    assert("received"@.len() == 8);
    assert("sent"@.len() == 4);
    assert("out-of-sync"@.len() == 11);
    assert("pending"@.len() == 7);
    let proj = |m: PeerDeviceModel| m.pending;
    let read = |v: Seq<char>| spec_parse_u64(v);
    assert forall|m: PeerDeviceModel, v: Seq<char>|
        (#[trigger] PeerDevice::spec_apply(m, "pending"@, v)) is Ok implies read(v) == Some(
        proj(PeerDevice::spec_apply(m, "pending"@, v)->Ok_0),
    ) by {}
    assert forall|m: PeerDeviceModel, k: Seq<char>, v: Seq<char>|
        k != "pending"@ && (#[trigger] PeerDevice::spec_apply(m, k, v)) is Ok implies proj(
        PeerDevice::spec_apply(m, k, v)->Ok_0,
    ) == proj(m) by {}
    lemma_field_follows_last_value::<PeerDevice, u64>(ws, "pending"@, proj, read);
}

proof fn lemma_peer_device_unacked(ws: Seq<Seq<char>>)
    requires
        apply_words::<PeerDevice>(ws) is Ok,
    ensures
        u64_field(last_value_of(ws, "unacked"@), apply_words::<PeerDevice>(ws)->Ok_0.unacked),
{
    reveal_strlit("name");
    reveal_strlit("conn-name");
    reveal_strlit("volume");
    reveal_strlit("peer-node-id");
    reveal_strlit("replication");
    reveal_strlit("peer-disk");
    reveal_strlit("peer-client");
    reveal_strlit("resync-suspended");
    reveal_strlit("received");
    reveal_strlit("sent");
    reveal_strlit("out-of-sync");
    reveal_strlit("pending");
    reveal_strlit("unacked");
    assert("name"@.len() == 4);
    assert("conn-name"@.len() == 9);
    assert("volume"@.len() == 6);
    assert("peer-node-id"@.len() == 12);
    assert("replication"@.len() == 11);
    assert("peer-disk"@.len() == 9);
    assert("peer-client"@.len() == 11);
    assert("resync-suspended"@.len() == 16);
    assert("received"@.len() == 8);
    assert("sent"@.len() == 4);
    assert("out-of-sync"@.len() == 11);
    assert("pending"@.len() == 7);
    assert("unacked"@.len() == 7);
    assert("pending"@[0] != "unacked"@[0]);
    let proj = |m: PeerDeviceModel| m.unacked;
    let read = |v: Seq<char>| spec_parse_u64(v);
    assert forall|m: PeerDeviceModel, v: Seq<char>|
        (#[trigger] PeerDevice::spec_apply(m, "unacked"@, v)) is Ok implies read(v) == Some(
        proj(PeerDevice::spec_apply(m, "unacked"@, v)->Ok_0),
    ) by {}
    assert forall|m: PeerDeviceModel, k: Seq<char>, v: Seq<char>|
        k != "unacked"@ && (#[trigger] PeerDevice::spec_apply(m, k, v)) is Ok implies proj(
        PeerDevice::spec_apply(m, k, v)->Ok_0,
    ) == proj(m) by {}
    lemma_field_follows_last_value::<PeerDevice, u64>(ws, "unacked"@, proj, read);
}

proof fn lemma_peer_device_has_sync_details(ws: Seq<Seq<char>>)
    requires
        apply_words::<PeerDevice>(ws) is Ok,
    ensures
        apply_words::<PeerDevice>(ws)->Ok_0.has_sync_details == PeerDeviceModel::initial().has_sync_details,
{
    let proj = |m: PeerDeviceModel| m.has_sync_details;
    assert forall|m: PeerDeviceModel, k: Seq<char>, v: Seq<char>|
        (#[trigger] PeerDevice::spec_apply(m, k, v)) is Ok implies proj(
        PeerDevice::spec_apply(m, k, v)->Ok_0,
    ) == proj(m) by {}
    lemma_field_never_set::<PeerDevice, _>(ws, proj);
}

proof fn lemma_peer_device_has_online_verify_details(ws: Seq<Seq<char>>)
    requires
        apply_words::<PeerDevice>(ws) is Ok,
    ensures
        apply_words::<PeerDevice>(ws)->Ok_0.has_online_verify_details == PeerDeviceModel::initial().has_online_verify_details,
{
    let proj = |m: PeerDeviceModel| m.has_online_verify_details;
    assert forall|m: PeerDeviceModel, k: Seq<char>, v: Seq<char>|
        (#[trigger] PeerDevice::spec_apply(m, k, v)) is Ok implies proj(
        PeerDevice::spec_apply(m, k, v)->Ok_0,
    ) == proj(m) by {}
    lemma_field_never_set::<PeerDevice, _>(ws, proj);
}

/// Every field of a peer-device that a line reports is read from the last word
/// that names its key (texts as given, flags false only for `no` and `false`,
/// numbers in decimal, states by their names), and keeps its default when no
/// word names it. This holds of the words of any line: `words(line)`.
pub proof fn law_peer_device_fields(ws: Seq<Seq<char>>)
    requires
        ws.len() >= 2,
        ws[1] == "peer-device"@,
    ensures
        spec_parse_words(ws) matches Ok(EventUpdateModel::PeerDevice(_, m)) ==> {
            let kvs = ws.skip(2);
            &&& text_field(last_value_of(kvs, "name"@), m.name)
            &&& text_field(last_value_of(kvs, "conn-name"@), m.conn_name)
            &&& i32_field(last_value_of(kvs, "volume"@), m.volume)
            &&& i32_field(last_value_of(kvs, "peer-node-id"@), m.peer_node_id)
            &&& replication_state_field(last_value_of(kvs, "replication"@), m.replication_state)
            &&& disk_state_field(last_value_of(kvs, "peer-disk"@), m.peer_disk_state)
            &&& flag_field(last_value_of(kvs, "peer-client"@), m.peer_client)
            &&& flag_field(last_value_of(kvs, "resync-suspended"@), m.resync_suspended)
            &&& u64_field(last_value_of(kvs, "received"@), m.received)
            &&& u64_field(last_value_of(kvs, "sent"@), m.sent)
            &&& u64_field(last_value_of(kvs, "out-of-sync"@), m.out_of_sync)
            &&& u64_field(last_value_of(kvs, "pending"@), m.pending)
            &&& u64_field(last_value_of(kvs, "unacked"@), m.unacked)
            &&& m.has_sync_details == false
            &&& m.has_online_verify_details == false
        },
{
    reveal_strlit("resource");
    reveal_strlit("device");
    reveal_strlit("connection");
    reveal_strlit("peer-device");
    assert("resource"@.len() == 8);
    assert("device"@.len() == 6);
    assert("connection"@.len() == 10);
    assert("peer-device"@.len() == 11);
    let kvs = ws.skip(2);
    if apply_words::<PeerDevice>(kvs) is Ok {
        lemma_peer_device_name(kvs);
        lemma_peer_device_conn_name(kvs);
        lemma_peer_device_volume(kvs);
        lemma_peer_device_peer_node_id(kvs);
        lemma_peer_device_replication_state(kvs);
        lemma_peer_device_peer_disk_state(kvs);
        lemma_peer_device_peer_client(kvs);
        lemma_peer_device_resync_suspended(kvs);
        lemma_peer_device_received(kvs);
        lemma_peer_device_sent(kvs);
        lemma_peer_device_out_of_sync(kvs);
        lemma_peer_device_pending(kvs);
        lemma_peer_device_unacked(kvs);
        lemma_peer_device_has_sync_details(kvs);
        lemma_peer_device_has_online_verify_details(kvs);
    }
}

proof fn lemma_path_name(ws: Seq<Seq<char>>)
    requires
        apply_words::<Path>(ws) is Ok,
    ensures
        text_field(last_value_of(ws, "name"@), apply_words::<Path>(ws)->Ok_0.name),
{
    reveal_strlit("name");
    assert("name"@.len() == 4);
    let proj = |m: PathModel| m.name;
    let read = |v: Seq<char>| Some(v);
    assert forall|m: PathModel, v: Seq<char>|
        (#[trigger] Path::spec_apply(m, "name"@, v)) is Ok implies read(v) == Some(
        proj(Path::spec_apply(m, "name"@, v)->Ok_0),
    ) by {}
    assert forall|m: PathModel, k: Seq<char>, v: Seq<char>|
        k != "name"@ && (#[trigger] Path::spec_apply(m, k, v)) is Ok implies proj(
        Path::spec_apply(m, k, v)->Ok_0,
    ) == proj(m) by {}
    lemma_field_follows_last_value::<Path, Seq<char>>(ws, "name"@, proj, read);
}

proof fn lemma_path_peer_node_id(ws: Seq<Seq<char>>)
    requires
        apply_words::<Path>(ws) is Ok,
    ensures
        i32_field(last_value_of(ws, "peer-node-id"@), apply_words::<Path>(ws)->Ok_0.peer_node_id),
{
    reveal_strlit("name");
    reveal_strlit("peer-node-id");
    assert("name"@.len() == 4);
    assert("peer-node-id"@.len() == 12);
    let proj = |m: PathModel| m.peer_node_id;
    let read = |v: Seq<char>| spec_parse_i32(v);
    assert forall|m: PathModel, v: Seq<char>|
        (#[trigger] Path::spec_apply(m, "peer-node-id"@, v)) is Ok implies read(v) == Some(
        proj(Path::spec_apply(m, "peer-node-id"@, v)->Ok_0),
    ) by {}
    assert forall|m: PathModel, k: Seq<char>, v: Seq<char>|
        k != "peer-node-id"@ && (#[trigger] Path::spec_apply(m, k, v)) is Ok implies proj(
        Path::spec_apply(m, k, v)->Ok_0,
    ) == proj(m) by {}
    lemma_field_follows_last_value::<Path, i32>(ws, "peer-node-id"@, proj, read);
}

proof fn lemma_path_conn_name(ws: Seq<Seq<char>>)
    requires
        apply_words::<Path>(ws) is Ok,
    ensures
        text_field(last_value_of(ws, "conn-name"@), apply_words::<Path>(ws)->Ok_0.conn_name),
{
    reveal_strlit("name");
    reveal_strlit("peer-node-id");
    reveal_strlit("conn-name");
    assert("name"@.len() == 4);
    assert("peer-node-id"@.len() == 12);
    assert("conn-name"@.len() == 9);
    let proj = |m: PathModel| m.conn_name;
    let read = |v: Seq<char>| Some(v);
    assert forall|m: PathModel, v: Seq<char>|
        (#[trigger] Path::spec_apply(m, "conn-name"@, v)) is Ok implies read(v) == Some(
        proj(Path::spec_apply(m, "conn-name"@, v)->Ok_0),
    ) by {}
    assert forall|m: PathModel, k: Seq<char>, v: Seq<char>|
        k != "conn-name"@ && (#[trigger] Path::spec_apply(m, k, v)) is Ok implies proj(
        Path::spec_apply(m, k, v)->Ok_0,
    ) == proj(m) by {}
    lemma_field_follows_last_value::<Path, Seq<char>>(ws, "conn-name"@, proj, read);
}

proof fn lemma_path_local(ws: Seq<Seq<char>>)
    requires
        apply_words::<Path>(ws) is Ok,
    ensures
        text_field(last_value_of(ws, "local"@), apply_words::<Path>(ws)->Ok_0.local),
{
    reveal_strlit("name");
    reveal_strlit("peer-node-id");
    reveal_strlit("conn-name");
    reveal_strlit("local");
    assert("name"@.len() == 4);
    assert("peer-node-id"@.len() == 12);
    assert("conn-name"@.len() == 9);
    assert("local"@.len() == 5);
    let proj = |m: PathModel| m.local;
    let read = |v: Seq<char>| Some(v);
    assert forall|m: PathModel, v: Seq<char>|
        (#[trigger] Path::spec_apply(m, "local"@, v)) is Ok implies read(v) == Some(
        proj(Path::spec_apply(m, "local"@, v)->Ok_0),
    ) by {}
    assert forall|m: PathModel, k: Seq<char>, v: Seq<char>|
        k != "local"@ && (#[trigger] Path::spec_apply(m, k, v)) is Ok implies proj(
        Path::spec_apply(m, k, v)->Ok_0,
    ) == proj(m) by {}
    lemma_field_follows_last_value::<Path, Seq<char>>(ws, "local"@, proj, read);
}

proof fn lemma_path_peer(ws: Seq<Seq<char>>)
    requires
        apply_words::<Path>(ws) is Ok,
    ensures
        text_field(last_value_of(ws, "peer"@), apply_words::<Path>(ws)->Ok_0.peer),
{
    reveal_strlit("name");
    reveal_strlit("peer-node-id");
    reveal_strlit("conn-name");
    reveal_strlit("local");
    reveal_strlit("peer");
    assert("name"@.len() == 4);
    assert("peer-node-id"@.len() == 12);
    assert("conn-name"@.len() == 9);
    assert("local"@.len() == 5);
    assert("peer"@.len() == 4);
    assert("name"@[0] != "peer"@[0]);
    let proj = |m: PathModel| m.peer;
    let read = |v: Seq<char>| Some(v);
    assert forall|m: PathModel, v: Seq<char>|
        (#[trigger] Path::spec_apply(m, "peer"@, v)) is Ok implies read(v) == Some(
        proj(Path::spec_apply(m, "peer"@, v)->Ok_0),
    ) by {}
    assert forall|m: PathModel, k: Seq<char>, v: Seq<char>|
        k != "peer"@ && (#[trigger] Path::spec_apply(m, k, v)) is Ok implies proj(
        Path::spec_apply(m, k, v)->Ok_0,
    ) == proj(m) by {}
    lemma_field_follows_last_value::<Path, Seq<char>>(ws, "peer"@, proj, read);
}

proof fn lemma_path_established(ws: Seq<Seq<char>>)
    requires
        apply_words::<Path>(ws) is Ok,
    ensures
        flag_field(last_value_of(ws, "established"@), apply_words::<Path>(ws)->Ok_0.established),
{
    reveal_strlit("name");
    reveal_strlit("peer-node-id");
    reveal_strlit("conn-name");
    reveal_strlit("local");
    reveal_strlit("peer");
    reveal_strlit("established");
    assert("name"@.len() == 4);
    assert("peer-node-id"@.len() == 12);
    assert("conn-name"@.len() == 9);
    assert("local"@.len() == 5);
    assert("peer"@.len() == 4);
    assert("established"@.len() == 11);
    let proj = |m: PathModel| m.established;
    let read = |v: Seq<char>| Some(!(v == "no"@ || v == "false"@));
    assert forall|m: PathModel, v: Seq<char>|
        (#[trigger] Path::spec_apply(m, "established"@, v)) is Ok implies read(v) == Some(
        proj(Path::spec_apply(m, "established"@, v)->Ok_0),
    ) by {}
    assert forall|m: PathModel, k: Seq<char>, v: Seq<char>|
        k != "established"@ && (#[trigger] Path::spec_apply(m, k, v)) is Ok implies proj(
        Path::spec_apply(m, k, v)->Ok_0,
    ) == proj(m) by {}
    lemma_field_follows_last_value::<Path, bool>(ws, "established"@, proj, read);
}

/// Every field of a path that a line reports is read from the last word
/// that names its key (texts as given, flags false only for `no` and `false`,
/// numbers in decimal, states by their names), and keeps its default when no
/// word names it. This holds of the words of any line: `words(line)`.
pub proof fn law_path_fields(ws: Seq<Seq<char>>)
    requires
        ws.len() >= 2,
        ws[1] == "path"@,
    ensures
        spec_parse_words(ws) matches Ok(EventUpdateModel::Path(_, m)) ==> {
            let kvs = ws.skip(2);
            &&& text_field(last_value_of(kvs, "name"@), m.name)
            &&& i32_field(last_value_of(kvs, "peer-node-id"@), m.peer_node_id)
            &&& text_field(last_value_of(kvs, "conn-name"@), m.conn_name)
            &&& text_field(last_value_of(kvs, "local"@), m.local)
            &&& text_field(last_value_of(kvs, "peer"@), m.peer)
            &&& flag_field(last_value_of(kvs, "established"@), m.established)
        },
{
    reveal_strlit("resource");
    reveal_strlit("device");
    reveal_strlit("connection");
    reveal_strlit("peer-device");
    reveal_strlit("path");
    assert("resource"@.len() == 8);
    assert("device"@.len() == 6);
    assert("connection"@.len() == 10);
    assert("peer-device"@.len() == 11);
    assert("path"@.len() == 4);
    let kvs = ws.skip(2);
    if apply_words::<Path>(kvs) is Ok {
        lemma_path_name(kvs);
        lemma_path_peer_node_id(kvs);
        lemma_path_conn_name(kvs);
        lemma_path_local(kvs);
        lemma_path_peer(kvs);
        lemma_path_established(kvs);
    }
}

} // verus!
