//! What a user interface asks for and gets: requests checked and turned into the library's
//! vocabulary, answers and events in a flat form, and the handles that stand for what is
//! open.

use std::collections::BTreeMap;

use vstd::prelude::*;

use vstd::std_specs::btree::*;
#[allow(unused_imports)]
use vstd::std_specs::cmp::OrdSpec;
#[allow(unused_imports)]
use vstd::std_specs::iter::IteratorSpec;

use crate::assoc::AssocMap;
use crate::backend::{max_write_len, next};
#[allow(unused_imports)]
use crate::backend::{following, spec_max_write_len};
use crate::error::BleError;
use crate::models::{
    copied, CapabilityReport, CharacteristicUuid, DiscoveredPeer, GattCharacteristicSpec, GattEvent,
    GattServiceSpec, Role, ServiceUuid, WriteType,
};
#[allow(unused_imports)]
use crate::models::GattCharacteristicSpecView;
use crate::text::{append_decimal, joined3, owned};
#[allow(unused_imports)]
use crate::text::{decimal, numerals_tell_numbers_apart};
use crate::uuids::{parse_uuid_text, uuid_text};
#[allow(unused_imports)]
use crate::uuids::{hyphenated, parsed_uuid, result_view, texts_tell_uuids_apart};

verus! {

broadcast use group_btree_axioms;

/// A UUID of a request, by what became of reading it.
pub open spec fn uuid_or_complaint(raw: Seq<char>, parsed: Result<u128, Seq<char>>) -> Result<
    u128,
    Seq<char>,
> {
    match parsed {
        Ok(value) => Ok(value),
        Err(e) => Err("invalid UUID '"@ + raw + "': "@ + e),
    }
}

/// Names the text that could not be read.
pub fn checked_uuid(raw: &str, parsed: Result<u128, String>) -> (r: Result<u128, String>)
    ensures
        result_view(r) == uuid_or_complaint(raw@, result_view(parsed)),
{
    match parsed {
        Ok(value) => Ok(value),
        Err(e) => {
            let mut text = joined3("invalid UUID '", raw, "': ");
            text.append(e.as_str());
            Err(text)
        },
    }
}

/// What the UUID of a request is, or what is wrong with it.
pub open spec fn requested_uuid(raw: Seq<char>) -> Result<u128, Seq<char>> {
    uuid_or_complaint(raw, parsed_uuid(raw))
}

/// Reads a UUID of a request.
pub fn parse_uuid(raw: &str) -> (r: Result<u128, String>)
    ensures
        result_view(r) == requested_uuid(raw@),
        forall|value: u128| raw@ == #[trigger] hyphenated(value) ==> r is Ok && r->Ok_0 == value,
{
    let parsed = parse_uuid_text(raw);
    checked_uuid(raw, parsed)
}

#[derive(Debug)]
pub struct CapabilitiesResponse {
    pub central: bool,
    pub peripheral: bool,
}

impl CapabilitiesResponse {
    pub fn of(report: CapabilityReport) -> (r: CapabilitiesResponse)
        ensures
            r.central == report.central,
            r.peripheral == report.peripheral,
    {
        CapabilitiesResponse { central: report.central, peripheral: report.peripheral }
    }
}

/// Advertisement data under a key that is text.
#[derive(Debug)]
pub struct DataEntry {
    pub key: String,
    pub value: Vec<u8>,
}

/// A peer that a scan found, for the user interface.
#[derive(Debug)]
pub struct DiscoveredPeerDto {
    pub address: String,
    pub name: Option<String>,
    /// Manufacturer data by the company identifier in decimal.
    pub manufacturer_data: Vec<DataEntry>,
    /// Service data by the service's UUID.
    pub service_data: Vec<DataEntry>,
    pub rssi: Option<i16>,
}

/// Whether `entries` hold the data of a map under the names of its keys: one entry for
/// each of `keys`, which lists the map's keys once each and in the order of their ranks, and
/// no two entries under one name.
pub open spec fn entries_of<K>(
    entries: Seq<DataEntry>,
    keys: Seq<K>,
    map: Map<K, Vec<u8>>,
    rank: spec_fn(K) -> int,
    name: spec_fn(K) -> Seq<char>,
) -> bool {
    &&& keys.to_set() == map.dom()
    &&& forall|i: int, j: int|
        0 <= i < j < keys.len() ==> rank(#[trigger] keys[i]) < rank(#[trigger] keys[j])
    &&& entries.len() == keys.len()
    &&& forall|i: int|
        #![trigger entries[i]]
        0 <= i < keys.len() ==> entries[i].key@ == name(keys[i]) && entries[i].value@
            == map[keys[i]]@
    &&& forall|i: int, j: int|
        0 <= i < j < entries.len() ==> (#[trigger] entries[i]).key@ != (#[trigger] entries[j]).key@
}

/// The order of company identifiers.
pub open spec fn company_rank() -> spec_fn(u16) -> int {
    |id: u16| id as int
}

/// The order of services' UUIDs.
pub open spec fn service_rank() -> spec_fn(u128) -> int {
    |value: u128| value as int
}

/// The name of a company identifier.
pub open spec fn company_name() -> spec_fn(u16) -> Seq<char> {
    |id: u16| decimal(id as nat)
}

/// The name of a service's UUID.
pub open spec fn service_name() -> spec_fn(u128) -> Seq<char> {
    |value: u128| hyphenated(value)
}

fn company_text(id: u16) -> (text: String)
    ensures
        text@ == company_name()(id),
{
    let mut text = owned("");
    proof {
        reveal_strlit("");
    }
    append_decimal(&mut text, id as u64);
    assert(text@ =~= decimal(id as nat));
    text
}

/// Different company identifiers have different names.
proof fn names_tell_companies_apart()
    ensures
        forall|a: u16, b: u16| #[trigger]
            company_name()(a) == #[trigger] company_name()(b) ==> a == b,
{
    assert forall|a: u16, b: u16| #[trigger] company_name()(a) == #[trigger] company_name()(
        b,
    ) implies a == b by {
        numerals_tell_numbers_apart(a as nat, b as nat);
    }
}

/// Lists the data of a map under the names of its keys, in the order of the keys.
fn listed<K: Ord + Copy, F: Fn(K) -> String>(
    map: &BTreeMap<K, Vec<u8>>,
    text: F,
    Ghost(rank): Ghost<spec_fn(K) -> int>,
    Ghost(name): Ghost<spec_fn(K) -> Seq<char>>,
) -> (entries: Vec<DataEntry>)
    requires
        key_obeys_cmp_spec::<K>(),
        vstd::laws_cmp::obeys_cmp::<&K>(),
        forall|a: &K, b: &K|
            (#[trigger] OrdSpec::cmp_spec(&a, &b)) is Less ==> rank(*a) < rank(*b),
        forall|k: K| call_requires(text, (k,)),
        forall|k: K, t: String| call_ensures(text, (k,), t) ==> t@ == name(k),
        forall|a: K, b: K| #[trigger] name(a) == #[trigger] name(b) ==> a == b,
    ensures
        exists|keys: Seq<K>| #[trigger] entries_of(entries@, keys, map@, rank, name),
{
    let mut entries: Vec<DataEntry> = Vec::new();
    let ghost seq = spec_keys_iter(map).remaining();
    let ghost ids = seq.unref();
    for id in keys: map.keys()
        invariant
            key_obeys_cmp_spec::<K>(),
            forall|k: K| call_requires(text, (k,)),
            forall|k: K, t: String| call_ensures(text, (k,), t) ==> t@ == name(k),
            keys.seq() == seq,
            seq == spec_keys_iter(map).remaining(),
            ids == seq.unref(),
            ids.to_set() == map@.dom(),
            entries@.len() == keys.index(),
            forall|k: int|
                #![trigger entries@[k]]
                0 <= k < entries@.len() ==> entries@[k].key@ == name(ids[k]) && entries@[k].value@
                    == map@[ids[k]]@,
    {
        assert(*id == ids[keys.index()]);
        assert(ids.to_set().contains(ids[keys.index()]));
        match map.get(id) {
            Some(value) => {
                entries.push(DataEntry { key: text(*id), value: copied(value) });
            },
            None => {},
        }
    }
    proof {
        assert(increasing_seq(seq));
        assert forall|i: int, j: int| 0 <= i < j < ids.len() implies rank(#[trigger] ids[i])
            < rank(#[trigger] ids[j]) by {
            assert(OrdSpec::cmp_spec(&seq[i], &seq[j]) is Less);
        }
        assert forall|i: int, j: int| 0 <= i < j < entries@.len() implies (
        #[trigger] entries@[i]).key@ != (#[trigger] entries@[j]).key@ by {
            assert(rank(ids[i]) < rank(ids[j]));
            assert(entries@[i].key@ == name(ids[i]) && entries@[j].key@ == name(ids[j]));
        }
        assert(entries_of(entries@, ids, map@, rank, name));
    }
    entries
}

/// Lists manufacturer data, in the order of the company identifiers.
fn company_entries(map: &BTreeMap<u16, Vec<u8>>) -> (entries: Vec<DataEntry>)
    ensures
        exists|keys: Seq<u16>| #[trigger]
            entries_of(entries@, keys, map@, company_rank(), company_name()),
{
    proof {
        assert(vstd::laws_cmp::obeys_cmp::<&u16>());
        names_tell_companies_apart();
    }
    let text = |id: u16| -> (t: String)
        ensures
            t@ == company_name()(id),
        { company_text(id) };
    listed(map, text, Ghost(company_rank()), Ghost(company_name()))
}

/// Lists service data, in the order of the UUIDs.
fn service_entries(map: &BTreeMap<u128, Vec<u8>>) -> (entries: Vec<DataEntry>)
    ensures
        exists|keys: Seq<u128>| #[trigger]
            entries_of(entries@, keys, map@, service_rank(), service_name()),
{
    proof {
        assert(vstd::laws_cmp::obeys_cmp::<&u128>());
        assert forall|a: u128, b: u128| #[trigger] service_name()(a) == #[trigger] service_name()(
            b,
        ) implies a == b by {
            texts_tell_uuids_apart(a, b);
        }
    }
    let text = |value: u128| -> (t: String)
        ensures
            t@ == service_name()(value),
        { uuid_text(value) };
    listed(map, text, Ghost(service_rank()), Ghost(service_name()))
}

impl DiscoveredPeerDto {
    /// What the user interface is shown of a peer.
    pub open spec fn shows(&self, peer: &DiscoveredPeer) -> bool {
        &&& self.address == peer.address.0
        &&& self.name == peer.name
        &&& exists|keys: Seq<u16>| #[trigger]
            entries_of(
                self.manufacturer_data@,
                keys,
                peer.manufacturer_data@,
                company_rank(),
                company_name(),
            )
        &&& exists|keys: Seq<u128>| #[trigger]
            entries_of(
                self.service_data@,
                keys,
                peer.service_data@,
                service_rank(),
                service_name(),
            )
        &&& self.rssi == peer.rssi
    }

    pub fn of(peer: DiscoveredPeer) -> (r: DiscoveredPeerDto)
        ensures
            r.shows(&peer),
    {
        let manufacturer_data = company_entries(&peer.manufacturer_data);
        let service_data = service_entries(&peer.service_data);
        let ghost shown = peer;
        let r = DiscoveredPeerDto {
            address: peer.address.0,
            name: peer.name,
            manufacturer_data,
            service_data,
            rssi: peer.rssi,
        };
        proof {
            let ids = choose|keys: Seq<u16>| #[trigger]
                entries_of(
                    r.manufacturer_data@,
                    keys,
                    shown.manufacturer_data@,
                    company_rank(),
                    company_name(),
                );
            assert(entries_of(
                r.manufacturer_data@,
                ids,
                shown.manufacturer_data@,
                company_rank(),
                company_name(),
            ));
            let uuids = choose|keys: Seq<u128>| #[trigger]
                entries_of(
                    r.service_data@,
                    keys,
                    shown.service_data@,
                    service_rank(),
                    service_name(),
                );
            assert(entries_of(
                r.service_data@,
                uuids,
                shown.service_data@,
                service_rank(),
                service_name(),
            ));
            assert(r.address == shown.address.0);
            assert(r.name == shown.name);
            assert(r.shows(&shown));
        }
        r
    }
}

/// A characteristic of a request to advertise.
#[derive(Debug)]
pub struct CharacteristicSpecDto {
    pub uuid: String,
    pub readable: bool,
    pub writable: bool,
    pub notifiable: bool,
    pub initial_value: Vec<u8>,
}

/// Position of the first text that is no UUID, or their number.
pub open spec fn first_invalid(parsed: Seq<Result<u128, Seq<char>>>) -> nat
    decreases parsed.len(),
{
    if parsed.len() == 0 || parsed[0] is Err {
        0
    } else {
        1 + first_invalid(parsed.drop_first())
    }
}

pub open spec fn complaints(characteristics: Seq<CharacteristicSpecDto>) -> Seq<
    Result<u128, Seq<char>>,
> {
    characteristics.map_values(|c: CharacteristicSpecDto| requested_uuid(c.uuid@))
}

/// The service that a request to advertise asks for: the first UUID that cannot be read is
/// what is wrong with it.
pub fn advertise_request(service_uuid: &str, characteristics: &Vec<CharacteristicSpecDto>) -> (r:
    Result<GattServiceSpec, String>)
    ensures
        ({
            let n = first_invalid(complaints(characteristics@));
            match requested_uuid(service_uuid@) {
                Err(e) => r is Err && r->Err_0@ == e,
                Ok(uuid) => if n < characteristics@.len() {
                    r is Err && r->Err_0@ == complaints(characteristics@)[n as int]->Err_0
                } else {
                    &&& r is Ok
                    &&& r->Ok_0.uuid == ServiceUuid(uuid)
                    &&& r->Ok_0.manufacturer_data@ == Map::<u16, Vec<u8>>::empty()
                    &&& r->Ok_0.service_data@ == Map::<u128, Vec<u8>>::empty()
                    &&& r->Ok_0.characteristics@.len() == characteristics@.len()
                    &&& forall|i: int|
                        #![trigger characteristics@[i]]
                        0 <= i < characteristics@.len() ==> r->Ok_0.characteristics@[i]@ == (
                        GattCharacteristicSpecView {
                            uuid: CharacteristicUuid(
                                requested_uuid(characteristics@[i].uuid@)->Ok_0,
                            ),
                            readable: characteristics@[i].readable,
                            writable: characteristics@[i].writable,
                            notifiable: characteristics@[i].notifiable,
                            initial_value: characteristics@[i].initial_value@,
                        })
                },
            }
        }),
{
    let uuid = match parse_uuid(service_uuid) {
        Ok(uuid) => uuid,
        Err(e) => {
            return Err(e);
        },
    };
    let mut specs: Vec<GattCharacteristicSpec> = Vec::new();
    let ghost all = complaints(characteristics@);
    let mut i: usize = 0;
    assert(all.skip(0) =~= all);
    while i < characteristics.len()
        invariant
            i <= characteristics@.len(),
            all == complaints(characteristics@),
            requested_uuid(service_uuid@) == Ok::<u128, Seq<char>>(uuid),
            first_invalid(all) == i + first_invalid(all.skip(i as int)),
            specs@.len() == i,
            forall|k: int|
                #![trigger characteristics@[k]]
                0 <= k < i ==> specs@[k]@ == (GattCharacteristicSpecView {
                    uuid: CharacteristicUuid(requested_uuid(characteristics@[k].uuid@)->Ok_0),
                    readable: characteristics@[k].readable,
                    writable: characteristics@[k].writable,
                    notifiable: characteristics@[k].notifiable,
                    initial_value: characteristics@[k].initial_value@,
                }),
        decreases characteristics.len() - i,
    {
        let dto = &characteristics[i];
        proof {
            assert(all.skip(i as int)[0] == requested_uuid(dto.uuid@));
            assert(all.skip(i as int).drop_first() =~= all.skip(i + 1));
        }
        match parse_uuid(dto.uuid.as_str()) {
            Ok(value) => {
                specs.push(
                    GattCharacteristicSpec {
                        uuid: CharacteristicUuid(value),
                        readable: dto.readable,
                        writable: dto.writable,
                        notifiable: dto.notifiable,
                        initial_value: copied(&dto.initial_value),
                    },
                );
            },
            Err(e) => {
                return Err(e);
            },
        }
        i = i + 1;
    }
    Ok(GattServiceSpec::new(ServiceUuid(uuid), specs))
}

/// A lifecycle event, for the user interface.
#[derive(Debug, Clone)]
#[allow(inconsistent_fields)]
pub enum GattEventDto {
    Connected { address: String, local_role: String },
    Disconnected { address: String, local_role: String },
    CharacteristicWritten { address: String, characteristic_uuid: String, value: Vec<u8> },
}

/// The name of the role that this device plays.
pub open spec fn spec_role_name(role: Role) -> Seq<char> {
    match role {
        Role::Central => "central"@,
        Role::Peripheral => "peripheral"@,
    }
}

pub fn role_name(role: Role) -> (r: String)
    ensures
        r@ == spec_role_name(role),
{
    match role {
        Role::Central => owned("central"),
        Role::Peripheral => owned("peripheral"),
    }
}

impl GattEventDto {
    /// What the user interface is told of an event: those of connections and writes.
    pub fn of(event: GattEvent) -> (r: Option<GattEventDto>)
        ensures
            match event {
                GattEvent::Connected { peer, local_role, .. } => {
                    &&& r matches Some(GattEventDto::Connected { address, local_role: name })
                    &&& address@ == peer@
                    &&& name@ == spec_role_name(local_role)
                },
                GattEvent::Disconnected { peer, local_role, .. } => {
                    &&& r matches Some(GattEventDto::Disconnected { address, local_role: name })
                    &&& address@ == peer@
                    &&& name@ == spec_role_name(local_role)
                },
                GattEvent::CharacteristicWritten { peer, characteristic, value } => {
                    &&& r matches Some(
                        GattEventDto::CharacteristicWritten {
                            address,
                            characteristic_uuid,
                            value: written,
                        },
                    )
                    &&& address@ == peer@
                    &&& characteristic_uuid@ == hyphenated(characteristic.0)
                    &&& written == value
                },
                _ => r is None,
            },
    {
        match event {
            GattEvent::Connected { peer, local_role, session: _ } => Some(
                GattEventDto::Connected { address: peer.0, local_role: role_name(local_role) },
            ),
            GattEvent::Disconnected { peer, local_role, session: _ } => Some(
                GattEventDto::Disconnected { address: peer.0, local_role: role_name(local_role) },
            ),
            GattEvent::CharacteristicWritten { peer, characteristic, value } => Some(
                GattEventDto::CharacteristicWritten {
                    address: peer.0,
                    characteristic_uuid: uuid_text(characteristic.0),
                    value,
                },
            ),
            GattEvent::Lagged { .. } => None,
            GattEvent::RadioChanged { .. } => None,
        }
    }
}

/// How a write of a request is delivered: acknowledged, unless the request says otherwise.
pub fn requested_write_type(without_response: Option<bool>) -> (r: WriteType)
    ensures
        r == if without_response == Some(true) {
            WriteType::WithoutResponse
        } else {
            WriteType::WithResponse
        },
{
    match without_response {
        Some(true) => WriteType::WithoutResponse,
        _ => WriteType::WithResponse,
    }
}

#[derive(Debug)]
pub struct ConnectionMtuResponse {
    pub att_mtu: u16,
    /// The largest payload of one write.
    pub max_write_len: usize,
}

impl ConnectionMtuResponse {
    pub fn of(att_mtu: u16) -> (r: ConnectionMtuResponse)
        ensures
            r.att_mtu == att_mtu,
            r.max_write_len == spec_max_write_len(att_mtu),
    {
        ConnectionMtuResponse { att_mtu, max_write_len: max_write_len(att_mtu) }
    }
}

/// What a bounded scan sees next.
pub enum ScanEvent {
    /// Its time is up.
    Deadline,
    Item(Result<DiscoveredPeer, BleError>),
    /// There is no more.
    Ended,
}

/// How a bounded scan goes on.
pub enum ScanStep {
    Continue,
    /// What was found is the answer.
    Answer,
    /// The scan failed: what was found is incomplete, so it is no answer.
    Fail(String),
}

/// Takes the next event of a bounded scan.
pub fn scan_step(found: &mut Vec<DiscoveredPeerDto>, event: ScanEvent) -> (r: ScanStep)
    ensures
        match event {
            ScanEvent::Item(Ok(peer)) => {
                &&& r is Continue
                &&& final(found)@.len() == old(found)@.len() + 1
                &&& final(found)@.drop_last() == old(found)@
                &&& final(found)@.last().shows(&peer)
            },
            ScanEvent::Item(Err(e)) => {
                &&& r is Fail && r->Fail_0@ == e@.message()
                &&& final(found)@ == old(found)@
            },
            _ => r is Answer && final(found)@ == old(found)@,
        },
{
    match event {
        ScanEvent::Item(Ok(peer)) => {
            found.push(DiscoveredPeerDto::of(peer));
            assert(found@.drop_last() =~= old(found)@);
            ScanStep::Continue
        },
        ScanEvent::Item(Err(e)) => ScanStep::Fail(e.message()),
        ScanEvent::Deadline => ScanStep::Answer,
        ScanEvent::Ended => ScanStep::Answer,
    }
}

/// The handles that stand for the open connections and event watches.
pub struct PluginState {
    connections: AssocMap<u64, ()>,
    watchers: AssocMap<u64, ()>,
    next_handle: u64,
}

#[verifier::ext_equal]
pub struct PluginStateView {
    pub connections: Set<u64>,
    pub watchers: Set<u64>,
    /// The next handle.
    pub next: u64,
}

impl View for PluginState {
    type V = PluginStateView;

    closed spec fn view(&self) -> PluginStateView {
        PluginStateView {
            connections: self.connections@.dom(),
            watchers: self.watchers@.dom(),
            next: self.next_handle,
        }
    }
}

impl PluginStateView {
    /// The handles in use were all handed out before the next one.
    pub open spec fn wf(self) -> bool {
        &&& forall|h: u64| #[trigger] self.connections.contains(h) ==> h < self.next
        &&& forall|h: u64| #[trigger] self.watchers.contains(h) ==> h < self.next
    }
}

impl PluginState {
    pub fn new() -> (r: PluginState)
        ensures
            r@ == (PluginStateView { connections: Set::empty(), watchers: Set::empty(), next: 1 }),
            r@.wf(),
    {
        let r = PluginState {
            connections: AssocMap::new(),
            watchers: AssocMap::new(),
            next_handle: 1,
        };
        assert(r@.connections =~= Set::empty());
        assert(r@.watchers =~= Set::empty());
        r
    }

    /// Hands out a handle for a connection that was opened.
    pub fn add_connection(&mut self) -> (handle: u64)
        ensures
            handle == old(self)@.next,
            final(self)@ == (PluginStateView {
                connections: old(self)@.connections.insert(handle),
                next: following(handle),
                ..old(self)@
            }),
    {
        let handle = self.next_handle;
        self.next_handle = next(handle);
        self.connections.insert(handle, ());
        assert(self@.connections =~= old(self)@.connections.insert(handle));
        handle
    }

    /// Whether a handle stands for an open connection.
    pub fn connection(&self, handle: u64) -> (r: Result<(), String>)
        ensures
            self@.connections.contains(handle) ==> r is Ok,
            !self@.connections.contains(handle) ==> r is Err && r->Err_0@
                == "unknown connection handle"@,
    {
        if self.connections.contains(&handle) {
            Ok(())
        } else {
            Err(owned("unknown connection handle"))
        }
    }

    /// Gives a handle back. Returns whether there is a connection to disconnect.
    pub fn remove_connection(&mut self, handle: u64) -> (open: bool)
        ensures
            open == old(self)@.connections.contains(handle),
            final(self)@ == (PluginStateView {
                connections: old(self)@.connections.remove(handle),
                ..old(self)@
            }),
    {
        let open = self.connections.contains(&handle);
        self.connections.remove(&handle);
        assert(self@.connections =~= old(self)@.connections.remove(handle));
        open
    }

    /// Hands out a handle for a watch of the events.
    pub fn add_watcher(&mut self) -> (handle: u64)
        ensures
            handle == old(self)@.next,
            final(self)@ == (PluginStateView {
                watchers: old(self)@.watchers.insert(handle),
                next: following(handle),
                ..old(self)@
            }),
    {
        let handle = self.next_handle;
        self.next_handle = next(handle);
        self.watchers.insert(handle, ());
        assert(self@.watchers =~= old(self)@.watchers.insert(handle));
        handle
    }

    /// Ends a watch. Returns whether there is one to stop.
    pub fn remove_watcher(&mut self, handle: u64) -> (watching: bool)
        ensures
            watching == old(self)@.watchers.contains(handle),
            final(self)@ == (PluginStateView {
                watchers: old(self)@.watchers.remove(handle),
                ..old(self)@
            }),
    {
        let watching = self.watchers.contains(&handle);
        self.watchers.remove(&handle);
        assert(self@.watchers =~= old(self)@.watchers.remove(handle));
        watching
    }
}

// ---------------------------------------------------------------------------
// Laws
// ---------------------------------------------------------------------------

/// As long as handles have not run out, a new one stands for nothing that is open, and it
/// keeps standing for its own only.
pub proof fn a_new_handle_is_unused(before: PluginStateView, after: PluginStateView, handle: u64)
    requires
        before.wf(),
        before.next < u64::MAX,
        handle == before.next,
        after.next == following(handle),
        after.connections == before.connections.insert(handle) && after.watchers
            == before.watchers || after.connections == before.connections && after.watchers
            == before.watchers.insert(handle),
    ensures
        !before.connections.contains(handle),
        !before.watchers.contains(handle),
        after.wf(),
{
}

/// A UUID that could be read is what was read; of one that could not, the complaint quotes
/// the text and ends in what was wrong with it.
pub proof fn a_complaint_quotes_what_could_not_be_read(
    raw: Seq<char>,
    value: u128,
    wrong: Seq<char>,
)
    ensures
        uuid_or_complaint(raw, Ok(value)) == Ok::<u128, Seq<char>>(value),
        uuid_or_complaint(raw, Err(wrong)) == Err::<u128, Seq<char>>(
            "invalid UUID '"@ + raw + "': "@ + wrong,
        ),
        requested_uuid(raw) is Ok <==> parsed_uuid(raw) is Ok,
        parsed_uuid(raw) == Ok::<u128, Seq<char>>(value) ==> requested_uuid(raw) == Ok::<
            u128,
            Seq<char>,
        >(value),
{
}

/// What the user interface is shown of a peer is the peer's own: its address, its name, its
/// signal strength, and every piece of data that it advertises and no other, manufacturer
/// data under the company's number and service data under the service's UUID.
pub proof fn all_data_of_a_peer_is_shown(
    dto: DiscoveredPeerDto,
    peer: &DiscoveredPeer,
    company: u16,
    service: u128,
)
    requires
        dto.shows(peer),
    ensures
        dto.address@ == peer.address@,
        dto.name == peer.name,
        dto.rssi == peer.rssi,
        peer.manufacturer_data@.contains_key(company) <==> exists|i: int|
            0 <= i < dto.manufacturer_data@.len() && (#[trigger] dto.manufacturer_data@[i]).key@
                == decimal(company as nat),
        forall|i: int|
            0 <= i < dto.manufacturer_data@.len() && (#[trigger] dto.manufacturer_data@[i]).key@
                == decimal(company as nat) ==> dto.manufacturer_data@[i].value@
                == peer.manufacturer_data@[company]@,
        peer.service_data@.contains_key(service) <==> exists|i: int|
            0 <= i < dto.service_data@.len() && (#[trigger] dto.service_data@[i]).key@
                == hyphenated(service),
        forall|i: int|
            0 <= i < dto.service_data@.len() && (#[trigger] dto.service_data@[i]).key@
                == hyphenated(service) ==> dto.service_data@[i].value@
                == peer.service_data@[service]@,
{
    let ids = choose|keys: Seq<u16>| #[trigger]
        entries_of(
            dto.manufacturer_data@,
            keys,
            peer.manufacturer_data@,
            company_rank(),
            company_name(),
        );
    let uuids = choose|keys: Seq<u128>| #[trigger]
        entries_of(
            dto.service_data@,
            keys,
            peer.service_data@,
            service_rank(),
            service_name(),
        );
    if peer.manufacturer_data@.contains_key(company) {
        assert(ids.to_set().contains(company));
        let i = choose|i: int| 0 <= i < ids.len() && ids[i] == company;
        assert(dto.manufacturer_data@[i].key@ == decimal(company as nat));
    }
    assert forall|i: int|
        0 <= i < dto.manufacturer_data@.len() && (#[trigger] dto.manufacturer_data@[i]).key@
            == decimal(company as nat) implies ids[i] == company
        && peer.manufacturer_data@.contains_key(company) by {
        numerals_tell_numbers_apart(ids[i] as nat, company as nat);
        assert(ids.to_set().contains(ids[i]));
    }
    if peer.service_data@.contains_key(service) {
        assert(uuids.to_set().contains(service));
        let i = choose|i: int| 0 <= i < uuids.len() && uuids[i] == service;
        assert(dto.service_data@[i].key@ == hyphenated(service));
    }
    assert forall|i: int|
        0 <= i < dto.service_data@.len() && (#[trigger] dto.service_data@[i]).key@ == hyphenated(
            service,
        ) implies uuids[i] == service && peer.service_data@.contains_key(service) by {
        texts_tell_uuids_apart(uuids[i], service);
        assert(uuids.to_set().contains(uuids[i]));
    }
}

/// A request to advertise is judged by its first text that is no UUID: all in front of it can
/// be read. Each characteristic is judged by its own text.
pub proof fn the_first_unreadable_uuid_counts(
    characteristics: Seq<CharacteristicSpecDto>,
    i: int,
)
    ensures
        ({
            let all = complaints(characteristics);
            let n = first_invalid(all);
            &&& all.len() == characteristics.len()
            &&& 0 <= i < all.len() ==> all[i] == requested_uuid(characteristics[i].uuid@)
            &&& n <= all.len()
            &&& 0 <= i < n ==> all[i] is Ok
            &&& n < all.len() ==> all[n as int] is Err
        }),
{
    the_first_error_is_where_the_rest_begins(complaints(characteristics), i);
}

proof fn the_first_error_is_where_the_rest_begins(parsed: Seq<Result<u128, Seq<char>>>, i: int)
    ensures
        first_invalid(parsed) <= parsed.len(),
        0 <= i < first_invalid(parsed) ==> parsed[i] is Ok,
        first_invalid(parsed) < parsed.len() ==> parsed[first_invalid(parsed) as int] is Err,
    decreases parsed.len(),
{
    if parsed.len() > 0 && parsed[0] is Ok {
        the_first_error_is_where_the_rest_begins(parsed.drop_first(), i - 1);
    }
}

/// The two roles have names of their own.
pub proof fn a_role_is_called_by_its_name()
    ensures
        spec_role_name(Role::Central) == "central"@,
        spec_role_name(Role::Peripheral) == "peripheral"@,
        spec_role_name(Role::Central) != spec_role_name(Role::Peripheral),
{
    reveal_strlit("central");
    reveal_strlit("peripheral");
    assert("central"@.len() != "peripheral"@.len());
}

/// Data is listed in the order of its keys, companies and services alike, each under a text
/// of its own.
pub proof fn data_is_listed_in_the_order_of_its_keys(
    dto: DiscoveredPeerDto,
    peer: &DiscoveredPeer,
    i: int,
    j: int,
    companies: (u16, u16),
    services: (u128, u128),
)
    requires
        dto.shows(peer),
        0 <= i < j,
    ensures
        j < dto.manufacturer_data@.len() ==> dto.manufacturer_data@[i].key@
            != dto.manufacturer_data@[j].key@,
        j < dto.manufacturer_data@.len() && dto.manufacturer_data@[i].key@ == decimal(
            companies.0 as nat,
        ) && dto.manufacturer_data@[j].key@ == decimal(companies.1 as nat) ==> companies.0
            < companies.1,
        j < dto.service_data@.len() ==> dto.service_data@[i].key@ != dto.service_data@[j].key@,
        j < dto.service_data@.len() && dto.service_data@[i].key@ == hyphenated(services.0)
            && dto.service_data@[j].key@ == hyphenated(services.1) ==> services.0 < services.1,
{
    let ids = choose|keys: Seq<u16>| #[trigger]
        entries_of(
            dto.manufacturer_data@,
            keys,
            peer.manufacturer_data@,
            company_rank(),
            company_name(),
        );
    let uuids = choose|keys: Seq<u128>| #[trigger]
        entries_of(
            dto.service_data@,
            keys,
            peer.service_data@,
            service_rank(),
            service_name(),
        );
    if j < dto.manufacturer_data@.len() && dto.manufacturer_data@[i].key@ == decimal(
        companies.0 as nat,
    ) && dto.manufacturer_data@[j].key@ == decimal(companies.1 as nat) {
        numerals_tell_numbers_apart(ids[i] as nat, companies.0 as nat);
        numerals_tell_numbers_apart(ids[j] as nat, companies.1 as nat);
        assert(company_rank()(ids[i]) < company_rank()(ids[j]));
    }
    if j < dto.service_data@.len() && dto.service_data@[i].key@ == hyphenated(services.0)
        && dto.service_data@[j].key@ == hyphenated(services.1) {
        texts_tell_uuids_apart(uuids[i], services.0);
        texts_tell_uuids_apart(uuids[j], services.1);
        assert(service_rank()(uuids[i]) < service_rank()(uuids[j]));
    }
}

} // verus!
