//! Scans: one at a time, whose results and failure belong to it alone.

use std::collections::BTreeMap;

use vstd::prelude::*;

use crate::backend::android::{low_16, low_16_signed};
use crate::backend::next;
#[allow(unused_imports)]
use crate::backend::android::spec_low_16_signed;
#[allow(unused_imports)]
use crate::backend::following;
use crate::error::BleError;
#[allow(unused_imports)]
use crate::error::BleErrorView;
use crate::models::{DiscoveredPeer, PeerAddress, ServiceUuid};
use crate::text::{append_signed_decimal, owned};
#[allow(unused_imports)]
use crate::text::signed_decimal;
use crate::uuids::read_uuid;
#[allow(unused_imports)]
use crate::uuids::named_uuid;

verus! {

/// The scan that this backend runs, or ran last.
pub struct Scan {
    active: bool,
    error: Option<BleError>,
    generation: u64,
}

/// The contents of a `Scan`.
pub struct ScanView {
    /// Results are being delivered.
    pub active: bool,
    /// The failure that ended the scan and was not read yet.
    pub error: Option<BleErrorView>,
    /// Which scan this is.
    pub generation: u64,
}

pub open spec fn error_view(error: Option<BleError>) -> Option<BleErrorView> {
    match error {
        Some(e) => Some(e@),
        None => None,
    }
}

impl View for Scan {
    type V = ScanView;

    closed spec fn view(&self) -> ScanView {
        ScanView {
            active: self.active,
            error: error_view(self.error),
            generation: self.generation,
        }
    }
}

/// How the platform answered the start of a scan.
#[derive(Debug, Clone, Copy, PartialEq, Eq, Structural)]
pub enum ScanStart {
    Started,
    Rejected,
}

pub open spec fn scan_failure(code: i32) -> BleErrorView {
    BleErrorView::Gatt(
        "Android scan failed (ScanCallback error code "@ + signed_decimal(code as int) + ")"@,
    )
}

impl Scan {
    pub fn new() -> (r: Scan)
        ensures
            r@ == (ScanView { active: false, error: None, generation: 0 }),
    {
        Scan { active: false, error: None, generation: 0 }
    }

    /// The generation that the next scan is started with.
    pub fn next_generation(&self) -> (generation: u64)
        ensures
            generation == following(self@.generation),
    {
        next(self.generation)
    }

    /// Takes the platform's answer to the start of the next scan. A scan that is rejected
    /// leaves the one that runs as it is.
    pub fn on_start(&mut self, start: ScanStart) -> (r: Result<u64, BleError>)
        ensures
            match start {
                ScanStart::Started => {
                    &&& r == Ok::<u64, BleError>(following(old(self)@.generation))
                    &&& final(self)@ == (ScanView {
                        active: true,
                        error: None,
                        generation: following(old(self)@.generation),
                    })
                },
                ScanStart::Rejected => {
                    &&& r is Err
                    &&& r->Err_0@ == BleErrorView::Gatt(
                        "a scan is already active; concurrent scans are not supported"@,
                    )
                    &&& final(self)@ == old(self)@
                },
            },
    {
        match start {
            ScanStart::Started => {
                self.generation = next(self.generation);
                self.active = true;
                self.error = None;
                Ok(self.generation)
            },
            ScanStart::Rejected => Err(
                BleError::Gatt(
                    owned("a scan is already active; concurrent scans are not supported"),
                ),
            ),
        }
    }

    /// Whether a result of the scan `generation` is delivered.
    pub fn accepts(&self, generation: u64) -> (r: bool)
        ensures
            r == (self@.generation == generation && self@.active),
    {
        self.generation == generation && self.active
    }

    /// The scan `generation` failed. Its failure is read behind the results that still
    /// wait. A failure of an earlier scan does not end the current one.
    pub fn on_failed(&mut self, generation: u64, code: i32)
        ensures
            final(self)@ == if old(self)@.generation == generation {
                ScanView { active: false, error: Some(scan_failure(code)), ..old(self)@ }
            } else {
                old(self)@
            },
    {
        if self.generation != generation {
            return;
        }
        let mut text = owned("Android scan failed (ScanCallback error code ");
        append_signed_decimal(&mut text, code);
        text.append(")");
        self.error = Some(BleError::Gatt(text));
        self.active = false;
    }

    /// The results are all read: the failure that ended the scan comes last, once.
    pub fn on_drained(&mut self) -> (r: Option<BleError>)
        ensures
            error_view(r) == old(self)@.error,
            final(self)@ == (ScanView { error: None, ..old(self)@ }),
    {
        let mut error: Option<BleError> = None;
        std::mem::swap(&mut error, &mut self.error);
        error
    }

    /// The reader of the scan `generation` is gone. Returns whether the platform's scan is
    /// to be stopped: not if another scan has taken its place.
    pub fn on_dropped(&mut self, generation: u64) -> (stop: bool)
        ensures
            stop == (old(self)@.generation == generation),
            final(self)@ == if stop {
                ScanView { active: false, ..old(self)@ }
            } else {
                old(self)@
            },
    {
        if self.generation != generation {
            return false;
        }
        self.active = false;
        true
    }
}

/// What a list of entries maps each key to: of entries with the same key, the last counts.
pub open spec fn gathered<K>(entries: Seq<(K, Vec<u8>)>) -> Map<K, Vec<u8>>
    decreases entries.len(),
{
    if entries.len() == 0 {
        Map::empty()
    } else {
        gathered(entries.drop_last()).insert(entries.last().0, entries.last().1)
    }
}

/// The entries of a list whose key is known.
pub open spec fn known_keys<K>(entries: Seq<(Option<K>, Vec<u8>)>) -> Seq<(K, Vec<u8>)>
    decreases entries.len(),
{
    if entries.len() == 0 {
        seq![]
    } else {
        let head = known_keys(entries.drop_last());
        match entries.last().0 {
            Some(key) => head.push((key, entries.last().1)),
            None => head,
        }
    }
}

/// Collects manufacturer data by company identifier.
pub fn gather_manufacturer_data(entries: Vec<(u16, Vec<u8>)>) -> (r: BTreeMap<u16, Vec<u8>>)
    ensures
        r@ == gathered(entries@),
{
    broadcast use vstd::std_specs::btree::group_btree_axioms;

    let mut rest = entries;
    let mut r: BTreeMap<u16, Vec<u8>> = BTreeMap::new();
    assert(gathered(rest@).union_prefer_right(r@) =~= gathered(entries@));
    while rest.len() > 0
        invariant
            gathered(rest@).union_prefer_right(r@) == gathered(entries@),
        decreases rest.len(),
    {
        broadcast use vstd::std_specs::btree::group_btree_axioms;

        let ghost before = rest@;
        let ghost held = r@;
        match rest.pop() {
            Some((key, value)) => {
                if !r.contains_key(&key) {
                    r.insert(key, value);
                }
                proof {
                    assert(rest@ =~= before.drop_last());
                    assert(gathered(rest@).union_prefer_right(r@) =~= gathered(
                        before,
                    ).union_prefer_right(held));
                }
            },
            None => {},
        }
    }
    assert(gathered(rest@).union_prefer_right(r@) =~= r@);
    r
}

/// Collects service data by the service's UUID. Data under a UUID that could not be read
/// is dropped.
pub fn gather_service_data(entries: Vec<(Option<u128>, Vec<u8>)>) -> (r: BTreeMap<u128, Vec<u8>>)
    ensures
        r@ == gathered(known_keys(entries@)),
{
    broadcast use vstd::std_specs::btree::group_btree_axioms;

    let mut rest = entries;
    let mut r: BTreeMap<u128, Vec<u8>> = BTreeMap::new();
    let ghost whole = gathered(known_keys(entries@));
    assert(gathered(known_keys(rest@)).union_prefer_right(r@) =~= whole);
    while rest.len() > 0
        invariant
            gathered(known_keys(rest@)).union_prefer_right(r@) == whole,
        decreases rest.len(),
    {
        broadcast use vstd::std_specs::btree::group_btree_axioms;

        let ghost before = rest@;
        let ghost held = r@;
        match rest.pop() {
            Some((Some(key), value)) => {
                if !r.contains_key(&key) {
                    r.insert(key, value);
                }
                proof {
                    assert(rest@ =~= before.drop_last());
                    let known = known_keys(before);
                    assert(known.drop_last() =~= known_keys(rest@));
                    assert(gathered(known_keys(rest@)).union_prefer_right(r@) =~= gathered(
                        known,
                    ).union_prefer_right(held));
                }
            },
            Some((None, _)) => {
                assert(rest@ =~= before.drop_last());
            },
            None => {},
        }
    }
    assert(gathered(known_keys(rest@)).union_prefer_right(r@) =~= r@);
    r
}

/// The UUIDs of a list that could be read.
pub open spec fn known_services(uuids: Seq<Option<u128>>) -> Seq<ServiceUuid>
    decreases uuids.len(),
{
    if uuids.len() == 0 {
        seq![]
    } else {
        let head = known_services(uuids.drop_last());
        match uuids.last() {
            Some(value) => head.push(ServiceUuid(value)),
            None => head,
        }
    }
}

/// The services of a device, without those whose UUIDs could not be read.
pub fn gather_services(uuids: &Vec<Option<u128>>) -> (r: Vec<ServiceUuid>)
    ensures
        r@ == known_services(uuids@),
{
    let mut r: Vec<ServiceUuid> = Vec::new();
    let mut i: usize = 0;
    assert(r@ =~= known_services(uuids@.take(0)));
    while i < uuids.len()
        invariant
            i <= uuids@.len(),
            r@ == known_services(uuids@.take(i as int)),
        decreases uuids.len() - i,
    {
        assert(uuids@.take(i + 1).drop_last() =~= uuids@.take(i as int));
        match uuids[i] {
            Some(value) => {
                r.push(ServiceUuid(value));
            },
            None => {},
        }
        i = i + 1;
    }
    assert(uuids@.take(i as int) =~= uuids@);
    r
}

/// A scan result as the bridge reports it: UUIDs as text, company identifiers as numbers.
pub struct DiscoveryReport {
    pub address: String,
    pub name: Option<String>,
    pub services: Vec<String>,
    pub manufacturer_data: Vec<(i32, Vec<u8>)>,
    pub service_data: Vec<(String, Vec<u8>)>,
    pub rssi: i32,
}

pub open spec fn uuids_named(texts: Seq<String>) -> Seq<Option<u128>> {
    texts.map_values(|t: String| named_uuid(t@))
}

pub open spec fn data_named(entries: Seq<(String, Vec<u8>)>) -> Seq<(Option<u128>, Vec<u8>)> {
    entries.map_values(|e: (String, Vec<u8>)| (named_uuid(e.0@), e.1))
}

pub open spec fn data_numbered(entries: Seq<(i32, Vec<u8>)>) -> Seq<(u16, Vec<u8>)> {
    entries.map_values(|e: (i32, Vec<u8>)| ((e.0 as int % 0x1_0000) as u16, e.1))
}

/// The peer that a scan result tells of.
pub fn discovered_peer(report: DiscoveryReport) -> (r: DiscoveredPeer)
    ensures
        r.address.0 == report.address,
        r.name == report.name,
        r.services@ == known_services(uuids_named(report.services@)),
        r.manufacturer_data@ == gathered(data_numbered(report.manufacturer_data@)),
        r.service_data@ == gathered(known_keys(data_named(report.service_data@))),
        r.rssi == Some(spec_low_16_signed(report.rssi) as i16),
{
    let DiscoveryReport { address, name, services, manufacturer_data, service_data, rssi } =
        report;
    let mut uuids: Vec<Option<u128>> = Vec::new();
    let mut i: usize = 0;
    while i < services.len()
        invariant
            i <= services@.len(),
            uuids@.len() == i,
            forall|k: int|
                0 <= k < i ==> (#[trigger] uuids@[k]) == named_uuid(services@[k]@),
        decreases services.len() - i,
    {
        uuids.push(read_uuid(services[i].as_str()));
        i = i + 1;
    }
    assert(uuids@ =~= uuids_named(services@));
    let mut numbered: Vec<(u16, Vec<u8>)> = Vec::new();
    let mut ids = manufacturer_data;
    let ghost all = ids@;
    while ids.len() > 0
        invariant
            ids@.len() + numbered@.len() == all.len(),
            ids@ == all.take(ids@.len() as int),
            forall|k: int|
                #![trigger numbered@[k]]
                0 <= k < numbered@.len() ==> numbered@[k] == data_numbered(all)[all.len() - 1 - k],
        decreases ids.len(),
    {
        match ids.pop() {
            Some((id, value)) => {
                numbered.push((low_16(id), value));
            },
            None => {},
        }
    }
    let numbered = reversed(numbered);
    assert(numbered@ =~= data_numbered(all));
    let mut named: Vec<(Option<u128>, Vec<u8>)> = Vec::new();
    let mut items = service_data;
    let ghost every = items@;
    while items.len() > 0
        invariant
            items@.len() + named@.len() == every.len(),
            items@ == every.take(items@.len() as int),
            forall|k: int|
                #![trigger named@[k]]
                0 <= k < named@.len() ==> named@[k] == data_named(every)[every.len() - 1 - k],
        decreases items.len(),
    {
        match items.pop() {
            Some((text, value)) => {
                named.push((read_uuid(text.as_str()), value));
            },
            None => {},
        }
    }
    let named = reversed(named);
    assert(named@ =~= data_named(every));
    DiscoveredPeer {
        address: PeerAddress(address),
        name,
        services: gather_services(&uuids),
        manufacturer_data: gather_manufacturer_data(numbered),
        service_data: gather_service_data(named),
        rssi: Some(low_16_signed(rssi)),
    }
}

/// The items of a list, the last one first.
fn reversed<T>(list: Vec<T>) -> (r: Vec<T>)
    ensures
        r@.len() == list@.len(),
        forall|k: int| #![trigger r@[k]] 0 <= k < r@.len() ==> r@[k] == list@[list@.len() - 1 - k],
{
    let mut rest = list;
    let mut r: Vec<T> = Vec::new();
    while rest.len() > 0
        invariant
            rest@.len() + r@.len() == list@.len(),
            rest@ == list@.take(rest@.len() as int),
            forall|k: int|
                #![trigger r@[k]]
                0 <= k < r@.len() ==> r@[k] == list@[list@.len() - 1 - k],
        decreases rest.len(),
    {
        match rest.pop() {
            Some(item) => {
                r.push(item);
            },
            None => {},
        }
    }
    r
}

// ---------------------------------------------------------------------------
// Laws
// ---------------------------------------------------------------------------

/// The services of a device are reported piece by piece, in the order advertised: each one
/// whose UUID could be read, once for each time that it occurs.
pub proof fn services_are_reported_one_by_one(
    front: Seq<Option<u128>>,
    uuid: u128,
    back: Seq<Option<u128>>,
)
    ensures
        known_services(front + back) == known_services(front) + known_services(back),
        known_services(seq![Some(uuid)]) == seq![ServiceUuid(uuid)],
        known_services(seq![None::<u128>]).len() == 0,
        known_services(seq![]).len() == 0,
    decreases back.len(),
{
    assert(seq![Some(uuid)].drop_last() =~= seq![]);
    assert(seq![None::<u128>].drop_last() =~= seq![]);
    assert(known_services(seq![]) =~= seq![]);
    assert(known_services(seq![Some(uuid)]) =~= seq![ServiceUuid(uuid)]);
    if back.len() == 0 {
        assert(front + back =~= front);
    } else {
        services_are_reported_one_by_one(front, uuid, back.drop_last());
        assert((front + back).drop_last() =~= front + back.drop_last());
        assert((front + back).last() == back.last());
    }
    assert(known_services(front + back) =~= known_services(front) + known_services(back));
}

/// A service is reported exactly if its UUID is among those that could be read. Where all of
/// them could be, each stands at its own place.
pub proof fn a_service_is_reported_iff_it_can_be_read(
    uuids: Seq<Option<u128>>,
    uuid: u128,
    i: int,
)
    ensures
        known_services(uuids).contains(ServiceUuid(uuid)) <==> uuids.contains(Some(uuid)),
        known_services(uuids).len() <= uuids.len(),
        (forall|j: int| 0 <= j < uuids.len() ==> (#[trigger] uuids[j]) is Some) ==> {
            &&& known_services(uuids).len() == uuids.len()
            &&& 0 <= i < uuids.len() ==> uuids[i] == Some(known_services(uuids)[i].0)
        },
    decreases uuids.len(),
{
    if uuids.len() > 0 {
        let front = uuids.drop_last();
        let last = uuids.last();
        a_service_is_reported_iff_it_can_be_read(front, uuid, i);
        assert(uuids =~= front.push(last));
        if uuids.contains(Some(uuid)) {
            let k = choose|k: int| 0 <= k < uuids.len() && uuids[k] == Some(uuid);
            if k < front.len() {
                assert(front[k] == Some(uuid));
            }
        }
        if front.contains(Some(uuid)) {
            let k = choose|k: int| 0 <= k < front.len() && front[k] == Some(uuid);
            assert(uuids[k] == Some(uuid));
        }
        let (shorter, whole) = (known_services(front), known_services(uuids));
        if shorter.contains(ServiceUuid(uuid)) {
            let k = choose|k: int| 0 <= k < shorter.len() && shorter[k] == ServiceUuid(uuid);
            assert(whole[k] == ServiceUuid(uuid));
        }
        if whole.contains(ServiceUuid(uuid)) {
            let k = choose|k: int| 0 <= k < whole.len() && whole[k] == ServiceUuid(uuid);
            if k < shorter.len() {
                assert(shorter[k] == ServiceUuid(uuid));
            } else {
                assert(uuids[uuids.len() - 1] == Some(uuid));
            }
        }
        if last is Some {
            assert(whole.last() == ServiceUuid(last->0));
            assert(whole[whole.len() - 1] == whole.last());
            if last->0 == uuid {
                assert(whole.contains(ServiceUuid(uuid)));
                assert(uuids[uuids.len() - 1] == Some(uuid));
            }
        }
        if forall|j: int| 0 <= j < uuids.len() ==> (#[trigger] uuids[j]) is Some {
            assert forall|j: int| 0 <= j < front.len() implies (#[trigger] front[j]) is Some by {
                assert(front[j] == uuids[j]);
            }
            assert(uuids[uuids.len() - 1] is Some);
        }
    }
}

/// Data is kept under every key that an entry has and under no other, and what is kept is the
/// data of the last entry with that key.
pub proof fn the_last_entry_of_a_key_counts<K>(entries: Seq<(K, Vec<u8>)>, key: K, i: int)
    ensures
        gathered(entries).contains_key(key) <==> exists|j: int|
            0 <= j < entries.len() && (#[trigger] entries[j]).0 == key,
        0 <= i < entries.len() && (forall|j: int|
            i < j < entries.len() ==> (#[trigger] entries[j]).0 != entries[i].0) ==> gathered(
            entries,
        )[entries[i].0] == entries[i].1,
    decreases entries.len(),
{
    if entries.len() > 0 {
        let front = entries.drop_last();
        the_last_entry_of_a_key_counts(front, key, i);
        assert(entries[entries.len() - 1] == entries.last());
        assert forall|j: int| 0 <= j < front.len() implies #[trigger] front[j] == entries[j] by {}
        if exists|j: int| 0 <= j < entries.len() && (#[trigger] entries[j]).0 == key {
            let j = choose|j: int| 0 <= j < entries.len() && (#[trigger] entries[j]).0 == key;
            if j < front.len() {
                assert(front[j].0 == key);
            }
        }
        if exists|j: int| 0 <= j < front.len() && (#[trigger] front[j]).0 == key {
            let j = choose|j: int| 0 <= j < front.len() && (#[trigger] front[j]).0 == key;
            assert(entries[j].0 == key);
        }
        if 0 <= i < front.len() && forall|j: int|
            i < j < entries.len() ==> (#[trigger] entries[j]).0 != entries[i].0 {
            assert forall|j: int| i < j < front.len() implies (#[trigger] front[j]).0
                != front[i].0 by {
                assert(entries[j] == front[j]);
            }
            assert(entries[i] == front[i]);
        }
    }
}

/// Data whose key could be read is kept with its own key, piece by piece and in order; the
/// rest is dropped.
pub proof fn data_under_a_readable_key_is_kept<K>(
    front: Seq<(Option<K>, Vec<u8>)>,
    key: K,
    data: Vec<u8>,
    back: Seq<(Option<K>, Vec<u8>)>,
)
    ensures
        known_keys(front + back) == known_keys(front) + known_keys(back),
        known_keys(seq![(Some(key), data)]) == seq![(key, data)],
        known_keys(seq![(None::<K>, data)]).len() == 0,
        known_keys(Seq::<(Option<K>, Vec<u8>)>::empty()).len() == 0,
    decreases back.len(),
{
    assert(seq![(Some(key), data)].drop_last() =~= seq![]);
    assert(seq![(None::<K>, data)].drop_last() =~= seq![]);
    assert(known_keys(Seq::<(Option<K>, Vec<u8>)>::empty()) =~= seq![]);
    assert(known_keys(seq![(Some(key), data)]) =~= seq![(key, data)]);
    if back.len() == 0 {
        assert(front + back =~= front);
    } else {
        data_under_a_readable_key_is_kept(front, key, data, back.drop_last());
        assert((front + back).drop_last() =~= front + back.drop_last());
        assert((front + back).last() == back.last());
    }
    assert(known_keys(front + back) =~= known_keys(front) + known_keys(back));
}

/// A report is read item by item: each UUID by its own text, and each piece of data under its
/// own key, of which a company identifier is the low half.
pub proof fn a_report_is_read_item_by_item(
    services: Seq<String>,
    service_data: Seq<(String, Vec<u8>)>,
    manufacturer_data: Seq<(i32, Vec<u8>)>,
    i: int,
)
    ensures
        uuids_named(services).len() == services.len(),
        0 <= i < services.len() ==> uuids_named(services)[i] == named_uuid(services[i]@),
        data_named(service_data).len() == service_data.len(),
        0 <= i < service_data.len() ==> {
            &&& data_named(service_data)[i].0 == named_uuid(service_data[i].0@)
            &&& data_named(service_data)[i].1 == service_data[i].1
        },
        data_numbered(manufacturer_data).len() == manufacturer_data.len(),
        0 <= i < manufacturer_data.len() ==> {
            &&& 0 <= manufacturer_data[i].0 < 0x1_0000 ==> data_numbered(manufacturer_data)[i].0
                == manufacturer_data[i].0
            &&& (manufacturer_data[i].0 - data_numbered(manufacturer_data)[i].0) % 0x1_0000 == 0
            &&& data_numbered(manufacturer_data)[i].1 == manufacturer_data[i].1
        },
{
}

/// A failed scan says the platform's own code.
pub proof fn a_failed_scan_says_its_code(code: i32, other: i32)
    requires
        code >= 0,
        other >= 0,
        scan_failure(code) == scan_failure(other),
    ensures
        code == other,
{
    let head = "Android scan failed (ScanCallback error code "@;
    let (x, y) = (signed_decimal(code as int), signed_decimal(other as int));
    let (a, b) = (head + x + ")"@, head + y + ")"@);
    assert(a == b);
    reveal_strlit(")");
    assert(a.len() == head.len() + x.len() + 1);
    assert(b.len() == head.len() + y.len() + 1);
    assert(x.len() == y.len());
    assert forall|k: int| 0 <= k < x.len() implies x[k] == y[k] by {
        assert(a[head.len() + k] == x[k]);
        assert(b[head.len() + k] == y[k]);
    }
    assert(x =~= y);
    crate::text::numerals_tell_numbers_apart(code as nat, other as nat);
}

} // verus!
