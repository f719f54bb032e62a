//! The decisions of the BlueZ backend.
//!
//! The platform calls are asynchronous and address-backed: a call that was validated for
//! one connection can land on the one that replaced it. What is kept here says who owns
//! an address, what may be dialled, whom the local server serves and which reports are
//! stale; the caller performs the platform calls and reports how they went.

pub mod dial;
pub mod serve;

use std::collections::BTreeMap;

use vstd::prelude::*;

use crate::backend::next;
#[allow(unused_imports)]
use crate::backend::following;
use crate::clock::Duration;
use crate::error::BleError;
#[allow(unused_imports)]
use crate::error::BleErrorView;
use crate::models::{
    CapabilityReport, CharacteristicUuid, DiscoveredPeer, PeerAddress, ServiceUuid,
};
use crate::text::{joined, joined3, owned};
use crate::uuids::uuid_text;
#[allow(unused_imports)]
use crate::uuids::hyphenated;

verus! {

pub const EVENT_CHANNEL_CAPACITY: usize = 64;

/// How long a dial waits for the platform's reply.
pub const CONNECT_TIMEOUT: Duration = 20_000_000_000;

/// How long one wait for the disconnect of an abandoned dial lasts.
pub const CLEANUP_DISCONNECT_TIMEOUT: Duration = 10_000_000_000;

/// How long to wait before the disconnect of an abandoned dial is tried again.
pub const PENDING_CLEANUP_RETRY_DELAY: Duration = 2_000_000_000;

/// How often a served peer's notify sessions are checked for closure.
pub const NOTIFY_SESSION_POLL: Duration = 500_000_000;

/// How long a notification to a served peer waits for the peer's writer, which arrives by
/// a round trip of its own and may come behind the peer's first write.
pub const NOTIFY_WRITER_ACQUIRE_TIMEOUT: Duration = 3_000_000_000;

pub const NOTIFY_WRITER_ACQUIRE_POLL: Duration = 50_000_000;

/// What kind of error the platform reported.
#[derive(Debug)]
pub enum PlatformErrorKind {
    /// The platform's catch-all for a momentary rejection.
    Failed,
    /// An error that is known only by its D-Bus name.
    DBus(String),
    /// A structured refusal.
    Refused,
}

/// An error of the platform, with its text.
#[derive(Debug)]
pub struct PlatformError {
    pub kind: PlatformErrorKind,
    pub text: String,
}

impl PlatformError {
    /// Whether the rejection is momentary, so that a caller may want to retry.
    pub open spec fn transient(&self) -> bool {
        self.kind is Failed
    }

    /// Whether the error says that there is no connection.
    pub open spec fn not_connected(&self) -> bool {
        match self.kind {
            PlatformErrorKind::DBus(name) => name@ == "org.bluez.Error.NotConnected"@,
            _ => false,
        }
    }

    pub fn is_transient_gatt_error(&self) -> (r: bool)
        ensures
            r == self.transient(),
    {
        matches!(self.kind, PlatformErrorKind::Failed)
    }

    /// Goes by the error's name; its text is not stable.
    pub fn is_not_connected(&self) -> (r: bool)
        ensures
            r == self.not_connected(),
    {
        match &self.kind {
            PlatformErrorKind::DBus(name) => {
                let expected = owned("org.bluez.Error.NotConnected");
                *name == expected
            },
            _ => false,
        }
    }

    /// The error of a read or a write that the platform rejected.
    pub fn gatt_error(&self) -> (e: BleError)
        ensures
            e@ == if self.transient() {
                BleErrorView::GattBusy(self.text@)
            } else {
                BleErrorView::Gatt(self.text@)
            },
    {
        if self.is_transient_gatt_error() {
            BleError::GattBusy(self.text.clone())
        } else {
            BleError::Gatt(self.text.clone())
        }
    }
}

/// The identities of connections, handed out in order. A connection keeps its own for
/// life, so that a late report of an earlier one is told apart.
pub struct Sessions {
    next: u64,
}

impl View for Sessions {
    type V = u64;

    closed spec fn view(&self) -> u64 {
        self.next
    }
}

impl Sessions {
    pub fn new() -> (r: Sessions)
        ensures
            r@ == 1,
    {
        Sessions { next: 1 }
    }

    pub fn allocate(&mut self) -> (session: u64)
        ensures
            session == old(self)@,
            final(self)@ == following(old(self)@),
    {
        let session = self.next;
        self.next = next(session);
        session
    }
}

/// Whether the adapter may be used: one that is not powered may not.
pub fn adapter_ready(name: &str, powered: bool) -> (r: Result<(), BleError>)
    ensures
        powered ==> r is Ok,
        !powered ==> r is Err && r->Err_0@ == BleErrorView::AdapterUnavailable(
            "adapter "@ + name@ + " is not powered on"@,
        ),
{
    if powered {
        Ok(())
    } else {
        Err(BleError::AdapterUnavailable(joined3("adapter ", name, " is not powered on")))
    }
}

/// What the backend can do: it is always a central, and a peripheral where the adapter
/// reports what it can advertise.
pub fn capabilities(advertises: bool) -> (r: CapabilityReport)
    ensures
        r == (CapabilityReport { central: true, peripheral: advertises }),
{
    CapabilityReport { central: true, peripheral: advertises }
}

/// A device as the platform describes it.
pub struct DeviceFacts {
    pub address: String,
    pub uuids: Vec<ServiceUuid>,
    pub name: Option<String>,
    pub manufacturer_data: BTreeMap<u16, Vec<u8>>,
    pub service_data: BTreeMap<u128, Vec<u8>>,
    pub rssi: Option<i16>,
}

/// What a scan for `service` reports of a device: nothing, unless the device has the
/// service.
pub fn discovered(service: ServiceUuid, device: DeviceFacts) -> (r: Option<DiscoveredPeer>)
    ensures
        r is Some <==> device.uuids@.contains(service),
        r is Some ==> r->0 == (DiscoveredPeer {
            address: PeerAddress(device.address),
            name: device.name,
            services: device.uuids,
            manufacturer_data: device.manufacturer_data,
            service_data: device.service_data,
            rssi: device.rssi,
        }),
{
    let mut i: usize = 0;
    while i < device.uuids.len()
        invariant
            i <= device.uuids@.len(),
            forall|k: int| 0 <= k < i ==> device.uuids@[k] != service,
        decreases device.uuids.len() - i,
    {
        if device.uuids[i] == service {
            return Some(
                DiscoveredPeer {
                    address: PeerAddress(device.address),
                    name: device.name,
                    services: device.uuids,
                    manufacturer_data: device.manufacturer_data,
                    service_data: device.service_data,
                    rssi: device.rssi,
                },
            );
        }
        i = i + 1;
    }
    None
}

/// Whether the search for a characteristic ends at this candidate.
pub open spec fn ends_search(
    candidate: Result<CharacteristicUuid, String>,
    wanted: CharacteristicUuid,
) -> bool {
    match candidate {
        Ok(uuid) => uuid == wanted,
        Err(_) => true,
    }
}

/// Position of a characteristic among those of a peer, in the order in which the peer
/// lists them. An error on the way is an item of its own, and ends the search.
pub fn find_characteristic(
    candidates: &Vec<Result<CharacteristicUuid, String>>,
    wanted: CharacteristicUuid,
) -> (r: Result<usize, BleError>)
    ensures
        match r {
            Ok(at) => {
                &&& at < candidates@.len()
                &&& candidates@[at as int] == Ok::<CharacteristicUuid, String>(wanted)
                &&& forall|k: int| 0 <= k < at ==> !ends_search(#[trigger] candidates@[k], wanted)
            },
            Err(e) => {
                ||| {
                    &&& forall|k: int|
                        0 <= k < candidates@.len() ==> !ends_search(
                            #[trigger] candidates@[k],
                            wanted,
                        )
                    &&& e@ == BleErrorView::Gatt(
                        "characteristic "@ + hyphenated(wanted.0) + " not found on peer"@,
                    )
                }
                ||| exists|at: int|
                    {
                        &&& 0 <= at < candidates@.len()
                        &&& (#[trigger] candidates@[at]) is Err
                        &&& e@ == BleErrorView::Gatt(candidates@[at]->Err_0@)
                        &&& forall|k: int|
                            0 <= k < at ==> !ends_search(#[trigger] candidates@[k], wanted)
                    }
            },
        },
{
    let mut i: usize = 0;
    while i < candidates.len()
        invariant
            i <= candidates@.len(),
            forall|k: int| 0 <= k < i ==> !ends_search(#[trigger] candidates@[k], wanted),
        decreases candidates.len() - i,
    {
        match &candidates[i] {
            Ok(uuid) => {
                if *uuid == wanted {
                    return Ok(i);
                }
            },
            Err(text) => {
                assert(candidates@[i as int] is Err);
                return Err(BleError::Gatt(text.clone()));
            },
        }
        i = i + 1;
    }
    let id = uuid_text(wanted.0);
    Err(BleError::Gatt(joined3("characteristic ", id.as_str(), " not found on peer")))
}

/// The ATT MTU of a connection behind an attempt to read it: what was read, by its low 16
/// bits, or what was known before.
pub fn refreshed_mtu(known: u16, read: Option<u64>) -> (mtu: u16)
    ensures
        mtu == match read {
            Some(value) => (value % 0x1_0000) as u16,
            None => known,
        },
{
    match read {
        Some(value) => {
            let low: u64 = value % 0x1_0000;
            low as u16
        },
        None => known,
    }
}

/// The error of a dial that did not lead to a connection.
pub fn connect_failed(peer: &PeerAddress, reason: &str) -> (e: BleError)
    ensures
        e@ == (BleErrorView::ConnectFailed { peer: peer@, reason: reason@ }),
{
    BleError::ConnectFailed { peer: peer.0.clone(), reason: owned(reason) }
}

/// The error of a dial to something that is no Bluetooth address.
pub fn invalid_address(peer: &PeerAddress) -> (e: BleError)
    ensures
        e@ == (BleErrorView::ConnectFailed { peer: peer@, reason: "invalid Bluetooth address"@ }),
{
    connect_failed(peer, "invalid Bluetooth address")
}

/// The error of a disconnect of something that is no Bluetooth address.
pub fn malformed_address(peer: &PeerAddress) -> (e: BleError)
    ensures
        e@ == BleErrorView::Gatt("malformed peer address "@ + peer@),
{
    BleError::Gatt(joined("malformed peer address ", peer.0.as_str()))
}

/// The error of a disconnect that the platform rejected.
pub fn disconnect_failed(peer: &PeerAddress, error: &PlatformError) -> (e: BleError)
    ensures
        e@ == BleErrorView::Gatt("disconnecting "@ + peer@ + " failed: "@ + error.text@),
{
    let mut text = joined3("disconnecting ", peer.0.as_str(), " failed: ");
    text.append(error.text.as_str());
    BleError::Gatt(text)
}

/// Only the platform's catch-all is momentary, and only the one D-Bus name says that there is
/// no connection: no error is both.
pub proof fn an_error_is_told_by_its_kind(error: PlatformError, name: String)
    ensures
        error.transient() <==> error.kind is Failed,
        error.transient() ==> !error.not_connected(),
        error.kind is Refused ==> !error.not_connected(),
        error.kind == PlatformErrorKind::DBus(name) ==> (error.not_connected() <==> name@
            == "org.bluez.Error.NotConnected"@),
{
}

/// The search for a characteristic passes over every other one, and over nothing else.
pub proof fn a_search_passes_over_other_characteristics(
    uuid: CharacteristicUuid,
    error: String,
    wanted: CharacteristicUuid,
)
    ensures
        ends_search(Ok(uuid), wanted) <==> uuid == wanted,
        ends_search(Err(error), wanted),
{
}

/// The platform's waits: twenty seconds for a dial, ten for a cleanup's disconnect and two
/// before the next, three for a subscriber's writer.
pub proof fn the_waits_are_what_they_are()
    ensures
        CONNECT_TIMEOUT == 20 * crate::clock::SECOND,
        CLEANUP_DISCONNECT_TIMEOUT == 10 * crate::clock::SECOND,
        PENDING_CLEANUP_RETRY_DELAY == 2 * crate::clock::SECOND,
        NOTIFY_WRITER_ACQUIRE_TIMEOUT == 3 * crate::clock::SECOND,
        NOTIFY_SESSION_POLL == 500 * crate::clock::MILLISECOND,
        NOTIFY_WRITER_ACQUIRE_POLL == 50 * crate::clock::MILLISECOND,
{
}

} // verus!
