//! The vocabulary that every backend and every tier speaks: peers, services,
//! characteristics and lifecycle events.

use std::collections::BTreeMap;

use vstd::prelude::*;

verus! {

/// A service's UUID, by its 128-bit value.
#[derive(Debug, Clone, Copy, PartialEq, Eq, Hash, PartialOrd, Ord, Structural)]
pub struct ServiceUuid(pub u128);

/// A characteristic's UUID, by its 128-bit value.
#[derive(Debug, Clone, Copy, PartialEq, Eq, Hash, Structural)]
pub struct CharacteristicUuid(pub u128);

#[derive(Debug, Clone, Copy, PartialEq, Eq, Hash, Structural)]
pub enum Role {
    Central,
    Peripheral,
}

/// Whether the platform radio is usable, as a consumer sees it.
#[derive(Debug, Clone, Copy, PartialEq, Eq, Structural)]
pub enum RadioStatus {
    On,
    Off,
    Unsupported,
}

/// What a backend can do on this device, discovered at run time.
#[derive(Debug, Clone, Copy, PartialEq, Eq, Structural)]
pub struct CapabilityReport {
    pub central: bool,
    pub peripheral: bool,
}

impl Default for CapabilityReport {
    fn default() -> (r: Self)
        ensures
            r == (CapabilityReport { central: false, peripheral: false }),
    {
        CapabilityReport { central: false, peripheral: false }
    }
}

/// How a characteristic write is delivered.
#[derive(Debug, Clone, Copy, PartialEq, Eq, Structural)]
pub enum WriteType {
    /// The peer acknowledges each write.
    WithResponse,
    /// Fire and forget: more throughput, and the peer may drop what it cannot
    /// keep up with.
    WithoutResponse,
}

impl Default for WriteType {
    fn default() -> (r: Self)
        ensures
            r == WriteType::WithResponse,
    {
        WriteType::WithResponse
    }
}

/// Opaque, backend-specific peer identifier. Callers must not parse or format it.
#[derive(Debug, PartialEq, Eq, Hash)]
pub struct PeerAddress(pub String);

impl View for PeerAddress {
    type V = Seq<char>;

    open spec fn view(&self) -> Seq<char> {
        self.0@
    }
}

impl Clone for PeerAddress {
    fn clone(&self) -> (r: Self)
        ensures
            r == *self,
    {
        PeerAddress(self.0.clone())
    }
}

impl PeerAddress {
    /// Whether two addresses name the same peer.
    pub fn same(&self, other: &PeerAddress) -> (r: bool)
        ensures
            r == (self@ == other@),
    {
        self.0 == other.0
    }
}

/// What the addresses of a list hold.
pub open spec fn addresses(list: Seq<PeerAddress>) -> Seq<Seq<char>> {
    list.map_values(|p: PeerAddress| p@)
}

/// A copy of a byte string.
pub fn copied(bytes: &Vec<u8>) -> (r: Vec<u8>)
    ensures
        r@ == bytes@,
{
    let r = bytes.clone();
    assert(r@ =~= bytes@);
    r
}

/// A peer that a scan has found.
#[derive(Debug, Clone)]
pub struct DiscoveredPeer {
    pub address: PeerAddress,
    pub name: Option<String>,
    pub services: Vec<ServiceUuid>,
    /// Manufacturer-specific advertisement data by company identifier. Devices often
    /// carry their real identity here rather than in their name.
    pub manufacturer_data: BTreeMap<u16, Vec<u8>>,
    /// Service-specific advertisement data by the service UUID's value.
    pub service_data: BTreeMap<u128, Vec<u8>>,
    /// Received signal strength in dBm, where the backend reports it.
    pub rssi: Option<i16>,
}

/// The contents of a `DiscoveredPeer`.
pub struct DiscoveredPeerView {
    pub address: Seq<char>,
    pub name: Option<Seq<char>>,
    pub services: Seq<ServiceUuid>,
    pub manufacturer_data: Map<u16, Vec<u8>>,
    pub service_data: Map<u128, Vec<u8>>,
    pub rssi: Option<i16>,
}

/// The view of an optional text.
pub open spec fn text_view(text: Option<String>) -> Option<Seq<char>> {
    match text {
        Some(s) => Some(s@),
        None => None,
    }
}

impl View for DiscoveredPeer {
    type V = DiscoveredPeerView;

    open spec fn view(&self) -> DiscoveredPeerView {
        DiscoveredPeerView {
            address: self.address@,
            name: text_view(self.name),
            services: self.services@,
            manufacturer_data: self.manufacturer_data@,
            service_data: self.service_data@,
            rssi: self.rssi,
        }
    }
}

#[derive(Debug)]
pub enum GattEvent {
    /// A connection came up. Not once per connection: backends repeat it ahead of
    /// every write that reaches the local server.
    Connected {
        peer: PeerAddress,
        /// The role that this device plays: `Central` for a connection that it
        /// dialled, `Peripheral` for a central that reached its server.
        local_role: Role,
        /// Which connection to the peer this is, where the backend can tell. An
        /// address names a peer, not a connection.
        session: Option<u64>,
    },
    /// A connection ended.
    Disconnected { peer: PeerAddress, local_role: Role, session: Option<u64> },
    /// A central wrote to the local server.
    CharacteristicWritten {
        peer: PeerAddress,
        characteristic: CharacteristicUuid,
        value: Vec<u8>,
    },
    /// The receiver fell behind and this many events were discarded. Any of them may
    /// have mattered, so every session it tracks is suspect.
    Lagged { dropped: u64 },
    /// The radio's power changed.
    RadioChanged { status: RadioStatus },
}

/// The contents of a `GattEvent`.
pub enum GattEventView {
    Connected { peer: Seq<char>, local_role: Role, session: Option<u64> },
    Disconnected { peer: Seq<char>, local_role: Role, session: Option<u64> },
    CharacteristicWritten {
        peer: Seq<char>,
        characteristic: CharacteristicUuid,
        value: Seq<u8>,
    },
    Lagged { dropped: u64 },
    RadioChanged { status: RadioStatus },
}

impl View for GattEvent {
    type V = GattEventView;

    open spec fn view(&self) -> GattEventView {
        match self {
            GattEvent::Connected { peer, local_role, session } => GattEventView::Connected {
                peer: peer@,
                local_role: *local_role,
                session: *session,
            },
            GattEvent::Disconnected { peer, local_role, session } => GattEventView::Disconnected {
                peer: peer@,
                local_role: *local_role,
                session: *session,
            },
            GattEvent::CharacteristicWritten { peer, characteristic, value } =>
                GattEventView::CharacteristicWritten {
                peer: peer@,
                characteristic: *characteristic,
                value: value@,
            },
            GattEvent::Lagged { dropped } => GattEventView::Lagged { dropped: *dropped },
            GattEvent::RadioChanged { status } => GattEventView::RadioChanged { status: *status },
        }
    }
}

impl Clone for GattEvent {
    fn clone(&self) -> (r: Self)
        ensures
            r@ == self@,
    {
        match self {
            GattEvent::Connected { peer, local_role, session } => GattEvent::Connected {
                peer: peer.clone(),
                local_role: *local_role,
                session: *session,
            },
            GattEvent::Disconnected { peer, local_role, session } => GattEvent::Disconnected {
                peer: peer.clone(),
                local_role: *local_role,
                session: *session,
            },
            GattEvent::CharacteristicWritten { peer, characteristic, value } =>
                GattEvent::CharacteristicWritten {
                peer: peer.clone(),
                characteristic: *characteristic,
                value: copied(value),
            },
            GattEvent::Lagged { dropped } => GattEvent::Lagged { dropped: *dropped },
            GattEvent::RadioChanged { status } => GattEvent::RadioChanged { status: *status },
        }
    }
}

#[derive(Debug, Clone)]
pub struct GattCharacteristicSpec {
    pub uuid: CharacteristicUuid,
    pub readable: bool,
    pub writable: bool,
    pub notifiable: bool,
    /// The value that a read returns, where the characteristic is readable.
    pub initial_value: Vec<u8>,
}

/// The contents of a `GattCharacteristicSpec`.
pub struct GattCharacteristicSpecView {
    pub uuid: CharacteristicUuid,
    pub readable: bool,
    pub writable: bool,
    pub notifiable: bool,
    pub initial_value: Seq<u8>,
}

impl View for GattCharacteristicSpec {
    type V = GattCharacteristicSpecView;

    open spec fn view(&self) -> GattCharacteristicSpecView {
        GattCharacteristicSpecView {
            uuid: self.uuid,
            readable: self.readable,
            writable: self.writable,
            notifiable: self.notifiable,
            initial_value: self.initial_value@,
        }
    }
}

#[derive(Debug, Clone)]
pub struct GattServiceSpec {
    pub uuid: ServiceUuid,
    pub characteristics: Vec<GattCharacteristicSpec>,
    /// Advertised along with the service.
    pub manufacturer_data: BTreeMap<u16, Vec<u8>>,
    pub service_data: BTreeMap<u128, Vec<u8>>,
}

/// The contents of a `GattServiceSpec`.
pub struct GattServiceSpecView {
    pub uuid: ServiceUuid,
    pub characteristics: Seq<GattCharacteristicSpecView>,
    pub manufacturer_data: Map<u16, Vec<u8>>,
    pub service_data: Map<u128, Vec<u8>>,
}

impl View for GattServiceSpec {
    type V = GattServiceSpecView;

    open spec fn view(&self) -> GattServiceSpecView {
        GattServiceSpecView {
            uuid: self.uuid,
            characteristics: self.characteristics@.map_values(|c: GattCharacteristicSpec| c@),
            manufacturer_data: self.manufacturer_data@,
            service_data: self.service_data@,
        }
    }
}

impl GattServiceSpec {
    /// A service that advertises nothing but its UUID.
    pub fn new(uuid: ServiceUuid, characteristics: Vec<GattCharacteristicSpec>) -> (r: Self)
        ensures
            r.uuid == uuid,
            r.characteristics == characteristics,
            r.manufacturer_data@ == Map::<u16, Vec<u8>>::empty(),
            r.service_data@ == Map::<u128, Vec<u8>>::empty(),
    {
        GattServiceSpec {
            uuid,
            characteristics,
            manufacturer_data: BTreeMap::new(),
            service_data: BTreeMap::new(),
        }
    }
}

/// What is seen of an event is all that it holds, and events of different kinds are seen
/// apart.
pub proof fn an_event_is_seen_whole(
    peer: PeerAddress,
    local_role: Role,
    session: Option<u64>,
    characteristic: CharacteristicUuid,
    value: Vec<u8>,
    dropped: u64,
    status: RadioStatus,
)
    ensures
        (GattEvent::Connected { peer, local_role, session })@ == (GattEventView::Connected {
            peer: peer@,
            local_role,
            session,
        }),
        (GattEvent::Disconnected { peer, local_role, session })@ == (GattEventView::Disconnected {
            peer: peer@,
            local_role,
            session,
        }),
        (GattEvent::CharacteristicWritten { peer, characteristic, value })@ == (
        GattEventView::CharacteristicWritten { peer: peer@, characteristic, value: value@ }),
        (GattEvent::Lagged { dropped })@ == (GattEventView::Lagged { dropped }),
        (GattEvent::RadioChanged { status })@ == (GattEventView::RadioChanged { status }),
{
}

/// What is seen of a peer and of a service is all that they hold.
pub proof fn a_peer_and_a_service_are_seen_whole(
    peer: DiscoveredPeer,
    service: GattServiceSpec,
    list: Seq<PeerAddress>,
    i: int,
)
    ensures
        peer@.address == peer.address.0@,
        peer.name is None <==> peer@.name is None,
        peer.name is Some ==> peer@.name->0 == peer.name->0@,
        peer@.services == peer.services@,
        peer@.manufacturer_data == peer.manufacturer_data@,
        peer@.service_data == peer.service_data@,
        peer@.rssi == peer.rssi,
        service@.uuid == service.uuid,
        service@.manufacturer_data == service.manufacturer_data@,
        service@.service_data == service.service_data@,
        service@.characteristics.len() == service.characteristics@.len(),
        0 <= i < service.characteristics@.len() ==> {
            let (seen, spec) = (service@.characteristics[i], service.characteristics@[i]);
            &&& seen.uuid == spec.uuid
            &&& seen.readable == spec.readable
            &&& seen.writable == spec.writable
            &&& seen.notifiable == spec.notifiable
            &&& seen.initial_value == spec.initial_value@
        },
        addresses(list).len() == list.len(),
        0 <= i < list.len() ==> addresses(list)[i] == list[i].0@,
{
}

} // verus!
