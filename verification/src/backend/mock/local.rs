//! The in-memory radio: who advertises what, who is connected to whom, and which
//! events each party observes.
//!
//! Every operation returns the events that it causes, each with the party that
//! observes it; a party that has not registered for events observes none.

use std::collections::BTreeMap;

use vstd::prelude::*;

use crate::assoc::{AssocMap, Key};
#[allow(unused_imports)]
use crate::assoc::{among, among_step};
use crate::backend::next;
#[allow(unused_imports)]
use crate::backend::following;
use crate::clock::Duration;
use crate::error::BleError;
#[allow(unused_imports)]
use crate::error::{outcome, BleErrorView};
use crate::models::{
    copied, CharacteristicUuid, DiscoveredPeer, GattCharacteristicSpec, GattEvent, GattServiceSpec,
    PeerAddress, RadioStatus, Role, ServiceUuid, WriteType,
};
#[allow(unused_imports)]
use crate::models::{
    addresses, text_view, DiscoveredPeerView, GattCharacteristicSpecView, GattEventView, GattServiceSpecView,
};
use crate::text::{joined, joined3, owned};
use crate::uuids::uuid_text;
#[allow(unused_imports)]
use crate::uuids::hyphenated;

verus! {

/// A central's connection to a peripheral.
pub struct LinkKey {
    pub central: PeerAddress,
    pub peripheral: PeerAddress,
}

impl Key for LinkKey {
    type Content = (Seq<char>, Seq<char>);

    open spec fn content(&self) -> (Seq<char>, Seq<char>) {
        (self.central@, self.peripheral@)
    }

    fn same_key(&self, other: &Self) -> (r: bool) {
        self.central.same(&other.central) && self.peripheral.same(&other.peripheral)
    }

    fn copy_key(&self) -> (r: Self) {
        LinkKey { central: self.central.clone(), peripheral: self.peripheral.clone() }
    }
}

fn link(central: &PeerAddress, peripheral: &PeerAddress) -> (r: LinkKey)
    ensures
        r.content() == (central@, peripheral@),
{
    LinkKey { central: central.clone(), peripheral: peripheral.clone() }
}

/// A central's subscription to one characteristic.
pub struct SubscriptionKey {
    pub characteristic: CharacteristicUuid,
    pub central: PeerAddress,
}

impl Key for SubscriptionKey {
    type Content = (CharacteristicUuid, Seq<char>);

    open spec fn content(&self) -> (CharacteristicUuid, Seq<char>) {
        (self.characteristic, self.central@)
    }

    fn same_key(&self, other: &Self) -> (r: bool) {
        self.characteristic == other.characteristic && self.central.same(&other.central)
    }

    fn copy_key(&self) -> (r: Self) {
        SubscriptionKey { characteristic: self.characteristic, central: self.central.clone() }
    }
}

/// An event on its way to the party that observes it.
pub struct Emission {
    pub to: PeerAddress,
    pub event: GattEvent,
}

pub struct EmissionView {
    pub to: Seq<char>,
    pub event: GattEventView,
}

impl View for Emission {
    type V = EmissionView;

    open spec fn view(&self) -> EmissionView {
        EmissionView { to: self.to@, event: self.event@ }
    }
}

pub open spec fn emissions(out: Seq<Emission>) -> Seq<EmissionView> {
    out.map_values(|e: Emission| e@)
}

/// An item of a central's subscription.
pub struct Notification {
    pub central: PeerAddress,
    pub characteristic: CharacteristicUuid,
    pub item: Result<Vec<u8>, BleError>,
}

pub struct NotificationView {
    pub central: Seq<char>,
    pub characteristic: CharacteristicUuid,
    pub item: Result<Seq<u8>, BleErrorView>,
}

/// The view of an item of a subscription.
pub open spec fn item_view(item: Result<Vec<u8>, BleError>) -> Result<Seq<u8>, BleErrorView> {
    match item {
        Ok(value) => Ok(value@),
        Err(e) => Err(e@),
    }
}

impl View for Notification {
    type V = NotificationView;

    open spec fn view(&self) -> NotificationView {
        NotificationView {
            central: self.central@,
            characteristic: self.characteristic,
            item: item_view(self.item),
        }
    }
}

pub open spec fn notifications(sent: Seq<Notification>) -> Seq<NotificationView> {
    sent.map_values(|n: Notification| n@)
}

/// The view of a notification that may have been refused.
pub open spec fn notification_view(r: Result<Notification, BleError>) -> Result<
    NotificationView,
    BleErrorView,
> {
    match r {
        Ok(n) => Ok(n@),
        Err(e) => Err(e@),
    }
}

pub open spec fn peers_view(peers: Seq<DiscoveredPeer>) -> Seq<DiscoveredPeerView> {
    peers.map_values(|p: DiscoveredPeer| p@)
}

/// What an operation on a characteristic needs of it.
#[derive(Debug, Clone, Copy, PartialEq, Eq, Structural)]
pub enum Property {
    Readable,
    Writable,
    Notifiable,
}

impl Property {
    pub open spec fn spec_name(self) -> Seq<char> {
        match self {
            Property::Readable => "readable"@,
            Property::Writable => "writable"@,
            Property::Notifiable => "notifiable"@,
        }
    }

    pub open spec fn holds(self, spec: GattCharacteristicSpecView) -> bool {
        match self {
            Property::Readable => spec.readable,
            Property::Writable => spec.writable,
            Property::Notifiable => spec.notifiable,
        }
    }

    fn name(self) -> (r: &'static str)
        ensures
            r@ == self.spec_name(),
    {
        match self {
            Property::Readable => "readable",
            Property::Writable => "writable",
            Property::Notifiable => "notifiable",
        }
    }

    fn of(self, spec: &GattCharacteristicSpec) -> (r: bool)
        ensures
            r == self.holds(spec@),
    {
        match self {
            Property::Readable => spec.readable,
            Property::Writable => spec.writable,
            Property::Notifiable => spec.notifiable,
        }
    }
}

/// The first characteristic of a service with this UUID.
pub open spec fn declared(
    characteristics: Seq<GattCharacteristicSpecView>,
    uuid: CharacteristicUuid,
) -> Option<GattCharacteristicSpecView>
    decreases characteristics.len(),
{
    if characteristics.len() == 0 {
        None
    } else if characteristics[0].uuid == uuid {
        Some(characteristics[0])
    } else {
        declared(characteristics.drop_first(), uuid)
    }
}

/// The values of a service's characteristics when it is first advertised.
pub open spec fn initial_values(characteristics: Seq<GattCharacteristicSpecView>) -> Map<
    CharacteristicUuid,
    Seq<u8>,
>
    decreases characteristics.len(),
{
    if characteristics.len() == 0 {
        Map::empty()
    } else {
        initial_values(characteristics.drop_last()).insert(
            characteristics.last().uuid,
            characteristics.last().initial_value,
        )
    }
}

struct PeripheralState {
    service: GattServiceSpec,
    values: AssocMap<CharacteristicUuid, Vec<u8>>,
    /// One entry per subscriber, and whether it still listens.
    subscribers: AssocMap<SubscriptionKey, bool>,
    manufacturer_data: BTreeMap<u16, Vec<u8>>,
    service_data: BTreeMap<u128, Vec<u8>>,
    rssi: Option<i16>,
}

/// A peripheral on the air.
#[verifier::ext_equal]
pub struct PeripheralView {
    pub service: GattServiceSpecView,
    pub values: Map<CharacteristicUuid, Seq<u8>>,
    pub subscribers: Map<(CharacteristicUuid, Seq<char>), bool>,
    pub manufacturer_data: Map<u16, Vec<u8>>,
    pub service_data: Map<u128, Vec<u8>>,
    pub rssi: Option<i16>,
}

impl View for PeripheralState {
    type V = PeripheralView;

    closed spec fn view(&self) -> PeripheralView {
        PeripheralView {
            service: self.service@,
            values: self.values@.map_values(|v: Vec<u8>| v@),
            subscribers: self.subscribers@,
            manufacturer_data: self.manufacturer_data@,
            service_data: self.service_data@,
            rssi: self.rssi,
        }
    }
}

impl PeripheralView {
    /// The peripheral without any subscription of `central`.
    pub open spec fn without(self, central: Seq<char>) -> PeripheralView {
        PeripheralView {
            subscribers: self.subscribers.restrict(
                Set::new(|k: (CharacteristicUuid, Seq<char>)| k.1 != central),
            ),
            ..self
        }
    }

    /// Whether `central` subscribes to anything.
    pub open spec fn subscribed(self, central: Seq<char>) -> bool {
        exists|c: CharacteristicUuid| #[trigger] self.subscribers.contains_key((c, central))
    }

    /// What a scan reports of the peripheral.
    pub open spec fn discovered(self, address: Seq<char>) -> DiscoveredPeerView {
        DiscoveredPeerView {
            address,
            name: None,
            services: seq![self.service.uuid],
            manufacturer_data: self.manufacturer_data,
            service_data: self.service_data,
            rssi: self.rssi,
        }
    }
}

/// A peripheral that has just begun to advertise `service`.
pub open spec fn fresh_peripheral(
    service: GattServiceSpecView,
    rssi: Option<i16>,
) -> PeripheralView {
    PeripheralView {
        service,
        values: initial_values(service.characteristics),
        subscribers: Map::empty(),
        manufacturer_data: service.manufacturer_data,
        service_data: service.service_data,
        rssi,
    }
}

/// The radio that in-memory peers share.
pub struct MockNetwork {
    registered: AssocMap<PeerAddress, ()>,
    peripherals: AssocMap<PeerAddress, PeripheralState>,
    disconnect_log: Vec<PeerAddress>,
    subscribe_delay: Option<Duration>,
    armed_scan_failure: Option<String>,
    next_session: u64,
    live_sessions: AssocMap<LinkKey, u64>,
}

/// The contents of a `MockNetwork`.
#[verifier::ext_equal]
pub struct NetworkView {
    /// Who observes events.
    pub registered: Set<Seq<char>>,
    pub peripherals: Map<Seq<char>, PeripheralView>,
    /// Whom a disconnect was asked for, in order.
    pub disconnect_log: Seq<Seq<char>>,
    pub subscribe_delay: Option<Duration>,
    pub armed_scan_failure: Option<Seq<char>>,
    pub next_session: u64,
    /// The newest session of each central with each peripheral.
    pub live: Map<(Seq<char>, Seq<char>), u64>,
}

impl View for MockNetwork {
    type V = NetworkView;

    closed spec fn view(&self) -> NetworkView {
        NetworkView {
            registered: self.registered@.dom(),
            peripherals: self.peripherals@.map_values(|p: PeripheralState| p@),
            disconnect_log: addresses(self.disconnect_log@),
            subscribe_delay: self.subscribe_delay,
            armed_scan_failure: match self.armed_scan_failure {
                Some(s) => Some(s@),
                None => None,
            },
            next_session: self.next_session,
            live: self.live_sessions@,
        }
    }
}

pub open spec fn lost(peer: Seq<char>, local_role: Role, session: Option<u64>) -> GattEventView {
    GattEventView::Disconnected { peer, local_role, session }
}

pub open spec fn unknown_characteristic_error(c: CharacteristicUuid) -> BleErrorView {
    BleErrorView::Gatt("unknown characteristic "@ + hyphenated(c.0))
}

pub open spec fn lacks_property_error(c: CharacteristicUuid, property: Property) -> BleErrorView {
    BleErrorView::Gatt(
        "characteristic "@ + hyphenated(c.0) + " is not "@ + property.spec_name(),
    )
}

pub open spec fn no_notify_session_error(peer: Seq<char>) -> BleErrorView {
    BleErrorView::Gatt(peer + " has no live notify session"@)
}

impl NetworkView {
    /// The events so far, and one more if anybody observes it.
    pub open spec fn heard(
        self,
        out: Seq<EmissionView>,
        to: Seq<char>,
        event: GattEventView,
    ) -> Seq<EmissionView> {
        if self.registered.contains(to) {
            out.push(EmissionView { to, event })
        } else {
            out
        }
    }

    /// Both ends of a link are told that it is gone, the peripheral first.
    pub open spec fn parting(
        self,
        out: Seq<EmissionView>,
        central: Seq<char>,
        peripheral: Seq<char>,
    ) -> Seq<EmissionView> {
        self.heard(
            self.heard(out, peripheral, lost(central, Role::Peripheral, None)),
            central,
            lost(peripheral, Role::Central, None),
        )
    }

    /// The network without any subscription of `central` at `peripheral`.
    pub open spec fn unsubscribed(self, peripheral: Seq<char>, central: Seq<char>) -> NetworkView {
        NetworkView {
            peripherals: if self.peripherals.contains_key(peripheral) {
                self.peripherals.insert(peripheral, self.peripherals[peripheral].without(central))
            } else {
                self.peripherals
            },
            ..self
        }
    }

    /// The network without the link of `central` to `peripheral`.
    pub open spec fn unlinked(self, central: Seq<char>, peripheral: Seq<char>) -> NetworkView {
        NetworkView { live: self.live.remove((central, peripheral)), ..self.unsubscribed(peripheral, central) }
    }

    pub open spec fn is_current(
        self,
        session: u64,
        central: Seq<char>,
        peripheral: Seq<char>,
    ) -> bool {
        self.live.contains_key((central, peripheral)) && self.live[(central, peripheral)] == session
    }

    /// Why an operation on a characteristic is refused, if it is.
    pub open spec fn refusal(
        self,
        peripheral: Seq<char>,
        c: CharacteristicUuid,
        property: Property,
    ) -> Option<BleErrorView> {
        if !self.peripherals.contains_key(peripheral) {
            Some(BleErrorView::NotConnected(peripheral))
        } else {
            match declared(self.peripherals[peripheral].service.characteristics, c) {
                None => Some(unknown_characteristic_error(c)),
                Some(spec) => if property.holds(spec) {
                    None
                } else {
                    Some(lacks_property_error(c, property))
                },
            }
        }
    }

    /// Why an operation over a connection is refused, if it is: a handle that a newer
    /// connection superseded, or that was closed, comes before anything about the
    /// characteristic.
    pub open spec fn link_refusal(
        self,
        session: u64,
        central: Seq<char>,
        peripheral: Seq<char>,
        c: CharacteristicUuid,
        property: Property,
    ) -> Option<BleErrorView> {
        if self.is_current(session, central, peripheral) {
            self.refusal(peripheral, c, property)
        } else {
            Some(BleErrorView::NotConnected(peripheral))
        }
    }
}

/// The view of an outcome without a value.
pub open spec fn refused(r: Result<(), BleError>) -> Option<BleErrorView> {
    match r {
        Ok(()) => None,
        Err(e) => Some(e@),
    }
}

impl MockNetwork {
    pub fn new() -> (r: Self)
        ensures
            r@ == (NetworkView {
                registered: Set::empty(),
                peripherals: Map::empty(),
                disconnect_log: seq![],
                subscribe_delay: None,
                armed_scan_failure: None,
                next_session: 0,
                live: Map::empty(),
            }),
    {
        let r = MockNetwork {
            registered: AssocMap::new(),
            peripherals: AssocMap::new(),
            disconnect_log: Vec::new(),
            subscribe_delay: None,
            armed_scan_failure: None,
            next_session: 0,
            live_sessions: AssocMap::new(),
        };
        assert(r@.registered =~= Set::empty());
        assert(r@.peripherals =~= Map::empty());
        assert(r@.disconnect_log =~= seq![]);
        r
    }

    /// From now on `address` observes the events that concern it.
    pub fn register_events_sender(&mut self, address: PeerAddress)
        ensures
            final(self)@ == (NetworkView {
                registered: old(self)@.registered.insert(address@),
                ..old(self)@
            }),
    {
        self.registered.insert(address, ());
        assert(self@.registered =~= old(self)@.registered.insert(address@));
    }

    fn emit(&self, out: &mut Vec<Emission>, to: &PeerAddress, event: GattEvent)
        ensures
            emissions(final(out)@) == self@.heard(emissions(old(out)@), to@, event@),
    {
        if self.registered.contains(to) {
            let ghost before = out@;
            let e = Emission { to: to.clone(), event };
            let ghost shown = e@;
            out.push(e);
            assert(emissions(out@) =~= emissions(before).push(shown));
        }
    }

    fn part(&self, out: &mut Vec<Emission>, central: &PeerAddress, peripheral: &PeerAddress)
        ensures
            emissions(final(out)@) == self@.parting(
                emissions(old(out)@),
                central@,
                peripheral@,
            ),
    {
        self.emit(
            out,
            peripheral,
            GattEvent::Disconnected {
                peer: central.clone(),
                local_role: Role::Peripheral,
                session: None,
            },
        );
        self.emit(
            out,
            central,
            GattEvent::Disconnected {
                peer: peripheral.clone(),
                local_role: Role::Central,
                session: None,
            },
        );
    }

    fn nothing() -> (out: Vec<Emission>)
        ensures
            emissions(out@) == Seq::<EmissionView>::empty(),
    {
        let out: Vec<Emission> = Vec::new();
        assert(emissions(out@) =~= Seq::<EmissionView>::empty());
        out
    }

    /// Forgets every subscription that `central` holds at `peripheral`.
    fn drop_subscriptions(&mut self, peripheral: &PeerAddress, central: &PeerAddress)
        ensures
            final(self)@ == old(self)@.unsubscribed(peripheral@, central@),
    {
        match self.peripherals.remove(peripheral) {
            None => {
                assert(self@ =~= old(self)@.unsubscribed(peripheral@, central@));
            },
            Some(mut state) => {
                let ghost before = state@;
                assert(before == old(self)@.peripherals[peripheral@]);
                let keys = state.subscribers.keys();
                let ghost start = state.subscribers@;
                let mut i: usize = 0;
                while i < keys.len()
                    invariant
                        i <= keys@.len(),
                        start == before.subscribers,
                        state@ == (PeripheralView { subscribers: state.subscribers@, ..before }),
                        forall|k: (CharacteristicUuid, Seq<char>)| #[trigger]
                            start.contains_key(k) ==> among(keys@, keys@.len() as int, k),
                        forall|k: (CharacteristicUuid, Seq<char>)| #[trigger]
                            state.subscribers@.contains_key(k) <==> start.contains_key(k) && !(k.1
                                == central@ && among(keys@, i as int, k)),
                        forall|k: (CharacteristicUuid, Seq<char>)| #[trigger]
                            state.subscribers@.contains_key(k) ==> state.subscribers@[k]
                                == start[k],
                    decreases keys.len() - i,
                {
                    let key = &keys[i];
                    if key.central.same(central) {
                        state.subscribers.remove(key);
                    }
                    proof {
                        among_step(keys@, i as int);
                    }
                    i = i + 1;
                }
                assert(state.subscribers@ =~= before.without(central@).subscribers);
                let ghost after = state@;
                self.peripherals.insert(peripheral.clone(), state);
                assert(self@.peripherals =~= old(self)@.peripherals.insert(peripheral@, after));
                assert(self@ =~= old(self)@.unsubscribed(peripheral@, central@));
            },
        }
    }

    /// Peers that a disconnect was asked for, in order.
    pub fn disconnected_peers(&self) -> (r: Vec<PeerAddress>)
        ensures
            addresses(r@) == self@.disconnect_log,
    {
        let mut r: Vec<PeerAddress> = Vec::new();
        let mut i: usize = 0;
        while i < self.disconnect_log.len()
            invariant
                i <= self.disconnect_log@.len(),
                r@ == self.disconnect_log@.take(i as int),
            decreases self.disconnect_log.len() - i,
        {
            r.push(self.disconnect_log[i].clone());
            i = i + 1;
            assert(self.disconnect_log@.take(i as int) =~= self.disconnect_log@.take(i - 1).push(
                self.disconnect_log@[i - 1],
            ));
        }
        assert(self.disconnect_log@.take(i as int) =~= self.disconnect_log@);
        r
    }

    /// The session of `central` with `peripheral`, if there is one.
    pub fn live_session(&self, central: &PeerAddress, peripheral: &PeerAddress) -> (r: Option<u64>)
        ensures
            r is Some <==> self@.live.contains_key((central@, peripheral@)),
            r matches Some(s) ==> s == self@.live[(central@, peripheral@)],
    {
        match self.live_sessions.get(&link(central, peripheral)) {
            Some(s) => Some(*s),
            None => None,
        }
    }

    /// Refuses to act for a handle that a newer connection has superseded, or that is
    /// closed.
    fn ensure_current(
        &self,
        session: u64,
        central: &PeerAddress,
        peripheral: &PeerAddress,
    ) -> (r: Result<(), BleError>)
        ensures
            refused(r) == if self@.is_current(session, central@, peripheral@) {
                None
            } else {
                Some(BleErrorView::NotConnected(peripheral@))
            },
    {
        match self.live_session(central, peripheral) {
            Some(now) if now == session => Ok(()),
            _ => Err(BleError::NotConnected(peripheral.0.clone())),
        }
    }

    /// Refuses a characteristic that the peripheral did not advertise with the property
    /// that the operation needs.
    fn require_property(
        &self,
        peripheral: &PeerAddress,
        characteristic: CharacteristicUuid,
        property: Property,
    ) -> (r: Result<(), BleError>)
        ensures
            refused(r) == self@.refusal(peripheral@, characteristic, property),
    {
        match self.peripherals.get(peripheral) {
            None => Err(BleError::NotConnected(peripheral.0.clone())),
            Some(state) => {
                let list = &state.service.characteristics;
                let ghost specs = state.service@.characteristics;
                let mut i: usize = 0;
                assert(specs.skip(0) =~= specs);
                while i < list.len()
                    invariant
                        i <= list@.len(),
                        specs == list@.map_values(|c: GattCharacteristicSpec| c@),
                        declared(specs, characteristic) == declared(
                            specs.skip(i as int),
                            characteristic,
                        ),
                        self@.peripherals.contains_key(peripheral@),
                        self@.peripherals[peripheral@].service.characteristics == specs,
                    decreases list.len() - i,
                {
                    let spec = &list[i];
                    proof {
                        assert(specs.skip(i as int)[0] == spec@);
                        assert(specs.skip(i as int).drop_first() =~= specs.skip(i + 1));
                    }
                    if spec.uuid == characteristic {
                        if property.of(spec) {
                            return Ok(());
                        }
                        let mut text = joined3(
                            "characteristic ",
                            uuid_text(characteristic.0).as_str(),
                            " is not ",
                        );
                        text.append(property.name());
                        return Err(BleError::Gatt(text));
                    }
                    i = i + 1;
                }
                assert(specs.skip(i as int).len() == 0);
                Err(
                    BleError::Gatt(
                        joined("unknown characteristic ", uuid_text(characteristic.0).as_str()),
                    ),
                )
            },
        }
    }
}

// ---------------------------------------------------------------------------
// Central role
// ---------------------------------------------------------------------------

impl NetworkView {
    /// Whether a scan of `requester` for `service` finds `address`.
    pub open spec fn found(
        self,
        requester: Seq<char>,
        service: ServiceUuid,
        address: Seq<char>,
    ) -> bool {
        &&& self.peripherals.contains_key(address)
        &&& address != requester
        &&& self.peripherals[address].service.uuid == service
    }

    /// A scan: which peers it reports, and the failure that was armed for it. The order
    /// of the peers is open.
    pub open spec fn did_scan(
        self,
        next: NetworkView,
        requester: Seq<char>,
        service: ServiceUuid,
        peers: Seq<DiscoveredPeerView>,
        failure: Option<Seq<char>>,
    ) -> bool {
        &&& next == NetworkView { armed_scan_failure: None, ..self }
        &&& failure == self.armed_scan_failure
        &&& forall|i: int|
            #![trigger peers[i]]
            0 <= i < peers.len() ==> {
                &&& self.found(requester, service, peers[i].address)
                &&& peers[i] == self.peripherals[peers[i].address].discovered(peers[i].address)
            }
        &&& forall|i: int, j: int|
            0 <= i < j < peers.len() ==> (#[trigger] peers[i]).address != (
            #[trigger] peers[j]).address
        &&& forall|address: Seq<char>| #[trigger]
            self.found(requester, service, address) ==> exists|i: int|
                0 <= i < peers.len() && (#[trigger] peers[i]).address == address
    }

    /// A dial: the session that it opens, or why it cannot.
    pub open spec fn did_connect(
        self,
        next: NetworkView,
        central: Seq<char>,
        peer: Seq<char>,
        r: Result<u64, BleErrorView>,
        out: Seq<EmissionView>,
    ) -> bool {
        if self.peripherals.contains_key(peer) {
            &&& r == Ok::<u64, BleErrorView>(self.next_session)
            &&& next == self.dialled(central, peer)
            &&& out == self.heard(
                seq![],
                central,
                GattEventView::Connected { peer, local_role: Role::Central, session: None },
            )
        } else {
            &&& r == Err::<u64, BleErrorView>(
                BleErrorView::ConnectFailed { peer, reason: "peer is not advertising"@ },
            )
            &&& next == self
            &&& out == Seq::<EmissionView>::empty()
        }
    }

    /// A read over a connection: the value, or why it is refused.
    pub open spec fn reads(
        self,
        session: u64,
        central: Seq<char>,
        peripheral: Seq<char>,
        c: CharacteristicUuid,
    ) -> Result<Seq<u8>, BleErrorView> {
        match self.link_refusal(session, central, peripheral, c, Property::Readable) {
            Some(e) => Err(e),
            None => if self.peripherals[peripheral].values.contains_key(c) {
                Ok(self.peripherals[peripheral].values[c])
            } else {
                Err(BleErrorView::Gatt("unknown characteristic"@))
            },
        }
    }

    /// What follows an operation that was refused, or went through to `done` and `told`.
    pub open spec fn unless_refused(
        self,
        next: NetworkView,
        refusal: Option<BleErrorView>,
        done: NetworkView,
        told: Seq<EmissionView>,
        r: Option<BleErrorView>,
        out: Seq<EmissionView>,
    ) -> bool {
        &&& r == refusal
        &&& next == if refusal is None {
            done
        } else {
            self
        }
        &&& out == if refusal is None {
            told
        } else {
            seq![]
        }
    }

    pub open spec fn did_write(
        self,
        next: NetworkView,
        session: u64,
        central: Seq<char>,
        peripheral: Seq<char>,
        c: CharacteristicUuid,
        value: Seq<u8>,
        r: Option<BleErrorView>,
        out: Seq<EmissionView>,
    ) -> bool {
        self.unless_refused(
            next,
            self.link_refusal(session, central, peripheral, c, Property::Writable),
            self.written(peripheral, c, value),
            self.heard(
                self.arrival(session, central, peripheral),
                peripheral,
                GattEventView::CharacteristicWritten { peer: central, characteristic: c, value },
            ),
            r,
            out,
        )
    }

    /// The peripheral sees a central connect.
    pub open spec fn arrival(
        self,
        session: u64,
        central: Seq<char>,
        peripheral: Seq<char>,
    ) -> Seq<EmissionView> {
        self.heard(
            seq![],
            peripheral,
            GattEventView::Connected {
                peer: central,
                local_role: Role::Peripheral,
                session: Some(session),
            },
        )
    }

    /// Why a subscription is refused, if it is.
    pub open spec fn subscribe_refusal(
        self,
        session: u64,
        central: Seq<char>,
        peripheral: Seq<char>,
        c: CharacteristicUuid,
    ) -> Option<BleErrorView> {
        match self.refusal(peripheral, c, Property::Notifiable) {
            Some(e) => Some(e),
            None => if !self.is_current(session, central, peripheral) {
                Some(BleErrorView::NotConnected(peripheral))
            } else if !self.peripherals[peripheral].values.contains_key(c) {
                Some(BleErrorView::Gatt("unknown characteristic"@))
            } else {
                None
            },
        }
    }

    pub open spec fn did_subscribe(
        self,
        next: NetworkView,
        session: u64,
        central: Seq<char>,
        peripheral: Seq<char>,
        c: CharacteristicUuid,
        r: Option<BleErrorView>,
        out: Seq<EmissionView>,
    ) -> bool {
        self.unless_refused(
            next,
            self.subscribe_refusal(session, central, peripheral, c),
            self.subscribing(peripheral, c, central),
            self.arrival(session, central, peripheral),
            r,
            out,
        )
    }

    pub open spec fn did_disconnect(
        self,
        next: NetworkView,
        session: u64,
        central: Seq<char>,
        peripheral: Seq<char>,
        r: Option<BleErrorView>,
        out: Seq<EmissionView>,
    ) -> bool {
        self.unless_refused(
            next,
            if self.is_current(session, central, peripheral) {
                None
            } else {
                Some(BleErrorView::NotConnected(peripheral))
            },
            NetworkView {
                disconnect_log: self.disconnect_log.push(peripheral),
                ..self.unlinked(central, peripheral)
            },
            self.parting(seq![], central, peripheral),
            r,
            out,
        )
    }

    /// The network once `central` has dialled `peer`.
    pub open spec fn dialled(self, central: Seq<char>, peer: Seq<char>) -> NetworkView {
        NetworkView {
            live: self.live.insert((central, peer), self.next_session),
            next_session: following(self.next_session),
            ..self
        }
    }

    /// The network once `c` of `peripheral` has been written.
    pub open spec fn written(
        self,
        peripheral: Seq<char>,
        c: CharacteristicUuid,
        value: Seq<u8>,
    ) -> NetworkView {
        let state = self.peripherals[peripheral];
        NetworkView {
            peripherals: self.peripherals.insert(
                peripheral,
                PeripheralView { values: state.values.insert(c, value), ..state },
            ),
            ..self
        }
    }

    /// The network once `central` subscribes to `c` of `peripheral`.
    pub open spec fn subscribing(
        self,
        peripheral: Seq<char>,
        c: CharacteristicUuid,
        central: Seq<char>,
    ) -> NetworkView {
        let state = self.peripherals[peripheral];
        NetworkView {
            peripherals: self.peripherals.insert(
                peripheral,
                PeripheralView { subscribers: state.subscribers.insert((c, central), true), ..state },
            ),
            ..self
        }
    }
}

impl MockNetwork {
    /// The peers that advertise `service`, `requester` left out, and the failure that a
    /// test armed for this scan. The order of the peers is open.
    pub fn scan(&mut self, requester: &PeerAddress, service: ServiceUuid) -> (r: (
        Vec<DiscoveredPeer>,
        Option<String>,
    ))
        ensures
            old(self)@.did_scan(
                final(self)@,
                requester@,
                service,
                peers_view(r.0@),
                text_view(r.1),
            ),
    {
        let candidates = self.peripherals.keys();
        let mut peers: Vec<DiscoveredPeer> = Vec::new();
        let mut i: usize = 0;
        while i < candidates.len()
            invariant
                i <= candidates@.len(),
                self@ == old(self)@,
                forall|a: int, b: int|
                    0 <= a < b < candidates@.len() ==> (#[trigger] candidates@[a]).content() != (
                    #[trigger] candidates@[b]).content(),
                forall|a: int|
                    0 <= a < candidates@.len() ==> self.peripherals@.contains_key(
                        (#[trigger] candidates@[a]).content(),
                    ),
                forall|k: int|
                    #![trigger peers@[k]]
                    0 <= k < peers@.len() ==> {
                        let address = peers@[k]@.address;
                        &&& self@.found(requester@, service, address)
                        &&& peers@[k]@ == self@.peripherals[address].discovered(address)
                        &&& among(candidates@, i as int, address)
                    },
                forall|a: int, b: int|
                    0 <= a < b < peers@.len() ==> (#[trigger] peers@[a])@.address != (
                    #[trigger] peers@[b])@.address,
                forall|a: int|
                    0 <= a < i && self@.found(requester@, service, (#[trigger] candidates@[a])@)
                        ==> exists|k: int|
                        0 <= k < peers@.len() && (#[trigger] peers@[k])@.address == candidates@[a]@,
            decreases candidates.len() - i,
        {
            let address = &candidates[i];
            let ghost known = peers@;
            proof {
                among_step(candidates@, i as int);
                assert forall|k: int| 0 <= k < known.len() implies (#[trigger] known[k])@.address
                    != address@ by {
                    let j = choose|j: int|
                        0 <= j < i && (#[trigger] candidates@[j]).content() == known[k]@.address;
                    assert(candidates@[j].content() != candidates@[i as int].content());
                }
            }
            match self.peripherals.get(address) {
                Some(state) => {
                    if !address.same(requester) && state.service.uuid == service {
                        let peer = DiscoveredPeer {
                            address: address.clone(),
                            name: None,
                            services: vec![state.service.uuid],
                            manufacturer_data: state.manufacturer_data.clone(),
                            service_data: state.service_data.clone(),
                            rssi: state.rssi,
                        };
                        assert(peer@.services =~= state@.discovered(address@).services);
                        assert(peer@ == self@.peripherals[address@].discovered(address@));
                        peers.push(peer);
                        assert(peers@[known.len() as int]@.address == address@);
                        assert forall|a: int|
                            0 <= a < i && self@.found(
                                requester@,
                                service,
                                (#[trigger] candidates@[a])@,
                            ) implies exists|k: int|
                            0 <= k < peers@.len() && (#[trigger] peers@[k])@.address
                                == candidates@[a]@ by {
                            let k = choose|k: int|
                                0 <= k < known.len() && (#[trigger] known[k])@.address
                                    == candidates@[a]@;
                            assert(peers@[k] == known[k]);
                        }
                    }
                },
                None => {},
            }
            i = i + 1;
        }
        proof {
            assert forall|address: Seq<char>| #[trigger]
                old(self)@.found(requester@, service, address) implies exists|k: int|
                0 <= k < peers@.len() && (#[trigger] peers@[k])@.address == address by {
                assert(self.peripherals@.contains_key(address));
                let a = choose|a: int|
                    0 <= a < candidates@.len() && (#[trigger] candidates@[a]).content() == address;
                assert(candidates@[a]@ == address);
            }
        }
        let failure = self.armed_scan_failure.take();
        proof {
            let shown = peers_view(peers@);
            assert(self@ =~= NetworkView { armed_scan_failure: None, ..old(self)@ });
            assert forall|i: int| #![trigger shown[i]] 0 <= i < shown.len() implies {
                &&& old(self)@.found(requester@, service, shown[i].address)
                &&& shown[i] == old(self)@.peripherals[shown[i].address].discovered(
                    shown[i].address,
                )
            } by {
                assert(shown[i] == peers@[i]@);
            }
            assert forall|i: int, j: int| 0 <= i < j < shown.len() implies (
            #[trigger] shown[i]).address != (#[trigger] shown[j]).address by {
                assert(peers@[i]@.address != peers@[j]@.address);
            }
            assert forall|address: Seq<char>| #[trigger]
                old(self)@.found(requester@, service, address) implies exists|i: int|
                0 <= i < shown.len() && (#[trigger] shown[i]).address == address by {
                let k = choose|k: int|
                    0 <= k < peers@.len() && (#[trigger] peers@[k])@.address == address;
                assert(shown[k].address == address);
            }
        }
        (peers, failure)
    }

    /// Dials `peer`. Only the central's own view of the link is announced here; the
    /// peripheral learns of the central when it subscribes.
    pub fn connect(&mut self, central: &PeerAddress, peer: &PeerAddress) -> (r: (
        Result<u64, BleError>,
        Vec<Emission>,
    ))
        ensures
            old(self)@.did_connect(
                final(self)@,
                central@,
                peer@,
                outcome(r.0),
                emissions(r.1@),
            ),
    {
        let mut out = Self::nothing();
        if !self.peripherals.contains(peer) {
            return (
                Err(
                    BleError::ConnectFailed {
                        peer: peer.0.clone(),
                        reason: owned("peer is not advertising"),
                    },
                ),
                out,
            );
        }
        self.emit(
            &mut out,
            central,
            GattEvent::Connected { peer: peer.clone(), local_role: Role::Central, session: None },
        );
        let session = self.next_session;
        self.next_session = next(session);
        self.live_sessions.insert(link(central, peer), session);
        assert(self@ =~= old(self)@.dialled(central@, peer@));
        (Ok(session), out)
    }

    /// Reads a characteristic over a connection.
    pub fn read(
        &self,
        session: u64,
        central: &PeerAddress,
        peripheral: &PeerAddress,
        characteristic: CharacteristicUuid,
    ) -> (r: Result<Vec<u8>, BleError>)
        ensures
            item_view(r) == self@.reads(session, central@, peripheral@, characteristic),
    {
        match self.ensure_current(session, central, peripheral) {
            Err(e) => return Err(e),
            Ok(()) => {},
        }
        match self.require_property(peripheral, characteristic, Property::Readable) {
            Err(e) => return Err(e),
            Ok(()) => {},
        }
        match self.peripherals.get(peripheral) {
            None => Err(BleError::NotConnected(peripheral.0.clone())),
            Some(state) => match state.values.get(&characteristic) {
                Some(value) => Ok(copied(value)),
                None => Err(BleError::Gatt(owned("unknown characteristic"))),
            },
        }
    }

    /// Writes a characteristic over a connection. Both kinds of write arrive. The
    /// peripheral sees the writer connect ahead of every write, as it does on platforms
    /// that have no other signal of a connection.
    pub fn write_with_type(
        &mut self,
        session: u64,
        central: &PeerAddress,
        peripheral: &PeerAddress,
        characteristic: CharacteristicUuid,
        value: Vec<u8>,
        _write_type: WriteType,
    ) -> (r: (Result<(), BleError>, Vec<Emission>))
        ensures
            old(self)@.did_write(
                final(self)@,
                session,
                central@,
                peripheral@,
                characteristic,
                value@,
                refused(r.0),
                emissions(r.1@),
            ),
    {
        let mut out = Self::nothing();
        match self.ensure_current(session, central, peripheral) {
            Err(e) => return (Err(e), out),
            Ok(()) => {},
        }
        match self.require_property(peripheral, characteristic, Property::Writable) {
            Err(e) => return (Err(e), out),
            Ok(()) => {},
        }
        match self.peripherals.remove(peripheral) {
            None => {},
            Some(mut state) => {
                let ghost before = state@;
                state.values.insert(characteristic, copied(&value));
                let ghost after = state@;
                assert(after.values =~= before.values.insert(characteristic, value@));
                self.peripherals.insert(peripheral.clone(), state);
                assert(self@.peripherals =~= old(self)@.peripherals.insert(peripheral@, after));
            },
        }
        assert(self@ =~= old(self)@.written(peripheral@, characteristic, value@));
        self.emit(
            &mut out,
            peripheral,
            GattEvent::Connected {
                peer: central.clone(),
                local_role: Role::Peripheral,
                session: Some(session),
            },
        );
        self.emit(
            &mut out,
            peripheral,
            GattEvent::CharacteristicWritten { peer: central.clone(), characteristic, value },
        );
        (Ok(()), out)
    }

    /// The first half of a subscription: refuses a stale handle, and tells how long a
    /// test wants the setup stalled.
    pub fn begin_subscribe(
        &self,
        session: u64,
        central: &PeerAddress,
        peripheral: &PeerAddress,
    ) -> (r: Result<Option<Duration>, BleError>)
        ensures
            match r {
                Ok(delay) => self@.is_current(session, central@, peripheral@) && delay
                    == self@.subscribe_delay,
                Err(e) => !self@.is_current(session, central@, peripheral@) && e@
                    == BleErrorView::NotConnected(peripheral@),
            },
    {
        match self.ensure_current(session, central, peripheral) {
            Err(e) => Err(e),
            Ok(()) => Ok(self.subscribe_delay),
        }
    }

    /// Subscribes a central to a characteristic. A stall may have let a newer connection
    /// supersede the handle, so that is asked again here. Only now, with a way back to
    /// the central, does the peripheral see it connect.
    pub fn subscribe(
        &mut self,
        session: u64,
        central: &PeerAddress,
        peripheral: &PeerAddress,
        characteristic: CharacteristicUuid,
    ) -> (r: (Result<(), BleError>, Vec<Emission>))
        ensures
            old(self)@.did_subscribe(
                final(self)@,
                session,
                central@,
                peripheral@,
                characteristic,
                refused(r.0),
                emissions(r.1@),
            ),
    {
        let mut out = Self::nothing();
        match self.require_property(peripheral, characteristic, Property::Notifiable) {
            Err(e) => return (Err(e), out),
            Ok(()) => {},
        }
        match self.ensure_current(session, central, peripheral) {
            Err(e) => return (Err(e), out),
            Ok(()) => {},
        }
        match self.peripherals.remove(peripheral) {
            None => {},
            Some(mut state) => {
                let ghost before = state@;
                let known = state.values.contains(&characteristic);
                if known {
                    state.subscribers.insert(
                        SubscriptionKey { characteristic, central: central.clone() },
                        true,
                    );
                }
                let ghost after = state@;
                self.peripherals.insert(peripheral.clone(), state);
                assert(self@.peripherals =~= old(self)@.peripherals.insert(peripheral@, after));
                if !known {
                    assert(self@ =~= old(self)@);
                    return (Err(BleError::Gatt(owned("unknown characteristic"))), out);
                }
            },
        }
        assert(self@ =~= old(self)@.subscribing(peripheral@, characteristic, central@));
        self.emit(
            &mut out,
            peripheral,
            GattEvent::Connected {
                peer: central.clone(),
                local_role: Role::Peripheral,
                session: Some(session),
            },
        );
        (Ok(()), out)
    }

    /// Ends a connection from the central's side.
    pub fn disconnect(
        &mut self,
        session: u64,
        central: &PeerAddress,
        peripheral: &PeerAddress,
    ) -> (r: (Result<(), BleError>, Vec<Emission>))
        ensures
            old(self)@.did_disconnect(
                final(self)@,
                session,
                central@,
                peripheral@,
                refused(r.0),
                emissions(r.1@),
            ),
    {
        let mut out = Self::nothing();
        match self.ensure_current(session, central, peripheral) {
            Err(e) => return (Err(e), out),
            Ok(()) => {},
        }
        self.unlink(central, peripheral);
        let ghost log = self.disconnect_log@;
        self.disconnect_log.push(peripheral.clone());
        assert(self@.disconnect_log =~= old(self)@.disconnect_log.push(peripheral@));
        self.part(&mut out, central, peripheral);
        (Ok(()), out)
    }

    /// Forgets the link of `central` to `peripheral` and what it subscribed to.
    fn unlink(&mut self, central: &PeerAddress, peripheral: &PeerAddress)
        ensures
            final(self)@ == old(self)@.unlinked(central@, peripheral@),
    {
        self.drop_subscriptions(peripheral, central);
        self.live_sessions.remove(&link(central, peripheral));
        assert(self@ =~= old(self)@.unlinked(central@, peripheral@));
    }
}

// ---------------------------------------------------------------------------
// Peripheral role
// ---------------------------------------------------------------------------

impl NetworkView {
    /// Whether `order` lists the centrals that subscribe to anything at `address`, each
    /// once.
    pub open spec fn lists_subscribers(self, address: Seq<char>, order: Seq<Seq<char>>) -> bool {
        &&& order.no_duplicates()
        &&& forall|central: Seq<char>| #[trigger]
            order.contains(central) <==> self.peripherals.contains_key(address)
                && self.peripherals[address].subscribed(central)
    }

    /// Whether `order` lists the peripherals that `central` has a session with, each
    /// once.
    pub open spec fn lists_sessions(self, central: Seq<char>, order: Seq<Seq<char>>) -> bool {
        &&& order.no_duplicates()
        &&& forall|peripheral: Seq<char>| #[trigger]
            order.contains(peripheral) <==> self.live.contains_key((central, peripheral))
    }

    /// Each central of `order` parts from the peripheral `address`.
    pub open spec fn parting_from(
        self,
        out: Seq<EmissionView>,
        address: Seq<char>,
        order: Seq<Seq<char>>,
    ) -> Seq<EmissionView>
        decreases order.len(),
    {
        if order.len() == 0 {
            out
        } else {
            self.parting(
                self.parting_from(out, address, order.drop_last()),
                order.last(),
                address,
            )
        }
    }

    /// The central `address` parts from each peripheral of `order`.
    pub open spec fn parting_with(
        self,
        out: Seq<EmissionView>,
        address: Seq<char>,
        order: Seq<Seq<char>>,
    ) -> Seq<EmissionView>
        decreases order.len(),
    {
        if order.len() == 0 {
            out
        } else {
            self.parting(
                self.parting_with(out, address, order.drop_last()),
                address,
                order.last(),
            )
        }
    }

    pub open spec fn silent(self, address: Seq<char>) -> NetworkView {
        NetworkView { peripherals: self.peripherals.remove(address), ..self }
    }

    /// The network without `address`, in either role.
    pub open spec fn swept(self, address: Seq<char>) -> NetworkView {
        NetworkView {
            peripherals: Map::new(
                |p: Seq<char>| p != address && self.peripherals.contains_key(p),
                |p: Seq<char>|
                    if self.live.contains_key((address, p)) {
                        self.peripherals[p].without(address)
                    } else {
                        self.peripherals[p]
                    },
            ),
            live: self.live.restrict(Set::new(|k: (Seq<char>, Seq<char>)| k.0 != address)),
            ..self
        }
    }

    /// A party vanished: its centrals and its peripherals were told, in an order that is
    /// open.
    pub open spec fn did_sweep(
        self,
        next: NetworkView,
        address: Seq<char>,
        out: Seq<EmissionView>,
    ) -> bool {
        &&& next == self.swept(address)
        &&& exists|served: Seq<Seq<char>>, held: Seq<Seq<char>>|
            #![trigger self.lists_subscribers(address, served), self.lists_sessions(address, held)]
            {
                &&& self.lists_subscribers(address, served)
                &&& self.lists_sessions(address, held)
                &&& out == self.parting_with(
                    self.parting_from(seq![], address, served),
                    address,
                    held,
                )
            }
    }

    /// Whether `central` would receive a notification of `c` from `address`.
    pub open spec fn listens(
        self,
        address: Seq<char>,
        c: CharacteristicUuid,
        central: Seq<char>,
    ) -> bool {
        let subscribers = self.peripherals[address].subscribers;
        subscribers.contains_key((c, central)) && subscribers[(c, central)]
    }

    /// Why nothing of `address` can be notified, if so.
    pub open spec fn notify_refusal(
        self,
        address: Seq<char>,
        c: CharacteristicUuid,
    ) -> Option<BleErrorView> {
        if !self.peripherals.contains_key(address) {
            Some(BleErrorView::Gatt("not advertising"@))
        } else if !self.peripherals[address].values.contains_key(c) {
            Some(BleErrorView::Gatt("unknown characteristic"@))
        } else {
            None
        }
    }

    /// The network once `service` is on the air at `address`.
    pub open spec fn advertising(
        self,
        address: Seq<char>,
        service: GattServiceSpecView,
    ) -> NetworkView {
        NetworkView {
            peripherals: self.peripherals.insert(
                address,
                fresh_peripheral(
                    service,
                    if self.peripherals.contains_key(address) {
                        self.peripherals[address].rssi
                    } else {
                        None
                    },
                ),
            ),
            ..self
        }
    }

    /// The peripheral `address` went off the air: whom that was told, in an order that is
    /// open.
    pub open spec fn did_stop(
        self,
        next: NetworkView,
        address: Seq<char>,
        out: Seq<EmissionView>,
    ) -> bool {
        &&& next == self.silent(address)
        &&& exists|order: Seq<Seq<char>>| #[trigger]
            self.lists_subscribers(address, order) && out == self.parting_from(
                seq![],
                address,
                order,
            )
    }

    /// A notification to every listener: whom it reached, in an order that is open, and
    /// that reaching nobody is an error.
    pub open spec fn did_notify(
        self,
        address: Seq<char>,
        c: CharacteristicUuid,
        value: Seq<u8>,
        r: Option<BleErrorView>,
        sent: Seq<NotificationView>,
    ) -> bool {
        match self.notify_refusal(address, c) {
            Some(e) => r == Some(e) && sent.len() == 0,
            None => {
                &&& r == if sent.len() == 0 {
                    Some(BleErrorView::Gatt("notify reached no subscriber"@))
                } else {
                    None
                }
                &&& forall|i: int|
                    #![trigger sent[i]]
                    0 <= i < sent.len() ==> {
                        &&& self.listens(address, c, sent[i].central)
                        &&& sent[i].characteristic == c
                        &&& sent[i].item == Ok::<Seq<u8>, BleErrorView>(value)
                    }
                &&& forall|i: int, j: int|
                    0 <= i < j < sent.len() ==> (#[trigger] sent[i]).central != (
                    #[trigger] sent[j]).central
                &&& forall|central: Seq<char>| #[trigger]
                    self.listens(address, c, central) ==> exists|i: int|
                        0 <= i < sent.len() && (#[trigger] sent[i]).central == central
            },
        }
    }

    /// A notification to one peer.
    pub open spec fn notifies_peer(
        self,
        address: Seq<char>,
        peer: Seq<char>,
        session: Option<u64>,
        c: CharacteristicUuid,
        value: Seq<u8>,
    ) -> Result<NotificationView, BleErrorView> {
        match self.notify_peer_refusal(address, peer, session, c) {
            Some(e) => Err(e),
            None => Ok(NotificationView { central: peer, characteristic: c, item: Ok(value) }),
        }
    }

    /// The server at `address` dropped a central, unless that one was superseded.
    pub open spec fn did_disconnect_peer(
        self,
        next: NetworkView,
        address: Seq<char>,
        peer: Seq<char>,
        session: Option<u64>,
        out: Seq<EmissionView>,
    ) -> bool {
        if session matches Some(s) && !self.is_current(s, peer, address) {
            next == self && out == Seq::<EmissionView>::empty()
        } else {
            &&& next == self.unlinked(peer, address)
            &&& out == self.heard(
                self.heard(seq![], peer, lost(address, Role::Central, None)),
                address,
                lost(peer, Role::Peripheral, None),
            )
        }
    }

    /// Why a peer cannot be notified, if so.
    pub open spec fn notify_peer_refusal(
        self,
        address: Seq<char>,
        peer: Seq<char>,
        session: Option<u64>,
        c: CharacteristicUuid,
    ) -> Option<BleErrorView> {
        if session matches Some(s) && !self.is_current(s, peer, address) {
            Some(BleErrorView::NotConnected(peer))
        } else {
            match self.notify_refusal(address, c) {
                Some(e) => Some(e),
                None => if self.listens(address, c, peer) {
                    None
                } else {
                    Some(no_notify_session_error(peer))
                },
            }
        }
    }
}

impl MockNetwork {
    /// Puts `service` on the air at `address`, in place of what was there. A signal
    /// strength that was set before stays.
    pub fn advertise(&mut self, address: &PeerAddress, service: GattServiceSpec)
        ensures
            final(self)@ == old(self)@.advertising(address@, service@),
    {
        let rssi: Option<i16> = match self.peripherals.get(address) {
            Some(previous) => previous.rssi,
            None => None,
        };
        let mut values: AssocMap<CharacteristicUuid, Vec<u8>> = AssocMap::new();
        let ghost specs = service@.characteristics;
        let mut i: usize = 0;
        assert(values@.map_values(|v: Vec<u8>| v@) =~= initial_values(specs.take(0)));
        while i < service.characteristics.len()
            invariant
                i <= service.characteristics@.len(),
                specs == service.characteristics@.map_values(|c: GattCharacteristicSpec| c@),
                values@.map_values(|v: Vec<u8>| v@) == initial_values(specs.take(i as int)),
            decreases service.characteristics.len() - i,
        {
            let ghost before = values@;
            let spec = &service.characteristics[i];
            let value = copied(&spec.initial_value);
            let ghost shown = value@;
            values.insert(spec.uuid, value);
            proof {
                let more = specs.take(i + 1);
                assert(more.drop_last() =~= specs.take(i as int));
                assert(more.last() == spec@);
                assert(values@.map_values(|v: Vec<u8>| v@) =~= before.map_values(
                    |v: Vec<u8>| v@,
                ).insert(spec.uuid, shown));
            }
            i = i + 1;
        }
        assert(specs.take(i as int) =~= specs);
        let manufacturer_data = service.manufacturer_data.clone();
        let service_data = service.service_data.clone();
        let state = PeripheralState {
            service,
            values,
            subscribers: AssocMap::new(),
            manufacturer_data,
            service_data,
            rssi,
        };
        let ghost shown = state@;
        assert(shown =~= fresh_peripheral(service@, rssi));
        self.peripherals.insert(address.clone(), state);
        assert(self@.peripherals =~= old(self)@.peripherals.insert(address@, shown));
    }

    /// The centrals that subscribe to anything at `address`, each once.
    fn subscribers_of(&self, address: &PeerAddress) -> (r: Vec<PeerAddress>)
        ensures
            self@.lists_subscribers(address@, addresses(r@)),
    {
        let mut r: Vec<PeerAddress> = Vec::new();
        assert(addresses(r@) =~= Seq::<Seq<char>>::empty());
        match self.peripherals.get(address) {
            None => {},
            Some(state) => {
                let keys = state.subscribers.keys();
                let ghost view = state@;
                let mut i: usize = 0;
                while i < keys.len()
                    invariant
                        i <= keys@.len(),
                        forall|j: int|
                            0 <= j < keys@.len() ==> view.subscribers.contains_key(
                                (#[trigger] keys@[j]).content(),
                            ),
                        addresses(r@).no_duplicates(),
                        forall|central: Seq<char>| #[trigger]
                            addresses(r@).contains(central) <==> exists|
                                c: CharacteristicUuid,
                            | #[trigger] among(keys@, i as int, (c, central)),
                    decreases keys.len() - i,
                {
                    let central = &keys[i].central;
                    let ghost before = addresses(r@);
                    let ghost c0 = keys@[i as int].characteristic;
                    proof {
                        among_step(keys@, i as int);
                        assert(among(keys@, i + 1, (c0, central@)));
                    }
                    if !contains_peer(&r, central) {
                        r.push(central.clone());
                        assert(addresses(r@) =~= before.push(central@));
                    }
                    proof {
                        let after = addresses(r@);
                        assert forall|x: Seq<char>| #[trigger]
                            after.contains(x) <==> before.contains(x) || x == central@ by {
                            if before.contains(x) {
                                let k = choose|k: int| 0 <= k < before.len() && before[k] == x;
                                assert(after[k] == x);
                            }
                            if x == central@ && !before.contains(x) {
                                assert(after[before.len() as int] == x);
                            }
                            if after.contains(x) && !before.contains(x) {
                                let k = choose|k: int| 0 <= k < after.len() && after[k] == x;
                                if k < before.len() {
                                    assert(before[k] == x);
                                }
                            }
                        }
                        assert forall|x: Seq<char>| #[trigger]
                            after.contains(x) <==> exists|c: CharacteristicUuid| #[trigger]
                            among(keys@, i + 1, (c, x)) by {
                            if before.contains(x) {
                                let c = choose|c: CharacteristicUuid| #[trigger]
                                    among(keys@, i as int, (c, x));
                                assert(among(keys@, i + 1, (c, x)));
                            }
                            if exists|c: CharacteristicUuid| #[trigger]
                                among(keys@, i + 1, (c, x)) {
                                let c = choose|c: CharacteristicUuid| #[trigger]
                                    among(keys@, i + 1, (c, x));
                                assert(among(keys@, i as int, (c, x)) || (c, x)
                                    == keys@[i as int].content());
                            }
                        }
                    }
                    i = i + 1;
                }
                proof {
                    let all = addresses(r@);
                    assert forall|x: Seq<char>| #[trigger] all.contains(x) <==> view.subscribed(
                        x,
                    ) by {
                        if all.contains(x) {
                            let c = choose|c: CharacteristicUuid| #[trigger]
                                among(keys@, i as int, (c, x));
                            let j = choose|j: int|
                                0 <= j < i && (#[trigger] keys@[j]).content() == (c, x);
                            assert(view.subscribers.contains_key((c, x)));
                        }
                        if view.subscribed(x) {
                            let c = choose|c: CharacteristicUuid| #[trigger]
                                view.subscribers.contains_key((c, x));
                            assert(among(keys@, i as int, (c, x)));
                        }
                    }
                }
            },
        }
        r
    }

    /// Takes the peripheral `address` off the air. Every central that subscribed to it is
    /// told, and so is the peripheral: neither platform reports a server's own end.
    pub fn stop_advertising(&mut self, address: &PeerAddress) -> (out: Vec<Emission>)
        ensures
            old(self)@.did_stop(final(self)@, address@, emissions(out@)),
    {
        let served = self.subscribers_of(address);
        let ghost order = addresses(served@);
        self.peripherals.remove(address);
        assert(self@ =~= old(self)@.silent(address@));
        let mut out = Self::nothing();
        let mut i: usize = 0;
        assert(order.take(0) =~= seq![]);
        while i < served.len()
            invariant
                i <= served@.len(),
                order == addresses(served@),
                self@ == old(self)@.silent(address@),
                emissions(out@) == old(self)@.parting_from(
                    seq![],
                    address@,
                    order.take(i as int),
                ),
            decreases served.len() - i,
        {
            self.part(&mut out, &served[i], address);
            proof {
                let more = order.take(i + 1);
                assert(more.drop_last() =~= order.take(i as int));
                assert(more.last() == served@[i as int]@);
            }
            i = i + 1;
        }
        assert(order.take(i as int) =~= order);
        assert(old(self)@.lists_subscribers(address@, order));
        out
    }

    /// Notifies every central that subscribes to `characteristic` of `address` and still
    /// listens, in no particular order. Reaching nobody is an error.
    pub fn notify(
        &self,
        address: &PeerAddress,
        characteristic: CharacteristicUuid,
        value: Vec<u8>,
    ) -> (r: (Result<(), BleError>, Vec<Notification>))
        ensures
            self@.did_notify(
                address@,
                characteristic,
                value@,
                refused(r.0),
                notifications(r.1@),
            ),
    {
        let mut out: Vec<Notification> = Vec::new();
        match self.peripherals.get(address) {
            None => (Err(BleError::Gatt(owned("not advertising"))), out),
            Some(state) => {
                if !state.values.contains(&characteristic) {
                    return (Err(BleError::Gatt(owned("unknown characteristic"))), out);
                }
                let keys = state.subscribers.keys();
                let ghost view = state@;
                let mut i: usize = 0;
                while i < keys.len()
                    invariant
                        i <= keys@.len(),
                        view == state@,
                        view == self@.peripherals[address@],
                        forall|a: int, b: int|
                            0 <= a < b < keys@.len() ==> (#[trigger] keys@[a]).content() != (
                            #[trigger] keys@[b]).content(),
                        forall|k: int|
                            #![trigger out@[k]]
                            0 <= k < out@.len() ==> {
                                &&& self@.listens(address@, characteristic, out@[k]@.central)
                                &&& out@[k]@.characteristic == characteristic
                                &&& out@[k]@.item == Ok::<Seq<u8>, BleErrorView>(value@)
                                &&& among(keys@, i as int, (characteristic, out@[k]@.central))
                            },
                        forall|a: int, b: int|
                            0 <= a < b < out@.len() ==> (#[trigger] out@[a])@.central != (
                            #[trigger] out@[b])@.central,
                        forall|central: Seq<char>| #[trigger]
                            self@.listens(address@, characteristic, central) && among(
                                keys@,
                                i as int,
                                (characteristic, central),
                            ) ==> exists|k: int|
                                0 <= k < out@.len() && (#[trigger] out@[k])@.central == central,
                    decreases keys.len() - i,
                {
                    let key = &keys[i];
                    let ghost known = out@;
                    proof {
                        among_step(keys@, i as int);
                        assert forall|k: int|
                            0 <= k < known.len() && key.characteristic
                                == characteristic implies (#[trigger] known[k])@.central
                            != key.central@ by {
                            let j = choose|j: int|
                                0 <= j < i && (#[trigger] keys@[j]).content() == (
                                    characteristic,
                                    known[k]@.central,
                                );
                            assert(keys@[j].content() != keys@[i as int].content());
                        }
                    }
                    if key.characteristic == characteristic {
                        match state.subscribers.get(key) {
                            Some(listening) => {
                                if *listening {
                                    let n = Notification {
                                        central: key.central.clone(),
                                        characteristic,
                                        item: Ok(copied(&value)),
                                    };
                                    assert(n@.item == Ok::<Seq<u8>, BleErrorView>(value@));
                                    out.push(n);
                                    assert(out@[known.len() as int]@.central == key.central@);
                                }
                            },
                            None => {},
                        }
                    }
                    proof {
                        assert forall|central: Seq<char>| #[trigger]
                            self@.listens(address@, characteristic, central) && among(
                                keys@,
                                i + 1,
                                (characteristic, central),
                            ) implies exists|k: int|
                            0 <= k < out@.len() && (#[trigger] out@[k])@.central == central by {
                            if among(keys@, i as int, (characteristic, central)) {
                                let k = choose|k: int|
                                    0 <= k < known.len() && (#[trigger] known[k])@.central
                                        == central;
                                assert(out@[k] == known[k]);
                            } else {
                                assert(out@[known.len() as int]@.central == central);
                            }
                        }
                    }
                    i = i + 1;
                }
                proof {
                    assert forall|central: Seq<char>| #[trigger]
                        self@.listens(address@, characteristic, central) implies exists|k: int|
                        0 <= k < out@.len() && (#[trigger] out@[k])@.central == central by {
                        assert(view.subscribers.contains_key((characteristic, central)));
                        assert(among(keys@, i as int, (characteristic, central)));
                    }
                    let sent = notifications(out@);
                    assert forall|k: int| #![trigger sent[k]] 0 <= k < sent.len() implies {
                        &&& self@.listens(address@, characteristic, sent[k].central)
                        &&& sent[k].characteristic == characteristic
                        &&& sent[k].item == Ok::<Seq<u8>, BleErrorView>(value@)
                    } by {
                        assert(sent[k] == out@[k]@);
                    }
                    assert forall|a: int, b: int| 0 <= a < b < sent.len() implies (
                    #[trigger] sent[a]).central != (#[trigger] sent[b]).central by {
                        assert(out@[a]@.central != out@[b]@.central);
                    }
                    assert forall|central: Seq<char>| #[trigger]
                        self@.listens(address@, characteristic, central) implies exists|k: int|
                        0 <= k < sent.len() && (#[trigger] sent[k]).central == central by {
                        let k = choose|k: int|
                            0 <= k < out@.len() && (#[trigger] out@[k])@.central == central;
                        assert(sent[k].central == central);
                    }
                }
                if out.len() == 0 {
                    (Err(BleError::Gatt(owned("notify reached no subscriber"))), out)
                } else {
                    (Ok(()), out)
                }
            },
        }
    }

    /// Notifies one subscribed central, of the session named if one is named.
    pub fn notify_peer(
        &self,
        address: &PeerAddress,
        peer: &PeerAddress,
        session: Option<u64>,
        characteristic: CharacteristicUuid,
        value: Vec<u8>,
    ) -> (r: Result<Notification, BleError>)
        ensures
            notification_view(r) == self@.notifies_peer(
                address@,
                peer@,
                session,
                characteristic,
                value@,
            ),
    {
        match session {
            Some(s) => match self.ensure_current(s, peer, address) {
                Err(_) => return Err(BleError::NotConnected(peer.0.clone())),
                Ok(()) => {},
            },
            None => {},
        }
        match self.peripherals.get(address) {
            None => Err(BleError::Gatt(owned("not advertising"))),
            Some(state) => {
                if !state.values.contains(&characteristic) {
                    return Err(BleError::Gatt(owned("unknown characteristic")));
                }
                let listening: bool = match state.subscribers.get(
                    &SubscriptionKey { characteristic, central: peer.clone() },
                ) {
                    Some(listening) => *listening,
                    None => false,
                };
                if listening {
                    Ok(Notification { central: peer.clone(), characteristic, item: Ok(value) })
                } else {
                    Err(BleError::Gatt(joined(peer.0.as_str(), " has no live notify session")))
                }
            },
        }
    }

    /// Drops a central from the server at `address`, of the session named if one is
    /// named. A peer that is already gone, or has been superseded, is left alone.
    pub fn disconnect_peer(
        &mut self,
        address: &PeerAddress,
        peer: &PeerAddress,
        session: Option<u64>,
    ) -> (out: Vec<Emission>)
        ensures
            old(self)@.did_disconnect_peer(
                final(self)@,
                address@,
                peer@,
                session,
                emissions(out@),
            ),
    {
        let mut out = Self::nothing();
        match session {
            Some(s) => match self.ensure_current(s, peer, address) {
                Err(_) => return out,
                Ok(()) => {},
            },
            None => {},
        }
        self.emit(
            &mut out,
            peer,
            GattEvent::Disconnected {
                peer: address.clone(),
                local_role: Role::Central,
                session: None,
            },
        );
        self.emit(
            &mut out,
            address,
            GattEvent::Disconnected {
                peer: peer.clone(),
                local_role: Role::Peripheral,
                session: None,
            },
        );
        self.unlink(peer, address);
        out
    }
}

/// Whether `peer` is in a list.
pub fn contains_peer(list: &Vec<PeerAddress>, peer: &PeerAddress) -> (r: bool)
    ensures
        r == addresses(list@).contains(peer@),
{
    let ghost shown = addresses(list@);
    let mut i: usize = 0;
    while i < list.len()
        invariant
            i <= list@.len(),
            shown == addresses(list@),
            forall|j: int| 0 <= j < i ==> (#[trigger] list@[j])@ != peer@,
        decreases list.len() - i,
    {
        if list[i].same(peer) {
            assert(shown[i as int] == peer@);
            return true;
        }
        i = i + 1;
    }
    proof {
        if shown.contains(peer@) {
            let j = choose|j: int| 0 <= j < shown.len() && shown[j] == peer@;
            assert(list@[j]@ == peer@);
        }
    }
    false
}

// ---------------------------------------------------------------------------
// Faults
// ---------------------------------------------------------------------------

impl MockNetwork {
    /// What a graceful end would have done for a party that vanished: its peripheral goes
    /// off the air, and it parts from every peripheral that it was connected to.
    pub fn disconnect_all_for(&mut self, address: &PeerAddress) -> (out: Vec<Emission>)
        ensures
            old(self)@.did_sweep(final(self)@, address@, emissions(out@)),
    {
        let ghost start = self@;
        let mut out = self.stop_advertising(address);
        let ghost served = choose|order: Seq<Seq<char>>| #[trigger]
            start.lists_subscribers(address@, order) && emissions(out@) == start.parting_from(
                seq![],
                address@,
                order,
            );
        let ghost told = emissions(out@);
        let keys = self.live_sessions.keys();
        let ghost mut held: Seq<Seq<char>> = seq![];
        let mut i: usize = 0;
        while i < keys.len()
            invariant
                i <= keys@.len(),
                forall|a: int, b: int|
                    0 <= a < b < keys@.len() ==> (#[trigger] keys@[a]).content() != (
                    #[trigger] keys@[b]).content(),
                forall|j: int|
                    0 <= j < keys@.len() ==> start.live.contains_key(
                        (#[trigger] keys@[j]).content(),
                    ),
                self@ == (NetworkView {
                    peripherals: self@.peripherals,
                    live: self@.live,
                    ..start
                }),
                forall|k: (Seq<char>, Seq<char>)| #[trigger]
                    self@.live.contains_key(k) <==> start.live.contains_key(k) && !(k.0 == address@
                        && among(keys@, i as int, k)),
                forall|k: (Seq<char>, Seq<char>)| #[trigger]
                    self@.live.contains_key(k) ==> self@.live[k] == start.live[k],
                forall|p: Seq<char>| #[trigger]
                    self@.peripherals.contains_key(p) <==> p != address@
                        && start.peripherals.contains_key(p),
                forall|p: Seq<char>| #[trigger]
                    self@.peripherals.contains_key(p) ==> self@.peripherals[p] == if among(
                        keys@,
                        i as int,
                        (address@, p),
                    ) {
                        start.peripherals[p].without(address@)
                    } else {
                        start.peripherals[p]
                    },
                held.no_duplicates(),
                forall|p: Seq<char>| #[trigger]
                    held.contains(p) <==> among(keys@, i as int, (address@, p)),
                emissions(out@) == start.parting_with(told, address@, held),
            decreases keys.len() - i,
        {
            let key = &keys[i];
            let ghost before = self@;
            proof {
                among_step(keys@, i as int);
                if among(keys@, i as int, key.content()) {
                    let j = choose|j: int|
                        0 <= j < i && (#[trigger] keys@[j]).content() == key.content();
                    assert(keys@[j].content() != keys@[i as int].content());
                }
            }
            if key.central.same(address) {
                let peripheral = key.peripheral.clone();
                self.unlink(address, &peripheral);
                self.part(&mut out, address, &peripheral);
                proof {
                    assert(key.content() == (address@, peripheral@));
                    assert(!held.contains(peripheral@));
                    let more = held.push(peripheral@);
                    assert(more.drop_last() =~= held);
                    assert forall|p: Seq<char>| #[trigger]
                        more.contains(p) <==> held.contains(p) || p == peripheral@ by {
                        if held.contains(p) {
                            let k = choose|k: int| 0 <= k < held.len() && held[k] == p;
                            assert(more[k] == p);
                        }
                        if p == peripheral@ {
                            assert(more[held.len() as int] == p);
                        }
                    }
                    assert(more.no_duplicates());
                    held = more;
                }
            }
            i = i + 1;
        }
        proof {
            assert forall|k: (Seq<char>, Seq<char>)| #[trigger]
                start.live.contains_key(k) implies among(keys@, i as int, k) by {}
            assert(self@ =~= start.swept(address@)) by {
                assert forall|p: Seq<char>| among(keys@, i as int, (address@, p))
                    == start.live.contains_key((address@, p)) by {
                    if among(keys@, i as int, (address@, p)) {
                        let j = choose|j: int|
                            0 <= j < i && (#[trigger] keys@[j]).content() == (address@, p);
                        assert(start.live.contains_key(keys@[j].content()));
                    }
                }
                assert(self@.peripherals =~= start.swept(address@).peripherals);
                assert(self@.live =~= start.swept(address@).live);
            }
            assert(start.lists_sessions(address@, held)) by {
                assert forall|p: Seq<char>| #[trigger]
                    held.contains(p) <==> start.live.contains_key((address@, p)) by {
                    if among(keys@, i as int, (address@, p)) {
                        let j = choose|j: int|
                            0 <= j < i && (#[trigger] keys@[j]).content() == (address@, p);
                        assert(start.live.contains_key(keys@[j].content()));
                    }
                }
            }
            assert(start.lists_subscribers(address@, served));
        }
        out
    }

    /// A peer drops its link to `host` without warning: both ends are told, and the link
    /// no longer works.
    pub fn simulate_peer_loss(&mut self, host: &PeerAddress, peer: &PeerAddress) -> (out: Vec<
        Emission,
    >)
        ensures
            final(self)@ == old(self)@.unlinked(peer@, host@),
            emissions(out@) == old(self)@.parting(seq![], peer@, host@),
    {
        let mut out = Self::nothing();
        self.unlink(peer, host);
        self.part(&mut out, peer, host);
        out
    }

    /// A central stops listening without disconnecting: for the server it is gone.
    pub fn simulate_unsubscribe(
        &mut self,
        peripheral: &PeerAddress,
        central: &PeerAddress,
    ) -> (out: Vec<Emission>)
        ensures
            final(self)@ == old(self)@.unsubscribed(peripheral@, central@),
            emissions(out@) == old(self)@.heard(
                seq![],
                peripheral@,
                lost(
                    central@,
                    Role::Peripheral,
                    if old(self)@.live.contains_key((central@, peripheral@)) {
                        Some(old(self)@.live[(central@, peripheral@)])
                    } else {
                        None
                    },
                ),
            ),
    {
        let session = self.live_session(central, peripheral);
        self.drop_subscriptions(peripheral, central);
        let mut out = Self::nothing();
        self.emit(
            &mut out,
            peripheral,
            GattEvent::Disconnected {
                peer: central.clone(),
                local_role: Role::Peripheral,
                session,
            },
        );
        out
    }

    /// A central-role loss of one particular session reaches `central`.
    pub fn simulate_loss_for_session(
        &self,
        central: &PeerAddress,
        peer: &PeerAddress,
        session: u64,
    ) -> (out: Vec<Emission>)
        ensures
            emissions(out@) == self@.heard(
                seq![],
                central@,
                lost(peer@, Role::Central, Some(session)),
            ),
    {
        let mut out = Self::nothing();
        self.emit(
            &mut out,
            central,
            GattEvent::Disconnected {
                peer: peer.clone(),
                local_role: Role::Central,
                session: Some(session),
            },
        );
        out
    }

    /// `to` fell behind, and events were discarded before it could see them.
    pub fn simulate_event_lag(&self, to: &PeerAddress, dropped: u64) -> (out: Vec<Emission>)
        ensures
            emissions(out@) == self@.heard(seq![], to@, GattEventView::Lagged { dropped }),
    {
        let mut out = Self::nothing();
        self.emit(&mut out, to, GattEvent::Lagged { dropped });
        out
    }

    /// The radio of `of` changes its power.
    pub fn simulate_radio(&self, of: &PeerAddress, status: RadioStatus) -> (out: Vec<Emission>)
        ensures
            emissions(out@) == self@.heard(seq![], of@, GattEventView::RadioChanged { status }),
    {
        let mut out = Self::nothing();
        self.emit(&mut out, of, GattEvent::RadioChanged { status });
        out
    }

    /// The platform dropped notifications for `central`: each of its subscriptions at
    /// `peripheral` that still listens gets an error item.
    pub fn simulate_notification_gap(
        &self,
        peripheral: &PeerAddress,
        central: &PeerAddress,
    ) -> (out: Vec<Notification>)
        ensures
            forall|i: int|
                #![trigger out@[i]]
                0 <= i < out@.len() ==> {
                    &&& out@[i]@.central == central@
                    &&& out@[i]@.item == Err::<Seq<u8>, BleErrorView>(
                        BleErrorView::Gatt("notification queue overflowed: payloads were dropped"@),
                    )
                    &&& self@.peripherals.contains_key(peripheral@)
                    &&& self@.listens(peripheral@, out@[i]@.characteristic, central@)
                },
            forall|c: CharacteristicUuid| #[trigger]
                self@.listens(peripheral@, c, central@) && self@.peripherals.contains_key(
                    peripheral@,
                ) ==> exists|i: int|
                    0 <= i < out@.len() && (#[trigger] out@[i])@.characteristic == c,
            forall|i: int, j: int|
                0 <= i < j < out@.len() ==> (#[trigger] out@[i])@.characteristic != (
                #[trigger] out@[j])@.characteristic,
    {
        let mut out: Vec<Notification> = Vec::new();
        match self.peripherals.get(peripheral) {
            None => {},
            Some(state) => {
                let keys = state.subscribers.keys();
                let ghost view = state@;
                let mut i: usize = 0;
                while i < keys.len()
                    invariant
                        i <= keys@.len(),
                        view == state@,
                        self@.peripherals.contains_key(peripheral@),
                        view == self@.peripherals[peripheral@],
                        forall|a: int, b: int|
                            0 <= a < b < keys@.len() ==> (#[trigger] keys@[a]).content() != (
                            #[trigger] keys@[b]).content(),
                        forall|k: int|
                            #![trigger out@[k]]
                            0 <= k < out@.len() ==> {
                                &&& out@[k]@.central == central@
                                &&& out@[k]@.item == Err::<Seq<u8>, BleErrorView>(
                                    BleErrorView::Gatt(
                                        "notification queue overflowed: payloads were dropped"@,
                                    ),
                                )
                                &&& self@.listens(peripheral@, out@[k]@.characteristic, central@)
                                &&& among(keys@, i as int, (out@[k]@.characteristic, central@))
                            },
                        forall|a: int, b: int|
                            0 <= a < b < out@.len() ==> (#[trigger] out@[a])@.characteristic != (
                            #[trigger] out@[b])@.characteristic,
                        forall|c: CharacteristicUuid| #[trigger]
                            self@.listens(peripheral@, c, central@) && among(
                                keys@,
                                i as int,
                                (c, central@),
                            ) ==> exists|k: int|
                                0 <= k < out@.len() && (#[trigger] out@[k])@.characteristic == c,
                    decreases keys.len() - i,
                {
                    let key = &keys[i];
                    let ghost known = out@;
                    proof {
                        among_step(keys@, i as int);
                        assert forall|k: int|
                            0 <= k < known.len() && key.central@ == central@ implies (
                        #[trigger] known[k])@.characteristic != key.characteristic by {
                            let j = choose|j: int|
                                0 <= j < i && (#[trigger] keys@[j]).content() == (
                                    known[k]@.characteristic,
                                    central@,
                                );
                            assert(keys@[j].content() != keys@[i as int].content());
                        }
                    }
                    if key.central.same(central) {
                        match state.subscribers.get(key) {
                            Some(listening) => {
                                if *listening {
                                    let n = Notification {
                                        central: central.clone(),
                                        characteristic: key.characteristic,
                                        item: Err(
                                            BleError::Gatt(
                                                owned(
                                                    "notification queue overflowed: payloads were dropped",
                                                ),
                                            ),
                                        ),
                                    };
                                    assert(n@.item is Err);
                                    out.push(n);
                                    assert(out@[known.len() as int]@.characteristic
                                        == key.characteristic);
                                }
                            },
                            None => {},
                        }
                    }
                    proof {
                        assert forall|c: CharacteristicUuid| #[trigger]
                            self@.listens(peripheral@, c, central@) && among(
                                keys@,
                                i + 1,
                                (c, central@),
                            ) implies exists|k: int|
                            0 <= k < out@.len() && (#[trigger] out@[k])@.characteristic == c by {
                            if among(keys@, i as int, (c, central@)) {
                                let k = choose|k: int|
                                    0 <= k < known.len() && (#[trigger] known[k])@.characteristic
                                        == c;
                                assert(out@[k] == known[k]);
                            } else {
                                assert(out@[known.len() as int]@.characteristic == c);
                            }
                        }
                    }
                    i = i + 1;
                }
                proof {
                    assert forall|c: CharacteristicUuid| #[trigger]
                        self@.listens(peripheral@, c, central@) implies exists|k: int|
                        0 <= k < out@.len() && (#[trigger] out@[k])@.characteristic == c by {
                        assert(view.subscribers.contains_key((c, central@)));
                        assert(among(keys@, i as int, (c, central@)));
                    }
                }
            },
        }
        out
    }

    /// Whether `central` would receive a notification of `characteristic`.
    pub fn is_listening(
        &self,
        peripheral: &PeerAddress,
        central: &PeerAddress,
        characteristic: CharacteristicUuid,
    ) -> (r: bool)
        ensures
            r == (self@.peripherals.contains_key(peripheral@) && self@.listens(
                peripheral@,
                characteristic,
                central@,
            )),
    {
        match self.peripherals.get(peripheral) {
            None => false,
            Some(state) => {
                let key = SubscriptionKey { characteristic, central: central.clone() };
                match state.subscribers.get(&key) {
                    Some(listens) => *listens,
                    None => false,
                }
            },
        }
    }

    /// The reader of a subscription went away: nothing reaches it any more, though the
    /// server still counts it as subscribed.
    pub fn stop_listening(
        &mut self,
        peripheral: &PeerAddress,
        central: &PeerAddress,
        characteristic: CharacteristicUuid,
    )
        ensures
            ({
                let key = (characteristic, central@);
                let state = old(self)@.peripherals[peripheral@];
                final(self)@ == if old(self)@.peripherals.contains_key(peripheral@)
                    && state.subscribers.contains_key(key) {
                    NetworkView {
                        peripherals: old(self)@.peripherals.insert(
                            peripheral@,
                            PeripheralView {
                                subscribers: state.subscribers.insert(key, false),
                                ..state
                            },
                        ),
                        ..old(self)@
                    }
                } else {
                    old(self)@
                }
            }),
    {
        match self.peripherals.remove(peripheral) {
            None => {
                assert(self@ =~= old(self)@);
            },
            Some(mut state) => {
                let key = SubscriptionKey { characteristic, central: central.clone() };
                if state.subscribers.contains(&key) {
                    state.subscribers.insert(key, false);
                }
                let ghost after = state@;
                self.peripherals.insert(peripheral.clone(), state);
                assert(self@.peripherals =~= old(self)@.peripherals.insert(peripheral@, after));
                assert(self@ =~= NetworkView {
                    peripherals: old(self)@.peripherals.insert(peripheral@, after),
                    ..old(self)@
                });
                proof {
                    if !old(self)@.peripherals[peripheral@].subscribers.contains_key(
                        (characteristic, central@),
                    ) {
                        assert(self@ =~= old(self)@);
                    }
                }
            },
        }
    }

    /// Every subscription is stalled by `delay` from now on.
    pub fn stall_subscribe(&mut self, delay: Duration)
        ensures
            final(self)@ == (NetworkView { subscribe_delay: Some(delay), ..old(self)@ }),
    {
        self.subscribe_delay = Some(delay);
    }

    /// The next scan ends with an error item.
    pub fn arm_scan_failure(&mut self, message: String)
        ensures
            final(self)@ == (NetworkView { armed_scan_failure: Some(message@), ..old(self)@ }),
    {
        self.armed_scan_failure = Some(message);
    }

    /// Attaches advertisement data to a peer that is on the air.
    pub fn set_advertisement_data(
        &mut self,
        peer: &PeerAddress,
        manufacturer_data: BTreeMap<u16, Vec<u8>>,
        service_data: BTreeMap<u128, Vec<u8>>,
        rssi: Option<i16>,
    )
        ensures
            final(self)@ == if old(self)@.peripherals.contains_key(peer@) {
                NetworkView {
                    peripherals: old(self)@.peripherals.insert(
                        peer@,
                        PeripheralView {
                            manufacturer_data: manufacturer_data@,
                            service_data: service_data@,
                            rssi,
                            ..old(self)@.peripherals[peer@]
                        },
                    ),
                    ..old(self)@
                }
            } else {
                old(self)@
            },
    {
        match self.peripherals.remove(peer) {
            None => {
                assert(self@ =~= old(self)@);
            },
            Some(mut state) => {
                state.manufacturer_data = manufacturer_data;
                state.service_data = service_data;
                state.rssi = rssi;
                let ghost after = state@;
                self.peripherals.insert(peer.clone(), state);
                assert(self@.peripherals =~= old(self)@.peripherals.insert(peer@, after));
            },
        }
    }
}

/// What is seen of emissions and notifications is each of them, in order and whole.
pub proof fn what_goes_out_is_seen_whole(
    out: Seq<Emission>,
    sent: Seq<Notification>,
    peers: Seq<DiscoveredPeer>,
    i: int,
)
    ensures
        emissions(out).len() == out.len(),
        0 <= i < out.len() ==> emissions(out)[i].to == out[i].to@ && emissions(out)[i].event
            == out[i].event@,
        notifications(sent).len() == sent.len(),
        0 <= i < sent.len() ==> {
            &&& notifications(sent)[i].central == sent[i].central@
            &&& notifications(sent)[i].characteristic == sent[i].characteristic
            &&& sent[i].item is Ok ==> notifications(sent)[i].item == Ok::<Seq<u8>, BleErrorView>(
                sent[i].item->Ok_0@,
            )
            &&& sent[i].item is Err ==> notifications(sent)[i].item == Err::<
                Seq<u8>,
                BleErrorView,
            >(sent[i].item->Err_0@)
        },
        peers_view(peers).len() == peers.len(),
        0 <= i < peers.len() ==> peers_view(peers)[i] == peers[i]@,
{
}

/// What is seen of an outcome is whether it was refused, and with which error.
pub proof fn a_refusal_is_seen_with_its_error(e: BleError)
    ensures
        refused(Ok(())) is None,
        refused(Err(e)) == Some(e@),
        notification_view(Err(e)) == Err::<NotificationView, BleErrorView>(e@),
{
}

} // verus!
