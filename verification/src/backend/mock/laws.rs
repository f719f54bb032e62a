//! What holds of the in-memory radio across operations.

use vstd::prelude::*;

#[allow(unused_imports)]
use crate::backend::mock::local::{
    declared, initial_values, EmissionView, NetworkView, NotificationView, PeripheralView, Property,
};
#[allow(unused_imports)]
use crate::error::BleErrorView;
#[allow(unused_imports)]
use crate::models::{
    CharacteristicUuid, DiscoveredPeerView, GattCharacteristicSpecView, GattEventView,
    GattServiceSpecView, Role, ServiceUuid,
};
#[allow(unused_imports)]
use crate::uuids::hyphenated;

verus! {

/// A handle that a newer connection superseded can do nothing: it is refused whatever it
/// asks for, so it cannot disturb the session that replaced it.
pub proof fn a_superseded_handle_is_refused(
    network: NetworkView,
    central: Seq<char>,
    peripheral: Seq<char>,
    stale: u64,
    c: CharacteristicUuid,
    property: Property,
)
    requires
        stale != network.next_session,
    ensures
        ({
            let next = network.dialled(central, peripheral);
            &&& !next.is_current(stale, central, peripheral)
            &&& next.is_current(network.next_session, central, peripheral)
            &&& next.link_refusal(stale, central, peripheral, c, property) == Some(
                BleErrorView::NotConnected(peripheral),
            )
        }),
{
}

/// Two dials in a row never share a session.
pub proof fn sessions_are_distinct(
    network: NetworkView,
    first: (Seq<char>, Seq<char>),
    second: (Seq<char>, Seq<char>),
)
    ensures
        ({
            let once = network.dialled(first.0, first.1);
            let twice = once.dialled(second.0, second.1);
            once.live[first] != twice.live[second]
        }),
{
}

/// Once a link is gone, whoever ended it, its handle is closed: every operation over it
/// is refused, a second disconnect included, and the peer is out of reach of
/// notifications.
pub proof fn a_closed_link_is_refused_everything(
    network: NetworkView,
    central: Seq<char>,
    peripheral: Seq<char>,
    session: u64,
    c: CharacteristicUuid,
    property: Property,
)
    ensures
        ({
            let next = network.unlinked(central, peripheral);
            &&& !next.is_current(session, central, peripheral)
            &&& next.link_refusal(session, central, peripheral, c, property) == Some(
                BleErrorView::NotConnected(peripheral),
            )
            &&& next.subscribe_refusal(session, central, peripheral, c) is Some
            &&& next.notify_peer_refusal(peripheral, central, Some(session), c) is Some
            &&& next.notify_peer_refusal(peripheral, central, None, c) is Some
            &&& network.peripherals.contains_key(peripheral) ==> !next.listens(
                peripheral,
                c,
                central,
            )
        }),
{
}

/// Ending one link leaves every other one alone.
pub proof fn other_links_are_left_alone(
    network: NetworkView,
    central: Seq<char>,
    peripheral: Seq<char>,
    other: Seq<char>,
    session: u64,
    c: CharacteristicUuid,
)
    requires
        other != central,
    ensures
        ({
            let next = network.unlinked(central, peripheral);
            &&& next.is_current(session, other, peripheral) == network.is_current(
                session,
                other,
                peripheral,
            )
            &&& network.peripherals.contains_key(peripheral) ==> next.listens(peripheral, c, other)
                == network.listens(peripheral, c, other)
        }),
{
}

/// What is written over a connection can be read back over it.
pub proof fn a_write_is_read_back(
    network: NetworkView,
    session: u64,
    central: Seq<char>,
    peripheral: Seq<char>,
    c: CharacteristicUuid,
    value: Seq<u8>,
)
    requires
        network.link_refusal(session, central, peripheral, c, Property::Writable) is None,
        network.refusal(peripheral, c, Property::Readable) is None,
    ensures
        network.written(peripheral, c, value).reads(session, central, peripheral, c) == Ok::<
            Seq<u8>,
            BleErrorView,
        >(value),
{
}

/// A write changes no other characteristic and no other peripheral.
pub proof fn a_write_changes_nothing_else(
    network: NetworkView,
    peripheral: Seq<char>,
    c: CharacteristicUuid,
    value: Seq<u8>,
    session: u64,
    central: Seq<char>,
    elsewhere: Seq<char>,
    other: CharacteristicUuid,
)
    requires
        network.peripherals.contains_key(peripheral),
        elsewhere != peripheral || other != c,
    ensures
        network.written(peripheral, c, value).reads(session, central, elsewhere, other)
            == network.reads(session, central, elsewhere, other),
{
}

/// A central that has just subscribed can be greeted at once: the server's notification
/// to its session goes through.
pub proof fn a_fresh_subscriber_can_be_greeted(
    network: NetworkView,
    session: u64,
    central: Seq<char>,
    peripheral: Seq<char>,
    c: CharacteristicUuid,
)
    requires
        network.subscribe_refusal(session, central, peripheral, c) is None,
    ensures
        ({
            let next = network.subscribing(peripheral, c, central);
            &&& next.notify_peer_refusal(peripheral, central, Some(session), c) is None
            &&& next.listens(peripheral, c, central)
        }),
{
}

proof fn declared_characteristics_have_a_value(
    specs: Seq<GattCharacteristicSpecView>,
    i: int,
)
    requires
        0 <= i < specs.len(),
    ensures
        initial_values(specs).contains_key(specs[i].uuid),
    decreases specs.len(),
{
    if i < specs.len() - 1 {
        assert(specs.drop_last()[i] == specs[i]);
        declared_characteristics_have_a_value(specs.drop_last(), i);
    }
}

/// A service that is advertised is found by the scans of everybody else, and each of its
/// characteristics has a value.
pub proof fn an_advertised_service_is_found(
    network: NetworkView,
    address: Seq<char>,
    service: GattServiceSpecView,
    requester: Seq<char>,
    i: int,
)
    requires
        requester != address,
        0 <= i < service.characteristics.len(),
    ensures
        ({
            let next = network.advertising(address, service);
            &&& next.found(requester, service.uuid, address)
            &&& !next.found(address, service.uuid, address)
            &&& next.peripherals[address].values.contains_key(service.characteristics[i].uuid)
        }),
{
    declared_characteristics_have_a_value(service.characteristics, i);
}

/// Nothing is left of a party that vanished: it is not on the air, holds no session, and
/// no peripheral that it was connected to counts it as a subscriber.
pub proof fn a_vanished_party_leaves_nothing(
    network: NetworkView,
    address: Seq<char>,
    peripheral: Seq<char>,
    c: CharacteristicUuid,
)
    ensures
        ({
            let next = network.swept(address);
            &&& !next.peripherals.contains_key(address)
            &&& !next.live.contains_key((address, peripheral))
            &&& network.live.contains_key((address, peripheral)) && next.peripherals.contains_key(
                peripheral,
            ) ==> !next.peripherals[peripheral].subscribed(address)
        }),
{
}

/// A server that holds a session which was superseded reaches nobody with it: a
/// notification is refused, and a drop leaves the connection that replaced it alone.
pub proof fn a_superseded_session_reaches_nobody(
    network: NetworkView,
    next: NetworkView,
    address: Seq<char>,
    peer: Seq<char>,
    session: u64,
    c: CharacteristicUuid,
    value: Seq<u8>,
    out: Seq<EmissionView>,
)
    requires
        !network.is_current(session, peer, address),
        network.did_disconnect_peer(next, address, peer, Some(session), out),
    ensures
        network.notifies_peer(address, peer, Some(session), c, value) == Err::<
            NotificationView,
            BleErrorView,
        >(BleErrorView::NotConnected(peer)),
        next == network,
        out.len() == 0,
{
}

/// A central that its server dropped is excluded at once: it holds no link, and no
/// notification reaches it. Dropping it again changes nothing.
pub proof fn a_dropped_central_is_excluded(
    network: NetworkView,
    next: NetworkView,
    again: NetworkView,
    address: Seq<char>,
    peer: Seq<char>,
    c: CharacteristicUuid,
    out: Seq<EmissionView>,
    told: Seq<EmissionView>,
)
    requires
        network.did_disconnect_peer(next, address, peer, None, out),
        next.did_disconnect_peer(again, address, peer, None, told),
    ensures
        !next.live.contains_key((peer, address)),
        next.peripherals.contains_key(address) ==> !next.listens(address, c, peer),
        again == next,
{
    assert(again.live =~= next.live);
    if next.peripherals.contains_key(address) {
        assert(next.peripherals[address].without(peer).subscribers
            =~= next.peripherals[address].subscribers);
    }
    assert(again.peripherals =~= next.peripherals);
}

/// A characteristic is looked up by its UUID: the first with it counts, and where none has it
/// there is none.
pub proof fn a_characteristic_is_declared_by_its_uuid(
    specs: Seq<GattCharacteristicSpecView>,
    uuid: CharacteristicUuid,
    i: int,
)
    ensures
        0 <= i < specs.len() && specs[i].uuid == uuid && (forall|j: int|
            0 <= j < i ==> (#[trigger] specs[j]).uuid != uuid) ==> declared(specs, uuid) == Some(
            specs[i],
        ),
        (forall|j: int| 0 <= j < specs.len() ==> (#[trigger] specs[j]).uuid != uuid) ==> declared(
            specs,
            uuid,
        ) is None,
    decreases specs.len(),
{
    if specs.len() > 0 && specs[0].uuid != uuid {
        let rest = specs.drop_first();
        a_characteristic_is_declared_by_its_uuid(rest, uuid, i - 1);
        assert forall|j: int| 0 <= j < rest.len() implies #[trigger] rest[j] == specs[j + 1] by {}
        if 0 < i < specs.len() {
            assert(rest[i - 1] == specs[i]);
        }
    } else if specs.len() > 0 {
        assert(specs[0].uuid == uuid);
    }
}

proof fn an_initial_value_is_kept(specs: Seq<GattCharacteristicSpecView>, i: int)
    requires
        0 <= i < specs.len(),
        forall|j: int| i < j < specs.len() ==> (#[trigger] specs[j]).uuid != specs[i].uuid,
    ensures
        initial_values(specs).contains_key(specs[i].uuid),
        initial_values(specs)[specs[i].uuid] == specs[i].initial_value,
    decreases specs.len(),
{
    if i < specs.len() - 1 {
        let front = specs.drop_last();
        assert forall|j: int| i < j < front.len() implies (#[trigger] front[j]).uuid
            != front[i].uuid by {
            assert(front[j] == specs[j]);
        }
        an_initial_value_is_kept(front, i);
        assert(specs.last() == specs[specs.len() - 1]);
    }
}

/// A central that dials a fresh peripheral reads each characteristic that is readable as its
/// own initial value, is refused the others, and is refused what the service does not have.
pub proof fn each_characteristic_is_read_as_its_own_initial_value(
    network: NetworkView,
    address: Seq<char>,
    service: GattServiceSpecView,
    central: Seq<char>,
    i: int,
    other: CharacteristicUuid,
)
    requires
        0 <= i < service.characteristics.len(),
        forall|j: int|
            0 <= j < service.characteristics.len() && j != i ==> (
            #[trigger] service.characteristics[j]).uuid != service.characteristics[i].uuid,
        forall|j: int|
            0 <= j < service.characteristics.len() ==> (#[trigger] service.characteristics[j]).uuid
                != other,
    ensures
        ({
            let on_air = network.advertising(address, service);
            let linked = on_air.dialled(central, address);
            let session = network.next_session;
            let spec = service.characteristics[i];
            &&& spec.readable ==> linked.reads(session, central, address, spec.uuid) == Ok::<
                Seq<u8>,
                BleErrorView,
            >(spec.initial_value)
            &&& !spec.readable ==> linked.reads(session, central, address, spec.uuid) == Err::<
                Seq<u8>,
                BleErrorView,
            >(
                BleErrorView::Gatt(
                    "characteristic "@ + hyphenated(spec.uuid.0) + " is not "@ + "readable"@,
                ),
            )
            &&& linked.reads(session, central, address, other) == Err::<Seq<u8>, BleErrorView>(
                BleErrorView::Gatt("unknown characteristic "@ + hyphenated(other.0)),
            )
            &&& linked.link_refusal(session, central, address, spec.uuid, Property::Writable) is None
                <==> spec.writable
            &&& linked.subscribe_refusal(session, central, address, spec.uuid) is None
                <==> spec.notifiable
        }),
{
    let specs = service.characteristics;
    a_characteristic_is_declared_by_its_uuid(specs, specs[i].uuid, i);
    a_characteristic_is_declared_by_its_uuid(specs, other, i);
    an_initial_value_is_kept(specs, i);
}

/// An operation needs its own property of a characteristic, and a refusal names it.
pub proof fn an_operation_needs_its_own_property(spec: GattCharacteristicSpecView)
    ensures
        Property::Readable.holds(spec) <==> spec.readable,
        Property::Writable.holds(spec) <==> spec.writable,
        Property::Notifiable.holds(spec) <==> spec.notifiable,
        Property::Readable.spec_name() == "readable"@,
        Property::Writable.spec_name() == "writable"@,
        Property::Notifiable.spec_name() == "notifiable"@,
{
}

/// A dial to a peripheral on the air opens a session that is the link's from then on; the
/// central hears of it, and no other link is touched. A dial to anybody else fails and
/// changes nothing.
pub proof fn a_dial_opens_a_session(
    network: NetworkView,
    next: NetworkView,
    central: Seq<char>,
    peer: Seq<char>,
    r: Result<u64, BleErrorView>,
    out: Seq<EmissionView>,
    link: (Seq<char>, Seq<char>),
)
    requires
        network.did_connect(next, central, peer, r, out),
        link != (central, peer),
    ensures
        r is Ok <==> network.peripherals.contains_key(peer),
        r is Ok ==> {
            &&& next.is_current(r->Ok_0, central, peer)
            &&& network.registered.contains(central) ==> out == seq![
                EmissionView {
                    to: central,
                    event: GattEventView::Connected {
                        peer,
                        local_role: Role::Central,
                        session: None,
                    },
                },
            ]
            &&& next.next_session != network.next_session
        },
        r is Err ==> {
            &&& next == network && out.len() == 0
            &&& r->Err_0 == BleErrorView::ConnectFailed {
                peer,
                reason: "peer is not advertising"@,
            }
        },
        next.live.get(link) == network.live.get(link),
        next.peripherals == network.peripherals,
        !network.registered.contains(central) ==> out.len() == 0,
{
}

/// A write over a link that may write stores the value, and the peripheral hears of the
/// central, under its session, and then of the write. One that is refused changes nothing and
/// nobody hears of it.
pub proof fn a_write_is_stored_and_heard_of(
    network: NetworkView,
    next: NetworkView,
    session: u64,
    central: Seq<char>,
    peripheral: Seq<char>,
    c: CharacteristicUuid,
    value: Seq<u8>,
    r: Option<BleErrorView>,
    out: Seq<EmissionView>,
)
    requires
        network.did_write(next, session, central, peripheral, c, value, r, out),
    ensures
        r is None <==> network.is_current(session, central, peripheral) && network.refusal(
            peripheral,
            c,
            Property::Writable,
        ) is None,
        r is None ==> {
            &&& next.peripherals[peripheral].values.get(c) == Some(value)
            &&& next.peripherals[peripheral].subscribers
                == network.peripherals[peripheral].subscribers
            &&& next.peripherals[peripheral].service == network.peripherals[peripheral].service
            &&& network.registered.contains(peripheral) ==> out == seq![
                EmissionView {
                    to: peripheral,
                    event: GattEventView::Connected {
                        peer: central,
                        local_role: Role::Peripheral,
                        session: Some(session),
                    },
                },
                EmissionView {
                    to: peripheral,
                    event: GattEventView::CharacteristicWritten {
                        peer: central,
                        characteristic: c,
                        value,
                    },
                },
            ]
        },
        r is Some ==> next == network && out.len() == 0,
        next.live == network.live,
{
    assert(r is None && network.registered.contains(peripheral) ==> out.len() == 2);
}

/// A subscription makes the central listen to that characteristic and leaves every other
/// subscription, of its own and of others, as it was; the peripheral hears of the central.
pub proof fn a_subscription_adds_one_listener(
    network: NetworkView,
    next: NetworkView,
    session: u64,
    central: Seq<char>,
    peripheral: Seq<char>,
    c: CharacteristicUuid,
    r: Option<BleErrorView>,
    out: Seq<EmissionView>,
    somebody: Seq<char>,
    other: CharacteristicUuid,
    elsewhere: Seq<char>,
)
    requires
        network.did_subscribe(next, session, central, peripheral, c, r, out),
        somebody != central || other != c,
        elsewhere != peripheral,
    ensures
        r is None ==> {
            &&& next.listens(peripheral, c, central)
            &&& next.listens(peripheral, other, somebody) == network.listens(
                peripheral,
                other,
                somebody,
            )
            &&& next.peripherals[peripheral].values == network.peripherals[peripheral].values
            &&& network.registered.contains(peripheral) ==> out == seq![
                EmissionView {
                    to: peripheral,
                    event: GattEventView::Connected {
                        peer: central,
                        local_role: Role::Peripheral,
                        session: Some(session),
                    },
                },
            ]
        },
        r is Some ==> next == network && out.len() == 0,
        next.peripherals.get(elsewhere) == network.peripherals.get(elsewhere),
        next.live == network.live,
{
}

/// To take a central's subscriptions away takes nobody else's, and all of its own.
pub proof fn a_central_is_unsubscribed_alone(
    peripheral: PeripheralView,
    central: Seq<char>,
    c: CharacteristicUuid,
    somebody: Seq<char>,
)
    requires
        somebody != central,
    ensures
        !peripheral.without(central).subscribers.contains_key((c, central)),
        !peripheral.without(central).subscribed(central),
        peripheral.without(central).subscribers.get((c, somebody)) == peripheral.subscribers.get(
            (c, somebody),
        ),
        peripheral.without(central).values == peripheral.values,
        peripheral.without(central).service == peripheral.service,
        peripheral.subscribers.contains_key((c, central)) ==> peripheral.subscribed(central),
{
}

/// A notification to all reaches every central that listens, once and with its value, and
/// nobody else; it fails exactly if nobody does.
pub proof fn a_notification_reaches_every_listener(
    network: NetworkView,
    address: Seq<char>,
    c: CharacteristicUuid,
    value: Seq<u8>,
    r: Option<BleErrorView>,
    sent: Seq<NotificationView>,
    central: Seq<char>,
)
    requires
        network.did_notify(address, c, value, r, sent),
        network.peripherals.contains_key(address),
        network.peripherals[address].values.contains_key(c),
    ensures
        network.listens(address, c, central) <==> sent.contains(
            NotificationView { central, characteristic: c, item: Ok(value) },
        ),
        network.listens(address, c, central) ==> r is None,
        sent.no_duplicates(),
        sent.len() == 0 ==> r is Some,
{
    let note = NotificationView {
        central,
        characteristic: c,
        item: Ok::<Seq<u8>, BleErrorView>(value),
    };
    if network.listens(address, c, central) {
        let i = choose|i: int| 0 <= i < sent.len() && (#[trigger] sent[i]).central == central;
        assert(sent[i] == note);
    }
    if sent.contains(note) {
        let i = choose|i: int| 0 <= i < sent.len() && sent[i] == note;
        assert(sent[i].central == central);
    }
}

/// A notification to one peer goes to that peer, with its value, exactly if it listens and
/// its session is the link's.
pub proof fn a_notification_reaches_its_peer(
    network: NetworkView,
    address: Seq<char>,
    peer: Seq<char>,
    session: Option<u64>,
    c: CharacteristicUuid,
    value: Seq<u8>,
)
    ensures
        ({
            let r = network.notifies_peer(address, peer, session, c, value);
            &&& r is Ok <==> {
                &&& session is Some ==> network.is_current(session->0, peer, address)
                &&& network.peripherals.contains_key(address)
                &&& network.peripherals[address].values.contains_key(c)
                &&& network.listens(address, c, peer)
            }
            &&& r is Ok ==> r->Ok_0 == NotificationView {
                central: peer,
                characteristic: c,
                item: Ok(value),
            }
        }),
        !network.peripherals.contains_key(address) ==> network.notifies_peer(
            address,
            peer,
            None,
            c,
            value,
        ) == Err::<NotificationView, BleErrorView>(BleErrorView::Gatt("not advertising"@)),
        network.peripherals.contains_key(address) && network.peripherals[address].values.contains_key(
            c,
        ) && !network.listens(address, c, peer) ==> network.notifies_peer(
            address,
            peer,
            None,
            c,
            value,
        ) == Err::<NotificationView, BleErrorView>(
            BleErrorView::Gatt(peer + " has no live notify session"@),
        ),
{
}

/// A scan reports a peripheral as it advertises itself: at its address, with its service, and
/// with the payload and the signal strength that it has.
pub proof fn a_peripheral_is_reported_as_it_advertises(
    network: NetworkView,
    next: NetworkView,
    requester: Seq<char>,
    service: ServiceUuid,
    peers: Seq<DiscoveredPeerView>,
    failure: Option<Seq<char>>,
    address: Seq<char>,
    i: int,
)
    requires
        network.did_scan(next, requester, service, peers, failure),
        0 <= i < peers.len(),
    ensures
        ({
            let peer = peers[i];
            let shown = network.peripherals[peer.address];
            &&& network.peripherals.contains_key(peer.address) && peer.address != requester
            &&& peer.services == seq![service]
            &&& peer.name is None
            &&& peer.manufacturer_data == shown.manufacturer_data
            &&& peer.service_data == shown.service_data
            &&& peer.rssi == shown.rssi
        }),
        failure == network.armed_scan_failure && next.armed_scan_failure is None,
        next.peripherals == network.peripherals && next.live == network.live,
        network.peripherals.contains_key(address) && address != requester
            && network.peripherals[address].service.uuid == service ==> exists|k: int|
            0 <= k < peers.len() && (#[trigger] peers[k]).address == address,
{
    assert(network.found(requester, service, peers[i].address));
    if network.peripherals.contains_key(address) && address != requester
        && network.peripherals[address].service.uuid == service {
        assert(network.found(requester, service, address));
    }
}

/// A service goes on the air with its own payload and no subscriber, in place of what was
/// there; a signal strength that was set before stays. No other peripheral and no link is
/// touched, neither by that nor by going off the air.
pub proof fn a_service_goes_on_and_off_the_air_alone(
    network: NetworkView,
    address: Seq<char>,
    service: GattServiceSpecView,
    other: Seq<char>,
    c: CharacteristicUuid,
    central: Seq<char>,
)
    requires
        other != address,
    ensures
        ({
            let next = network.advertising(address, service);
            let state = next.peripherals[address];
            &&& next.peripherals.contains_key(address)
            &&& state.service == service
            &&& !state.subscribers.contains_key((c, central))
            &&& state.manufacturer_data == service.manufacturer_data
            &&& state.service_data == service.service_data
            &&& network.peripherals.contains_key(address) ==> state.rssi
                == network.peripherals[address].rssi
            &&& !network.peripherals.contains_key(address) ==> state.rssi is None
            &&& next.peripherals.get(other) == network.peripherals.get(other)
            &&& next.live == network.live
            &&& next.registered == network.registered
        }),
        !network.silent(address).peripherals.contains_key(address),
        network.silent(address).peripherals.get(other) == network.peripherals.get(other),
        network.silent(address).live == network.live,
{
}

/// A disconnect of a link that stands ends it, is logged, and both ends hear of it; one of a
/// link that does not is refused and changes nothing.
pub proof fn a_disconnect_ends_its_link(
    network: NetworkView,
    next: NetworkView,
    session: u64,
    central: Seq<char>,
    peripheral: Seq<char>,
    r: Option<BleErrorView>,
    out: Seq<EmissionView>,
)
    requires
        network.did_disconnect(next, session, central, peripheral, r, out),
        central != peripheral,
    ensures
        r is None <==> network.is_current(session, central, peripheral),
        r is None ==> {
            &&& !next.live.contains_key((central, peripheral))
            &&& next.disconnect_log == network.disconnect_log.push(peripheral)
            &&& network.registered.contains(central) ==> out.contains(
                EmissionView {
                    to: central,
                    event: GattEventView::Disconnected {
                        peer: peripheral,
                        local_role: Role::Central,
                        session: None,
                    },
                },
            )
            &&& network.registered.contains(peripheral) ==> out.contains(
                EmissionView {
                    to: peripheral,
                    event: GattEventView::Disconnected {
                        peer: central,
                        local_role: Role::Peripheral,
                        session: None,
                    },
                },
            )
        },
        r is Some ==> next == network && out.len() == 0 && r->0 == BleErrorView::NotConnected(
            peripheral,
        ),
{
    both_ends_hear_of_a_parting(network, seq![], central, peripheral);
}

/// Both ends of a link that is gone hear of it as far as they observe events, each of the
/// other and in its own role, and what was heard before stays.
pub proof fn both_ends_hear_of_a_parting(
    network: NetworkView,
    out: Seq<EmissionView>,
    central: Seq<char>,
    peripheral: Seq<char>,
)
    ensures
        ({
            let told = network.parting(out, central, peripheral);
            &&& told.len() >= out.len() && told.take(out.len() as int) == out
            &&& network.registered.contains(central) ==> told.contains(
                EmissionView {
                    to: central,
                    event: GattEventView::Disconnected {
                        peer: peripheral,
                        local_role: Role::Central,
                        session: None,
                    },
                },
            )
            &&& network.registered.contains(peripheral) ==> told.contains(
                EmissionView {
                    to: peripheral,
                    event: GattEventView::Disconnected {
                        peer: central,
                        local_role: Role::Peripheral,
                        session: None,
                    },
                },
            )
            &&& !network.registered.contains(central) && !network.registered.contains(peripheral)
                ==> told == out
        }),
{
    let told = network.parting(out, central, peripheral);
    assert(told.take(out.len() as int) =~= out);
    if network.registered.contains(peripheral) {
        assert(told[out.len() as int].to == peripheral);
    }
    if network.registered.contains(central) {
        assert(told[told.len() - 1].to == central);
    }
}

/// Every central that parts from a peripheral, as it goes off the air, hears of it as far as
/// it observes events; so does every peripheral that a vanished central parts from.
pub proof fn everybody_hears_of_a_departure(
    network: NetworkView,
    out: Seq<EmissionView>,
    address: Seq<char>,
    order: Seq<Seq<char>>,
    i: int,
)
    requires
        0 <= i < order.len(),
        network.registered.contains(order[i]),
    ensures
        network.parting_from(out, address, order).contains(
            EmissionView {
                to: order[i],
                event: GattEventView::Disconnected {
                    peer: address,
                    local_role: Role::Central,
                    session: None,
                },
            },
        ),
        network.parting_with(out, address, order).contains(
            EmissionView {
                to: order[i],
                event: GattEventView::Disconnected {
                    peer: address,
                    local_role: Role::Peripheral,
                    session: None,
                },
            },
        ),
    decreases order.len(),
{
    let front = order.drop_last();
    let (from, with) = (
        network.parting_from(out, address, front),
        network.parting_with(out, address, front),
    );
    both_ends_hear_of_a_parting(network, from, order.last(), address);
    both_ends_hear_of_a_parting(network, with, address, order.last());
    if i < front.len() {
        assert(front[i] == order[i]);
        everybody_hears_of_a_departure(network, out, address, front, i);
        let (a, b) = (
            network.parting_from(out, address, order),
            network.parting_with(out, address, order),
        );
        let left = EmissionView {
            to: order[i],
            event: GattEventView::Disconnected {
                peer: address,
                local_role: Role::Central,
                session: None,
            },
        };
        let gone = EmissionView {
            to: order[i],
            event: GattEventView::Disconnected {
                peer: address,
                local_role: Role::Peripheral,
                session: None,
            },
        };
        let j = choose|j: int| 0 <= j < from.len() && from[j] == left;
        let k = choose|k: int| 0 <= k < with.len() && with[k] == gone;
        assert(a.take(from.len() as int)[j] == left);
        assert(a[j] == left);
        assert(b.take(with.len() as int)[k] == gone);
        assert(b[k] == gone);
    } else {
        assert(order[i] == order.last());
    }
}

/// An event is heard by the one it is for, behind what was heard before, exactly if that one
/// observes events.
pub proof fn an_event_is_heard_by_whoever_observes(
    network: NetworkView,
    out: Seq<EmissionView>,
    to: Seq<char>,
    event: GattEventView,
)
    ensures
        network.registered.contains(to) ==> network.heard(out, to, event) == out.push(
            EmissionView { to, event },
        ),
        !network.registered.contains(to) ==> network.heard(out, to, event) == out,
{
}

/// What a vanished party leaves is what was never its own: the links of others, what they
/// have on the air, and their subscriptions.
pub proof fn a_vanished_party_takes_nothing_of_others(
    network: NetworkView,
    address: Seq<char>,
    central: Seq<char>,
    peripheral: Seq<char>,
    c: CharacteristicUuid,
)
    requires
        central != address,
        peripheral != address,
    ensures
        ({
            let next = network.swept(address);
            &&& next.live.get((central, peripheral)) == network.live.get((central, peripheral))
            &&& next.peripherals.contains_key(peripheral) <==> network.peripherals.contains_key(
                peripheral,
            )
            &&& network.peripherals.contains_key(peripheral) ==> {
                &&& next.peripherals[peripheral].values == network.peripherals[peripheral].values
                &&& next.peripherals[peripheral].service == network.peripherals[peripheral].service
                &&& next.listens(peripheral, c, central) == network.listens(peripheral, c, central)
            }
        }),
{
}

/// A link that is ended takes only its own session and subscriptions.
pub proof fn an_ended_link_takes_only_its_own(
    network: NetworkView,
    central: Seq<char>,
    peripheral: Seq<char>,
    link: (Seq<char>, Seq<char>),
    elsewhere: Seq<char>,
)
    requires
        link != (central, peripheral),
        elsewhere != peripheral,
    ensures
        ({
            let next = network.unlinked(central, peripheral);
            &&& next.live.get(link) == network.live.get(link)
            &&& next.peripherals.get(elsewhere) == network.peripherals.get(elsewhere)
            &&& next.peripherals.contains_key(peripheral) == network.peripherals.contains_key(
                peripheral,
            )
            &&& network.peripherals.contains_key(peripheral) ==> next.peripherals[peripheral].values
                == network.peripherals[peripheral].values
            &&& next.disconnect_log == network.disconnect_log
            &&& next.next_session == network.next_session
        }),
{
}

/// A server that drops a central of its own tells both, and the link is gone.
pub proof fn a_dropped_central_hears_of_it(
    network: NetworkView,
    next: NetworkView,
    address: Seq<char>,
    peer: Seq<char>,
    session: Option<u64>,
    out: Seq<EmissionView>,
)
    requires
        network.did_disconnect_peer(next, address, peer, session, out),
        session is Some ==> network.is_current(session->0, peer, address),
        network.registered.contains(peer) && network.registered.contains(address),
    ensures
        !next.live.contains_key((peer, address)),
        out == seq![
            EmissionView {
                to: peer,
                event: GattEventView::Disconnected {
                    peer: address,
                    local_role: Role::Central,
                    session: None,
                },
            },
            EmissionView {
                to: address,
                event: GattEventView::Disconnected {
                    peer,
                    local_role: Role::Peripheral,
                    session: None,
                },
            },
        ],
{
}

/// A peripheral that goes off the air is gone, and every central that subscribed to anything
/// there, and observes events, hears of it; nobody else is touched.
pub proof fn subscribers_hear_that_a_peripheral_is_gone(
    network: NetworkView,
    next: NetworkView,
    address: Seq<char>,
    out: Seq<EmissionView>,
    central: Seq<char>,
    c: CharacteristicUuid,
    other: Seq<char>,
)
    requires
        network.did_stop(next, address, out),
        network.peripherals.contains_key(address),
        network.peripherals[address].subscribers.contains_key((c, central)),
        network.registered.contains(central),
        other != address,
    ensures
        !next.peripherals.contains_key(address),
        next.peripherals.get(other) == network.peripherals.get(other),
        next.live == network.live,
        out.contains(
            EmissionView {
                to: central,
                event: GattEventView::Disconnected {
                    peer: address,
                    local_role: Role::Central,
                    session: None,
                },
            },
        ),
{
    let order = choose|order: Seq<Seq<char>>| #[trigger]
        network.lists_subscribers(address, order) && out == network.parting_from(
            seq![],
            address,
            order,
        );
    assert(network.peripherals[address].subscribed(central));
    assert(order.contains(central));
    let i = choose|i: int| 0 <= i < order.len() && order[i] == central;
    everybody_hears_of_a_departure(network, seq![], address, order, i);
}

/// A party that vanished is gone in both roles, and every peripheral that it was connected
/// to, and that observes events, hears of it.
pub proof fn peripherals_hear_that_a_party_vanished(
    network: NetworkView,
    next: NetworkView,
    address: Seq<char>,
    out: Seq<EmissionView>,
    peripheral: Seq<char>,
)
    requires
        network.did_sweep(next, address, out),
        network.live.contains_key((address, peripheral)),
        network.registered.contains(peripheral),
    ensures
        !next.peripherals.contains_key(address),
        !next.live.contains_key((address, peripheral)),
        out.contains(
            EmissionView {
                to: peripheral,
                event: GattEventView::Disconnected {
                    peer: address,
                    local_role: Role::Peripheral,
                    session: None,
                },
            },
        ),
{
    let (served, held) = choose|served: Seq<Seq<char>>, held: Seq<Seq<char>>|
        #![trigger network.lists_subscribers(address, served), network.lists_sessions(address, held)]
        {
            &&& network.lists_subscribers(address, served)
            &&& network.lists_sessions(address, held)
            &&& out == network.parting_with(
                network.parting_from(seq![], address, served),
                address,
                held,
            )
        };
    assert(held.contains(peripheral));
    let i = choose|i: int| 0 <= i < held.len() && held[i] == peripheral;
    everybody_hears_of_a_departure(
        network,
        network.parting_from(seq![], address, served),
        address,
        held,
        i,
    );
}

/// Those who are listed as subscribers of a peripheral are the centrals that subscribe to one
/// of its characteristics, and those listed as a central's are the peripherals it has a
/// session with; each is listed once.
pub proof fn a_list_names_each_one_once(
    network: NetworkView,
    address: Seq<char>,
    order: Seq<Seq<char>>,
    held: Seq<Seq<char>>,
    central: Seq<char>,
    c: CharacteristicUuid,
)
    requires
        network.lists_subscribers(address, order),
        network.lists_sessions(address, held),
    ensures
        network.peripherals.contains_key(address)
            && network.peripherals[address].subscribers.contains_key((c, central))
            ==> order.contains(central),
        order.contains(central) ==> network.peripherals.contains_key(address) && exists|
            d: CharacteristicUuid,
        | #[trigger] network.peripherals[address].subscribers.contains_key((d, central)),
        held.contains(central) <==> network.live.contains_key((address, central)),
        order.no_duplicates() && held.no_duplicates(),
{
    if network.peripherals.contains_key(address)
        && network.peripherals[address].subscribers.contains_key((c, central)) {
        assert(network.peripherals[address].subscribed(central));
    }
}

/// A central listens exactly if it subscribes to the characteristic and still reads.
pub proof fn a_listener_subscribes_and_reads(
    network: NetworkView,
    address: Seq<char>,
    c: CharacteristicUuid,
    central: Seq<char>,
)
    ensures
        network.listens(address, c, central)
            <==> network.peripherals[address].subscribers.get((c, central)) == Some(true),
{
}

/// A characteristic that is declared and readable but has no value is refused as unknown, to
/// a read and to a notification alike.
pub proof fn a_characteristic_without_a_value_is_unknown(
    network: NetworkView,
    session: u64,
    central: Seq<char>,
    peripheral: Seq<char>,
    c: CharacteristicUuid,
)
    requires
        network.link_refusal(session, central, peripheral, c, Property::Readable) is None,
        !network.peripherals[peripheral].values.contains_key(c),
    ensures
        network.reads(session, central, peripheral, c) == Err::<Seq<u8>, BleErrorView>(
            BleErrorView::Gatt("unknown characteristic"@),
        ),
        network.notify_refusal(peripheral, c) == Some(
            BleErrorView::Gatt("unknown characteristic"@),
        ),
{
}

} // verus!
