//! The in-memory radio, as a consumer of a backend sees it: scan, connect, read, write,
//! notify, and the faults.

use std::collections::BTreeMap;

use ble_gatt::backend::mock::local::{Emission, MockNetwork};
use ble_gatt::backend::mock::{MockBackend, MOCK_ATT_MTU};
use ble_gatt::backend::{max_write_len, ATT_HEADER_LEN, DEFAULT_ATT_MTU};
use ble_gatt::{
    BleError, CapabilityReport, CharacteristicUuid, GattCharacteristicSpec, GattEvent,
    GattServiceSpec, PeerAddress, Role, ServiceUuid, WriteType,
};

fn full_capabilities() -> CapabilityReport {
    CapabilityReport { central: true, peripheral: true }
}

fn service() -> ServiceUuid {
    ServiceUuid(uuid::Uuid::new_v4().as_u128())
}

fn characteristic() -> CharacteristicUuid {
    CharacteristicUuid(uuid::Uuid::new_v4().as_u128())
}

fn address(text: &str) -> PeerAddress {
    PeerAddress(text.to_string())
}

fn party(network: &mut MockNetwork, text: &str) -> MockBackend {
    MockBackend::new(address(text), network, full_capabilities())
}

fn spec(
    uuid: CharacteristicUuid,
    readable: bool,
    writable: bool,
    notifiable: bool,
    initial_value: &[u8],
) -> GattCharacteristicSpec {
    GattCharacteristicSpec { uuid, readable, writable, notifiable, initial_value: initial_value.to_vec() }
}

fn events_of(out: &[Emission], to: &PeerAddress) -> Vec<GattEvent> {
    out.iter().filter(|e| &e.to == to).map(|e| e.event.clone()).collect()
}

#[test]
fn mock_protocol_central_discovers_and_reads_the_peripherals_advertised_service() {
    let mut network = MockNetwork::new();
    let (service_uuid, characteristic_uuid) = (service(), characteristic());
    let peripheral = party(&mut network, "peripheral-1");
    peripheral
        .advertise(
            &mut network,
            GattServiceSpec::new(
                service_uuid,
                vec![spec(characteristic_uuid, true, true, true, b"hello")],
            ),
        )
        .expect("advertise should succeed");
    let central = party(&mut network, "central-1");
    let mut found = central.scan(&mut network, service_uuid).into_iter();
    let peer = found.next().expect("peripheral should be discovered").expect("no error");
    assert_eq!(peer.address, address("peripheral-1"));
    let (session, _) = network.connect(&central.address, &peer.address);
    let session = session.expect("connect should succeed");
    let value = network.read(session, &central.address, &peer.address, characteristic_uuid);
    assert_eq!(value.expect("read should succeed"), b"hello");
}

#[test]
fn mock_protocol_write_from_central_is_readable_back_and_fires_a_lifecycle_event() {
    let mut network = MockNetwork::new();
    let (service_uuid, characteristic_uuid) = (service(), characteristic());
    let peripheral = party(&mut network, "peripheral-2");
    peripheral
        .advertise(
            &mut network,
            GattServiceSpec::new(service_uuid, vec![spec(characteristic_uuid, true, true, false, b"")]),
        )
        .expect("advertise should succeed");
    let central = party(&mut network, "central-2");
    let (session, mut out) = network.connect(&central.address, &peripheral.address);
    let session = session.expect("connect should succeed");
    let (written, more) = network.write_with_type(
        session,
        &central.address,
        &peripheral.address,
        characteristic_uuid,
        b"updated".to_vec(),
        WriteType::WithResponse,
    );
    written.expect("write should succeed");
    out.extend(more);
    let event = events_of(&out, &peripheral.address)
        .into_iter()
        .find(|event| !matches!(event, GattEvent::Connected { .. }))
        .expect("write event should arrive");
    match event {
        GattEvent::CharacteristicWritten { characteristic, value, .. } => {
            assert_eq!(characteristic, characteristic_uuid);
            assert_eq!(value, b"updated");
        }
        other => panic!("expected CharacteristicWritten, got {other:?}"),
    }
    let back = network.read(session, &central.address, &peripheral.address, characteristic_uuid);
    assert_eq!(back.expect("read should succeed"), b"updated");
}

#[test]
fn mock_protocol_server_initiated_notify_is_delivered_to_a_subscribed_central() {
    let mut network = MockNetwork::new();
    let (service_uuid, characteristic_uuid) = (service(), characteristic());
    let peripheral = party(&mut network, "peripheral-3");
    peripheral
        .advertise(
            &mut network,
            GattServiceSpec::new(service_uuid, vec![spec(characteristic_uuid, false, false, true, b"")]),
        )
        .expect("advertise should succeed");
    let central = party(&mut network, "central-3");
    let (session, _) = network.connect(&central.address, &peripheral.address);
    let session = session.expect("connect should succeed");
    let (subscribed, out) =
        network.subscribe(session, &central.address, &peripheral.address, characteristic_uuid);
    subscribed.expect("subscribe should succeed");
    assert!(events_of(&out, &peripheral.address).iter().any(|event| matches!(
        event,
        GattEvent::Connected { local_role: Role::Peripheral, session: Some(s), .. } if *s == session
    )));
    let (sent, notifications) =
        network.notify(&peripheral.address, characteristic_uuid, b"push".to_vec());
    sent.expect("notify should succeed");
    assert_eq!(notifications.len(), 1);
    assert_eq!(notifications[0].central, central.address);
    assert_eq!(notifications[0].item.as_ref().expect("no gap"), b"push");
}

#[test]
fn connect_to_a_peer_that_is_not_advertising_fails() {
    let mut network = MockNetwork::new();
    let central = party(&mut network, "central-4");
    let (result, out) = network.connect(&central.address, &address("nobody-home"));
    assert!(result.is_err());
    assert!(out.is_empty());
}

#[test]
fn advertise_on_a_peripheral_incapable_backend_is_rejected_honestly() {
    let mut network = MockNetwork::new();
    let central_only = CapabilityReport { central: true, peripheral: false };
    let backend = MockBackend::new(address("central-only"), &mut network, central_only);
    let result = backend.advertise(&mut network, GattServiceSpec::new(service(), vec![]));
    assert!(matches!(result, Err(BleError::PeripheralUnsupported)));
}

#[test]
fn advertisement_payload_identifies_a_specific_peer_before_connecting() {
    let mut network = MockNetwork::new();
    let service_uuid = service();
    let peripheral = party(&mut network, "peripheral-adv");
    peripheral
        .advertise(&mut network, GattServiceSpec::new(service_uuid, vec![]))
        .expect("advertise should succeed");
    let device_eui = vec![0xDE, 0xAD, 0xBE, 0xEF, 0x01, 0x02, 0x03, 0x04];
    let mut manufacturer_data = BTreeMap::new();
    manufacturer_data.insert(0x1234u16, device_eui.clone());
    let mut service_data = BTreeMap::new();
    service_data.insert(service_uuid.0, b"peer-id-payload".to_vec());
    network.set_advertisement_data(&peripheral.address, manufacturer_data, service_data, Some(-55));
    let central = party(&mut network, "central-adv");
    let mut found = central.scan(&mut network, service_uuid).into_iter();
    let peer = found.next().expect("peripheral should be discovered").expect("no error");
    assert_eq!(peer.manufacturer_data.get(&0x1234), Some(&device_eui));
    assert_eq!(
        peer.service_data.get(&service_uuid.0).map(|v| v.as_slice()),
        Some(b"peer-id-payload".as_slice())
    );
    assert_eq!(peer.rssi, Some(-55));
}

#[test]
fn connection_reports_an_mtu_that_bounds_a_single_write() {
    let mut network = MockNetwork::new();
    let peripheral = party(&mut network, "peripheral-mtu");
    peripheral
        .advertise(&mut network, GattServiceSpec::new(service(), vec![]))
        .expect("advertise should succeed");
    let central = party(&mut network, "central-mtu");
    let (session, _) = network.connect(&central.address, &peripheral.address);
    session.expect("connect should succeed");
    assert!(MOCK_ATT_MTU >= DEFAULT_ATT_MTU);
    assert_eq!(max_write_len(MOCK_ATT_MTU), MOCK_ATT_MTU as usize - ATT_HEADER_LEN);
}

#[test]
fn write_without_response_is_accepted_and_still_delivers() {
    let mut network = MockNetwork::new();
    let (service_uuid, characteristic_uuid) = (service(), characteristic());
    let peripheral = party(&mut network, "peripheral-wnr");
    peripheral
        .advertise(
            &mut network,
            GattServiceSpec::new(service_uuid, vec![spec(characteristic_uuid, true, true, false, b"")]),
        )
        .expect("advertise should succeed");
    let central = party(&mut network, "central-wnr");
    let (session, _) = network.connect(&central.address, &peripheral.address);
    let session = session.expect("connect should succeed");
    let (written, _) = network.write_with_type(
        session,
        &central.address,
        &peripheral.address,
        characteristic_uuid,
        b"bulk-chunk".to_vec(),
        WriteType::WithoutResponse,
    );
    written.expect("unacknowledged write should succeed");
    let back = network.read(session, &central.address, &peripheral.address, characteristic_uuid);
    assert_eq!(back.expect("read should succeed"), b"bulk-chunk");
}

#[test]
fn central_learns_about_unsolicited_peer_loss_through_the_event_stream() {
    let mut network = MockNetwork::new();
    let peripheral = party(&mut network, "peripheral-drop");
    peripheral
        .advertise(&mut network, GattServiceSpec::new(service(), vec![]))
        .expect("advertise should succeed");
    let central = party(&mut network, "central-drop");
    let (session, out) = network.connect(&central.address, &peripheral.address);
    session.expect("connect should succeed");
    assert!(matches!(events_of(&out, &central.address)[0], GattEvent::Connected { .. }));
    let out = peripheral.simulate_peer_loss(&mut network, &central.address);
    match &events_of(&out, &central.address)[0] {
        GattEvent::Disconnected { peer, .. } => assert_eq!(peer, &peripheral.address),
        other => panic!("expected Disconnected, got {other:?}"),
    }
}

#[test]
fn an_asynchronous_scan_failure_is_reported_instead_of_looking_like_no_peers() {
    let mut network = MockNetwork::new();
    network.arm_scan_failure("scan failed (ScanCallback error code 2)".to_string());
    let central = party(&mut network, "central-scanfail");
    let mut items = central.scan(&mut network, service()).into_iter();
    assert!(items.next().expect("the failure must surface as an item").is_err());
    assert!(items.next().is_none(), "an error item ends the scan");
    assert!(central.scan(&mut network, service()).is_empty(), "the failure is reported once");
}

#[test]
fn a_central_refused_by_a_single_peer_server_stops_receiving_notifications() {
    let mut network = MockNetwork::new();
    let (service_uuid, characteristic_uuid) = (service(), characteristic());
    let peripheral = party(&mut network, "peripheral-exclusive");
    peripheral
        .advertise(
            &mut network,
            GattServiceSpec::new(service_uuid, vec![spec(characteristic_uuid, false, true, true, b"")]),
        )
        .expect("advertise should succeed");
    let mut join = |name: &str| {
        let backend = party(&mut network, name);
        let (session, _) = network.connect(&backend.address, &peripheral.address);
        let session = session.expect("connect should succeed");
        let (subscribed, _) =
            network.subscribe(session, &backend.address, &peripheral.address, characteristic_uuid);
        subscribed.expect("subscribe should succeed");
        backend
    };
    let first = join("central-first");
    let refused = join("central-refused");

    let (sent, got) =
        network.notify(&peripheral.address, characteristic_uuid, b"for-the-served-peer".to_vec());
    sent.expect("notify should succeed");
    for central in [&first, &refused] {
        assert!(got.iter().any(|n| n.central == central.address
            && n.item.as_deref().ok() == Some(b"for-the-served-peer".as_slice())));
    }

    network.disconnect_peer(&peripheral.address, &refused.address, None);
    let (sent, got) =
        network.notify(&peripheral.address, characteristic_uuid, b"private-payload".to_vec());
    sent.expect("notify should succeed");
    assert_eq!(got.len(), 1);
    assert_eq!(got[0].central, first.address);
    assert_eq!(got[0].item.as_deref().ok(), Some(b"private-payload".as_slice()));
}

#[test]
fn an_addressed_notify_reaches_only_its_peer() {
    let mut network = MockNetwork::new();
    let (service_uuid, characteristic_uuid) = (service(), characteristic());
    let peripheral = party(&mut network, "peripheral-addressed");
    peripheral
        .advertise(
            &mut network,
            GattServiceSpec::new(service_uuid, vec![spec(characteristic_uuid, false, false, true, b"")]),
        )
        .expect("advertise should succeed");
    for name in ["central-served", "central-other"] {
        let central = party(&mut network, name);
        let (session, _) = network.connect(&central.address, &peripheral.address);
        let session = session.expect("connect");
        let (subscribed, _) =
            network.subscribe(session, &central.address, &peripheral.address, characteristic_uuid);
        subscribed.expect("subscribe");
    }
    let sent = network
        .notify_peer(
            &peripheral.address,
            &address("central-served"),
            None,
            characteristic_uuid,
            b"for-the-served-peer".to_vec(),
        )
        .expect("addressed notify should succeed");
    assert_eq!(sent.central, address("central-served"));
    assert_eq!(sent.item.as_deref().ok(), Some(b"for-the-served-peer".as_slice()));
    assert!(network
        .notify_peer(&peripheral.address, &address("nobody"), None, characteristic_uuid, b"x".to_vec())
        .is_err());
}

#[test]
fn a_stale_connection_handle_cannot_disturb_the_session_that_replaced_it() {
    let mut network = MockNetwork::new();
    let (service_uuid, characteristic_uuid) = (service(), characteristic());
    let peripheral = party(&mut network, "peripheral-stale-handle");
    peripheral
        .advertise(
            &mut network,
            GattServiceSpec::new(service_uuid, vec![spec(characteristic_uuid, true, true, true, b"v")]),
        )
        .expect("advertise should succeed");
    let central = party(&mut network, "central-stale-handle");
    let (stale, _) = network.connect(&central.address, &peripheral.address);
    let stale = stale.expect("connect");
    let (current, _) = network.connect(&central.address, &peripheral.address);
    let current = current.expect("reconnect");
    let (refused, _) = network.disconnect(stale, &central.address, &peripheral.address);
    assert!(refused.is_err());
    assert!(network
        .read(stale, &central.address, &peripheral.address, characteristic_uuid)
        .is_err());
    let value = network.read(current, &central.address, &peripheral.address, characteristic_uuid);
    assert_eq!(value.expect("the current connection must still be usable"), b"v");
}

#[test]
fn a_disconnected_handle_is_actually_closed() {
    let mut network = MockNetwork::new();
    let (service_uuid, characteristic_uuid) = (service(), characteristic());
    let peripheral = party(&mut network, "peripheral-closed");
    peripheral
        .advertise(
            &mut network,
            GattServiceSpec::new(service_uuid, vec![spec(characteristic_uuid, true, true, true, b"v")]),
        )
        .expect("advertise should succeed");
    let central = party(&mut network, "central-closed");
    let (me, it) = (central.address.clone(), peripheral.address.clone());
    let (session, _) = network.connect(&me, &it);
    let session = session.expect("connect");
    network.read(session, &me, &it, characteristic_uuid).expect("read while open");
    network.disconnect(session, &me, &it).0.expect("disconnect");
    assert!(network.read(session, &me, &it, characteristic_uuid).is_err());
    assert!(network
        .write_with_type(session, &me, &it, characteristic_uuid, b"x".to_vec(), WriteType::WithResponse)
        .0
        .is_err());
    assert!(network.subscribe(session, &me, &it, characteristic_uuid).0.is_err());
    assert!(network.disconnect(session, &me, &it).0.is_err());
}

#[test]
fn simulated_peer_loss_closes_the_link_as_well_as_announcing_it() {
    let mut network = MockNetwork::new();
    let (service_uuid, characteristic_uuid) = (service(), characteristic());
    let peripheral = party(&mut network, "peripheral-loss-state");
    peripheral
        .advertise(
            &mut network,
            GattServiceSpec::new(service_uuid, vec![spec(characteristic_uuid, true, true, true, b"v")]),
        )
        .expect("advertise should succeed");
    let central = party(&mut network, "central-loss-state");
    let (me, it) = (central.address.clone(), peripheral.address.clone());
    let (session, _) = network.connect(&me, &it);
    let session = session.expect("connect");
    network.read(session, &me, &it, characteristic_uuid).expect("read while connected");
    peripheral.simulate_peer_loss(&mut network, &me);
    assert!(network.read(session, &me, &it, characteristic_uuid).is_err());
    assert!(network
        .write_with_type(session, &me, &it, characteristic_uuid, b"x".to_vec(), WriteType::WithResponse)
        .0
        .is_err());
    assert!(network.notify_peer(&it, &me, None, characteristic_uuid, b"n".to_vec()).is_err());
}

#[test]
fn writes_to_unknown_or_read_only_characteristics_are_refused() {
    let mut network = MockNetwork::new();
    let (writable_uuid, read_only_uuid) = (characteristic(), characteristic());
    let peripheral = party(&mut network, "peripheral-perms");
    peripheral
        .advertise(
            &mut network,
            GattServiceSpec::new(
                service(),
                vec![
                    spec(writable_uuid, true, true, false, b""),
                    spec(read_only_uuid, true, false, false, b"ro"),
                ],
            ),
        )
        .expect("advertise should succeed");
    let central = party(&mut network, "central-perms");
    let (me, it) = (central.address.clone(), peripheral.address.clone());
    let (session, _) = network.connect(&me, &it);
    let session = session.expect("connect");
    let mut write = |uuid: CharacteristicUuid, value: &[u8]| {
        network
            .write_with_type(session, &me, &it, uuid, value.to_vec(), WriteType::WithResponse)
            .0
    };
    write(writable_uuid, b"ok").expect("a declared writable characteristic must accept writes");
    assert!(write(characteristic(), b"x").is_err(), "an unknown characteristic must be refused");
    assert!(write(read_only_uuid, b"x").is_err(), "a read-only characteristic must be refused");
    assert_eq!(network.read(session, &me, &it, read_only_uuid).expect("read"), b"ro");
}

#[test]
fn the_refusal_of_an_unknown_characteristic_names_it() {
    let mut network = MockNetwork::new();
    let peripheral = party(&mut network, "p");
    peripheral
        .advertise(&mut network, GattServiceSpec::new(ServiceUuid(1), vec![]))
        .expect("advertise");
    let central = party(&mut network, "c");
    let (session, _) = network.connect(&central.address, &peripheral.address);
    let refused = network
        .read(
            session.expect("connect"),
            &central.address,
            &peripheral.address,
            CharacteristicUuid(0x0000_b1e7_0000_1000_8000_0080_5f9b_34fb),
        )
        .expect_err("unknown");
    assert!(refused.message().contains("0000b1e7-0000-1000-8000-00805f9b34fb"));
}

#[test]
fn a_party_that_vanishes_leaves_nothing_behind() {
    let mut network = MockNetwork::new();
    let characteristic_uuid = characteristic();
    let service_uuid = service();
    let peripheral = party(&mut network, "gone");
    peripheral
        .advertise(
            &mut network,
            GattServiceSpec::new(service_uuid, vec![spec(characteristic_uuid, true, true, true, b"")]),
        )
        .expect("advertise");
    let central = party(&mut network, "left");
    let (session, _) = network.connect(&central.address, &peripheral.address);
    let session = session.expect("connect");
    network
        .subscribe(session, &central.address, &peripheral.address, characteristic_uuid)
        .0
        .expect("subscribe");
    let out = network.disconnect_all_for(&peripheral.address);
    assert!(events_of(&out, &central.address)
        .iter()
        .any(|event| matches!(event, GattEvent::Disconnected { .. })));
    assert!(central.scan(&mut network, service_uuid).is_empty());
    network.disconnect_all_for(&central.address);
    assert_eq!(network.live_session(&central.address, &peripheral.address), None);
}

#[test]
fn a_subscription_ends_with_its_reader_or_with_the_service() {
    let mut network = MockNetwork::new();
    let (service_uuid, c) = (service(), characteristic());
    let advertised = || GattServiceSpec::new(service_uuid, vec![spec(c, true, true, true, b"")]);
    let peripheral = party(&mut network, "peripheral");
    let central = party(&mut network, "central");
    let (p, q) = (&peripheral.address, &central.address);
    peripheral.advertise(&mut network, advertised()).expect("advertise");
    let session = network.connect(q, p).0.expect("connect");
    assert!(!network.is_listening(p, q, c));
    network.subscribe(session, q, p, c).0.expect("subscribe");
    assert!(network.is_listening(p, q, c));
    assert!(network.notify_peer(p, q, Some(session), c, vec![1]).is_ok());

    network.stop_listening(p, q, c);
    assert!(!network.is_listening(p, q, c));
    let gone = network.notify_peer(p, q, Some(session), c, vec![1]);
    assert!(matches!(gone, Err(BleError::Gatt(text)) if text == "central has no live notify session"));
    let nobody = network.notify(p, c, vec![1]).0;
    assert!(matches!(nobody, Err(BleError::Gatt(text)) if text == "notify reached no subscriber"));

    network.subscribe(session, q, p, c).0.expect("subscribe again");
    assert!(network.is_listening(p, q, c));
    network.simulate_unsubscribe(p, q);
    assert!(!network.is_listening(p, q, c));
    network.subscribe(session, q, p, c).0.expect("and again");
    peripheral.advertise(&mut network, advertised()).expect("advertise anew");
    assert!(!network.is_listening(p, q, c));
    network.stop_advertising(p);
    assert!(!network.is_listening(p, q, c));
}
