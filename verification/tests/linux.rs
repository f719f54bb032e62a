//! The decisions of the BlueZ backend.

use ble_gatt::backend::linux::dial::{
    CleanupAction, CleanupEvent, CleanupStage, DialEnd, DialReply, Dials,
};
use ble_gatt::backend::linux::serve::{
    notify_outcome, watch_ends, Arrival, GattServer, NotifyTurn, NotifyWriter, WatchEvent,
};
use ble_gatt::backend::linux::{
    adapter_ready, capabilities, discovered, disconnect_failed, find_characteristic,
    invalid_address, malformed_address, refreshed_mtu, DeviceFacts, PlatformError,
    PlatformErrorKind, Sessions, NOTIFY_WRITER_ACQUIRE_TIMEOUT,
};
use ble_gatt::backend::received;
use ble_gatt::{
    BleError, CharacteristicUuid, GattCharacteristicSpec, GattEvent, GattServiceSpec, PeerAddress,
    Role, ServiceUuid,
};

fn address(text: &str) -> PeerAddress {
    PeerAddress(text.to_string())
}

fn refusal() -> PlatformError {
    PlatformError { kind: PlatformErrorKind::Refused, text: "not authorized".to_string() }
}

fn busy() -> PlatformError {
    PlatformError { kind: PlatformErrorKind::Failed, text: "Not connected".to_string() }
}

fn gone() -> PlatformError {
    PlatformError {
        kind: PlatformErrorKind::DBus("org.bluez.Error.NotConnected".to_string()),
        text: "whatever".to_string(),
    }
}

fn reason(error: BleError) -> String {
    match error {
        BleError::ConnectFailed { reason, .. } => reason,
        other => panic!("expected ConnectFailed, got {other:?}"),
    }
}

#[test]
fn only_a_momentary_rejection_is_busy() {
    assert!(matches!(busy().gatt_error(), BleError::GattBusy(text) if text == "Not connected"));
    assert!(matches!(refusal().gatt_error(), BleError::Gatt(text) if text == "not authorized"));
    assert!(gone().is_not_connected());
    assert!(!busy().is_not_connected());
    let other = PlatformError {
        kind: PlatformErrorKind::DBus("org.bluez.Error.Failed".to_string()),
        text: String::new(),
    };
    assert!(!other.is_not_connected());
}

#[test]
fn a_second_dial_to_a_peer_is_refused_while_one_is_under_way() {
    let mut dials = Dials::new();
    dials.claim(&address("a")).expect("free");
    assert_eq!(
        reason(dials.claim(&address("a")).expect_err("taken")),
        "a connect attempt to this peer is already in flight"
    );
    dials.claim(&address("b")).expect("another peer is free");
    dials.abandon(&address("a"), None);
    dials.claim(&address("a")).expect("a dial that only queued leaves nothing behind");
}

#[test]
fn a_dial_that_succeeds_owns_its_address() {
    let mut dials = Dials::new();
    let mut sessions = Sessions::new();
    dials.claim(&address("a")).expect("free");
    let session = dials.start(&address("a"), &mut sessions).expect("not quarantined");
    assert_eq!(session, 1);
    match dials.finish(&address("a"), session, DialReply::Connected) {
        DialEnd::Up { session: 1, announce: GattEvent::Connected { local_role, session, .. } } => {
            assert_eq!(local_role, Role::Central);
            assert_eq!(session, Some(1));
        }
        _ => panic!("expected the connection"),
    }
    dials.ensure_current(&address("a"), 1).expect("current");
    assert!(matches!(
        dials.ensure_current(&address("a"), 2),
        Err(BleError::NotConnected(peer)) if peer == "a"
    ));
    assert!(dials.report_central_loss(&address("a"), 7).is_none());
    assert!(matches!(
        dials.report_central_loss(&address("a"), 1),
        Some(GattEvent::Disconnected { local_role: Role::Central, session: Some(1), .. })
    ));
    assert!(dials.report_central_loss(&address("a"), 1).is_none());
    assert!(dials.ensure_current(&address("a"), 1).is_err());
}

#[test]
fn a_dial_that_times_out_quarantines_its_address_until_a_disconnect_settles() {
    let mut dials = Dials::new();
    let mut sessions = Sessions::new();
    let peer = address("a");
    dials.claim(&peer).expect("free");
    let session = dials.start(&peer, &mut sessions).expect("start");
    match dials.finish(&peer, session, DialReply::TimedOut) {
        DialEnd::FailedUnsettled(e) => assert_eq!(
            reason(e),
            "timed out after 20s waiting for BlueZ to respond to Connect"
        ),
        _ => panic!("expected a failure"),
    }
    let cleaning = "a previous cancelled connect attempt is still being cleaned up";
    assert_eq!(reason(dials.claim(&peer).expect_err("quarantined")), cleaning);

    let due = |known: bool| CleanupEvent::Due { device_known: known };
    let (stage, action) = dials.clean_up(&peer, CleanupStage::Ready, due(true));
    assert_eq!((stage, action), (CleanupStage::Outstanding, CleanupAction::StartDisconnect));
    let (stage, action) = dials.clean_up(&peer, stage, CleanupEvent::TimedOut);
    assert_eq!((stage, action), (CleanupStage::Outstanding, CleanupAction::KeepWaiting));
    let (stage, action) = dials.clean_up(&peer, stage, CleanupEvent::Settled(Err(refusal())));
    assert_eq!((stage, action), (CleanupStage::Ready, CleanupAction::RetryLater));
    assert!(dials.claim(&peer).is_err(), "still quarantined");
    let (stage, _) = dials.clean_up(&peer, stage, due(true));
    let (stage, action) = dials.clean_up(&peer, stage, CleanupEvent::Died);
    assert_eq!((stage, action), (CleanupStage::Ready, CleanupAction::RetryLater));
    let (stage, _) = dials.clean_up(&peer, stage, due(true));
    let (stage, action) = dials.clean_up(&peer, stage, CleanupEvent::Settled(Err(gone())));
    assert_eq!((stage, action), (CleanupStage::Finished, CleanupAction::Stop));
    dials.claim(&peer).expect("clean");
}

#[test]
fn a_dial_whose_turn_comes_behind_a_quarantine_is_refused() {
    let mut dials = Dials::new();
    let mut sessions = Sessions::new();
    let peer = address("a");
    dials.claim(&peer).expect("free");
    let session = dials.start(&peer, &mut sessions).expect("start");
    dials.abandon(&peer, Some(session));
    assert!(dials.start(&peer, &mut sessions).is_err());
    let (stage, action) =
        dials.clean_up(&peer, CleanupStage::Ready, CleanupEvent::Due { device_known: false });
    assert_eq!((stage, action), (CleanupStage::Finished, CleanupAction::Stop));
    dials.claim(&peer).expect("nothing is left");
}

#[test]
fn a_refused_dial_tells_the_platforms_reason() {
    let mut dials = Dials::new();
    let mut sessions = Sessions::new();
    let peer = address("a");
    dials.claim(&peer).expect("free");
    let session = dials.start(&peer, &mut sessions).expect("start");
    match dials.finish(&peer, session, DialReply::Refused(refusal())) {
        DialEnd::Failed(e) => assert_eq!(reason(e), "not authorized"),
        _ => panic!("expected a failure"),
    }
    dials.claim(&peer).expect("free again");
}

fn service() -> GattServiceSpec {
    GattServiceSpec::new(
        ServiceUuid(1),
        vec![GattCharacteristicSpec {
            uuid: CharacteristicUuid(2),
            readable: true,
            writable: true,
            notifiable: true,
            initial_value: b"start".to_vec(),
        }],
    )
}

const C: CharacteristicUuid = CharacteristicUuid(2);

fn writer(id: u64, peer: &str) -> NotifyWriter {
    NotifyWriter { id, peer: address(peer) }
}

#[test]
fn a_write_is_kept_announced_and_read_back() {
    let mut server = GattServer::new();
    let mut sessions = Sessions::new();
    let generation = server.advertise(&service());
    assert_eq!(server.read(C), b"start");
    assert!(server.read(CharacteristicUuid(9)).is_empty());
    let (arrival, events) =
        server.on_write(generation, C, &address("a"), b"x".to_vec(), &mut sessions);
    assert!(matches!(arrival, Arrival::New { session: 1 }));
    assert!(matches!(
        &events[0],
        GattEvent::Connected { local_role: Role::Peripheral, session: Some(1), .. }
    ));
    assert!(matches!(&events[1], GattEvent::CharacteristicWritten { value, .. } if value == b"x"));
    assert_eq!(server.read(C), b"x");
    let (arrival, events) =
        server.on_write(generation, C, &address("a"), b"y".to_vec(), &mut sessions);
    assert!(matches!(arrival, Arrival::Known { session: 1 }));
    assert_eq!(events.len(), 2);
}

#[test]
fn a_handler_of_a_stopped_server_does_nothing() {
    let mut server = GattServer::new();
    let mut sessions = Sessions::new();
    let old = server.advertise(&service());
    server.on_write(old, C, &address("a"), b"x".to_vec(), &mut sessions);
    let events = server.stop_advertising();
    assert_eq!(events.len(), 1);
    assert!(matches!(
        &events[0],
        GattEvent::Disconnected { local_role: Role::Peripheral, session: None, .. }
    ));
    server.advertise(&service());
    let (arrival, events) = server.on_write(old, C, &address("b"), b"z".to_vec(), &mut sessions);
    assert!(matches!(arrival, Arrival::Stale));
    assert!(events.is_empty());
    assert_eq!(server.read(C), b"start");
    let (arrival, event) =
        server.on_notify_session(old, C, writer(1, "b"), &vec![], &mut sessions);
    assert!(matches!(arrival, Arrival::Stale));
    assert!(event.is_none());
    assert!(!server.has_live_session(&address("b"), &vec![]));
}

#[test]
fn a_notification_waits_for_the_writer_of_its_session() {
    let mut server = GattServer::new();
    let mut sessions = Sessions::new();
    let generation = server.advertise(&service());
    server.on_write(generation, C, &address("a"), b"x".to_vec(), &mut sessions);
    let owner = Some((address("a"), 1));
    let to = address("a");
    let wait = server.notify_turn(C, &owner, Some(&to), 0, &vec![]);
    assert!(matches!(wait, NotifyTurn::Wait));
    let late = server.notify_turn(C, &owner, Some(&to), NOTIFY_WRITER_ACQUIRE_TIMEOUT, &vec![]);
    assert!(matches!(
        late,
        NotifyTurn::Refuse(BleError::Gatt(text)) if text == "no active notify session for characteristic"
    ));
    let (arrival, event) =
        server.on_notify_session(generation, C, writer(5, "a"), &vec![], &mut sessions);
    assert!(matches!(arrival, Arrival::Known { session: 1 }));
    assert!(event.is_none());
    server.on_notify_session(generation, C, writer(6, "b"), &vec![], &mut sessions);
    assert!(matches!(
        server.notify_turn(C, &owner, Some(&to), 0, &vec![]),
        NotifyTurn::Write(ids) if ids == vec![5]
    ));
    assert!(matches!(
        server.notify_turn(C, &None, None, 0, &vec![]),
        NotifyTurn::Write(ids) if ids == vec![5, 6]
    ));
    let closed = server.notify_turn(C, &owner, Some(&to), 0, &vec![5]);
    assert!(matches!(closed, NotifyTurn::Wait), "a closed writer is no writer");
    assert!(
        matches!(server.notify_turn(C, &None, None, 0, &vec![]), NotifyTurn::Write(ids) if ids == vec![6]),
        "and is forgotten, though nothing was written"
    );
    let other = Some((address("a"), 99));
    assert!(matches!(
        server.notify_turn(C, &other, Some(&to), 0, &vec![]),
        NotifyTurn::Refuse(BleError::NotConnected(peer)) if peer == "a"
    ));
}

#[test]
fn a_departure_counts_only_for_the_session_it_watched() {
    let mut server = GattServer::new();
    let mut sessions = Sessions::new();
    let generation = server.advertise(&service());
    server.on_notify_session(generation, C, writer(1, "a"), &vec![], &mut sessions);
    assert!(server.has_live_session(&address("a"), &vec![]));
    assert!(!server.has_live_session(&address("a"), &vec![1]));
    assert!(server.on_departure(&address("a"), 7).is_none());
    assert!(server.may_disconnect(&address("a"), Some(1)));
    assert!(!server.may_disconnect(&address("a"), Some(7)));
    assert!(server.may_disconnect(&address("a"), None));
    assert!(matches!(
        server.on_departure(&address("a"), 1),
        Some(GattEvent::Disconnected { session: Some(1), .. })
    ));
    assert!(server.on_departure(&address("a"), 1).is_none());
}

#[test]
fn reaching_nobody_is_an_error() {
    let ok: Result<(), String> = Ok(());
    let bad: Result<(), String> = Err("broken pipe".to_string());
    assert!(notify_outcome(&vec![bad.clone(), ok], None).is_ok());
    assert!(matches!(
        notify_outcome(&vec![], None),
        Err(BleError::Gatt(text)) if text == "notify reached no subscriber"
    ));
    assert!(matches!(
        notify_outcome(&vec![bad], Some(&address("a"))),
        Err(BleError::Gatt(text))
            if text == "notify reached a has no live notify session: broken pipe"
    ));
}

#[test]
fn a_watch_ends_with_the_link_or_with_the_last_writer() {
    let acquired = NOTIFY_WRITER_ACQUIRE_TIMEOUT;
    assert!(watch_ends(WatchEvent::NotConnected));
    assert!(watch_ends(WatchEvent::Disconnected));
    assert!(!watch_ends(WatchEvent::Poll { age: acquired - 1, reachable: false }));
    assert!(watch_ends(WatchEvent::Poll { age: acquired, reachable: false }));
    assert!(!watch_ends(WatchEvent::Poll { age: acquired, reachable: true }));
}

#[test]
fn a_characteristic_is_found_where_it_first_stands() {
    let listed = |n: u128| -> Result<CharacteristicUuid, String> { Ok(CharacteristicUuid(n)) };
    let all = vec![listed(1), listed(2), listed(2)];
    assert_eq!(find_characteristic(&all, CharacteristicUuid(2)).expect("there"), 1);
    let broken = vec![listed(1), Err("gone".to_string()), listed(2)];
    assert!(matches!(
        find_characteristic(&broken, CharacteristicUuid(2)),
        Err(BleError::Gatt(text)) if text == "gone"
    ));
    assert!(matches!(
        find_characteristic(&all, CharacteristicUuid(0x0000_b1e7_0000_1000_8000_0080_5f9b_34fb)),
        Err(BleError::Gatt(text))
            if text == "characteristic 0000b1e7-0000-1000-8000-00805f9b34fb not found on peer"
    ));
}

#[test]
fn small_decisions() {
    assert!(adapter_ready("hci0", true).is_ok());
    assert!(matches!(
        adapter_ready("hci0", false),
        Err(BleError::AdapterUnavailable(text)) if text == "adapter hci0 is not powered on"
    ));
    assert!(capabilities(true).peripheral && !capabilities(false).peripheral);
    assert_eq!(refreshed_mtu(23, None), 23);
    assert_eq!(refreshed_mtu(23, Some(0x1_0185)), 0x185);
    assert_eq!(reason(invalid_address(&address("x"))), "invalid Bluetooth address");
    assert!(matches!(malformed_address(&address("x")), BleError::Gatt(t) if t == "malformed peer address x"));
    assert!(matches!(
        disconnect_failed(&address("x"), &busy()),
        BleError::Gatt(t) if t == "disconnecting x failed: Not connected"
    ));
    assert!(matches!(received(Err(3)), GattEvent::Lagged { dropped: 3 }));
}

#[test]
fn a_scan_reports_only_devices_with_the_service() {
    let facts = |services: Vec<ServiceUuid>| DeviceFacts {
        address: "AA".to_string(),
        uuids: services,
        name: Some("n".to_string()),
        manufacturer_data: Default::default(),
        service_data: Default::default(),
        rssi: Some(-40),
    };
    assert!(discovered(ServiceUuid(7), facts(vec![ServiceUuid(6)])).is_none());
    let peer = discovered(ServiceUuid(7), facts(vec![ServiceUuid(6), ServiceUuid(7)])).expect("has it");
    assert_eq!(peer.address, address("AA"));
    assert_eq!(peer.services, vec![ServiceUuid(6), ServiceUuid(7)]);
    assert_eq!(peer.rssi, Some(-40));
}
