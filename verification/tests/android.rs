//! The decisions of the Android backend.

use ble_gatt::backend::android::connection::{
    connect_outcome, disconnect_outcome, subscribe_outcome, Connections, DisconnectReply, NotifyGap,
};
use ble_gatt::backend::android::discovery::{discovered_peer, DiscoveryReport, Scan, ScanStart};
use ble_gatt::backend::android::server::{
    advertise_arguments, advertise_outcome, notify_all_outcome, notify_outcome, Advertising,
    ServerSessions, ADVERTISE_ERROR_STOPPED,
};
use ble_gatt::backend::android::{
    call_failed, capabilities, low_16, low_16_signed, session_argument,
};
use ble_gatt::{
    BleError, CharacteristicUuid, GattCharacteristicSpec, GattEvent, GattServiceSpec, PeerAddress,
    Role, ServiceUuid,
};

const UUID: u128 = 0x0000_b1e7_0000_1000_8000_0080_5f9b_34fb;
const UUID_TEXT: &str = "0000b1e7-0000-1000-8000-00805f9b34fb";
const C: CharacteristicUuid = CharacteristicUuid(UUID);

fn address(text: &str) -> PeerAddress {
    PeerAddress(text.to_string())
}

fn gatt_text(error: BleError) -> String {
    match error {
        BleError::Gatt(text) => text,
        other => panic!("expected Gatt, got {other:?}"),
    }
}

#[test]
fn one_connection_at_a_time_and_a_failed_one_can_be_retried() {
    let mut all = Connections::new();
    let peer = address("a");
    let session = all.begin_connect(&peer).expect("free");
    assert!(matches!(
        all.begin_connect(&peer),
        Err(BleError::ConnectFailed { reason, .. })
            if reason == "a connection to this peer is already in progress"
    ));
    all.clear_pending_connect(&peer);
    let again = all.begin_connect(&peer).expect("retried");
    assert!(again > session);
    let (event, waited) = all.on_connected(&peer);
    assert!(waited);
    assert!(matches!(
        event,
        GattEvent::Connected { local_role: Role::Central, session: Some(s), .. } if s == again
    ));
    assert!(matches!(
        all.begin_connect(&peer),
        Err(BleError::ConnectFailed { reason, .. })
            if reason == "a connection to this peer is already open"
    ));
    assert_eq!(all.session_of(&peer), Some(again));
    let end = all.on_disconnected(&peer);
    assert!(!end.confirms);
    assert!(matches!(end.event, GattEvent::Disconnected { session: Some(s), .. } if s == again));
    assert!(matches!(all.on_disconnected(&peer).event, GattEvent::Disconnected { session: None, .. }));
    all.begin_connect(&peer).expect("free again");
}

fn connected(peer: &PeerAddress) -> (Connections, u64) {
    let mut all = Connections::new();
    let session = all.begin_connect(peer).expect("free");
    all.on_connected(peer);
    (all, session)
}

#[test]
fn an_answer_reaches_only_the_call_of_its_number() {
    let peer = address("a");
    let (mut all, session) = connected(&peer);
    let first = all.begin_read(&peer, Some(session)).expect("read");
    assert_eq!(
        gatt_text(all.begin_read(&peer, Some(session)).expect_err("one at a time")),
        "a read from a is already in progress"
    );
    all.end_read(&peer);
    let second = all.begin_read(&peer, Some(session)).expect("read");
    assert!(all.on_read(&peer, first, b"old".to_vec(), true).is_none());
    let value = all.on_read(&peer, second, b"new".to_vec(), true).expect("waits");
    assert_eq!(value.expect("success"), b"new");
    assert!(all.on_read(&peer, second, b"twice".to_vec(), true).is_none());
    let third = all.begin_read(&peer, None).expect("read");
    let failed = all.on_read(&peer, third, vec![], false).expect("waits");
    assert_eq!(gatt_text(failed.expect_err("failed")), "characteristic read failed");

    let write = all.begin_write(&peer, Some(session)).expect("write");
    let replaced = all.begin_write(&peer, Some(session)).expect("write");
    assert!(all.on_write_result(&peer, write, true).is_none());
    assert!(all.on_write_result(&peer, replaced, true).expect("waits").is_ok());
    let write = all.begin_write(&peer, Some(session)).expect("write");
    let failed = all.on_write_result(&peer, write, false).expect("waits");
    assert_eq!(gatt_text(failed.expect_err("failed")), "characteristic write failed");
    all.begin_write(&peer, Some(session)).expect("write");
    all.end_write(&peer);
}

#[test]
fn a_replaced_handle_can_begin_nothing() {
    let peer = address("a");
    let (mut all, session) = connected(&peer);
    let stale = Some(session + 1);
    assert!(matches!(all.begin_read(&peer, stale), Err(BleError::NotConnected(p)) if p == "a"));
    assert!(all.begin_write(&peer, stale).is_err());
    assert!(all.begin_subscribe(&peer, stale, C).is_err());
    assert!(all.begin_disconnect(&peer, stale).is_err());
    assert!(all.begin_read(&address("nobody"), None).is_err());
    all.begin_disconnect(&peer, Some(session)).expect("its own");
    assert!(all.on_disconnected(&peer).confirms);
}

#[test]
fn notifications_go_to_the_subscription_that_made_the_route() {
    let peer = address("a");
    let (mut all, session) = connected(&peer);
    let first = all.begin_subscribe(&peer, Some(session), C).expect("subscribe");
    assert_eq!(all.route_text(&peer, UUID_TEXT), Some(first));
    assert_eq!(all.route_text(&peer, "no uuid"), None);
    let second = all.begin_subscribe(&peer, Some(session), C).expect("subscribe");
    assert!(!all.on_subscribed_text(&peer, UUID_TEXT, first));
    assert!(!all.on_subscribed_text(&peer, "no uuid", second));
    all.cancel_subscribe(&peer, C, first);
    assert_eq!(all.route(&peer, C), Some(second), "the older one takes nothing along");
    assert!(all.on_subscribed_text(&peer, UUID_TEXT, second));
    assert!(!all.on_subscribed(&peer, C, second), "answered once");
    assert_eq!(all.route(&peer, C), Some(second));
    all.cancel_subscribe(&peer, C, second);
    assert_eq!(all.route(&peer, C), None);
}

#[test]
fn a_cleared_connect_keeps_what_others_wait_for() {
    let peer = address("a");
    let (mut all, session) = connected(&peer);
    all.begin_subscribe(&peer, Some(session), C).expect("subscribe");
    all.clear_pending_connect(&peer);
    assert!(all.route(&peer, C).is_some());
    all.begin_connect(&peer).expect("neither open nor in progress");
}

#[test]
fn the_mtu_is_the_default_until_it_is_negotiated() {
    let peer = address("a");
    let (mut all, _) = connected(&peer);
    assert_eq!(all.att_mtu(&peer), 23);
    all.on_mtu_changed(&peer, 517);
    assert_eq!(all.att_mtu(&peer), 517);
    all.on_disconnected(&peer);
    assert_eq!(all.att_mtu(&peer), 23);
}

#[test]
fn a_gap_is_reported_once() {
    let mut gap = NotifyGap::new();
    gap.on_offer(true);
    assert!(gap.report().is_none());
    gap.on_offer(false);
    gap.on_offer(true);
    assert_eq!(
        gatt_text(gap.report().expect("lost")),
        "notification queue overflowed: payloads were dropped and at least one message is lost"
    );
    assert!(gap.report().is_none());
}

#[test]
fn outcomes_name_what_happened() {
    let peer = address("a");
    assert!(connect_outcome(&peer, true).is_ok());
    assert!(matches!(
        connect_outcome(&peer, false),
        Err(BleError::ConnectFailed { reason, .. }) if reason == "disconnected before connection completed"
    ));
    assert!(disconnect_outcome(&peer, DisconnectReply::Confirmed).is_ok());
    assert_eq!(
        gatt_text(disconnect_outcome(&peer, DisconnectReply::Abandoned).expect_err("abandoned")),
        "disconnect from a was abandoned before the platform confirmed it"
    );
    assert_eq!(
        gatt_text(disconnect_outcome(&peer, DisconnectReply::TimedOut).expect_err("late")),
        "disconnect from a timed out after 5s; the platform connection may still be open"
    );
    assert!(subscribe_outcome(&peer, C, Some(true)).is_ok());
    assert_eq!(
        gatt_text(subscribe_outcome(&peer, C, Some(false)).expect_err("refused")),
        "peer refused notifications on characteristic 0000b1e7-0000-1000-8000-00805f9b34fb"
    );
    assert!(matches!(subscribe_outcome(&peer, C, None), Err(BleError::NotConnected(_))));
    assert_eq!(
        gatt_text(call_failed("startScan", "Java exception", Some("SecurityException"))),
        "startScan failed: Java exception (SecurityException)"
    );
    assert_eq!(gatt_text(call_failed("connect", "detached", None)), "connect failed: detached");
}

#[test]
fn one_scan_at_a_time_with_its_own_results_and_failure() {
    let mut scan = Scan::new();
    assert_eq!(scan.next_generation(), 1);
    let first = scan.on_start(ScanStart::Started).expect("started");
    assert_eq!(first, 1);
    assert!(scan.accepts(1) && !scan.accepts(2));
    assert_eq!(
        gatt_text(scan.on_start(ScanStart::Rejected).expect_err("one at a time")),
        "a scan is already active; concurrent scans are not supported"
    );
    assert!(scan.accepts(1));
    scan.on_failed(7, 1);
    assert!(scan.accepts(1), "a failure of another scan is not this one's");
    scan.on_failed(1, 2);
    assert!(!scan.accepts(1));
    assert_eq!(
        gatt_text(scan.on_drained().expect("failed")),
        "Android scan failed (ScanCallback error code 2)"
    );
    assert!(scan.on_drained().is_none());
    let second = scan.on_start(ScanStart::Started).expect("started");
    assert!(!scan.on_dropped(first), "the newer scan goes on");
    assert!(scan.accepts(second));
    assert!(scan.on_dropped(second));
    assert!(!scan.accepts(second));
}

#[test]
fn a_scan_result_keeps_what_can_be_read() {
    let peer = discovered_peer(DiscoveryReport {
        address: "AA".to_string(),
        name: Some("n".to_string()),
        services: vec![UUID_TEXT.to_string(), "junk".to_string()],
        manufacturer_data: vec![(0x1_0001, vec![1]), (7, vec![2]), (1, vec![3])],
        service_data: vec![(UUID_TEXT.to_string(), vec![4]), ("junk".to_string(), vec![5])],
        rssi: -55,
    });
    assert_eq!(peer.address, address("AA"));
    assert_eq!(peer.services, vec![ServiceUuid(UUID)]);
    assert_eq!(peer.manufacturer_data.len(), 2);
    assert_eq!(peer.manufacturer_data.get(&1), Some(&vec![3]), "the last one counts");
    assert_eq!(peer.manufacturer_data.get(&7), Some(&vec![2]));
    assert_eq!(peer.service_data.len(), 1);
    assert_eq!(peer.service_data.get(&UUID), Some(&vec![4]));
    assert_eq!(peer.rssi, Some(-55));
    assert_eq!(low_16(-1), 0xffff);
    assert_eq!(low_16(-0x1_0000), 0);
    assert_eq!(low_16_signed(0x8000), -0x8000);
    assert_eq!(low_16_signed(i32::MIN), 0);
}

#[test]
fn an_attempt_to_advertise_is_answered_once() {
    let mut advertising = Advertising::new();
    assert!(advertising.on_result(true, 0).is_none());
    let first = advertising.begin();
    assert_eq!(advertising.on_result(false, 3), Some(Err(3)));
    assert!(advertising.on_result(true, 0).is_none());
    let second = advertising.begin();
    assert!(!advertising.abandon(first), "another attempt has taken its place");
    assert_eq!(advertising.stop(), Some(ADVERTISE_ERROR_STOPPED));
    assert_eq!(advertising.stop(), None);
    assert!(advertising.abandon(second));
    assert!(advertise_outcome(Some(Ok(()))).is_ok());
    assert_eq!(
        gatt_text(advertise_outcome(Some(Err(-3))).expect_err("refused")),
        "Android refused to start advertising (AdvertiseCallback error -3)"
    );
    assert_eq!(
        gatt_text(advertise_outcome(None).expect_err("silence")),
        "advertise outcome was never reported"
    );
}

#[test]
fn a_service_is_laid_out_in_lists() {
    let arguments = advertise_arguments(&GattServiceSpec::new(
        ServiceUuid(UUID),
        vec![GattCharacteristicSpec {
            uuid: C,
            readable: true,
            writable: false,
            notifiable: true,
            initial_value: b"v".to_vec(),
        }],
    ));
    assert_eq!(arguments.service, UUID_TEXT);
    assert_eq!(arguments.uuids, vec![UUID_TEXT.to_string()]);
    assert_eq!(arguments.readable, vec![true]);
    assert_eq!(arguments.writable, vec![false]);
    assert_eq!(arguments.notifiable, vec![true]);
    assert_eq!(arguments.values, vec![b"v".to_vec()]);
}

#[test]
fn a_central_arrives_by_subscribing_or_by_writing() {
    let mut server = ServerSessions::new();
    let peer = address("a");
    assert!(matches!(
        server.on_subscribed(&peer, 4),
        GattEvent::Connected { local_role: Role::Peripheral, session: Some(4), .. }
    ));
    let events = server.on_written_text(&peer, UUID_TEXT, b"x".to_vec(), 4);
    assert!(matches!(&events[0], GattEvent::Connected { session: Some(4), .. }));
    assert!(matches!(
        &events[1],
        GattEvent::CharacteristicWritten { characteristic, value, .. } if *characteristic == C && value == b"x"
    ));
    assert!(server.on_written_text(&peer, "junk", b"x".to_vec(), 4).is_empty());
    assert!(matches!(
        server.on_disconnected(&peer),
        GattEvent::Disconnected { local_role: Role::Peripheral, session: Some(4), .. }
    ));
    assert!(matches!(server.on_disconnected(&peer), GattEvent::Disconnected { session: None, .. }));
}

#[test]
fn a_notification_waits_for_its_own_completion() {
    let mut server = ServerSessions::new();
    let peer = address("a");
    let first = server.begin_notify();
    assert_eq!(
        gatt_text(server.on_queued(&peer, first, false).expect_err("not taken")),
        "a has no live notify session for this characteristic"
    );
    assert!(!server.on_notify_sent(first));
    let second = server.begin_notify();
    assert_ne!(first, second);
    server.on_queued(&peer, second, true).expect("taken");
    assert!(server.on_notify_sent(second));
    assert!(!server.on_notify_sent(second));
    let third = server.begin_notify();
    server.cancel_notify(third);
    assert!(!server.on_notify_sent(third));
    assert!(notify_outcome(&peer, Some(true)).is_ok());
    assert_eq!(gatt_text(notify_outcome(&peer, Some(false)).expect_err("failed")), "notify to a failed");
    assert_eq!(
        gatt_text(notify_outcome(&peer, None).expect_err("abandoned")),
        "notify to a was abandoned before completion"
    );
}

#[test]
fn a_broadcast_succeeds_if_anyone_is_reached() {
    let failed = |text: &str| -> Result<(), BleError> { Err(BleError::Gatt(text.to_string())) };
    assert!(notify_all_outcome(&vec![failed("x"), Ok(()), failed("y")]).is_ok());
    assert_eq!(gatt_text(notify_all_outcome(&vec![failed("x"), failed("y")]).expect_err("none")), "y");
    assert_eq!(
        gatt_text(notify_all_outcome(&vec![]).expect_err("nobody")),
        "notify reached no subscriber \u{2014} not advertising, unknown characteristic, or nobody subscribed"
    );
}

#[test]
fn no_answer_is_no_support() {
    let report = capabilities(Some(true), None);
    assert!(report.central && !report.peripheral);
    assert_eq!(session_argument(None), 0);
    assert_eq!(session_argument(Some(8)), 8);
}
