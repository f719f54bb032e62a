//! Requests and answers of the user interface.

use std::collections::BTreeMap;

use ble_gatt::plugin::{
    advertise_request, checked_uuid, parse_uuid, requested_write_type, role_name, scan_step,
    CapabilitiesResponse, CharacteristicSpecDto, ConnectionMtuResponse, DiscoveredPeerDto,
    GattEventDto, PluginState, ScanEvent, ScanStep,
};
use ble_gatt::{
    BleError, CapabilityReport, CharacteristicUuid, DiscoveredPeer, GattEvent, PeerAddress,
    RadioStatus, Role, ServiceUuid, WriteType,
};

const UUID: u128 = 0x0000_b1e6_0000_1000_8000_0080_5f9b_34fb;
const UUID_TEXT: &str = "0000b1e6-0000-1000-8000-00805f9b34fb";

fn dto(uuid: &str) -> CharacteristicSpecDto {
    CharacteristicSpecDto {
        uuid: uuid.to_string(),
        readable: true,
        writable: false,
        notifiable: true,
        initial_value: vec![9],
    }
}

#[test]
fn a_uuid_is_read_or_complained_about() {
    assert_eq!(parse_uuid(UUID_TEXT), Ok(UUID));
    assert_eq!(parse_uuid(&UUID_TEXT.to_uppercase()), Ok(UUID));
    let complaint = parse_uuid("nope").expect_err("no uuid");
    let reason = uuid::Uuid::parse_str("nope").expect_err("no uuid").to_string();
    assert_eq!(complaint, format!("invalid UUID 'nope': {reason}"));
    assert_eq!(checked_uuid("x", Ok(5)), Ok(5));
    assert_eq!(
        checked_uuid("x", Err("too short".to_string())),
        Err("invalid UUID 'x': too short".to_string())
    );
}

#[test]
fn a_request_to_advertise_fails_at_its_first_bad_uuid() {
    let service = advertise_request(UUID_TEXT, &vec![dto(UUID_TEXT)]).expect("valid");
    assert_eq!(service.uuid, ServiceUuid(UUID));
    assert_eq!(service.characteristics.len(), 1);
    assert_eq!(service.characteristics[0].uuid, CharacteristicUuid(UUID));
    assert!(service.characteristics[0].readable);
    assert!(!service.characteristics[0].writable);
    assert!(service.characteristics[0].notifiable);
    assert_eq!(service.characteristics[0].initial_value, vec![9]);
    let first = advertise_request("bad", &vec![dto("worse")]).expect_err("invalid");
    assert!(first.starts_with("invalid UUID 'bad': "));
    let second =
        advertise_request(UUID_TEXT, &vec![dto(UUID_TEXT), dto("worse"), dto("worst")]).expect_err("invalid");
    assert!(second.starts_with("invalid UUID 'worse': "));
}

fn peer(name: &str) -> DiscoveredPeer {
    let mut manufacturer_data = BTreeMap::new();
    manufacturer_data.insert(0x1234u16, vec![1, 2]);
    manufacturer_data.insert(7u16, vec![3]);
    let mut service_data = BTreeMap::new();
    service_data.insert(UUID, vec![4]);
    DiscoveredPeer {
        address: PeerAddress(name.to_string()),
        name: Some("thermometer".to_string()),
        services: vec![],
        manufacturer_data,
        service_data,
        rssi: Some(-60),
    }
}

#[test]
fn a_found_peer_is_shown_with_its_data_under_text_keys() {
    let shown = DiscoveredPeerDto::of(peer("AA"));
    assert_eq!(shown.address, "AA");
    assert_eq!(shown.name.as_deref(), Some("thermometer"));
    assert_eq!(shown.rssi, Some(-60));
    let order: Vec<&str> = shown.manufacturer_data.iter().map(|e| e.key.as_str()).collect();
    assert_eq!(order, ["7", "4660"], "by company, not by text");
    let data: BTreeMap<String, Vec<u8>> =
        shown.manufacturer_data.into_iter().map(|e| (e.key, e.value)).collect();
    assert_eq!(data.len(), 2);
    assert_eq!(data["4660"], vec![1, 2]);
    assert_eq!(data["7"], vec![3]);
    assert_eq!(shown.service_data.len(), 1);
    assert_eq!(shown.service_data[0].key, UUID_TEXT);
    assert_eq!(shown.service_data[0].value, vec![4]);
}

#[test]
fn a_failed_scan_is_no_answer() {
    let mut found = Vec::new();
    assert!(matches!(scan_step(&mut found, ScanEvent::Item(Ok(peer("AA")))), ScanStep::Continue));
    assert_eq!(found.len(), 1);
    assert!(matches!(scan_step(&mut found, ScanEvent::Deadline), ScanStep::Answer));
    assert!(matches!(scan_step(&mut found, ScanEvent::Ended), ScanStep::Answer));
    let failed = scan_step(&mut found, ScanEvent::Item(Err(BleError::Gatt("off".to_string()))));
    assert!(matches!(failed, ScanStep::Fail(text) if text == "GATT operation failed: off"));
}

#[test]
fn events_name_the_role_of_this_device() {
    assert_eq!(role_name(Role::Central), "central");
    assert_eq!(role_name(Role::Peripheral), "peripheral");
    let event = |local_role: Role| GattEvent::Connected {
        peer: PeerAddress("AA".to_string()),
        local_role,
        session: Some(3),
    };
    assert!(matches!(
        GattEventDto::of(event(Role::Peripheral)),
        Some(GattEventDto::Connected { address, local_role }) if address == "AA" && local_role == "peripheral"
    ));
    let gone = GattEvent::Disconnected {
        peer: PeerAddress("AA".to_string()),
        local_role: Role::Central,
        session: None,
    };
    assert!(matches!(
        GattEventDto::of(gone),
        Some(GattEventDto::Disconnected { local_role, .. }) if local_role == "central"
    ));
    let written = GattEvent::CharacteristicWritten {
        peer: PeerAddress("AA".to_string()),
        characteristic: CharacteristicUuid(UUID),
        value: vec![1],
    };
    assert!(matches!(
        GattEventDto::of(written),
        Some(GattEventDto::CharacteristicWritten { characteristic_uuid, value, .. })
            if characteristic_uuid == UUID_TEXT && value == vec![1]
    ));
    assert!(GattEventDto::of(GattEvent::Lagged { dropped: 2 }).is_none());
    assert!(GattEventDto::of(GattEvent::RadioChanged { status: RadioStatus::Off }).is_none());
}

#[test]
fn handles_are_never_shared() {
    let mut state = PluginState::new();
    let first = state.add_connection();
    let watch = state.add_watcher();
    let second = state.add_connection();
    assert_eq!((first, watch, second), (1, 2, 3));
    assert!(state.connection(first).is_ok());
    assert_eq!(state.connection(watch), Err("unknown connection handle".to_string()));
    assert!(state.remove_connection(first));
    assert!(!state.remove_connection(first));
    assert!(state.connection(first).is_err());
    assert!(state.remove_watcher(watch));
    assert!(!state.remove_watcher(watch));
}

#[test]
fn defaults_of_a_request() {
    assert_eq!(requested_write_type(None), WriteType::WithResponse);
    assert_eq!(requested_write_type(Some(false)), WriteType::WithResponse);
    assert_eq!(requested_write_type(Some(true)), WriteType::WithoutResponse);
    let mtu = ConnectionMtuResponse::of(247);
    assert_eq!((mtu.att_mtu, mtu.max_write_len), (247, 244));
    assert_eq!(ConnectionMtuResponse::of(2).max_write_len, 0);
    let report = CapabilitiesResponse::of(CapabilityReport { central: true, peripheral: false });
    assert!(report.central && !report.peripheral);
}

#[test]
fn every_error_has_its_sentence() {
    let text = |e: BleError| e.message();
    assert_eq!(text(BleError::AdapterUnavailable("x".to_string())), "BLE adapter unavailable: x");
    assert_eq!(
        text(BleError::PeripheralUnsupported),
        "peripheral (GATT server) mode not supported on this backend"
    );
    assert_eq!(
        text(BleError::ConnectFailed { peer: "p".to_string(), reason: "r".to_string() }),
        "connect to p failed: r"
    );
    assert_eq!(text(BleError::Gatt("x".to_string())), "GATT operation failed: x");
    assert_eq!(
        text(BleError::GattBusy("x".to_string())),
        "GATT operation rejected, possibly transient: x"
    );
    assert_eq!(text(BleError::NotConnected("p".to_string())), "not connected to p");
    assert_eq!(text(BleError::Transport("x".to_string())), "mock broker transport error: x");
}
