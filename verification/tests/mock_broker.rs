//! The same radio behind a broker: requests travel as frames, and every client keeps its
//! own books.

use std::collections::VecDeque;

use ble_gatt::backend::mock::broker::{
    answer, push_event, push_item, requested, ClientConnection, Forward,
};
use ble_gatt::backend::mock::local::{Emission, MockNetwork, Notification};
use ble_gatt::backend::mock::remote::{
    bytes_reply, scan_reply, session_reply, unit_reply, Delivery, RemoteClient,
};
use ble_gatt::backend::mock::wire::{body_len, read_frame, write_frame, Frame, Request, Response};
use ble_gatt::{
    BleError, CharacteristicUuid, GattCharacteristicSpec, GattEvent, GattServiceSpec, PeerAddress,
    ServiceUuid, WriteType,
};

type Item = Result<Vec<u8>, BleError>;

fn address(text: &str) -> PeerAddress {
    PeerAddress(text.to_string())
}

fn service() -> ServiceUuid {
    ServiceUuid(uuid::Uuid::new_v4().as_u128())
}

fn characteristic() -> CharacteristicUuid {
    CharacteristicUuid(uuid::Uuid::new_v4().as_u128())
}

fn offer(
    service: ServiceUuid,
    uuid: CharacteristicUuid,
    readable: bool,
    writable: bool,
    notifiable: bool,
    initial_value: &[u8],
) -> GattServiceSpec {
    GattServiceSpec::new(
        service,
        vec![GattCharacteristicSpec {
            uuid,
            readable,
            writable,
            notifiable,
            initial_value: initial_value.to_vec(),
        }],
    )
}

/// One client with its connection to the broker.
struct Client {
    remote: RemoteClient,
    connection: Option<ClientConnection>,
    forwards: Vec<Forward>,
    events: VecDeque<GattEvent>,
    items: VecDeque<(u64, Item)>,
}

struct Broker {
    network: MockNetwork,
    clients: Vec<Client>,
}

impl Broker {
    fn new(clients: usize) -> Broker {
        Broker {
            network: MockNetwork::new(),
            clients: (0..clients)
                .map(|_| Client {
                    remote: RemoteClient::new(),
                    connection: Some(ClientConnection::new()),
                    forwards: Vec::new(),
                    events: VecDeque::new(),
                    items: VecDeque::new(),
                })
                .collect(),
        }
    }

    fn join(&mut self, at: usize, name: &str) -> PeerAddress {
        self.clients[at].remote.register_events_sender(address(name));
        self.dispatch(at, 0, Request::RegisterAddress { address: address(name) });
        address(name)
    }

    fn dispatch(&mut self, at: usize, correlation_id: u64, request: Request) -> Option<Response> {
        let request = requested(Frame::Req(request)).expect("a request is a request");
        let done = self.clients[at]
            .connection
            .as_mut()
            .expect("connected")
            .dispatch(request, &mut self.network);
        if let Some(forward) = done.forward {
            self.clients[at].forwards.push(forward);
        }
        let envelope = answer(correlation_id, done.response);
        let reply = envelope.and_then(|e| {
            match self.clients[at].remote.on_frame(e.correlation_id, e.frame) {
                Delivery::Answer { correlation_id: id, response } => {
                    assert_eq!(id, correlation_id);
                    Some(response)
                }
                _ => None,
            }
        });
        self.emit(done.emissions);
        self.notify(done.notifications);
        reply
    }

    fn call(&mut self, at: usize, request: Request) -> Result<Response, BleError> {
        let id = self.clients[at].remote.call()?;
        Ok(self.dispatch(at, id, request).expect("a call is answered"))
    }

    fn emit(&mut self, emissions: Vec<Emission>) {
        for Emission { to, event } in emissions {
            for client in self.clients.iter_mut() {
                let wanted = client
                    .forwards
                    .iter()
                    .any(|f| matches!(f, Forward::Events { address } if *address == to));
                if client.connection.is_some() && wanted {
                    let envelope = push_event(&to, Ok(event.clone()));
                    if let Delivery::Event { event, .. } =
                        client.remote.on_frame(envelope.correlation_id, envelope.frame)
                    {
                        client.events.push_back(event);
                    }
                }
            }
        }
    }

    fn notify(&mut self, notifications: Vec<Notification>) {
        for n in notifications {
            for client in self.clients.iter_mut() {
                if client.connection.is_none() {
                    continue;
                }
                for forward in &client.forwards {
                    if let Forward::Items { central, characteristic, subscription_id, .. } = forward {
                        if *central == n.central && *characteristic == n.characteristic {
                            let item = match &n.item {
                                Ok(value) => Ok(value.clone()),
                                Err(e) => Err(e.clone()),
                            };
                            let envelope = push_item(*subscription_id, item);
                            if let Delivery::Item { subscription_id, item } =
                                client.remote.on_frame(envelope.correlation_id, envelope.frame)
                            {
                                client.items.push_back((subscription_id, item));
                            }
                        }
                    }
                }
            }
        }
    }

    fn advertise(&mut self, at: usize, who: &PeerAddress, service: GattServiceSpec) {
        let reply = self.call(at, Request::Advertise { address: who.clone(), service });
        unit_reply(reply, "advertise").expect("advertise should succeed");
    }

    fn connect(&mut self, at: usize, central: &PeerAddress, peer: &PeerAddress) -> u64 {
        let reply =
            self.call(at, Request::Connect { central: central.clone(), peer: peer.clone() });
        session_reply(reply).expect("connect should succeed")
    }

    fn subscribe(
        &mut self,
        at: usize,
        session: u64,
        central: &PeerAddress,
        peripheral: &PeerAddress,
        characteristic: CharacteristicUuid,
    ) -> u64 {
        let id = self.clients[at].remote.begin_subscribe();
        let reply = self.call(
            at,
            Request::Subscribe {
                session,
                central: central.clone(),
                peripheral: peripheral.clone(),
                characteristic,
                subscription_id: id,
            },
        );
        self.clients[at].remote.subscribe(id, reply).expect("subscribe should succeed");
        id
    }

    /// The connection of a client drops.
    fn kill(&mut self, at: usize) {
        let connection = self.clients[at].connection.take().expect("connected");
        for out in connection.handle_disconnect(&mut self.network) {
            self.emit(out);
        }
        self.clients[at].remote.on_closed();
    }
}

#[test]
fn mock_broker_central_discovers_and_reads_the_peripherals_advertised_service() {
    let mut broker = Broker::new(2);
    let (service_uuid, characteristic_uuid) = (service(), characteristic());
    let peripheral = broker.join(0, "peripheral-1");
    broker.advertise(
        0,
        &peripheral,
        offer(service_uuid, characteristic_uuid, true, true, true, b"hello"),
    );
    let central = broker.join(1, "central-1");
    let reply = broker.call(1, Request::Scan { requester: central.clone(), service: service_uuid });
    let (peers, failure) = scan_reply(reply).expect("scan should succeed");
    assert_eq!(failure, None);
    assert_eq!(peers[0].address, address("peripheral-1"));
    let session = broker.connect(1, &central, &peripheral);
    let reply = broker.call(
        1,
        Request::Read { session, central, peripheral, characteristic: characteristic_uuid },
    );
    assert_eq!(bytes_reply(reply).expect("read should succeed"), b"hello");
}

#[test]
fn mock_broker_write_from_central_is_readable_back_and_fires_a_lifecycle_event() {
    let mut broker = Broker::new(2);
    let (service_uuid, characteristic_uuid) = (service(), characteristic());
    let peripheral = broker.join(0, "peripheral-2");
    broker.advertise(
        0,
        &peripheral,
        offer(service_uuid, characteristic_uuid, true, true, false, b""),
    );
    let central = broker.join(1, "central-2");
    let session = broker.connect(1, &central, &peripheral);
    let reply = broker.call(
        1,
        Request::WriteWithType {
            session,
            central: central.clone(),
            peripheral: peripheral.clone(),
            characteristic: characteristic_uuid,
            value: b"updated".to_vec(),
            write_type: WriteType::WithResponse,
        },
    );
    unit_reply(reply, "write").expect("write should succeed");
    let event = broker.clients[0]
        .events
        .iter()
        .find(|event| !matches!(event, GattEvent::Connected { .. }))
        .expect("write event should arrive");
    match event {
        GattEvent::CharacteristicWritten { characteristic, value, .. } => {
            assert_eq!(*characteristic, characteristic_uuid);
            assert_eq!(value, b"updated");
        }
        other => panic!("expected CharacteristicWritten, got {other:?}"),
    }
    let reply = broker.call(
        1,
        Request::Read { session, central, peripheral, characteristic: characteristic_uuid },
    );
    assert_eq!(bytes_reply(reply).expect("read should succeed"), b"updated");
}

#[test]
fn mock_broker_server_initiated_notify_is_delivered_to_a_subscribed_central() {
    let mut broker = Broker::new(2);
    let (service_uuid, characteristic_uuid) = (service(), characteristic());
    let peripheral = broker.join(0, "peripheral-3");
    broker.advertise(
        0,
        &peripheral,
        offer(service_uuid, characteristic_uuid, false, false, true, b""),
    );
    let central = broker.join(1, "central-3");
    let session = broker.connect(1, &central, &peripheral);
    let id = broker.subscribe(1, session, &central, &peripheral, characteristic_uuid);
    let reply = broker.call(
        0,
        Request::Notify {
            address: peripheral,
            characteristic: characteristic_uuid,
            value: b"push".to_vec(),
        },
    );
    unit_reply(reply, "notify").expect("notify should succeed");
    let (to, item) = broker.clients[1].items.pop_front().expect("notification should arrive");
    assert_eq!(to, id);
    assert_eq!(item.expect("no gap"), b"push");
}

#[test]
fn killing_a_clients_connection_tells_the_survivor_it_disconnected() {
    let mut broker = Broker::new(2);
    let (service_uuid, characteristic_uuid) = (service(), characteristic());
    let peripheral = broker.join(0, "peripheral-killed");
    broker.advertise(
        0,
        &peripheral,
        offer(service_uuid, characteristic_uuid, false, false, true, b""),
    );
    let central = broker.join(1, "central-survivor");
    let session = broker.connect(1, &central, &peripheral);
    let connected = broker.clients[1].events.pop_front().expect("connected event");
    assert!(matches!(connected, GattEvent::Connected { .. }));
    broker.subscribe(1, session, &central, &peripheral, characteristic_uuid);
    broker.kill(0);
    match broker.clients[1].events.pop_front().expect("disconnect event should arrive") {
        GattEvent::Disconnected { peer, .. } => assert_eq!(peer, peripheral),
        other => panic!("expected Disconnected, got {other:?}"),
    }
}

#[test]
fn a_clients_own_connection_dying_ends_its_subscription_stream_instead_of_hanging() {
    let mut broker = Broker::new(2);
    let (service_uuid, characteristic_uuid) = (service(), characteristic());
    let peripheral = broker.join(0, "peripheral-central-dies");
    broker.advertise(
        0,
        &peripheral,
        offer(service_uuid, characteristic_uuid, false, false, true, b""),
    );
    let central = broker.join(1, "central-dies");
    let session = broker.connect(1, &central, &peripheral);
    let id = broker.subscribe(1, session, &central, &peripheral, characteristic_uuid);
    broker.kill(1);
    let envelope = push_item(id, Ok(b"late".to_vec()));
    let late = broker.clients[1].remote.on_frame(envelope.correlation_id, envelope.frame);
    assert!(matches!(late, Delivery::Nowhere), "the subscription is over");
}

#[test]
fn calls_that_wait_fail_when_the_connection_closes_and_none_begins() {
    let mut remote = RemoteClient::new();
    let waiting = remote.call().expect("open");
    assert_eq!(remote.on_closed(), vec![waiting]);
    assert!(matches!(remote.call(), Err(BleError::Transport(_))));
    let reply = unit_reply(Ok(RemoteClient::closed_response()), "advertise");
    assert!(matches!(reply, Err(BleError::Transport(_))));
}

#[test]
fn an_unexpected_answer_is_a_transport_error() {
    assert!(matches!(session_reply(Ok(Response::Unit)), Err(BleError::Transport(_))));
    assert!(matches!(bytes_reply(Ok(Response::Session(1))), Err(BleError::Transport(_))));
    assert!(matches!(scan_reply(Ok(Response::Unit)), Err(BleError::Transport(_))));
    assert!(matches!(unit_reply(Ok(Response::Bytes(vec![])), "notify"), Err(BleError::Transport(_))));
    let refused = unit_reply(Ok(Response::Failed(BleError::PeripheralUnsupported)), "advertise");
    assert!(matches!(refused, Err(BleError::PeripheralUnsupported)));
}

#[test]
fn a_frame_carries_its_length_in_front() {
    let frame = write_frame(b"{\"a\":1}").expect("short");
    assert_eq!(&frame[..4], &[0, 0, 0, 7]);
    assert_eq!(body_len(0x01, 0x02, 0x03, 0x04), 0x0102_0304);
    let mut buffer = frame.clone();
    buffer.extend_from_slice(b"rest");
    assert_eq!(read_frame(&buffer), Some((b"{\"a\":1}".to_vec(), 11)));
    assert_eq!(read_frame(&frame[..6]), None);
    assert_eq!(read_frame(&frame[..3]), None);
}
