//! Messages over the in-memory radio: a server and its centrals, driven step by step.

use std::collections::VecDeque;
use std::rc::Rc;

use ble_gatt::backend::mock::local::{Emission, MockNetwork, Notification};
use ble_gatt::backend::mock::{MockBackend, MOCK_ATT_MTU};
use ble_gatt::backend::max_write_len;
use ble_gatt::datagram::channel::{ends_link, CloseAction, DatagramChannel};
use ble_gatt::datagram::serve::{
    ConnectAction, ConnectEvent, ConnectStage, ServeAction, Server,
};
use ble_gatt::datagram::DatagramConfig;
use ble_gatt::{BleError, CapabilityReport, CharacteristicUuid, PeerAddress, ServiceUuid, WriteType};

type Item = Result<Vec<u8>, BleError>;

fn full_capabilities() -> CapabilityReport {
    CapabilityReport { central: true, peripheral: true }
}

fn config() -> DatagramConfig {
    DatagramConfig::new(
        ServiceUuid(uuid::Uuid::new_v4().as_u128()),
        CharacteristicUuid(uuid::Uuid::new_v4().as_u128()),
    )
}

fn address(text: &str) -> PeerAddress {
    PeerAddress(text.to_string())
}

/// A channel that a server handed out.
struct ServedSide {
    channel: DatagramChannel,
    peer: PeerAddress,
    session: Option<u64>,
    generation: u64,
    inbox: VecDeque<Item>,
    open: bool,
}

/// A running server.
struct ServerSide {
    address: PeerAddress,
    config: Rc<DatagramConfig>,
    server: Server,
    handed: Vec<ServedSide>,
    running: bool,
}

/// A central's end of a channel.
struct ClientSide {
    address: PeerAddress,
    peer: PeerAddress,
    channel: DatagramChannel,
    stage: Option<ConnectStage>,
    session: u64,
    config: Rc<DatagramConfig>,
    inbox: VecDeque<Item>,
    open: bool,
}

/// The radio and everyone on it.
struct World {
    network: MockNetwork,
    servers: Vec<ServerSide>,
    clients: Vec<ClientSide>,
    now: u128,
}

impl World {
    fn new() -> World {
        World { network: MockNetwork::new(), servers: Vec::new(), clients: Vec::new(), now: 0 }
    }

    fn join(&mut self, text: &str) -> MockBackend {
        MockBackend::new(address(text), &mut self.network, full_capabilities())
    }

    fn serve(&mut self, backend: &MockBackend, config: &Rc<DatagramConfig>) -> Result<usize, BleError> {
        let server = Server::new(config)?;
        backend.advertise(&mut self.network, config.service_spec())?;
        self.servers.push(ServerSide {
            address: backend.address.clone(),
            config: config.clone(),
            server,
            handed: Vec::new(),
            running: true,
        });
        Ok(self.servers.len() - 1)
    }

    /// Takes a dial as far as the connection.
    fn dial(&mut self, central: &PeerAddress, peer: &PeerAddress) -> Result<u64, BleError> {
        let (session, out) = self.network.connect(central, peer);
        self.deliver(out);
        session
    }

    fn connect(
        &mut self,
        backend: &MockBackend,
        peer: &PeerAddress,
        config: &Rc<DatagramConfig>,
    ) -> Result<usize, BleError> {
        let session = self.dial(&backend.address, peer)?;
        let (stage, action) = ConnectStage::Connecting.step(
            ConnectEvent::Connected { session: Some(session) },
            peer,
            config,
        );
        assert!(matches!(action, ConnectAction::Subscribe));
        let (subscribed, out) =
            self.network.subscribe(session, &backend.address, peer, config.characteristic);
        subscribed?;
        let (stage, action) = stage.step(
            ConnectEvent::Subscribed { max_write_len: max_write_len(MOCK_ATT_MTU) },
            peer,
            config,
        );
        let ConnectAction::Deliver(channel) = action else {
            panic!("a subscribed connection carries a channel");
        };
        self.clients.push(ClientSide {
            address: backend.address.clone(),
            peer: peer.clone(),
            channel,
            stage: Some(stage),
            session,
            config: config.clone(),
            inbox: VecDeque::new(),
            open: true,
        });
        let client = self.clients.len() - 1;
        self.deliver(out);
        Ok(client)
    }

    fn deliver(&mut self, out: Vec<Emission>) {
        let mut queue: VecDeque<Emission> = out.into();
        while let Some(Emission { to, event }) = queue.pop_front() {
            for client in self.clients.iter_mut() {
                if client.open
                    && client.address == to
                    && ends_link(&event, &client.peer, Some(client.session))
                {
                    client.channel.link_lost();
                    client.open = false;
                }
            }
            for at in 0..self.servers.len() {
                if !self.servers[at].running || self.servers[at].address != to {
                    continue;
                }
                let action = self.servers[at].server.on_event(&event);
                queue.extend(self.act(at, action));
            }
        }
    }

    fn act(&mut self, at: usize, action: ServeAction) -> Vec<Emission> {
        let now = self.now;
        let side = &mut self.servers[at];
        match action {
            ServeAction::Nothing => Vec::new(),
            ServeAction::Accept { peer, session, generation } => {
                side.handed.push(ServedSide {
                    channel: DatagramChannel::to_served_central(peer.clone(), session, &side.config),
                    peer,
                    session,
                    generation,
                    inbox: VecDeque::new(),
                    open: true,
                });
                Vec::new()
            }
            ServeAction::Refuse { peer, session } => {
                self.network.disconnect_peer(&side.address, &peer, session)
            }
            ServeAction::Deliver { value } => {
                let depth = side.config.inbound_queue_depth;
                let served = side.handed.last_mut().expect("someone is served");
                if let Some(item) = served.channel.inbound(Ok(value), now) {
                    let taken = served.inbox.len() < depth;
                    served.channel.on_offer(taken);
                    if taken {
                        served.inbox.push_back(item);
                    }
                }
                Vec::new()
            }
            ServeAction::Close { generation } => {
                close_served(side, generation);
                Vec::new()
            }
            ServeAction::Evict { peer, session, generation } => {
                close_served(side, generation);
                self.network.disconnect_peer(&side.address, &peer, session)
            }
        }
    }

    fn notify(&mut self, notification: Notification) {
        for client in self.clients.iter_mut() {
            if client.open && client.address == notification.central {
                let item = match &notification.item {
                    Ok(value) => Ok(value.clone()),
                    Err(e) => Err(e.clone()),
                };
                if let Some(item) = client.channel.inbound(item, self.now) {
                    client.inbox.push_back(item);
                }
            }
        }
    }

    fn client_send(&mut self, client: usize, payload: &[u8]) -> Result<(), BleError> {
        let side = &mut self.clients[client];
        let fragments = side.channel.send(payload.to_vec())?;
        let (session, from, to, characteristic) =
            (side.session, side.address.clone(), side.peer.clone(), side.config.characteristic);
        for fragment in fragments {
            let (written, out) = self.network.write_with_type(
                session,
                &from,
                &to,
                characteristic,
                fragment,
                WriteType::WithResponse,
            );
            self.deliver(out);
            written?;
        }
        Ok(())
    }

    fn served_send(&mut self, server: usize, served: usize, payload: &[u8]) -> Result<(), BleError> {
        let side = &mut self.servers[server];
        let fragments = side.handed[served].channel.send(payload.to_vec())?;
        let from = side.address.clone();
        let characteristic = side.config.characteristic;
        let to = side.handed[served].peer.clone();
        let session = side.handed[served].session;
        for fragment in fragments {
            let notification =
                self.network.notify_peer(&from, &to, session, characteristic, fragment)?;
            self.notify(notification);
        }
        Ok(())
    }

    /// The next item of a central: `None` once its channel has ended.
    fn client_recv(&mut self, client: usize) -> Option<Item> {
        let side = &mut self.clients[client];
        match side.inbox.pop_front() {
            Some(item) => Some(item),
            None => {
                assert!(!side.open, "nothing arrived and the channel is open");
                None
            }
        }
    }

    fn served_recv(&mut self, server: usize, served: usize) -> Option<Item> {
        let side = &mut self.servers[server].handed[served];
        match side.channel.report() {
            Some(lost) => Some(Err(lost)),
            None => side.inbox.pop_front(),
        }
    }

    /// The consumer lets go of a served channel.
    fn drop_served(&mut self, server: usize, served: usize) {
        let generation = self.servers[server].handed[served].generation;
        let action = self.servers[server].server.on_released(generation);
        let out = self.act(server, action);
        self.deliver(out);
    }

    /// The consumer lets go of a central's channel, which releases its connection.
    fn drop_client(&mut self, client: usize) {
        let side = &mut self.clients[client];
        side.open = false;
        let Some(stage) = side.stage.take() else { return };
        let (_, action) = stage.step(ConnectEvent::Abandoned, &side.peer, &side.config);
        assert!(matches!(action, ConnectAction::Disconnect));
        let (session, from, to) = (side.session, side.address.clone(), side.peer.clone());
        let (_, out) = self.network.disconnect(session, &from, &to);
        self.deliver(out);
    }

    fn lose_peer(&mut self, backend: &MockBackend, peer: &PeerAddress) {
        let out = backend.simulate_peer_loss(&mut self.network, peer);
        self.deliver(out);
    }
}

fn close_served(side: &mut ServerSide, generation: u64) {
    for served in side.handed.iter_mut() {
        if served.generation == generation {
            served.channel.link_lost();
            served.open = false;
        }
    }
}

/// A peripheral that serves `config` and a central connected to it: the server is number
/// 0 with one channel, the central number 0.
fn connected_pair(config: DatagramConfig) -> (World, Rc<DatagramConfig>) {
    let mut world = World::new();
    let peripheral = world.join("peripheral");
    let central = world.join("central");
    let config = Rc::new(config);
    world.serve(&peripheral, &config).expect("serve should start");
    world.connect(&central, &peripheral.address, &config).expect("connect should succeed");
    assert_eq!(world.servers[0].handed.len(), 1);
    (world, config)
}

fn received(item: Option<Item>) -> Vec<u8> {
    item.expect("channel open").expect("no error")
}

#[test]
fn a_message_smaller_than_one_fragment_round_trips() {
    let (mut world, _) = connected_pair(config());
    world.client_send(0, b"small").expect("send");
    assert_eq!(received(world.served_recv(0, 0)), b"small");
}

#[test]
fn an_empty_message_round_trips_rather_than_vanishing() {
    let (mut world, _) = connected_pair(config());
    world.client_send(0, b"").expect("send");
    assert!(received(world.served_recv(0, 0)).is_empty());
}

#[test]
fn a_message_spanning_many_fragments_reassembles_intact() {
    let (mut world, _) = connected_pair(config());
    let budget = world.clients[0].channel.fragment_budget();
    let payload: Vec<u8> = (0..=255u8).cycle().take(budget * 7 + 13).collect();
    assert!(payload.len() > budget, "test must actually fragment");
    world.client_send(0, &payload).expect("send");
    assert_eq!(received(world.served_recv(0, 0)), payload);
}

#[test]
fn a_message_of_exactly_one_fragment_budget_round_trips() {
    let (mut world, _) = connected_pair(config());
    let payload = vec![0xAB; world.clients[0].channel.fragment_budget()];
    world.client_send(0, &payload).expect("send");
    assert_eq!(received(world.served_recv(0, 0)), payload);
}

#[test]
fn several_messages_arrive_in_order_and_intact() {
    let (mut world, _) = connected_pair(config());
    let budget = world.clients[0].channel.fragment_budget();
    let messages = vec![b"first".to_vec(), vec![0x11; budget * 2 + 5], b"third".to_vec()];
    for message in &messages {
        world.client_send(0, message).expect("send");
    }
    for expected in &messages {
        assert_eq!(&received(world.served_recv(0, 0)), expected);
    }
}

#[test]
fn the_channel_is_bidirectional() {
    let (mut world, _) = connected_pair(config());
    world.client_send(0, b"ping").expect("central send");
    assert_eq!(received(world.served_recv(0, 0)), b"ping");
    world.served_send(0, 0, b"pong").expect("peripheral send");
    assert_eq!(received(world.client_recv(0)), b"pong");
}

#[test]
fn a_message_over_the_configured_limit_is_refused_before_it_is_sent() {
    let mut config = config();
    config.max_message_len = 64;
    let (mut world, _) = connected_pair(config);
    let error = world.client_send(0, &[0u8; 65]).expect_err("oversized message must be refused");
    assert!(error.message().contains("exceeds"));
    assert!(world.served_recv(0, 0).is_none());
}

#[test]
fn losing_the_peer_closes_the_channel_instead_of_hanging_forever() {
    let mut world = World::new();
    let config = Rc::new(config());
    let peripheral = world.join("peripheral-loss");
    let central = world.join("central-loss");
    world.serve(&peripheral, &config).expect("serve");
    let client = world.connect(&central, &peripheral.address, &config).expect("connect");
    world.lose_peer(&peripheral, &central.address);
    assert!(world.client_recv(client).is_none(), "channel should report closed, not a message");
}

#[test]
fn the_reported_message_limit_is_one_the_channel_can_actually_send() {
    let (world, _) = connected_pair(config());
    for channel in [&world.clients[0].channel, &world.servers[0].handed[0].channel] {
        let limit = channel.max_message_len();
        let capacity = channel.fragment_budget() * 65_535;
        assert!(limit <= capacity);
    }
}

#[test]
fn a_zero_queue_depth_is_rejected_rather_than_panicking() {
    let mut world = World::new();
    let backend = world.join("peripheral-zero");

    let mut zero_inbound = config();
    zero_inbound.inbound_queue_depth = 0;
    assert!(world.serve(&backend, &Rc::new(zero_inbound)).is_err());

    let mut zero_fragments = config();
    zero_fragments.fragment_queue_depth = 0;
    assert!(world.serve(&backend, &Rc::new(zero_fragments)).is_err());
}

#[test]
fn serving_and_dialling_on_one_backend_do_not_cross_over() {
    let mut world = World::new();
    let config = Rc::new(config());
    let both_roles = world.join("both-roles");
    let remote = world.join("remote-peripheral");
    remote.advertise(&mut world.network, config.service_spec()).expect("remote advertises");
    let server = world.serve(&both_roles, &config).expect("serve");
    world.connect(&both_roles, &remote.address, &config).expect("outbound connect");
    assert!(
        world.servers[server].handed.is_empty(),
        "the server yielded a channel for an outbound connection"
    );
}

#[test]
fn a_served_channel_stops_sending_once_its_peer_disconnects() {
    let mut world = World::new();
    let config = Rc::new(config());
    let peripheral = world.join("peripheral-stale");
    let central = world.join("central-stale");
    let server = world.serve(&peripheral, &config).expect("serve should start");
    let client = world.connect(&central, &peripheral.address, &config).expect("connect");
    world.served_send(server, 0, b"while-connected").expect("send while connected");
    world.drop_client(client);
    world.lose_peer(&peripheral, &central.address);
    assert!(world.served_send(server, 0, b"after-disconnect").is_err());
}

#[test]
fn stopping_the_server_releases_the_peer_it_was_serving() {
    let mut world = World::new();
    let config = Rc::new(config());
    let peripheral = world.join("peripheral-restart");
    let first_central = world.join("central-before");
    let server = world.serve(&peripheral, &config).expect("serve should start");
    world.connect(&first_central, &peripheral.address, &config).expect("connect");
    world.served_send(server, 0, b"while-serving").expect("send while serving");

    let out = world.network.stop_advertising(&peripheral.address);
    world.deliver(out);

    let restarted = world.serve(&peripheral, &config).expect("serve should restart");
    let second_central = world.join("central-after");
    let second = world.connect(&second_central, &peripheral.address, &config).expect("connect");
    assert_eq!(world.servers[restarted].handed.len(), 1);
    world.served_send(restarted, 0, b"to-the-new-central").expect("the new central is served");
    assert_eq!(received(world.client_recv(second)), b"to-the-new-central");
    assert!(world.served_send(server, 0, b"after-stop").is_err());
}

#[test]
fn inbound_overflow_is_reported_to_the_receiver_rather_than_lost_silently() {
    let mut config = config();
    config.fragment_queue_depth = 1;
    config.inbound_queue_depth = 1;
    let mut world = World::new();
    let config = Rc::new(config);
    let peripheral = world.join("peripheral-overflow");
    let central = world.join("central-overflow");
    let server = world.serve(&peripheral, &config).expect("serve should start");
    let client = world.connect(&central, &peripheral.address, &config).expect("connect");
    for i in 0..20u8 {
        if world.client_send(client, &[i; 8]).is_err() {
            break;
        }
    }
    let mut saw_error = false;
    for _ in 0..64 {
        match world.served_recv(server, 0) {
            Some(Err(_)) => {
                saw_error = true;
                break;
            }
            Some(Ok(_)) => continue,
            None => break,
        }
    }
    assert!(saw_error, "a receiver that overflows must be told its stream lost data");
}

#[test]
fn a_central_that_unsubscribes_frees_the_single_central_slot() {
    let mut world = World::new();
    let config = Rc::new(config());
    let peripheral = world.join("peripheral-unsub");
    let first = world.join("central-unsub");
    let server = world.serve(&peripheral, &config).expect("serve should start");
    world.connect(&first, &peripheral.address, &config).expect("connect");
    world.served_send(server, 0, b"while-subscribed").expect("send while subscribed");

    let out = world.network.simulate_unsubscribe(&peripheral.address, &first.address);
    world.deliver(out);

    let second = world.join("central-unsub-2");
    let client = world.connect(&second, &peripheral.address, &config).expect("connect");
    assert_eq!(world.servers[server].handed.len(), 2, "the slot must be free");
    world.served_send(server, 1, b"to-the-second").expect("the new central must be reachable");
    assert_eq!(received(world.client_recv(client)), b"to-the-second");
}

#[test]
fn a_server_can_greet_the_moment_it_is_handed_a_channel() {
    let mut world = World::new();
    let config = Rc::new(config());
    let peripheral = world.join("peripheral-greet");
    let central = world.join("central-greet");
    let server = world.serve(&peripheral, &config).expect("serve should start");
    let client = world.connect(&central, &peripheral.address, &config).expect("connect");
    world.served_send(server, 0, b"hello-from-the-server").expect("immediately usable");
    assert_eq!(received(world.client_recv(client)), b"hello-from-the-server");
}

#[test]
fn a_receiver_already_waiting_is_woken_when_inbound_data_is_lost() {
    let mut world = World::new();
    let config = Rc::new(config());
    let peripheral = world.join("peripheral-wake");
    let central = world.join("central-wake");
    world.serve(&peripheral, &config).expect("serve should start");
    let client = world.connect(&central, &peripheral.address, &config).expect("connect");
    let gap = world.network.simulate_notification_gap(&peripheral.address, &central.address);
    for notification in gap {
        world.notify(notification);
    }
    assert!(matches!(world.client_recv(client), Some(Err(_))));
    assert!(world.clients[client].open, "the loss must not close the channel");
}

#[test]
fn dropping_a_served_channel_frees_the_slot_for_the_next_central() {
    let mut world = World::new();
    let config = Rc::new(config());
    let peripheral = world.join("peripheral-drop-slot");
    let first = world.join("central-drop-slot-1");
    let server = world.serve(&peripheral, &config).expect("serve should start");
    world.connect(&first, &peripheral.address, &config).expect("connect");
    world.drop_served(server, 0);

    let second = world.join("central-drop-slot-2");
    let client = world.connect(&second, &peripheral.address, &config).expect("connect");
    assert_eq!(world.servers[server].handed.len(), 2, "the freed slot must admit the next");
    world.served_send(server, 1, b"to-the-second").expect("must be reachable");
    assert_eq!(received(world.client_recv(client)), b"to-the-second");
}

#[test]
fn a_stale_channel_drop_does_not_evict_the_reconnected_peer() {
    let mut world = World::new();
    let config = Rc::new(config());
    let peripheral = world.join("peripheral-reuse");
    let first = world.join("central-reuse");
    let server = world.serve(&peripheral, &config).expect("serve should start");
    let first_client = world.connect(&first, &peripheral.address, &config).expect("connect");
    world.drop_client(first_client);
    world.lose_peer(&peripheral, &first.address);

    let second = world.join("central-reuse");
    let client = world.connect(&second, &peripheral.address, &config).expect("reconnect");
    assert_eq!(world.servers[server].handed.len(), 2);
    world.drop_served(server, 0);
    world.served_send(server, 1, b"still-serving").expect("must survive the older channel");
    assert_eq!(received(world.client_recv(client)), b"still-serving");
}

#[test]
fn a_release_survives_a_saturated_accept_queue() {
    let mut config = config();
    config.accept_queue_depth = 1;
    let mut world = World::new();
    let config = Rc::new(config);
    let peripheral = world.join("peripheral-relqueue");
    let server = world.serve(&peripheral, &config).expect("serve should start");
    let first = world.join("central-relqueue");
    let first_client = world.connect(&first, &peripheral.address, &config).expect("connect");
    world.drop_client(first_client);
    world.lose_peer(&peripheral, &first.address);
    let second = world.join("central-relqueue");
    let second_client = world.connect(&second, &peripheral.address, &config).expect("reconnect");
    assert_eq!(world.servers[server].handed.len(), 2);
    world.drop_served(server, 0);
    world.drop_served(server, 1);
    world.drop_client(second_client);
    let third = world.join("central-relqueue-3");
    world.connect(&third, &peripheral.address, &config).expect("connect");
    assert_eq!(world.servers[server].handed.len(), 3, "the slot must be free");
}

#[test]
fn a_lagged_lifecycle_stream_ends_the_served_session_rather_than_stranding_it() {
    let mut world = World::new();
    let config = Rc::new(config());
    let peripheral = world.join("peripheral-lag");
    let first = world.join("central-lag");
    let server = world.serve(&peripheral, &config).expect("serve should start");
    world.connect(&first, &peripheral.address, &config).expect("connect");
    world.served_send(server, 0, b"while-healthy").expect("send while healthy");

    let out = world.network.simulate_event_lag(&peripheral.address, 12);
    world.deliver(out);
    assert!(world.served_send(server, 0, b"after-lag").is_err());

    let second = world.join("central-lag-2");
    let client = world.connect(&second, &peripheral.address, &config).expect("connect");
    assert_eq!(world.servers[server].handed.len(), 2);
    world.served_send(server, 1, b"to-the-second").expect("send to new central");
    assert_eq!(received(world.client_recv(client)), b"to-the-second");
}

#[test]
fn abandoning_connect_mid_setup_still_releases_the_connection() {
    let mut world = World::new();
    let config = Rc::new(config());
    let peripheral = world.join("peripheral-cancel");
    peripheral.advertise(&mut world.network, config.service_spec()).expect("advertise");
    let central = world.join("central-cancel");
    world.network.stall_subscribe(30_000_000_000);

    let session = world.dial(&central.address, &peripheral.address).expect("connect");
    let (stage, _) = ConnectStage::Connecting.step(
        ConnectEvent::Connected { session: Some(session) },
        &peripheral.address,
        &config,
    );
    let stall = world.network.begin_subscribe(session, &central.address, &peripheral.address);
    assert_eq!(stall.expect("the connection stands"), Some(30_000_000_000));
    let (_, action) = stage.step(ConnectEvent::Abandoned, &peripheral.address, &config);
    assert!(matches!(action, ConnectAction::Disconnect));
    let (_, out) = world.network.disconnect(session, &central.address, &peripheral.address);
    world.deliver(out);
    assert!(world.network.disconnected_peers().contains(&peripheral.address));
}

#[test]
fn dropping_a_central_channel_without_close_still_disconnects_it() {
    let mut world = World::new();
    let config = Rc::new(config());
    let peripheral = world.join("peripheral-drop-channel");
    peripheral.advertise(&mut world.network, config.service_spec()).expect("advertise");
    let central = world.join("central-drop-channel");
    let client = world.connect(&central, &peripheral.address, &config).expect("connect");
    assert_eq!(world.clients[client].channel.close(), CloseAction::Disconnect);
    world.drop_client(client);
    assert!(world.network.disconnected_peers().contains(&peripheral.address));
}

#[test]
fn a_central_parked_in_recv_is_released_when_lifecycle_events_lag() {
    let mut world = World::new();
    let config = Rc::new(config());
    let peripheral = world.join("peripheral-clag");
    let central = world.join("central-clag");
    world.serve(&peripheral, &config).expect("serve should start");
    let client = world.connect(&central, &peripheral.address, &config).expect("connect");
    let out = world.network.simulate_event_lag(&central.address, 9);
    world.deliver(out);
    let outcome = world.client_recv(client);
    assert!(outcome.is_none() || outcome.map(|item| item.is_err()).unwrap_or(false));
}

#[test]
fn a_loss_event_from_a_replaced_connection_does_not_kill_its_successor() {
    let mut world = World::new();
    let config = Rc::new(config());
    let peripheral = world.join("peripheral-stale-loss");
    let central = world.join("central-stale-loss");
    let server = world.serve(&peripheral, &config).expect("serve should start");
    let first = world.connect(&central, &peripheral.address, &config).expect("connect");
    let stale_session = world.clients[first].channel.session().expect("a session");
    world.drop_client(first);
    world.drop_served(server, 0);

    let second = world.connect(&central, &peripheral.address, &config).expect("reconnect");
    assert_eq!(world.servers[server].handed.len(), 2);
    let out = world.network.simulate_loss_for_session(
        &central.address,
        &peripheral.address,
        stale_session,
    );
    world.deliver(out);
    world.served_send(server, 1, b"still-alive").expect("must still be usable");
    assert_eq!(received(world.client_recv(second)), b"still-alive");
}

#[test]
fn advertised_manufacturer_data_reaches_a_scanner_through_serve() {
    let mut world = World::new();
    let mut config = config();
    config.advertised_manufacturer_data.insert(0xABCDu16, vec![0x01]);
    let config = Rc::new(config);
    let peripheral = world.join("peripheral-config-adv");
    world.serve(&peripheral, &config).expect("serve should start");
    let central = world.join("central-config-adv");
    let mut items = central.scan(&mut world.network, config.service).into_iter();
    let peer = items.next().expect("a peer").expect("no error");
    assert_eq!(peer.manufacturer_data.get(&0xABCD), Some(&vec![0x01]));
}

#[test]
fn a_second_central_is_refused_and_the_first_keeps_its_channel() {
    let (mut world, config) = connected_pair(config());
    let peripheral = address("peripheral");
    let intruder = world.join("intruder");
    let late = world.connect(&intruder, &peripheral, &config).expect("the radio connects it");
    assert_eq!(world.servers[0].handed.len(), 1);
    assert!(world.client_recv(late).is_none(), "the second central was dropped");
    world.served_send(0, 0, b"private").expect("send");
    assert_eq!(received(world.client_recv(0)), b"private");
}

#[test]
fn an_expired_partial_message_is_forgotten() {
    let (mut world, config) = connected_pair(config());
    let fragments = world.clients[0].channel.send(vec![7u8; 1000]).expect("send");
    assert!(fragments.len() > 1);
    let characteristic = config.characteristic;
    let session = world.clients[0].session;
    let (central, peripheral) = (address("central"), address("peripheral"));
    for fragment in fragments.iter().take(1) {
        let (_, out) = world.network.write_with_type(
            session,
            &central,
            &peripheral,
            characteristic,
            fragment.clone(),
            WriteType::WithResponse,
        );
        world.deliver(out);
    }
    world.now = config.reassembly_timeout + 1;
    world.servers[0].handed[0].channel.expire(world.now);
    for fragment in fragments.iter().skip(1) {
        let (_, out) = world.network.write_with_type(
            session,
            &central,
            &peripheral,
            characteristic,
            fragment.clone(),
            WriteType::WithResponse,
        );
        world.deliver(out);
    }
    assert!(world.served_recv(0, 0).is_none());
}

#[test]
fn a_message_over_the_limit_is_refused_for_its_size_on_a_lost_link_too() {
    let mut config = config();
    config.max_message_len = 64;
    let (mut world, _) = connected_pair(config);
    let channel = &mut world.clients[0].channel;
    channel.link_lost();
    let error = channel.send(vec![0u8; 65]).expect_err("too long");
    assert!(error.message().contains("exceeds"));
    let error = channel.send(vec![0u8; 64]).expect_err("no link");
    assert!(matches!(error, BleError::NotConnected(_)));
}

#[test]
fn a_gap_in_what_arrives_is_told_once() {
    let (mut world, _) = connected_pair(config());
    let channel = &mut world.servers[0].handed[0].channel;
    channel.on_offer(true);
    assert!(channel.report().is_none());
    channel.on_offer(false);
    channel.on_offer(false);
    channel.on_offer(true);
    let gap = channel.report().expect("a fragment was lost");
    assert!(matches!(&gap, BleError::Gatt(text) if text.contains("overflow")), "{}", gap.message());
    assert!(channel.report().is_none());
}
