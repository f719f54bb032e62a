//! Links that are kept alive over the in-memory radio.

use std::collections::VecDeque;
use std::rc::Rc;

use ble_gatt::backend::max_write_len;
use ble_gatt::backend::mock::local::{Emission, MockNetwork};
use ble_gatt::backend::mock::{MockBackend, MOCK_ATT_MTU};
use ble_gatt::datagram::channel::DatagramChannel;
use ble_gatt::datagram::DatagramConfig;
use ble_gatt::peer_link::driver::{Input, LinkAction};
use ble_gatt::peer_link::{discovered_addresses, pump_step, send_refused, PumpAction, PumpEvent, QueueRefusal};
use ble_gatt::{
    BleError, CapabilityReport, CharacteristicUuid, DiscoveredPeer, GattCharacteristicSpec,
    GattEvent, GattServiceSpec, LinkId, LinkRole, MaxLinks, PeerAddress, PeerLink, PeerLinkConfig,
    PeerLinkEvent, PeerStatus, RadioStatus, RetryBudget, ServiceUuid, WriteType,
};

const SERVICE: u128 = 0xb1e6a000_f101_4000_8000_00805f9b34fb;
const CHARACTERISTIC: u128 = 0xb1e6a001_f101_4000_8000_00805f9b34fb;
const MILLI: u128 = 1_000_000;

fn caps() -> CapabilityReport {
    CapabilityReport { central: true, peripheral: true }
}

fn address(text: &str) -> PeerAddress {
    PeerAddress(text.to_string())
}

fn datagram_config() -> DatagramConfig {
    DatagramConfig::new(ServiceUuid(SERVICE), CharacteristicUuid(CHARACTERISTIC))
}

fn peer_link_config(retry: RetryBudget, max_links: usize) -> PeerLinkConfig {
    PeerLinkConfig {
        datagram: datagram_config(),
        role: LinkRole::DialOnly,
        retry_budget: retry,
        max_links: MaxLinks(max_links),
    }
}

fn tight_budget() -> RetryBudget {
    RetryBudget {
        backoff: vec![50 * MILLI, 100 * MILLI],
        give_up_after: 400 * MILLI,
        acceptor_deadline: 400 * MILLI,
    }
}

fn advertise_peripheral(network: &mut MockNetwork, name: &str) -> MockBackend {
    let peripheral = MockBackend::new(address(name), network, caps());
    peripheral
        .advertise(
            network,
            GattServiceSpec::new(
                ServiceUuid(SERVICE),
                vec![GattCharacteristicSpec {
                    uuid: CharacteristicUuid(CHARACTERISTIC),
                    readable: true,
                    writable: true,
                    notifiable: true,
                    initial_value: vec![],
                }],
            ),
        )
        .expect("advertise");
    peripheral
}

/// A link that stands.
struct Standing {
    peer: PeerAddress,
    session: u64,
    channel: DatagramChannel,
}

/// The driver on a radio, with what it asks for carried out.
struct World {
    network: MockNetwork,
    central: MockBackend,
    link: PeerLink,
    config: Rc<DatagramConfig>,
    events: VecDeque<PeerLinkEvent>,
    links: Vec<Standing>,
    /// Dials that hang.
    hanging: Vec<PeerAddress>,
    /// Dials that fail.
    unreachable: Vec<PeerAddress>,
    now: u128,
    seed: u64,
}

impl World {
    fn new(network: MockNetwork, central: MockBackend, config: PeerLinkConfig) -> World {
        let (link, started) = PeerLink::with_backend(config);
        let mut world = World {
            network,
            central,
            link,
            config: Rc::new(datagram_config()),
            events: VecDeque::new(),
            links: Vec::new(),
            hanging: Vec::new(),
            unreachable: Vec::new(),
            now: 1_000 * MILLI,
            seed: 0,
        };
        world.perform(vec![started]);
        world
    }

    fn turn(&mut self, input: Input) {
        let seed = self.seed;
        self.seed += 1_000;
        let actions = self.link.run(input, self.now, seed);
        self.perform(actions);
    }

    fn perform(&mut self, actions: Vec<LinkAction>) {
        let mut inputs: Vec<Input> = Vec::new();
        for action in actions {
            match action {
                LinkAction::Emit(event) => self.events.push_back(event),
                LinkAction::Dial { peer, .. } => inputs.extend(self.dial(peer)),
                LinkAction::DropLink { peer } => self.drop_link(&peer),
                LinkAction::DropChannel { .. } => {}
            }
        }
        for input in inputs {
            self.turn(input);
        }
    }

    fn dial(&mut self, peer: PeerAddress) -> Option<Input> {
        if self.central.connect_delay(&peer) > 0 {
            self.hanging.push(peer);
            return None;
        }
        if self.unreachable.contains(&peer) {
            let outcome = Err(BleError::NotConnected(peer.0.clone()));
            return Some(Input::Dialled { peer, outcome });
        }
        let me = self.central.address.clone();
        let (session, _) = self.network.connect(&me, &peer);
        let outcome = session.and_then(|session| {
            self.network.subscribe(session, &me, &peer, self.config.characteristic).0?;
            let channel = DatagramChannel::over_connection(
                peer.clone(),
                Some(session),
                &self.config,
                max_write_len(MOCK_ATT_MTU),
            )?;
            let len = channel.max_message_len();
            self.links.push(Standing { peer: peer.clone(), session, channel });
            Ok(len)
        });
        Some(Input::Dialled { peer, outcome })
    }

    fn drop_link(&mut self, peer: &PeerAddress) {
        if let Some(at) = self.links.iter().position(|l| &l.peer == peer) {
            let standing = self.links.remove(at);
            self.network.disconnect(standing.session, &self.central.address, peer);
        }
    }

    fn track(&mut self, name: &str) {
        self.turn(Input::Track { peer: address(name), peer_id: LinkId::from(name) });
    }

    fn radio(&mut self, status: RadioStatus) {
        let out: Vec<Emission> = self.network.simulate_radio(&self.central.address, status);
        for emission in out {
            self.turn(Input::Backend(emission.event));
        }
    }

    fn status(&self, name: &str) -> PeerStatus {
        self.link.status(&address(name))
    }

    fn ups(&self, name: &str) -> usize {
        self.events
            .iter()
            .filter(|e| matches!(e, PeerLinkEvent::Up { peer, .. } if peer.0 == name))
            .count()
    }

    fn downs(&self, name: &str) -> usize {
        self.events
            .iter()
            .filter(|e| matches!(e, PeerLinkEvent::Down { peer } if peer.0 == name))
            .count()
    }
}

fn world(peers: &[&str], budget: RetryBudget, max_links: usize) -> World {
    let mut network = MockNetwork::new();
    for peer in peers {
        advertise_peripheral(&mut network, peer);
    }
    let central = MockBackend::new(address("me"), &mut network, caps());
    World::new(network, central, peer_link_config(budget, max_links))
}

#[test]
fn tracking_a_peer_yields_a_working_channel() {
    let mut world = world(&["peer-a"], tight_budget(), 4);
    world.track("peer-a");
    assert_eq!(world.ups("peer-a"), 1);
    assert_eq!(world.status("peer-a"), PeerStatus::Connected);
    let fragments = world.links[0].channel.send(b"hello".to_vec()).expect("send");
    let session = world.links[0].session;
    for fragment in fragments {
        let (sent, _) = world.network.write_with_type(
            session,
            &address("me"),
            &address("peer-a"),
            CharacteristicUuid(CHARACTERISTIC),
            fragment,
            WriteType::WithResponse,
        );
        sent.expect("send");
    }
}

#[test]
fn one_wedged_peer_does_not_stall_the_others() {
    let mut network = MockNetwork::new();
    advertise_peripheral(&mut network, "stuck");
    advertise_peripheral(&mut network, "fine");
    let mut central = MockBackend::new(address("me"), &mut network, caps());
    central.stall_connect(&address("stuck"), 30_000 * MILLI);
    let mut world = World::new(network, central, peer_link_config(tight_budget(), 4));
    world.track("stuck");
    world.track("fine");
    assert_eq!(world.hanging, vec![address("stuck")]);
    assert_eq!(world.ups("fine"), 1);
    assert_eq!(world.status("fine"), PeerStatus::Connected);
    assert_ne!(world.status("stuck"), PeerStatus::Connected);
}

#[test]
fn untracking_drops_the_link() {
    let mut world = world(&["peer-u"], tight_budget(), 4);
    world.track("peer-u");
    assert_eq!(world.ups("peer-u"), 1);
    world.turn(Input::Untrack { peer: address("peer-u") });
    assert_eq!(world.downs("peer-u"), 1);
    assert_eq!(world.status("peer-u"), PeerStatus::Untracked);
    assert!(world.links.is_empty());
}

#[test]
fn a_radio_toggle_drops_links_and_re_establishes_them() {
    let mut world = world(&["peer-r"], tight_budget(), 4);
    world.track("peer-r");
    assert_eq!(world.ups("peer-r"), 1);
    world.radio(RadioStatus::Off);
    assert_eq!(world.downs("peer-r"), 1);
    assert_eq!(world.link.radio(), RadioStatus::Off);
    assert_eq!(world.status("peer-r"), PeerStatus::Unavailable);
    world.radio(RadioStatus::On);
    assert_eq!(world.ups("peer-r"), 2);
    assert_eq!(world.link.radio(), RadioStatus::On);
    assert_eq!(world.status("peer-r"), PeerStatus::Connected);
}

#[test]
fn max_links_queues_the_overflow_and_promotes_on_a_free_slot() {
    let mut world = world(&["aaa", "bbb"], tight_budget(), 1);
    world.track("aaa");
    world.track("bbb");
    let up = world
        .events
        .iter()
        .position(|e| matches!(e, PeerLinkEvent::Up { peer, .. } if peer.0 == "aaa"))
        .expect("up");
    assert!(world.events.iter().skip(up).any(|e| matches!(
        e,
        PeerLinkEvent::Status { peer, status: PeerStatus::Queued } if peer.0 == "bbb"
    )));
    assert_eq!(world.ups("bbb"), 0);
    world.turn(Input::Untrack { peer: address("aaa") });
    assert_eq!(world.ups("bbb"), 1);
}

#[test]
fn a_failed_dial_waits_longer_each_time_and_then_gives_up() {
    let mut world = world(&[], tight_budget(), 4);
    world.unreachable.push(address("far"));
    world.track("far");
    assert_eq!(world.status("far"), PeerStatus::Waiting);
    world.now += 49 * MILLI;
    world.turn(Input::Tick);
    assert_eq!(world.status("far"), PeerStatus::Waiting);
    world.now += MILLI;
    world.turn(Input::Tick);
    world.now += 99 * MILLI;
    world.turn(Input::Tick);
    assert_eq!(world.status("far"), PeerStatus::Waiting);
    world.now += 400 * MILLI;
    world.turn(Input::Tick);
    assert_eq!(world.status("far"), PeerStatus::GaveUp);
    world.unreachable.clear();
    world.turn(Input::Tick);
    assert_eq!(world.ups("far"), 0, "a peer that was given up is not dialled");

    advertise_peripheral(&mut world.network, "far");
    world.turn(Input::Retry { peer: address("far") });
    assert_eq!(world.ups("far"), 1);
    assert_eq!(world.status("far"), PeerStatus::Connected);
}

#[test]
fn without_a_ladder_nothing_is_redialled() {
    let budget = RetryBudget { backoff: vec![], ..tight_budget() };
    let mut world = world(&[], budget, 4);
    world.unreachable.push(address("far"));
    world.track("far");
    assert_eq!(world.status("far"), PeerStatus::GaveUp);
}

#[test]
fn an_acceptor_waits_for_its_deadline_and_never_dials() {
    let mut network = MockNetwork::new();
    advertise_peripheral(&mut network, "dialler");
    let central = MockBackend::new(address("me"), &mut network, caps());
    let config = PeerLinkConfig { role: LinkRole::AcceptOnly, ..peer_link_config(tight_budget(), 4) };
    let mut world = World::new(network, central, config);
    world.track("dialler");
    assert_eq!(world.status("dialler"), PeerStatus::Connecting);
    world.now += 400 * MILLI;
    world.turn(Input::Tick);
    assert_eq!(world.status("dialler"), PeerStatus::GaveUp);
    assert_eq!(world.ups("dialler"), 0);
}

#[test]
fn the_lower_id_dials() {
    let role = LinkRole::Symmetric { local_id: LinkId::from("m") };
    assert!(role.dials(&LinkId::from("n")));
    assert!(!role.dials(&LinkId::from("l")));
    assert!(!role.dials(&LinkId::from("m")));
    assert!(LinkRole::DialOnly.dials(&LinkId::from("a")));
    assert!(!LinkRole::AcceptOnly.dials(&LinkId::from("z")));
}

#[test]
fn a_lost_link_is_reported_once_and_redialled() {
    let mut world = world(&["peer-l"], tight_budget(), 4);
    world.track("peer-l");
    world.links.clear();
    world.turn(Input::LinkGone { peer: address("peer-l") });
    assert_eq!(world.downs("peer-l"), 1);
    assert_eq!(world.ups("peer-l"), 2);
    world.turn(Input::LinkGone { peer: address("stranger") });
    assert_eq!(world.downs("stranger"), 0);
}

#[test]
fn a_channel_that_comes_too_late_is_let_go_of() {
    let mut world = world(&["peer-x"], tight_budget(), 4);
    world.central.stall_connect(&address("peer-x"), 1);
    world.track("peer-x");
    world.turn(Input::Untrack { peer: address("peer-x") });
    let actions = world.link.on_dial_result(&address("peer-x"), Ok(20), world.now);
    assert!(matches!(&actions[..], [LinkAction::DropChannel { peer }] if peer.0 == "peer-x"));
}

#[test]
fn an_unchanged_status_is_told_once() {
    let mut world = world(&["peer-s"], tight_budget(), 4);
    world.track("peer-s");
    let told = world.events.len();
    world.turn(Input::Tick);
    world.turn(Input::Tick);
    assert_eq!(world.events.len(), told);
}

#[test]
fn shutting_down_takes_every_link_down() {
    let mut world = world(&["p", "q"], tight_budget(), 4);
    world.track("p");
    world.track("q");
    let actions = world.link.shut_down();
    assert_eq!(actions.len(), 2);
    assert!(actions.iter().all(|a| matches!(a, LinkAction::DropLink { .. })));
}

#[test]
fn without_an_adapter_everything_is_unavailable() {
    let (mut link, started) = PeerLink::without_adapter(peer_link_config(tight_budget(), 4));
    assert!(matches!(
        started,
        LinkAction::Emit(PeerLinkEvent::RadioChanged { status: RadioStatus::Unsupported })
    ));
    link.run(Input::Track { peer: address("p"), peer_id: LinkId::from("p") }, 0, 0);
    assert_eq!(link.status(&address("p")), PeerStatus::Unavailable);
    assert!(matches!(link.discover(), Err(BleError::AdapterUnavailable(_))));
}

#[test]
fn a_full_queue_is_told_apart_from_a_closed_one() {
    let full = send_refused(&address("p"), QueueRefusal::Full);
    assert!(matches!(&full, BleError::GattBusy(text) if text == "send queue full for p"));
    let closed = send_refused(&address("p"), QueueRefusal::Closed);
    assert!(matches!(closed, BleError::NotConnected(peer) if peer == "p"));
}

#[test]
fn a_links_keeper_passes_messages_on_and_stops_with_either_side() {
    assert!(matches!(pump_step(PumpEvent::Send(vec![1])), PumpAction::Send(v) if v == vec![1]));
    assert!(matches!(pump_step(PumpEvent::Received(Ok(vec![2]))), PumpAction::Deliver(Ok(v)) if v == vec![2]));
    for event in [
        PumpEvent::TearDown,
        PumpEvent::HandleDropped,
        PumpEvent::ChannelClosed,
        PumpEvent::ReaderGone,
    ] {
        assert!(matches!(pump_step(event), PumpAction::Stop));
    }
}

#[test]
fn a_failed_discovery_is_no_shorter_list() {
    let found = |name: &str| -> Result<DiscoveredPeer, BleError> {
        Ok(DiscoveredPeer {
            address: address(name),
            name: None,
            services: vec![],
            manufacturer_data: Default::default(),
            service_data: Default::default(),
            rssi: None,
        })
    };
    let list = discovered_addresses(&vec![found("a"), found("b")]).expect("no error");
    assert_eq!(list, vec![address("a"), address("b")]);
    let failed = vec![found("a"), Err(BleError::Gatt("off".to_string())), found("b")];
    assert!(matches!(discovered_addresses(&failed), Err(BleError::Gatt(text)) if text == "off"));
}

#[test]
fn the_default_budget_and_limit() {
    let budget = RetryBudget::default();
    assert_eq!(
        budget.backoff,
        vec![1_000 * MILLI, 2_000 * MILLI, 4_000 * MILLI, 8_000 * MILLI, 30_000 * MILLI]
    );
    assert_eq!(budget.give_up_after, 60_000 * MILLI);
    assert_eq!(budget.acceptor_deadline, 60_000 * MILLI);
    assert_eq!(MaxLinks::default(), MaxLinks(4));
}

#[test]
fn a_drop_of_an_unlinked_peer_changes_no_status() {
    let mut world = world(&["peer-d"], tight_budget(), 4);
    world.track("peer-d");
    world.turn(Input::Backend(GattEvent::Disconnected {
        peer: address("peer-d"),
        local_role: ble_gatt::Role::Central,
        session: None,
    }));
    assert_eq!(world.status("peer-d"), PeerStatus::Connected);
    assert_eq!(world.downs("peer-d"), 0);
}

fn accepting(role: LinkRole, budget: RetryBudget, max_links: usize) -> World {
    let mut network = MockNetwork::new();
    let central = MockBackend::new(address("me"), &mut network, caps());
    let config = PeerLinkConfig { role, ..peer_link_config(budget, max_links) };
    World::new(network, central, config)
}

fn inbound(name: &str) -> Input {
    Input::Accepted { peer: address(name), max_message_len: 100 }
}

#[test]
fn a_queue_is_told_of_once_the_link_ahead_of_it_is_up() {
    let mut world = world(&["aaa", "bbb"], tight_budget(), 1);
    world.central.stall_connect(&address("aaa"), 1);
    world.track("aaa");
    world.track("bbb");
    assert_eq!(world.status("bbb"), PeerStatus::Connecting);
    world.turn(Input::Dialled { peer: address("aaa"), outcome: Ok(20) });
    assert_eq!(world.status("bbb"), PeerStatus::Queued);
    let up = world.events.iter().position(|e| matches!(e, PeerLinkEvent::Up { .. }));
    let queued = world
        .events
        .iter()
        .position(|e| matches!(e, PeerLinkEvent::Status { status: PeerStatus::Queued, .. }));
    assert!(up.expect("up") < queued.expect("queued"));
}

#[test]
fn a_peer_that_was_not_dialled_is_not_given_up() {
    let mut world = world(&["aaa", "bbb"], tight_budget(), 1);
    world.track("aaa");
    world.track("bbb");
    world.now += 10_000 * MILLI;
    world.turn(Input::Tick);
    assert_eq!(world.status("bbb"), PeerStatus::Queued);
    world.turn(Input::Untrack { peer: address("aaa") });
    assert_eq!(world.ups("bbb"), 1);
}

#[test]
fn patience_runs_from_the_first_failed_dial() {
    let mut world = world(&[], tight_budget(), 4);
    world.central.stall_connect(&address("slow"), 1);
    world.track("slow");
    world.now += 5_000 * MILLI;
    world.turn(Input::Tick);
    assert_eq!(world.status("slow"), PeerStatus::Connecting, "the dial is still under way");
    let failed = Err(BleError::NotConnected("slow".to_string()));
    world.turn(Input::Dialled { peer: address("slow"), outcome: failed });
    assert_eq!(world.status("slow"), PeerStatus::Waiting);
    world.now += 399 * MILLI;
    world.turn(Input::Tick);
    assert_ne!(world.status("slow"), PeerStatus::GaveUp);
    world.now += MILLI;
    world.turn(Input::Tick);
    assert_eq!(world.status("slow"), PeerStatus::GaveUp);
}

#[test]
fn an_inbound_link_comes_up_and_ends_giving_up() {
    let mut world = accepting(LinkRole::AcceptOnly, tight_budget(), 4);
    world.track("dialler");
    world.now += 400 * MILLI;
    world.turn(Input::Tick);
    assert_eq!(world.status("dialler"), PeerStatus::GaveUp);
    world.turn(inbound("dialler"));
    assert_eq!(world.ups("dialler"), 1);
    assert_eq!(world.status("dialler"), PeerStatus::Connected);
    world.now += 10_000 * MILLI;
    world.turn(Input::Tick);
    assert_eq!(world.status("dialler"), PeerStatus::Connected);
    world.turn(Input::LinkGone { peer: address("dialler") });
    assert_eq!(world.downs("dialler"), 1);
    assert_eq!(world.status("dialler"), PeerStatus::Connecting);
}

#[test]
fn without_a_ladder_an_inbound_link_is_still_accepted() {
    let budget = RetryBudget { backoff: vec![], ..tight_budget() };
    let role = LinkRole::Symmetric { local_id: LinkId::from("a") };
    let mut world = accepting(role, budget, 4);
    world.unreachable.push(address("far"));
    world.track("far");
    assert_eq!(world.status("far"), PeerStatus::GaveUp);
    world.turn(inbound("far"));
    assert_eq!(world.ups("far"), 1);
    assert_eq!(world.status("far"), PeerStatus::Connected);
}

#[test]
fn an_inbound_link_takes_the_place_of_a_dial_under_way() {
    let role = LinkRole::Symmetric { local_id: LinkId::from("a") };
    let mut world = accepting(role, tight_budget(), 1);
    world.central.stall_connect(&address("peer"), 1);
    world.track("peer");
    world.turn(inbound("peer"));
    assert_eq!(world.ups("peer"), 1);
    let late = world.link.on_dial_result(&address("peer"), Ok(20), world.now);
    assert!(matches!(&late[..], [LinkAction::DropChannel { peer }] if peer.0 == "peer"));
    let failed = Err(BleError::NotConnected("peer".to_string()));
    world.turn(Input::Dialled { peer: address("peer"), outcome: failed });
    assert_eq!(world.status("peer"), PeerStatus::Connected);
    world.turn(Input::Untrack { peer: address("peer") });
    assert_eq!(world.downs("peer"), 1);
}

#[test]
fn an_inbound_link_without_a_place_is_let_go_of() {
    let refused = |world: &mut World, name: &str| {
        let now = world.now;
        let actions = world.link.on_accepted(&address(name), 100, now);
        assert!(matches!(&actions[..], [LinkAction::DropChannel { peer }] if peer.0 == name));
    };
    let mut dials_only = accepting(LinkRole::DialOnly, tight_budget(), 4);
    dials_only.unreachable.push(address("p"));
    dials_only.track("p");
    refused(&mut dials_only, "p");

    let mut world = accepting(LinkRole::AcceptOnly, tight_budget(), 1);
    refused(&mut world, "stranger");
    world.track("p");
    world.track("q");
    world.turn(inbound("p"));
    refused(&mut world, "p");
    refused(&mut world, "q");
    assert_eq!(world.status("p"), PeerStatus::Connected);
    world.radio(RadioStatus::Off);
    assert_eq!(world.downs("p"), 1);
    refused(&mut world, "p");
}
