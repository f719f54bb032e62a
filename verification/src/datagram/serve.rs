//! The decisions of a datagram server and of a dial: what each event asks for, given
//! what is being served or set up.
//!
//! A server serves one central at a time. Every channel starts its message ids
//! anew, so two centrals that saw each other's fragments could complete a blend of
//! two messages; a second central is refused and dropped instead.

use vstd::prelude::*;

use crate::backend::next;
#[allow(unused_imports)]
use crate::backend::following;
use crate::datagram::channel::{same_session, DatagramChannel};
#[allow(unused_imports)]
use crate::datagram::channel::{fresh_channel, no_room_error, sessions_agree, Sink};
use crate::datagram::DatagramConfig;
#[allow(unused_imports)]
use crate::datagram::fragment::FRAGMENT_HEADER_LEN;
use crate::error::BleError;
#[allow(unused_imports)]
use crate::models::{copied, CharacteristicUuid, GattEvent, PeerAddress, Role};
#[allow(unused_imports)]
use crate::models::GattEventView;

verus! {

/// The central that is being served. `generation` tells its channel from earlier ones
/// to the same address.
pub struct Served {
    pub peer: PeerAddress,
    pub session: Option<u64>,
    pub generation: u64,
}

/// The contents of a `Served`.
pub struct ServedView {
    pub peer: Seq<char>,
    pub session: Option<u64>,
    pub generation: u64,
}

impl View for Served {
    type V = ServedView;

    open spec fn view(&self) -> ServedView {
        ServedView { peer: self.peer@, session: self.session, generation: self.generation }
    }
}

/// What a server must do about an event.
pub enum ServeAction {
    Nothing,
    /// Hand a channel to this central over to the consumer.
    Accept { peer: PeerAddress, session: Option<u64>, generation: u64 },
    /// Drop a central that cannot be served now.
    Refuse { peer: PeerAddress, session: Option<u64> },
    /// Give a raw fragment to the served channel.
    Deliver { value: Vec<u8> },
    /// The served central has gone: close its channel.
    Close { generation: u64 },
    /// Close the served channel and drop its central, which may still be there.
    Evict { peer: PeerAddress, session: Option<u64>, generation: u64 },
}

/// The contents of a `ServeAction`.
pub enum ServeActionView {
    Nothing,
    Accept { peer: Seq<char>, session: Option<u64>, generation: u64 },
    Refuse { peer: Seq<char>, session: Option<u64> },
    Deliver { value: Seq<u8> },
    Close { generation: u64 },
    Evict { peer: Seq<char>, session: Option<u64>, generation: u64 },
}

impl View for ServeAction {
    type V = ServeActionView;

    open spec fn view(&self) -> ServeActionView {
        match self {
            ServeAction::Nothing => ServeActionView::Nothing,
            ServeAction::Accept { peer, session, generation } => ServeActionView::Accept {
                peer: peer@,
                session: *session,
                generation: *generation,
            },
            ServeAction::Refuse { peer, session } => ServeActionView::Refuse {
                peer: peer@,
                session: *session,
            },
            ServeAction::Deliver { value } => ServeActionView::Deliver { value: value@ },
            ServeAction::Close { generation } => ServeActionView::Close { generation: *generation },
            ServeAction::Evict { peer, session, generation } => ServeActionView::Evict {
                peer: peer@,
                session: *session,
                generation: *generation,
            },
        }
    }
}

/// A server's state: whom it serves, and the generation of the next channel.
pub struct Server {
    pub characteristic: CharacteristicUuid,
    pub served: Option<Served>,
    pub next_generation: u64,
}

/// The contents of a `Server`.
pub struct ServerView {
    pub characteristic: CharacteristicUuid,
    pub served: Option<ServedView>,
    pub next_generation: u64,
}

impl View for Server {
    type V = ServerView;

    open spec fn view(&self) -> ServerView {
        ServerView {
            characteristic: self.characteristic,
            served: match self.served {
                Some(s) => Some(s@),
                None => None,
            },
            next_generation: self.next_generation,
        }
    }
}

impl ServerView {
    pub open spec fn idle(self) -> ServerView {
        ServerView { served: None, ..self }
    }

    /// The server's next state and what it must do, by the event that it saw.
    pub open spec fn step(self, event: GattEventView) -> (ServerView, ServeActionView) {
        match event {
            GattEventView::Connected { peer, local_role, session } => {
                if local_role != Role::Peripheral {
                    (self, ServeActionView::Nothing)
                } else {
                    match self.served {
                        None => (
                            ServerView {
                                served: Some(
                                    ServedView { peer, session, generation: self.next_generation },
                                ),
                                next_generation: following(self.next_generation),
                                ..self
                            },
                            ServeActionView::Accept {
                                peer,
                                session,
                                generation: self.next_generation,
                            },
                        ),
                        Some(served) => (
                            self,
                            if served.peer == peer {
                                ServeActionView::Nothing
                            } else {
                                ServeActionView::Refuse { peer, session }
                            },
                        ),
                    }
                }
            },
            GattEventView::CharacteristicWritten { peer, characteristic, value } => (
                self,
                match self.served {
                    Some(served) if served.peer == peer && characteristic == self.characteristic
                        => ServeActionView::Deliver { value },
                    _ => ServeActionView::Nothing,
                },
            ),
            GattEventView::Disconnected { peer, local_role, session } => match self.served {
                Some(served) if served.peer == peer && local_role == Role::Peripheral
                    && sessions_agree(session, served.session) => (
                    self.idle(),
                    ServeActionView::Close { generation: served.generation },
                ),
                _ => (self, ServeActionView::Nothing),
            },
            GattEventView::Lagged { .. } => self.evicting(),
            GattEventView::RadioChanged { .. } => (self, ServeActionView::Nothing),
        }
    }

    pub open spec fn evicting(self) -> (ServerView, ServeActionView) {
        match self.served {
            Some(served) => (
                self.idle(),
                ServeActionView::Evict {
                    peer: served.peer,
                    session: served.session,
                    generation: served.generation,
                },
            ),
            None => (self, ServeActionView::Nothing),
        }
    }

    /// The consumer let go of the channel of `generation`: only the channel that is
    /// served now frees its place.
    pub open spec fn releasing(self, generation: u64) -> (ServerView, ServeActionView) {
        match self.served {
            Some(served) if served.generation == generation => self.evicting(),
            _ => (self, ServeActionView::Nothing),
        }
    }
}

impl Server {
    /// A server that serves nobody, for a configuration whose queues can hold
    /// something.
    pub fn new(config: &DatagramConfig) -> (r: Result<Server, BleError>)
        ensures
            r is Ok <==> config.spec_valid(),
            match r {
                Ok(server) => server@ == (ServerView {
                    characteristic: config.characteristic,
                    served: None,
                    next_generation: 0,
                }),
                Err(e) => e@ == config.spec_invalid(),
            },
    {
        match config.validate() {
            Ok(()) => Ok(
                Server {
                    characteristic: config.characteristic,
                    served: None,
                    next_generation: 0,
                },
            ),
            Err(e) => Err(e),
        }
    }

    /// Takes a lifecycle event. A `Connected` for the central already served is a
    /// repeat and changes nothing; one for our own outbound dial is not ours to serve.
    pub fn on_event(&mut self, event: &GattEvent) -> (action: ServeAction)
        ensures
            (final(self)@, action@) == old(self)@.step(event@),
    {
        match event {
            GattEvent::Connected { peer, local_role, session } => {
                if *local_role != Role::Peripheral {
                    return ServeAction::Nothing;
                }
                match &self.served {
                    Some(served) => if served.peer.same(peer) {
                        ServeAction::Nothing
                    } else {
                        ServeAction::Refuse { peer: peer.clone(), session: *session }
                    },
                    None => {
                        let generation = self.next_generation;
                        self.next_generation = next(generation);
                        self.served = Some(
                            Served { peer: peer.clone(), session: *session, generation },
                        );
                        ServeAction::Accept { peer: peer.clone(), session: *session, generation }
                    },
                }
            },
            GattEvent::CharacteristicWritten { peer, characteristic, value } => {
                match &self.served {
                    Some(served) => if served.peer.same(peer) && *characteristic
                        == self.characteristic {
                        ServeAction::Deliver { value: copied(value) }
                    } else {
                        ServeAction::Nothing
                    },
                    None => ServeAction::Nothing,
                }
            },
            GattEvent::Disconnected { peer, local_role, session } => {
                let gone: Option<u64> = match &self.served {
                    Some(served) => if served.peer.same(peer) && *local_role == Role::Peripheral
                        && same_session(*session, served.session) {
                        Some(served.generation)
                    } else {
                        None
                    },
                    None => None,
                };
                match gone {
                    Some(generation) => {
                        self.served = None;
                        ServeAction::Close { generation }
                    },
                    None => ServeAction::Nothing,
                }
            },
            // The served central's departure may be among the lost events, and nothing
            // will repeat it.
            GattEvent::Lagged { .. } => self.evict(),
            GattEvent::RadioChanged { .. } => ServeAction::Nothing,
        }
    }

    /// The consumer dropped the channel of `generation`.
    pub fn on_released(&mut self, generation: u64) -> (action: ServeAction)
        ensures
            (final(self)@, action@) == old(self)@.releasing(generation),
    {
        let current: bool = match &self.served {
            Some(served) => served.generation == generation,
            None => false,
        };
        if current {
            self.evict()
        } else {
            ServeAction::Nothing
        }
    }

    fn evict(&mut self) -> (action: ServeAction)
        ensures
            (final(self)@, action@) == old(self)@.evicting(),
    {
        match self.served.take() {
            Some(served) => ServeAction::Evict {
                peer: served.peer,
                session: served.session,
                generation: served.generation,
            },
            None => ServeAction::Nothing,
        }
    }
}

// ---------------------------------------------------------------------------
// Setting up a dialled channel
// ---------------------------------------------------------------------------

/// How far the setup of a dialled channel has come.
#[derive(Debug, Clone, Copy, PartialEq, Eq, Structural)]
pub enum ConnectStage {
    /// The platform connect is issued.
    Connecting,
    /// The connection is up; the subscription is issued.
    Subscribing { session: Option<u64> },
    /// A channel stands on the connection.
    Ready,
    /// Nothing is left to do.
    Finished,
}

/// What happened to a setup.
pub enum ConnectEvent {
    Connected { session: Option<u64> },
    ConnectFailed(BleError),
    /// The subscription stands; the connection's largest write is now known.
    Subscribed { max_write_len: usize },
    SubscribeFailed(BleError),
    /// The caller gave up on the setup, or dropped the channel that it led to.
    Abandoned,
}

/// What a setup must do next.
pub enum ConnectAction {
    Nothing,
    Subscribe,
    /// Hand the channel to the caller.
    Deliver(DatagramChannel),
    /// Report the error; there is no connection to release.
    Fail(BleError),
    /// Disconnect the connection, then report the error.
    DisconnectAndFail(BleError),
    /// Disconnect the connection that nobody holds any more.
    Disconnect,
}

impl ConnectStage {
    /// Whether a platform connection stands that must be released in the end.
    pub open spec fn holds_connection(self) -> bool {
        self is Subscribing || self is Ready
    }

    /// The next stage and action. A connection that was established is released on
    /// every way out that does not end in a channel, and when the channel goes.
    pub fn step(self, event: ConnectEvent, peer: &PeerAddress, config: &DatagramConfig) -> (r: (
        ConnectStage,
        ConnectAction,
    ))
        ensures
            match (self, event) {
                (ConnectStage::Connecting, ConnectEvent::Connected { session }) => r == (
                    ConnectStage::Subscribing { session },
                    ConnectAction::Subscribe,
                ),
                (ConnectStage::Connecting, ConnectEvent::ConnectFailed(e)) => r == (
                    ConnectStage::Finished,
                    ConnectAction::Fail(e),
                ),
                (ConnectStage::Connecting, ConnectEvent::Abandoned) => r == (
                    ConnectStage::Finished,
                    ConnectAction::Nothing,
                ),
                (ConnectStage::Subscribing { .. }, ConnectEvent::SubscribeFailed(e)) => r == (
                    ConnectStage::Finished,
                    ConnectAction::DisconnectAndFail(e),
                ),
                (
                    ConnectStage::Subscribing { session },
                    ConnectEvent::Subscribed { max_write_len },
                ) => if max_write_len > FRAGMENT_HEADER_LEN {
                    &&& r.0 == ConnectStage::Ready
                    &&& r.1 matches ConnectAction::Deliver(channel) && channel.wf() && channel@
                        == fresh_channel(
                        peer@,
                        session,
                        config,
                        Sink::Connection { write_type: config.write_type },
                        (max_write_len - FRAGMENT_HEADER_LEN) as usize,
                    )
                } else {
                    &&& r.0 == ConnectStage::Finished
                    &&& r.1 matches ConnectAction::DisconnectAndFail(e) && e@ == no_room_error()
                },
                (_, ConnectEvent::Abandoned) => r == (
                    ConnectStage::Finished,
                    if self.holds_connection() {
                        ConnectAction::Disconnect
                    } else {
                        ConnectAction::Nothing
                    },
                ),
                _ => r == (self, ConnectAction::Nothing),
            },
            self.holds_connection() && !r.0.holds_connection() ==> r.1 is Disconnect || r.1
                is DisconnectAndFail,
    {
        match (self, event) {
            (ConnectStage::Connecting, ConnectEvent::Connected { session }) => {
                (ConnectStage::Subscribing { session }, ConnectAction::Subscribe)
            },
            (ConnectStage::Connecting, ConnectEvent::ConnectFailed(e)) => {
                (ConnectStage::Finished, ConnectAction::Fail(e))
            },
            (ConnectStage::Connecting, ConnectEvent::Abandoned) => {
                (ConnectStage::Finished, ConnectAction::Nothing)
            },
            (ConnectStage::Subscribing { .. }, ConnectEvent::SubscribeFailed(e)) => {
                (ConnectStage::Finished, ConnectAction::DisconnectAndFail(e))
            },
            (
                ConnectStage::Subscribing { session },
                ConnectEvent::Subscribed { max_write_len },
            ) => {
                match DatagramChannel::over_connection(
                    peer.clone(),
                    session,
                    config,
                    max_write_len,
                ) {
                    Ok(channel) => (ConnectStage::Ready, ConnectAction::Deliver(channel)),
                    Err(e) => (ConnectStage::Finished, ConnectAction::DisconnectAndFail(e)),
                }
            },
            (ConnectStage::Subscribing { .. }, ConnectEvent::Abandoned) => {
                (ConnectStage::Finished, ConnectAction::Disconnect)
            },
            (ConnectStage::Ready, ConnectEvent::Abandoned) => {
                (ConnectStage::Finished, ConnectAction::Disconnect)
            },
            (stage, _) => (stage, ConnectAction::Nothing),
        }
    }
}

// ---------------------------------------------------------------------------
// Laws
// ---------------------------------------------------------------------------

/// An event of a connection that this device dialled never touches its server.
pub proof fn dialled_connections_do_not_reach_the_server(
    server: ServerView,
    peer: Seq<char>,
    session: Option<u64>,
)
    ensures
        server.step(GattEventView::Connected { peer, local_role: Role::Central, session }) == (
            server,
            ServeActionView::Nothing,
        ),
        server.step(GattEventView::Disconnected { peer, local_role: Role::Central, session }) == (
            server,
            ServeActionView::Nothing,
        ),
{
}

/// The served central keeps its place until it is released: no event of another
/// central changes whom the server serves, and a second central is refused.
pub proof fn a_second_central_is_refused(
    server: ServerView,
    peer: Seq<char>,
    session: Option<u64>,
)
    requires
        server.served is Some,
        server.served->0.peer != peer,
    ensures
        server.step(GattEventView::Connected { peer, local_role: Role::Peripheral, session }) == (
            server,
            ServeActionView::Refuse { peer, session },
        ),
        server.step(
            GattEventView::Disconnected { peer, local_role: Role::Peripheral, session },
        ) == (server, ServeActionView::Nothing),
{
}

/// A repeated `Connected` of the served central neither rebuilds nor drops its
/// channel.
pub proof fn connected_is_idempotent(
    server: ServerView,
    peer: Seq<char>,
    session: Option<u64>,
    again: Option<u64>,
)
    ensures
        ({
            let once = server.step(
                GattEventView::Connected { peer, local_role: Role::Peripheral, session },
            ).0;
            once.served is Some && once.served->0.peer == peer ==> once.step(
                GattEventView::Connected { peer, local_role: Role::Peripheral, session: again },
            ) == (once, ServeActionView::Nothing)
        }),
{
}

/// The place is free once the served central has gone, its channel was dropped, or
/// events were lost: the next central is then accepted, under a generation of its
/// own.
pub proof fn a_freed_place_admits_the_next_central(
    server: ServerView,
    next: Seq<char>,
    session: Option<u64>,
    dropped: u64,
)
    requires
        server.served is Some,
    ensures
        ({
            let served = server.served->0;
            let arrival = GattEventView::Connected {
                peer: next,
                local_role: Role::Peripheral,
                session,
            };
            let accepted = ServeActionView::Accept {
                peer: next,
                session,
                generation: server.next_generation,
            };
            let left = GattEventView::Disconnected {
                peer: served.peer,
                local_role: Role::Peripheral,
                session: served.session,
            };
            &&& server.step(left).0.step(arrival).1 == accepted
            &&& server.releasing(served.generation).0.step(arrival).1 == accepted
            &&& server.step(GattEventView::Lagged { dropped }).0.step(arrival).1 == accepted
        }),
{
}

/// Dropping a channel that was superseded leaves the central that is served now
/// alone, also where it has the same address.
pub proof fn a_stale_release_evicts_nobody(server: ServerView, generation: u64)
    requires
        server.served is Some ==> server.served->0.generation != generation,
    ensures
        server.releasing(generation) == (server, ServeActionView::Nothing),
{
}

/// A loss that belongs to another session of the served address is ignored.
pub proof fn a_stale_loss_does_not_close_the_served_channel(
    server: ServerView,
    peer: Seq<char>,
    stale: u64,
    live: u64,
)
    requires
        server.served matches Some(served) && served.session == Some(live),
        stale != live,
    ensures
        server.step(
            GattEventView::Disconnected {
                peer,
                local_role: Role::Peripheral,
                session: Some(stale),
            },
        ) == (server, ServeActionView::Nothing),
{
}

/// Only what the served central writes, and only to the channel's characteristic,
/// reaches the channel.
pub proof fn only_the_served_central_is_heard(
    server: ServerView,
    peer: Seq<char>,
    characteristic: CharacteristicUuid,
    value: Seq<u8>,
)
    ensures
        server.step(GattEventView::CharacteristicWritten { peer, characteristic, value }).1
            is Deliver <==> {
            &&& server.served is Some
            &&& server.served->0.peer == peer
            &&& characteristic == server.characteristic
        },
{
}

/// A central that is accepted is the one that is served, under the session that it came with
/// and a generation that is no earlier channel's; what it writes to the channel's
/// characteristic is delivered unchanged, its loss closes that channel, and a server that
/// has to give it up names it.
pub proof fn an_accepted_central_is_served(
    server: ServerView,
    peer: Seq<char>,
    session: Option<u64>,
    value: Seq<u8>,
    dropped: u64,
)
    requires
        server.served is None,
    ensures
        ({
            let arrival = GattEventView::Connected { peer, local_role: Role::Peripheral, session };
            let (busy, action) = server.step(arrival);
            let generation = server.next_generation;
            let write = GattEventView::CharacteristicWritten {
                peer,
                characteristic: server.characteristic,
                value,
            };
            let loss = GattEventView::Disconnected { peer, local_role: Role::Peripheral, session };
            let evicted = ServeActionView::Evict { peer, session, generation };
            &&& action == ServeActionView::Accept { peer, session, generation }
            &&& busy.characteristic == server.characteristic
            &&& generation < u64::MAX ==> busy.next_generation == generation + 1
            &&& busy.step(write) == (busy, ServeActionView::Deliver { value })
            &&& busy.step(loss).1 == ServeActionView::Close { generation }
            &&& busy.step(loss).0.served is None
            &&& busy.step(GattEventView::Lagged { dropped }).1 == evicted
            &&& busy.releasing(generation).1 == evicted
            &&& busy.releasing(generation).0.served is None
        }),
{
}

/// A server that serves nobody is moved by nothing but a central that connects, and a change
/// of the radio moves no server.
pub proof fn an_idle_server_waits_for_a_central(
    server: ServerView,
    event: GattEventView,
    generation: u64,
    status: crate::models::RadioStatus,
)
    ensures
        server.served is None && event !is Connected ==> server.step(event) == (
            server,
            ServeActionView::Nothing,
        ),
        server.served is None ==> server.releasing(generation) == (server, ServeActionView::Nothing),
        server.step(GattEventView::RadioChanged { status }) == (server, ServeActionView::Nothing),
{
}

/// A connection has to be released exactly while a setup waits for its subscription or a
/// channel stands on it.
pub proof fn a_setup_holds_a_connection_between_its_ends(stage: ConnectStage)
    ensures
        stage == ConnectStage::Connecting || stage == ConnectStage::Finished
            <==> !stage.holds_connection(),
        stage is Subscribing || stage is Ready <==> stage.holds_connection(),
{
}

} // verus!
