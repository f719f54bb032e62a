//! Outbound connections: one per address, with the calls that wait on it.
//!
//! Every call that waits for a callback is tagged with a number, and a callback completes
//! only the call of its number: a late callback of a call that was cancelled must not
//! answer the one that replaced it.

use vstd::prelude::*;

use crate::assoc::AssocMap;
use crate::backend::android::low_16;
use crate::backend::next;
#[allow(unused_imports)]
use crate::backend::following;
use crate::backend::DEFAULT_ATT_MTU;
use crate::error::BleError;
#[allow(unused_imports)]
use crate::error::{outcome, BleErrorView};
use crate::models::{CharacteristicUuid, GattEvent, PeerAddress, Role};
#[allow(unused_imports)]
use crate::models::GattEventView;
use crate::text::{joined, joined3, owned};
use crate::uuids::{read_uuid, uuid_text};
#[allow(unused_imports)]
use crate::uuids::{hyphenated, named_uuid};

verus! {

/// What is kept of one address.
pub struct Connection {
    session: u64,
    live: bool,
    connecting: bool,
    read: Option<u64>,
    write: Option<u64>,
    subscribing: AssocMap<CharacteristicUuid, u64>,
    routes: AssocMap<CharacteristicUuid, u64>,
    disconnecting: bool,
}

/// The contents of a `Connection`.
#[verifier::ext_equal]
pub struct ConnectionView {
    /// Which connection to the address this is.
    pub session: u64,
    /// The platform connection is open.
    pub live: bool,
    /// A connect waits for the platform.
    pub connecting: bool,
    /// The read that waits, by its number.
    pub read: Option<u64>,
    /// The write that waits, by its number.
    pub write: Option<u64>,
    /// The subscriptions that wait, by their numbers.
    pub subscribing: Map<CharacteristicUuid, u64>,
    /// The routes of notifications, by the numbers of the subscriptions that made them.
    pub routes: Map<CharacteristicUuid, u64>,
    /// A disconnect waits for the platform.
    pub disconnecting: bool,
}

impl View for Connection {
    type V = ConnectionView;

    closed spec fn view(&self) -> ConnectionView {
        ConnectionView {
            session: self.session,
            live: self.live,
            connecting: self.connecting,
            read: self.read,
            write: self.write,
            subscribing: self.subscribing@,
            routes: self.routes@,
            disconnecting: self.disconnecting,
        }
    }
}

impl ConnectionView {
    pub open spec fn fresh() -> ConnectionView {
        ConnectionView {
            session: 0,
            live: false,
            connecting: false,
            read: None,
            write: None,
            subscribing: Map::empty(),
            routes: Map::empty(),
            disconnecting: false,
        }
    }

    /// The view once an abandoned subscription is forgotten, as far as it is still there.
    pub open spec fn unsubscribed(
        self,
        characteristic: CharacteristicUuid,
        request: u64,
    ) -> ConnectionView {
        ConnectionView {
            subscribing: if self.subscribing.contains_key(characteristic)
                && self.subscribing[characteristic] == request {
                self.subscribing.remove(characteristic)
            } else {
                self.subscribing
            },
            routes: if self.routes.contains_key(characteristic) && self.routes[characteristic]
                == request {
                self.routes.remove(characteristic)
            } else {
                self.routes
            },
            ..self
        }
    }
}

impl Connection {
    fn new() -> (r: Connection)
        ensures
            r@ == ConnectionView::fresh(),
    {
        Connection {
            session: 0,
            live: false,
            connecting: false,
            read: None,
            write: None,
            subscribing: AssocMap::new(),
            routes: AssocMap::new(),
            disconnecting: false,
        }
    }
}

/// All outbound connections.
pub struct Connections {
    connections: AssocMap<PeerAddress, Connection>,
    att_mtus: AssocMap<PeerAddress, u16>,
    next_op_id: u64,
}

/// The contents of `Connections`.
#[verifier::ext_equal]
pub struct ConnectionsView {
    pub connections: Map<Seq<char>, ConnectionView>,
    pub mtus: Map<Seq<char>, u16>,
    /// The number of the next connection or call.
    pub next: u64,
}

impl View for Connections {
    type V = ConnectionsView;

    closed spec fn view(&self) -> ConnectionsView {
        ConnectionsView {
            connections: self.connections@.map_values(|c: Connection| c@),
            mtus: self.att_mtus@,
            next: self.next_op_id,
        }
    }
}

pub open spec fn refused(peer: Seq<char>, reason: Seq<char>) -> BleErrorView {
    BleErrorView::ConnectFailed { peer, reason }
}

impl ConnectionsView {
    pub open spec fn at(self, peer: Seq<char>) -> ConnectionView {
        if self.connections.contains_key(peer) {
            self.connections[peer]
        } else {
            ConnectionView::fresh()
        }
    }

    pub open spec fn with(self, peer: Seq<char>, connection: ConnectionView) -> ConnectionsView {
        ConnectionsView { connections: self.connections.insert(peer, connection), ..self }
    }

    /// The view once a number was handed out.
    pub open spec fn numbered(self) -> ConnectionsView {
        ConnectionsView { next: following(self.next), ..self }
    }

    /// Whether a handle of `session` owns the address. A handle without a session goes by
    /// the address alone.
    pub open spec fn owned_by(self, peer: Seq<char>, session: Option<u64>) -> bool {
        self.connections.contains_key(peer) && (session is None || session->0
            == self.connections[peer].session)
    }

    /// A connect to an address: refused while one is under way or open.
    pub open spec fn connect_began(self, peer: Seq<char>) -> (
        ConnectionsView,
        Result<u64, BleErrorView>,
    ) {
        if self.at(peer).connecting {
            (
                self,
                Err(refused(peer, "a connection to this peer is already in progress"@)),
            )
        } else if self.at(peer).live {
            (self, Err(refused(peer, "a connection to this peer is already open"@)))
        } else {
            (
                self.with(
                    peer,
                    ConnectionView { session: self.next, connecting: true, ..self.at(peer) },
                ).numbered(),
                Ok(self.next),
            )
        }
    }

    /// A connect that did not lead to a connection leaves nothing that would refuse the
    /// next one.
    pub open spec fn connect_cleared(self, peer: Seq<char>) -> ConnectionsView {
        if self.connections.contains_key(peer) {
            let old = self.connections[peer];
            if !old.disconnecting && old.routes.dom().is_empty() {
                ConnectionsView { connections: self.connections.remove(peer), ..self }
            } else {
                self.with(peer, ConnectionView { connecting: false, live: false, ..old })
            }
        } else {
            self
        }
    }

    pub open spec fn connected(self, peer: Seq<char>) -> ConnectionsView {
        self.with(peer, ConnectionView { live: true, connecting: false, ..self.at(peer) })
    }

    pub open spec fn disconnected(self, peer: Seq<char>) -> ConnectionsView {
        ConnectionsView {
            connections: self.connections.remove(peer),
            mtus: self.mtus.remove(peer),
            ..self
        }
    }

    pub open spec fn read_began(self, peer: Seq<char>, session: Option<u64>) -> (
        ConnectionsView,
        Result<u64, BleErrorView>,
    ) {
        let numbered = self.numbered();
        if !self.owned_by(peer, session) {
            (numbered, Err(BleErrorView::NotConnected(peer)))
        } else if self.connections[peer].read is Some {
            (
                numbered,
                Err(BleErrorView::Gatt("a read from "@ + peer + " is already in progress"@)),
            )
        } else {
            (
                numbered.with(
                    peer,
                    ConnectionView { read: Some(self.next), ..self.connections[peer] },
                ),
                Ok(self.next),
            )
        }
    }

    pub open spec fn write_began(self, peer: Seq<char>, session: Option<u64>) -> (
        ConnectionsView,
        Result<u64, BleErrorView>,
    ) {
        let numbered = self.numbered();
        if !self.owned_by(peer, session) {
            (numbered, Err(BleErrorView::NotConnected(peer)))
        } else {
            (
                numbered.with(
                    peer,
                    ConnectionView { write: Some(self.next), ..self.connections[peer] },
                ),
                Ok(self.next),
            )
        }
    }

    pub open spec fn subscribe_began(
        self,
        peer: Seq<char>,
        session: Option<u64>,
        characteristic: CharacteristicUuid,
    ) -> (ConnectionsView, Result<u64, BleErrorView>) {
        let numbered = self.numbered();
        if !self.owned_by(peer, session) {
            (numbered, Err(BleErrorView::NotConnected(peer)))
        } else {
            let old = self.connections[peer];
            (
                numbered.with(
                    peer,
                    ConnectionView {
                        subscribing: old.subscribing.insert(characteristic, self.next),
                        routes: old.routes.insert(characteristic, self.next),
                        ..old
                    },
                ),
                Ok(self.next),
            )
        }
    }

    pub open spec fn disconnect_began(self, peer: Seq<char>, session: Option<u64>) -> (
        ConnectionsView,
        Result<(), BleErrorView>,
    ) {
        if !self.owned_by(peer, session) {
            (self, Err(BleErrorView::NotConnected(peer)))
        } else {
            (
                self.with(peer, ConnectionView { disconnecting: true, ..self.connections[peer] }),
                Ok(()),
            )
        }
    }

    /// The view with another connection where there is one.
    pub open spec fn changed(
        self,
        peer: Seq<char>,
        f: spec_fn(ConnectionView) -> ConnectionView,
    ) -> ConnectionsView {
        if self.connections.contains_key(peer) {
            self.with(peer, f(self.connections[peer]))
        } else {
            self
        }
    }

    pub open spec fn awaits_read(self, peer: Seq<char>, request: u64) -> bool {
        self.connections.contains_key(peer) && self.connections[peer].read == Some(request)
    }

    pub open spec fn awaits_write(self, peer: Seq<char>, request: u64) -> bool {
        self.connections.contains_key(peer) && self.connections[peer].write == Some(request)
    }

    pub open spec fn awaits_subscription(
        self,
        peer: Seq<char>,
        characteristic: CharacteristicUuid,
        request: u64,
    ) -> bool {
        &&& self.connections.contains_key(peer)
        &&& self.connections[peer].subscribing.contains_key(characteristic)
        &&& self.connections[peer].subscribing[characteristic] == request
    }
}

/// What a disconnect means to those who wait.
pub struct LinkEnd {
    pub event: GattEvent,
    /// A disconnect waited for this, and is confirmed. Everything else that waited on the
    /// connection is let go of without an answer.
    pub confirms: bool,
}

/// How a wait for the confirmation of a disconnect ended.
#[derive(Debug, Clone, Copy, PartialEq, Eq, Structural)]
pub enum DisconnectReply {
    Confirmed,
    Abandoned,
    TimedOut,
}

/// The outcome of a disconnect. One that was not confirmed is an error: the platform's
/// connection may still be open, and only the caller's handle can close it.
pub fn disconnect_outcome(peer: &PeerAddress, reply: DisconnectReply) -> (r: Result<(), BleError>)
    ensures
        outcome(r) == match reply {
            DisconnectReply::Confirmed => Ok::<(), BleErrorView>(()),
            DisconnectReply::Abandoned => Err(
                BleErrorView::Gatt(
                    "disconnect from "@ + peer@
                        + " was abandoned before the platform confirmed it"@,
                ),
            ),
            DisconnectReply::TimedOut => Err(
                BleErrorView::Gatt(
                    "disconnect from "@ + peer@
                        + " timed out after 5s; the platform connection may still be open"@,
                ),
            ),
        },
{
    match reply {
        DisconnectReply::Confirmed => Ok(()),
        DisconnectReply::Abandoned => Err(
            BleError::Gatt(
                joined3(
                    "disconnect from ",
                    peer.0.as_str(),
                    " was abandoned before the platform confirmed it",
                ),
            ),
        ),
        DisconnectReply::TimedOut => Err(
            BleError::Gatt(
                joined3(
                    "disconnect from ",
                    peer.0.as_str(),
                    " timed out after 5s; the platform connection may still be open",
                ),
            ),
        ),
    }
}

/// The outcome of a connect that waited for the platform.
pub fn connect_outcome(peer: &PeerAddress, confirmed: bool) -> (r: Result<(), BleError>)
    ensures
        outcome(r) == if confirmed {
            Ok::<(), BleErrorView>(())
        } else {
            Err(refused(peer@, "disconnected before connection completed"@))
        },
{
    if confirmed {
        Ok(())
    } else {
        Err(
            BleError::ConnectFailed {
                peer: peer.0.clone(),
                reason: owned("disconnected before connection completed"),
            },
        )
    }
}

/// The outcome of a subscription: the peer's answer, or none if the connection went away.
pub fn subscribe_outcome(
    peer: &PeerAddress,
    characteristic: CharacteristicUuid,
    accepted: Option<bool>,
) -> (r: Result<(), BleError>)
    ensures
        outcome(r) == match accepted {
            Some(true) => Ok::<(), BleErrorView>(()),
            Some(false) => Err(
                BleErrorView::Gatt(
                    "peer refused notifications on characteristic "@ + hyphenated(
                        characteristic.0,
                    ),
                ),
            ),
            None => Err(BleErrorView::NotConnected(peer@)),
        },
{
    match accepted {
        Some(accepted) => if accepted {
            Ok(())
        } else {
            let id = uuid_text(characteristic.0);
            Err(
                BleError::Gatt(
                    joined("peer refused notifications on characteristic ", id.as_str()),
                ),
            )
        },
        None => Err(BleError::NotConnected(peer.0.clone())),
    }
}

impl Connections {
    pub fn new() -> (r: Connections)
        ensures
            r@ == (ConnectionsView { connections: Map::empty(), mtus: Map::empty(), next: 1 }),
    {
        let r = Connections {
            connections: AssocMap::new(),
            att_mtus: AssocMap::new(),
            next_op_id: 1,
        };
        assert(r@.connections =~= Map::empty());
        r
    }

    /// Takes what is kept of an address out.
    fn take(&mut self, peer: &PeerAddress) -> (r: Option<Connection>)
        ensures
            final(self)@ == (ConnectionsView {
                connections: old(self)@.connections.remove(peer@),
                ..old(self)@
            }),
            match r {
                Some(c) => old(self)@.connections.contains_key(peer@) && c@
                    == old(self)@.connections[peer@],
                None => !old(self)@.connections.contains_key(peer@),
            },
    {
        let r = self.connections.remove(peer);
        assert(self@.connections =~= old(self)@.connections.remove(peer@));
        r
    }

    fn put(&mut self, peer: &PeerAddress, connection: Connection)
        ensures
            final(self)@ == old(self)@.with(peer@, connection@),
    {
        self.connections.insert(peer.clone(), connection);
        assert(self@.connections =~= old(self)@.connections.insert(peer@, connection@));
    }

    fn number(&mut self) -> (id: u64)
        ensures
            id == old(self)@.next,
            final(self)@ == old(self)@.numbered(),
    {
        let id = self.next_op_id;
        self.next_op_id = next(id);
        id
    }

    /// Begins a connect and returns its session.
    pub fn begin_connect(&mut self, peer: &PeerAddress) -> (r: Result<u64, BleError>)
        ensures
            final(self)@ == old(self)@.connect_began(peer@).0,
            outcome(r) == old(self)@.connect_began(peer@).1,
    {
        let mut connection = match self.connections.get(peer) {
            Some(known) => {
                if known.connecting {
                    return Err(
                        BleError::ConnectFailed {
                            peer: peer.0.clone(),
                            reason: owned("a connection to this peer is already in progress"),
                        },
                    );
                }
                if known.live {
                    return Err(
                        BleError::ConnectFailed {
                            peer: peer.0.clone(),
                            reason: owned("a connection to this peer is already open"),
                        },
                    );
                }
                match self.take(peer) {
                    Some(connection) => connection,
                    None => Connection::new(),
                }
            },
            None => Connection::new(),
        };
        let session = self.number();
        connection.session = session;
        connection.connecting = true;
        self.put(peer, connection);
        assert(self@ =~= old(self)@.connect_began(peer@).0);
        Ok(session)
    }

    /// Releases the slot of a connect that did not lead to a connection.
    pub fn clear_pending_connect(&mut self, peer: &PeerAddress)
        ensures
            final(self)@ == old(self)@.connect_cleared(peer@),
    {
        match self.take(peer) {
            Some(taken) => {
                let mut connection = taken;
                let routes = connection.routes.keys();
                proof {
                    assert(taken@.routes.dom().is_empty() <==> routes@.len() == 0) by {
                        if routes@.len() == 0 {
                            assert(taken@.routes.dom() =~= Set::empty());
                        }
                    }
                }
                if !connection.disconnecting && routes.len() == 0 {
                    assert(self@ =~= old(self)@.connect_cleared(peer@));
                    return;
                }
                connection.connecting = false;
                connection.live = false;
                self.put(peer, connection);
                assert(self@ =~= old(self)@.connect_cleared(peer@));
            },
            None => {
                assert(self@ =~= old(self)@);
            },
        }
    }

    /// The session of the connection to an address.
    pub fn session_of(&self, peer: &PeerAddress) -> (r: Option<u64>)
        ensures
            r == if self@.connections.contains_key(peer@) {
                Some(self@.connections[peer@].session)
            } else {
                None
            },
    {
        match self.connections.get(peer) {
            Some(connection) => Some(connection.session),
            None => None,
        }
    }

    /// A connection of this device's own came up. Returns its announcement, and whether a
    /// connect waited for it.
    pub fn on_connected(&mut self, peer: &PeerAddress) -> (r: (GattEvent, bool))
        ensures
            final(self)@ == old(self)@.connected(peer@),
            r.0@ == (GattEventView::Connected {
                peer: peer@,
                local_role: Role::Central,
                session: Some(old(self)@.at(peer@).session),
            }),
            r.1 == old(self)@.at(peer@).connecting,
    {
        let mut connection = match self.take(peer) {
            Some(connection) => connection,
            None => Connection::new(),
        };
        let waited = connection.connecting;
        connection.live = true;
        connection.connecting = false;
        let session = connection.session;
        self.put(peer, connection);
        assert(self@ =~= old(self)@.connected(peer@));
        (
            GattEvent::Connected {
                peer: peer.clone(),
                local_role: Role::Central,
                session: Some(session),
            },
            waited,
        )
    }

    /// A connection of this device's own ended, or never came up.
    pub fn on_disconnected(&mut self, peer: &PeerAddress) -> (r: LinkEnd)
        ensures
            final(self)@ == old(self)@.disconnected(peer@),
            r.event@ == (GattEventView::Disconnected {
                peer: peer@,
                local_role: Role::Central,
                session: if old(self)@.connections.contains_key(peer@) {
                    Some(old(self)@.connections[peer@].session)
                } else {
                    None
                },
            }),
            r.confirms == old(self)@.at(peer@).disconnecting,
    {
        self.att_mtus.remove(peer);
        let (session, confirms) = match self.take(peer) {
            Some(connection) => (Some(connection.session), connection.disconnecting),
            None => (None, false),
        };
        assert(self@ =~= old(self)@.disconnected(peer@));
        LinkEnd {
            event: GattEvent::Disconnected {
                peer: peer.clone(),
                local_role: Role::Central,
                session,
            },
            confirms,
        }
    }

    pub fn on_mtu_changed(&mut self, peer: &PeerAddress, mtu: i32)
        ensures
            final(self)@ == (ConnectionsView {
                mtus: old(self)@.mtus.insert(peer@, (mtu as int % 0x1_0000) as u16),
                ..old(self)@
            }),
    {
        self.att_mtus.insert(peer.clone(), low_16(mtu));
    }

    /// The ATT MTU of the connection to an address.
    pub fn att_mtu(&self, peer: &PeerAddress) -> (mtu: u16)
        ensures
            mtu == if self@.mtus.contains_key(peer@) {
                self@.mtus[peer@]
            } else {
                DEFAULT_ATT_MTU
            },
    {
        match self.att_mtus.get(peer) {
            Some(mtu) => *mtu,
            None => DEFAULT_ATT_MTU,
        }
    }

    /// Checks that a handle owns its address, and takes what is kept of it out.
    fn take_owned(&mut self, peer: &PeerAddress, session: Option<u64>) -> (r: Result<
        Connection,
        BleError,
    >)
        ensures
            match r {
                Ok(c) => {
                    &&& old(self)@.owned_by(peer@, session)
                    &&& c@ == old(self)@.connections[peer@]
                    &&& final(self)@ == (ConnectionsView {
                        connections: old(self)@.connections.remove(peer@),
                        ..old(self)@
                    })
                },
                Err(e) => {
                    &&& !old(self)@.owned_by(peer@, session)
                    &&& e@ == BleErrorView::NotConnected(peer@)
                    &&& final(self)@ == old(self)@
                },
            },
    {
        let owned = match self.connections.get(peer) {
            Some(connection) => match session {
                Some(mine) => mine == connection.session,
                None => true,
            },
            None => false,
        };
        if !owned {
            return Err(BleError::NotConnected(peer.0.clone()));
        }
        match self.take(peer) {
            Some(connection) => Ok(connection),
            None => Err(BleError::NotConnected(peer.0.clone())),
        }
    }

    /// Begins a read and returns its number. One read waits at a time.
    pub fn begin_read(&mut self, peer: &PeerAddress, session: Option<u64>) -> (r: Result<
        u64,
        BleError,
    >)
        ensures
            final(self)@ == old(self)@.read_began(peer@, session).0,
            outcome(r) == old(self)@.read_began(peer@, session).1,
    {
        let request = self.number();
        let mut connection = match self.take_owned(peer, session) {
            Ok(connection) => connection,
            Err(e) => {
                return Err(e);
            },
        };
        if connection.read.is_some() {
            self.put(peer, connection);
            assert(self@ =~= old(self)@.read_began(peer@, session).0);
            return Err(
                BleError::Gatt(
                    joined3("a read from ", peer.0.as_str(), " is already in progress"),
                ),
            );
        }
        connection.read = Some(request);
        self.put(peer, connection);
        assert(self@ =~= old(self)@.read_began(peer@, session).0);
        Ok(request)
    }

    /// Begins a write and returns its number. A write that waited before is let go of.
    pub fn begin_write(&mut self, peer: &PeerAddress, session: Option<u64>) -> (r: Result<
        u64,
        BleError,
    >)
        ensures
            final(self)@ == old(self)@.write_began(peer@, session).0,
            outcome(r) == old(self)@.write_began(peer@, session).1,
    {
        let request = self.number();
        let mut connection = match self.take_owned(peer, session) {
            Ok(connection) => connection,
            Err(e) => {
                return Err(e);
            },
        };
        connection.write = Some(request);
        self.put(peer, connection);
        assert(self@ =~= old(self)@.write_began(peer@, session).0);
        Ok(request)
    }

    /// Begins a subscription and returns its number. Notifications are routed to it from
    /// now on.
    pub fn begin_subscribe(
        &mut self,
        peer: &PeerAddress,
        session: Option<u64>,
        characteristic: CharacteristicUuid,
    ) -> (r: Result<u64, BleError>)
        ensures
            final(self)@ == old(self)@.subscribe_began(peer@, session, characteristic).0,
            outcome(r) == old(self)@.subscribe_began(peer@, session, characteristic).1,
    {
        let request = self.number();
        let mut connection = match self.take_owned(peer, session) {
            Ok(connection) => connection,
            Err(e) => {
                return Err(e);
            },
        };
        connection.subscribing.insert(characteristic, request);
        connection.routes.insert(characteristic, request);
        self.put(peer, connection);
        assert(self@ =~= old(self)@.subscribe_began(peer@, session, characteristic).0);
        Ok(request)
    }

    /// Begins a disconnect. A handle that no longer owns its address may not: it would take
    /// down the connection that replaced its own.
    pub fn begin_disconnect(&mut self, peer: &PeerAddress, session: Option<u64>) -> (r: Result<
        (),
        BleError,
    >)
        ensures
            final(self)@ == old(self)@.disconnect_began(peer@, session).0,
            outcome(r) == old(self)@.disconnect_began(peer@, session).1,
    {
        let mut connection = match self.take_owned(peer, session) {
            Ok(connection) => connection,
            Err(e) => {
                return Err(e);
            },
        };
        connection.disconnecting = true;
        self.put(peer, connection);
        assert(self@ =~= old(self)@.disconnect_began(peer@, session).0);
        Ok(())
    }

    /// A read is over, however it went: its slot is free.
    pub fn end_read(&mut self, peer: &PeerAddress)
        ensures
            final(self)@ == old(self)@.changed(
                peer@,
                |c: ConnectionView| ConnectionView { read: None, ..c },
            ),
    {
        match self.take(peer) {
            Some(taken) => {
                let mut connection = taken;
                connection.read = None;
                self.put(peer, connection);
            },
            None => {},
        }
        assert(self@ =~= old(self)@.changed(
            peer@,
            |c: ConnectionView| ConnectionView { read: None, ..c },
        ));
    }

    /// A write is over, however it went: its slot is free.
    pub fn end_write(&mut self, peer: &PeerAddress)
        ensures
            final(self)@ == old(self)@.changed(
                peer@,
                |c: ConnectionView| ConnectionView { write: None, ..c },
            ),
    {
        match self.take(peer) {
            Some(taken) => {
                let mut connection = taken;
                connection.write = None;
                self.put(peer, connection);
            },
            None => {},
        }
        assert(self@ =~= old(self)@.changed(
            peer@,
            |c: ConnectionView| ConnectionView { write: None, ..c },
        ));
    }

    /// A subscription came to nothing: what it left behind goes, unless a later one has
    /// taken its place.
    pub fn cancel_subscribe(
        &mut self,
        peer: &PeerAddress,
        characteristic: CharacteristicUuid,
        request: u64,
    )
        ensures
            final(self)@ == old(self)@.changed(
                peer@,
                |c: ConnectionView| c.unsubscribed(characteristic, request),
            ),
    {
        match self.take(peer) {
            Some(taken) => {
                let mut connection = taken;
                let ghost before = connection@;
                let waits = match connection.subscribing.get(&characteristic) {
                    Some(id) => *id == request,
                    None => false,
                };
                if waits {
                    connection.subscribing.remove(&characteristic);
                }
                let routed = match connection.routes.get(&characteristic) {
                    Some(id) => *id == request,
                    None => false,
                };
                if routed {
                    connection.routes.remove(&characteristic);
                }
                assert(connection@ =~= before.unsubscribed(characteristic, request));
                self.put(peer, connection);
            },
            None => {},
        }
        assert(self@ =~= old(self)@.changed(
            peer@,
            |c: ConnectionView| c.unsubscribed(characteristic, request),
        ));
    }

    /// A read was answered. Returns what the read's caller is told, if the read of that
    /// number still waits.
    pub fn on_read(&mut self, peer: &PeerAddress, request: u64, value: Vec<u8>, success: bool) -> (r:
        Option<Result<Vec<u8>, BleError>>)
        ensures
            r is Some <==> old(self)@.awaits_read(peer@, request),
            r is Some ==> outcome(r->0) == if success {
                Ok::<Vec<u8>, BleErrorView>(value)
            } else {
                Err(BleErrorView::Gatt("characteristic read failed"@))
            },
            final(self)@ == if r is Some {
                old(self)@.with(
                    peer@,
                    ConnectionView { read: None, ..old(self)@.connections[peer@] },
                )
            } else {
                old(self)@
            },
    {
        let waits = match self.connections.get(peer) {
            Some(connection) => match connection.read {
                Some(id) => id == request,
                None => false,
            },
            None => false,
        };
        if !waits {
            return None;
        }
        self.end_read(peer);
        if success {
            Some(Ok(value))
        } else {
            Some(Err(BleError::Gatt(owned("characteristic read failed"))))
        }
    }

    /// A write was answered. Returns what the write's caller is told, if the write of that
    /// number still waits.
    pub fn on_write_result(&mut self, peer: &PeerAddress, request: u64, success: bool) -> (r: Option<
        Result<(), BleError>,
    >)
        ensures
            r is Some <==> old(self)@.awaits_write(peer@, request),
            r is Some ==> outcome(r->0) == if success {
                Ok::<(), BleErrorView>(())
            } else {
                Err(BleErrorView::Gatt("characteristic write failed"@))
            },
            final(self)@ == if r is Some {
                old(self)@.with(
                    peer@,
                    ConnectionView { write: None, ..old(self)@.connections[peer@] },
                )
            } else {
                old(self)@
            },
    {
        let waits = match self.connections.get(peer) {
            Some(connection) => match connection.write {
                Some(id) => id == request,
                None => false,
            },
            None => false,
        };
        if !waits {
            return None;
        }
        self.end_write(peer);
        if success {
            Some(Ok(()))
        } else {
            Some(Err(BleError::Gatt(owned("characteristic write failed"))))
        }
    }

    /// A subscription was answered. Returns whether one of that number still waits for the
    /// answer. Its route stays.
    pub fn on_subscribed(
        &mut self,
        peer: &PeerAddress,
        characteristic: CharacteristicUuid,
        request: u64,
    ) -> (r: bool)
        ensures
            r == old(self)@.awaits_subscription(peer@, characteristic, request),
            final(self)@ == if r {
                old(self)@.with(
                    peer@,
                    ConnectionView {
                        subscribing: old(self)@.connections[peer@].subscribing.remove(
                            characteristic,
                        ),
                        ..old(self)@.connections[peer@]
                    },
                )
            } else {
                old(self)@
            },
    {
        let waits = match self.connections.get(peer) {
            Some(connection) => match connection.subscribing.get(&characteristic) {
                Some(id) => *id == request,
                None => false,
            },
            None => false,
        };
        if !waits {
            return false;
        }
        match self.take(peer) {
            Some(taken) => {
                let mut connection = taken;
                connection.subscribing.remove(&characteristic);
                self.put(peer, connection);
            },
            None => {},
        }
        assert(self@.connections =~= old(self)@.with(
            peer@,
            ConnectionView {
                subscribing: old(self)@.connections[peer@].subscribing.remove(characteristic),
                ..old(self)@.connections[peer@]
            },
        ).connections);
        true
    }

    /// The answer to a subscription, as the bridge reports it: a characteristic that
    /// cannot be read is nobody's.
    pub fn on_subscribed_text(&mut self, peer: &PeerAddress, characteristic: &str, request: u64) -> (r:
        bool)
        ensures
            match named_uuid(characteristic@) {
                Some(value) => {
                    let c = CharacteristicUuid(value);
                    &&& r == old(self)@.awaits_subscription(peer@, c, request)
                    &&& final(self)@ == if r {
                        old(self)@.with(
                            peer@,
                            ConnectionView {
                                subscribing: old(self)@.connections[peer@].subscribing.remove(c),
                                ..old(self)@.connections[peer@]
                            },
                        )
                    } else {
                        old(self)@
                    }
                },
                None => !r && final(self)@ == old(self)@,
            },
    {
        match read_uuid(characteristic) {
            Some(value) => self.on_subscribed(peer, CharacteristicUuid(value), request),
            None => false,
        }
    }

    /// Whom a notification goes to: the subscription that made the route.
    pub fn route(&self, peer: &PeerAddress, characteristic: CharacteristicUuid) -> (r: Option<u64>)
        ensures
            r == if self@.at(peer@).routes.contains_key(characteristic) {
                Some(self@.at(peer@).routes[characteristic])
            } else {
                None
            },
    {
        match self.connections.get(peer) {
            Some(connection) => match connection.routes.get(&characteristic) {
                Some(id) => Some(*id),
                None => None,
            },
            None => None,
        }
    }

    /// Whom a notification goes to, as the bridge reports it.
    pub fn route_text(&self, peer: &PeerAddress, characteristic: &str) -> (r: Option<u64>)
        ensures
            r == match named_uuid(characteristic@) {
                Some(value) => if self@.at(peer@).routes.contains_key(CharacteristicUuid(value)) {
                    Some(self@.at(peer@).routes[CharacteristicUuid(value)])
                } else {
                    None
                },
                None => None,
            },
    {
        match read_uuid(characteristic) {
            Some(value) => self.route(peer, CharacteristicUuid(value)),
            None => None,
        }
    }
}

/// Whether notifications of a subscription were dropped. The gap is reported ahead of
/// what still waits: the queue was full when it arose, so it could not carry the report.
pub struct NotifyGap {
    lost: bool,
}

impl View for NotifyGap {
    type V = bool;

    closed spec fn view(&self) -> bool {
        self.lost
    }
}

impl NotifyGap {
    pub fn new() -> (r: NotifyGap)
        ensures
            !r@,
    {
        NotifyGap { lost: false }
    }

    /// A notification was handed to the queue, which took it or was full.
    pub fn on_offer(&mut self, taken: bool)
        ensures
            final(self)@ == (old(self)@ || !taken),
    {
        if !taken {
            self.lost = true;
        }
    }

    /// What the subscriber reads before the queue.
    pub fn report(&mut self) -> (r: Option<BleError>)
        ensures
            !final(self)@,
            r is Some <==> old(self)@,
            r is Some ==> r->0@ == BleErrorView::Gatt(
                "notification queue overflowed: payloads were dropped and at least one message is lost"@,
            ),
    {
        if self.lost {
            self.lost = false;
            Some(
                BleError::Gatt(
                    owned(
                        "notification queue overflowed: payloads were dropped and at least one message is lost",
                    ),
                ),
            )
        } else {
            None
        }
    }
}

// ---------------------------------------------------------------------------
// Laws
// ---------------------------------------------------------------------------

/// A second connect to an address is refused while the first is under way or open, and
/// leaves it as it is.
pub proof fn one_connection_per_address(all: ConnectionsView, peer: Seq<char>)
    requires
        all.connect_began(peer).1 is Ok,
    ensures
        ({
            let began = all.connect_began(peer).0;
            let up = began.connected(peer);
            &&& began.connect_began(peer).0 == began
            &&& began.connect_began(peer).1 is Err
            &&& up.connect_began(peer).0 == up
            &&& up.connect_began(peer).1 is Err
        }),
{
}

/// A connect that failed, or that ended, does not keep the next one from beginning.
pub proof fn a_failed_connect_can_be_retried(all: ConnectionsView, peer: Seq<char>)
    ensures
        all.connect_cleared(peer).connect_began(peer).1 is Ok,
        all.disconnected(peer).connect_began(peer).1 is Ok,
{
}

/// A handle of a connection that was replaced can begin nothing, and disturbs nothing that
/// waits on the one that replaced it.
pub proof fn a_replaced_handle_is_refused(
    all: ConnectionsView,
    peer: Seq<char>,
    older: u64,
    characteristic: CharacteristicUuid,
)
    requires
        !all.owned_by(peer, Some(older)),
    ensures
        all.read_began(peer, Some(older)).1 is Err,
        all.write_began(peer, Some(older)).1 is Err,
        all.subscribe_began(peer, Some(older), characteristic).1 is Err,
        all.disconnect_began(peer, Some(older)) == (
            all,
            Err::<(), BleErrorView>(BleErrorView::NotConnected(peer)),
        ),
        all.read_began(peer, Some(older)).0.connections == all.connections,
        all.write_began(peer, Some(older)).0.connections == all.connections,
        all.subscribe_began(peer, Some(older), characteristic).0.connections == all.connections,
{
}

/// An answer to another call does not answer the one that waits: as long as the numbers
/// have not run out, a call that was cancelled and the one behind it have different ones.
pub proof fn an_answer_reaches_only_its_own_call(
    all: ConnectionsView,
    peer: Seq<char>,
    session: Option<u64>,
    earlier: u64,
)
    requires
        all.read_began(peer, session).1 is Ok,
        earlier < all.next,
    ensures
        ({
            let waiting = all.read_began(peer, session).0;
            &&& waiting.awaits_read(peer, all.next)
            &&& !waiting.awaits_read(peer, earlier)
        }),
        ({
            let waiting = all.write_began(peer, session).0;
            &&& waiting.awaits_write(peer, all.next)
            &&& !waiting.awaits_write(peer, earlier)
        }),
{
}

/// A subscription that came to nothing does not take the route of the one behind it.
pub proof fn a_cancelled_subscription_spares_its_successor(
    connection: ConnectionView,
    characteristic: CharacteristicUuid,
    earlier: u64,
    later: u64,
)
    requires
        earlier != later,
        connection.routes.contains_key(characteristic),
        connection.routes[characteristic] == later,
    ensures
        ({
            let left = connection.unsubscribed(characteristic, earlier);
            left.routes.contains_key(characteristic) && left.routes[characteristic] == later
        }),
        !connection.unsubscribed(characteristic, later).routes.contains_key(characteristic),
{
}

/// A subscription is routed its own characteristic's notifications from now on, and waits for
/// its answer. The routes and the pending subscriptions of every other characteristic, and
/// everything else that is kept of any connection, stay as they were.
pub proof fn a_subscription_leaves_the_others_their_routes(
    all: ConnectionsView,
    peer: Seq<char>,
    session: Option<u64>,
    characteristic: CharacteristicUuid,
    other: CharacteristicUuid,
)
    requires
        all.owned_by(peer, session),
        other != characteristic,
    ensures
        ({
            let (next, r) = all.subscribe_began(peer, session, characteristic);
            let (before, after) = (all.connections[peer], next.connections[peer]);
            &&& r == Ok::<u64, BleErrorView>(all.next)
            &&& after.routes.contains_key(characteristic) && after.routes[characteristic] == all.next
            &&& next.awaits_subscription(peer, characteristic, all.next)
            &&& after.routes.contains_key(other) <==> before.routes.contains_key(other)
            &&& before.routes.contains_key(other) ==> after.routes[other] == before.routes[other]
            &&& after.subscribing.contains_key(other) <==> before.subscribing.contains_key(other)
            &&& before.subscribing.contains_key(other) ==> after.subscribing[other]
                == before.subscribing[other]
            &&& after.session == before.session
            &&& after.live == before.live
            &&& after.connecting == before.connecting
            &&& after.read == before.read
            &&& after.write == before.write
            &&& after.disconnecting == before.disconnecting
        }),
{
}

/// Whatever begins or ends on one address leaves every other address alone.
pub proof fn other_addresses_are_left_alone(
    all: ConnectionsView,
    peer: Seq<char>,
    session: Option<u64>,
    characteristic: CharacteristicUuid,
    request: u64,
    other: Seq<char>,
)
    requires
        other != peer,
    ensures
        ({
            let nexts = seq![
                all.connect_began(peer).0,
                all.connect_cleared(peer),
                all.connected(peer),
                all.disconnected(peer),
                all.read_began(peer, session).0,
                all.write_began(peer, session).0,
                all.subscribe_began(peer, session, characteristic).0,
                all.disconnect_began(peer, session).0,
                all.changed(peer, |c: ConnectionView| c.unsubscribed(characteristic, request)),
            ];
            forall|i: int|
                #![trigger nexts[i]]
                0 <= i < nexts.len() ==> {
                    &&& nexts[i].connections.contains_key(other)
                        <==> all.connections.contains_key(other)
                    &&& nexts[i].at(other) == all.at(other)
                    &&& nexts[i].mtus.contains_key(other) <==> all.mtus.contains_key(other)
                    &&& all.mtus.contains_key(other) ==> nexts[i].mtus[other] == all.mtus[other]
                }
        }),
{
}

/// A connect that begins is numbered, and the connection that it leads to is owned by the
/// handle of that number and by no other. One that finds another under way or open is
/// refused, and says which.
pub proof fn a_connect_leads_to_a_connection_of_its_own(
    all: ConnectionsView,
    peer: Seq<char>,
    number: u64,
)
    ensures
        ({
            let (began, r) = all.connect_began(peer);
            let up = began.connected(peer);
            &&& r is Ok <==> !all.at(peer).connecting && !all.at(peer).live
            &&& r is Ok ==> {
                &&& r->Ok_0 == all.next
                &&& began.next == following(all.next)
                &&& began.at(peer).connecting && !began.at(peer).live
                &&& up.at(peer).live && !up.at(peer).connecting
                &&& up.owned_by(peer, Some(number)) <==> number == all.next
                &&& up.owned_by(peer, None)
                &&& up.at(peer).routes == all.at(peer).routes
                &&& up.at(peer).read == all.at(peer).read
            }
            &&& all.at(peer).connecting ==> r == Err::<u64, BleErrorView>(
                BleErrorView::ConnectFailed {
                    peer,
                    reason: "a connection to this peer is already in progress"@,
                },
            )
            &&& all.at(peer).live && !all.at(peer).connecting ==> r == Err::<u64, BleErrorView>(
                BleErrorView::ConnectFailed {
                    peer,
                    reason: "a connection to this peer is already open"@,
                },
            )
        }),
{
}

/// A connection that ended is nobody's, and nothing of it is left: no call waits on it, no
/// notification is routed to it, and its MTU is forgotten.
pub proof fn a_connection_that_ended_leaves_nothing(
    all: ConnectionsView,
    peer: Seq<char>,
    session: Option<u64>,
    characteristic: CharacteristicUuid,
    request: u64,
)
    ensures
        ({
            let gone = all.disconnected(peer);
            &&& !gone.owned_by(peer, session)
            &&& !gone.awaits_read(peer, request) && !gone.awaits_write(peer, request)
            &&& !gone.awaits_subscription(peer, characteristic, request)
            &&& !gone.at(peer).routes.contains_key(characteristic)
            &&& !gone.at(peer).live && !gone.at(peer).connecting && !gone.at(peer).disconnecting
            &&& gone.at(peer).read is None && gone.at(peer).write is None
            &&& !gone.mtus.contains_key(peer)
            &&& gone.next == all.next
        }),
{
}

/// A connect that came to nothing frees its slot; a disconnect that waits, and the routes of
/// subscribers, outlast it.
pub proof fn a_cleared_connect_keeps_what_others_wait_for(all: ConnectionsView, peer: Seq<char>)
    ensures
        ({
            let left = all.connect_cleared(peer);
            &&& !left.at(peer).connecting && !left.at(peer).live
            &&& left.at(peer).disconnecting == all.at(peer).disconnecting
            &&& left.at(peer).routes =~= all.at(peer).routes
            &&& left.mtus == all.mtus && left.next == all.next
        }),
{
    if all.connections.contains_key(peer) && all.connections[peer].routes.dom().is_empty() {
        assert(all.connections[peer].routes =~= Map::<CharacteristicUuid, u64>::empty());
    }
}

/// One read waits at a time: a second is refused and leaves the first waiting. A write takes
/// the place of the one that waited. Neither touches what else waits, or where notifications
/// go.
pub proof fn a_read_waits_alone_and_a_write_replaces(
    all: ConnectionsView,
    peer: Seq<char>,
    session: Option<u64>,
)
    requires
        all.owned_by(peer, session),
    ensures
        ({
            let old = all.connections[peer];
            let (reading, r) = all.read_began(peer, session);
            let (writing, w) = all.write_began(peer, session);
            let (reads, writes) = (reading.connections[peer], writing.connections[peer]);
            &&& r is Ok <==> old.read is None
            &&& r is Ok ==> r->Ok_0 == all.next && reads.read == Some(all.next)
            &&& r is Err ==> reads == old && r == Err::<u64, BleErrorView>(
                BleErrorView::Gatt("a read from "@ + peer + " is already in progress"@),
            )
            &&& reading.read_began(peer, session).1 is Err
            &&& reading.read_began(peer, session).0.connections[peer].read == reads.read
            &&& reads.write == old.write && reads.routes == old.routes && reads.subscribing
                == old.subscribing && reads.session == old.session && reads.live == old.live
            &&& w == Ok::<u64, BleErrorView>(all.next)
            &&& writes.write == Some(all.next)
            &&& writes.read == old.read && writes.routes == old.routes && writes.subscribing
                == old.subscribing && writes.session == old.session && writes.live == old.live
            &&& reading.next == following(all.next) && writing.next == following(all.next)
        }),
{
}

/// A disconnect that begins waits for its confirmation and touches nothing else.
pub proof fn a_disconnect_waits_for_its_confirmation(
    all: ConnectionsView,
    peer: Seq<char>,
    session: Option<u64>,
)
    requires
        all.owned_by(peer, session),
    ensures
        ({
            let (next, r) = all.disconnect_began(peer, session);
            let (before, after) = (all.connections[peer], next.connections[peer]);
            &&& r is Ok
            &&& after.disconnecting
            &&& after.session == before.session && after.live == before.live && after.connecting
                == before.connecting
            &&& after.read == before.read && after.write == before.write
            &&& after.subscribing == before.subscribing && after.routes == before.routes
            &&& next.next == all.next
        }),
{
}

/// A handle owns its address exactly if something is kept of it and it names that connection,
/// or none.
pub proof fn a_handle_owns_the_connection_it_names(
    all: ConnectionsView,
    peer: Seq<char>,
    session: Option<u64>,
)
    ensures
        !all.connections.contains_key(peer) ==> !all.owned_by(peer, session),
        all.connections.contains_key(peer) ==> {
            &&& all.owned_by(peer, None)
            &&& session is Some ==> (all.owned_by(peer, session) <==> session
                == Some(all.connections[peer].session))
        },
{
}

/// An abandoned subscription takes only what is its own with it.
pub proof fn a_cancelled_subscription_leaves_the_others(
    connection: ConnectionView,
    characteristic: CharacteristicUuid,
    request: u64,
    other: CharacteristicUuid,
)
    requires
        other != characteristic,
    ensures
        ({
            let left = connection.unsubscribed(characteristic, request);
            &&& left.routes.get(other) == connection.routes.get(other)
            &&& left.subscribing.get(other) == connection.subscribing.get(other)
            &&& left.subscribing.get(characteristic) != Some(request)
            &&& left.routes.get(characteristic) != Some(request)
            &&& connection.subscribing.get(characteristic) != Some(request)
                ==> left.subscribing.get(characteristic) == connection.subscribing.get(
                characteristic,
            )
            &&& left.read == connection.read && left.write == connection.write
            &&& left.session == connection.session && left.live == connection.live
            &&& left.connecting == connection.connecting && left.disconnecting
                == connection.disconnecting
        }),
{
}

} // verus!
