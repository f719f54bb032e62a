//! The local GATT server: whom it serves, what its characteristics hold, and who is
//! reached by a notification.
//!
//! The platform reports no arrival of a central. A central is served from its first write
//! or its first notify session, whichever comes first. Handlers of a server that was
//! stopped may still be running, so everything that a handler does is tied to the
//! generation of the server that it belongs to.

use vstd::prelude::*;

use crate::assoc::AssocMap;
#[allow(unused_imports)]
use crate::assoc::{among, Key};
use crate::backend::linux::{Sessions, NOTIFY_WRITER_ACQUIRE_TIMEOUT};
#[allow(unused_imports)]
use crate::backend::following;
use crate::clock::Duration;
use crate::error::BleError;
#[allow(unused_imports)]
use crate::error::BleErrorView;
use crate::models::{copied, CharacteristicUuid, GattEvent, GattServiceSpec, PeerAddress, Role};
#[allow(unused_imports)]
use crate::models::{GattCharacteristicSpecView, GattEventView, GattServiceSpecView};
use crate::text::{joined, owned};

verus! {

/// A notify session: the writer that the platform handed out, by a number that the caller
/// gave it, and the subscriber it leads to.
#[derive(Debug)]
pub struct NotifyWriter {
    pub id: u64,
    pub peer: PeerAddress,
}

pub struct NotifyWriterView {
    pub id: u64,
    pub peer: Seq<char>,
}

impl View for NotifyWriter {
    type V = NotifyWriterView;

    open spec fn view(&self) -> NotifyWriterView {
        NotifyWriterView { id: self.id, peer: self.peer@ }
    }
}

pub open spec fn writers_view(list: Seq<NotifyWriter>) -> Seq<NotifyWriterView> {
    list.map_values(|w: NotifyWriter| w@)
}

/// The writers of a list that are not closed.
pub open spec fn open_writers(list: Seq<NotifyWriterView>, closed: Seq<u64>) -> Seq<
    NotifyWriterView,
>
    decreases list.len(),
{
    if list.len() == 0 {
        seq![]
    } else if closed.contains(list.last().id) {
        open_writers(list.drop_last(), closed)
    } else {
        open_writers(list.drop_last(), closed).push(list.last())
    }
}

/// The numbers of the writers that lead to a subscriber, or of all of them.
pub open spec fn addressed(list: Seq<NotifyWriterView>, to: Option<Seq<char>>) -> Seq<u64>
    decreases list.len(),
{
    if list.len() == 0 {
        seq![]
    } else if to is None || list.last().peer == to->0 {
        addressed(list.drop_last(), to).push(list.last().id)
    } else {
        addressed(list.drop_last(), to)
    }
}

/// The local GATT server.
pub struct GattServer {
    values: AssocMap<CharacteristicUuid, Vec<u8>>,
    served_peers: AssocMap<PeerAddress, u64>,
    notify_writers: AssocMap<CharacteristicUuid, Vec<NotifyWriter>>,
    generation: u64,
}

/// The contents of a `GattServer`.
#[verifier::ext_equal]
pub struct GattServerView {
    pub values: Map<CharacteristicUuid, Seq<u8>>,
    /// The centrals that are served, with their sessions.
    pub served: Map<Seq<char>, u64>,
    pub writers: Map<CharacteristicUuid, Seq<NotifyWriterView>>,
    /// Which advertisement is current.
    pub generation: u64,
}

impl View for GattServer {
    type V = GattServerView;

    closed spec fn view(&self) -> GattServerView {
        GattServerView {
            values: self.values@.map_values(|v: Vec<u8>| v@),
            served: self.served_peers@,
            writers: self.notify_writers@.map_values(|l: Vec<NotifyWriter>| writers_view(l@)),
            generation: self.generation,
        }
    }
}

pub open spec fn arrived(peer: Seq<char>, session: u64) -> GattEventView {
    GattEventView::Connected { peer, local_role: Role::Peripheral, session: Some(session) }
}

/// The values of a server's characteristics once those of a service are set up in order.
pub open spec fn set_up(
    values: Map<CharacteristicUuid, Seq<u8>>,
    specs: Seq<GattCharacteristicSpecView>,
) -> Map<CharacteristicUuid, Seq<u8>>
    decreases specs.len(),
{
    if specs.len() == 0 {
        values
    } else {
        set_up(values, specs.drop_last()).insert(specs.last().uuid, specs.last().initial_value)
    }
}

impl GattServerView {
    pub open spec fn serves(self, peer: Seq<char>, session: u64) -> bool {
        self.served.contains_key(peer) && self.served[peer] == session
    }

    /// The session by which a central is served, where `fresh` is the next free one.
    pub open spec fn session_of(self, peer: Seq<char>, fresh: u64) -> u64 {
        if self.served.contains_key(peer) {
            self.served[peer]
        } else {
            fresh
        }
    }

    pub open spec fn serving(self, peer: Seq<char>, fresh: u64) -> GattServerView {
        GattServerView { served: self.served.insert(peer, self.session_of(peer, fresh)), ..self }
    }

    /// The view once a central has written, under a server that is current.
    pub open spec fn written(
        self,
        characteristic: CharacteristicUuid,
        peer: Seq<char>,
        value: Seq<u8>,
        fresh: u64,
    ) -> GattServerView {
        GattServerView {
            values: self.values.insert(characteristic, value),
            ..self.serving(peer, fresh)
        }
    }

    pub open spec fn writers_of(self, characteristic: CharacteristicUuid) -> Seq<
        NotifyWriterView,
    > {
        if self.writers.contains_key(characteristic) {
            self.writers[characteristic]
        } else {
            seq![]
        }
    }

    /// The view once a central has acquired a notify session, under a server that is
    /// current.
    pub open spec fn subscribed(
        self,
        characteristic: CharacteristicUuid,
        writer: NotifyWriterView,
        closed: Seq<u64>,
        fresh: u64,
    ) -> GattServerView {
        GattServerView {
            writers: self.writers.insert(
                characteristic,
                open_writers(self.writers_of(characteristic), closed).push(writer),
            ),
            ..self.serving(writer.peer, fresh)
        }
    }

    /// The view once a session is no longer served, if it was.
    pub open spec fn released(self, peer: Seq<char>, session: u64) -> GattServerView {
        if self.serves(peer, session) {
            GattServerView { served: self.served.remove(peer), ..self }
        } else {
            self
        }
    }

    /// The view once closed writers of a characteristic are forgotten.
    pub open spec fn pruned(
        self,
        characteristic: CharacteristicUuid,
        closed: Seq<u64>,
    ) -> GattServerView {
        if self.writers.contains_key(characteristic) {
            GattServerView {
                writers: self.writers.insert(
                    characteristic,
                    open_writers(self.writers[characteristic], closed),
                ),
                ..self
            }
        } else {
            self
        }
    }

    /// Whether any open writer of the server leads to the peer.
    pub open spec fn reaches(self, peer: Seq<char>, closed: Seq<u64>) -> bool {
        exists|c: CharacteristicUuid| #[trigger]
            self.writers.contains_key(c) && addressed(
                open_writers(self.writers[c], closed),
                Some(peer),
            ).len() > 0
    }

    pub open spec fn all_pruned(self, closed: Seq<u64>) -> GattServerView {
        GattServerView {
            writers: self.writers.map_values(
                |l: Seq<NotifyWriterView>| open_writers(l, closed),
            ),
            ..self
        }
    }

    pub open spec fn advertising(self, service: GattServiceSpecView) -> GattServerView {
        GattServerView {
            values: set_up(self.values, service.characteristics),
            generation: following(self.generation),
            ..self
        }
    }

    pub open spec fn stopped(self) -> GattServerView {
        GattServerView {
            values: self.values,
            served: Map::empty(),
            writers: Map::empty(),
            generation: following(self.generation),
        }
    }

    /// What a notification does first.
    pub open spec fn notify_turn(
        self,
        characteristic: CharacteristicUuid,
        owner: Option<(Seq<char>, u64)>,
        to: Option<Seq<char>>,
        waited: Duration,
        closed: Seq<u64>,
    ) -> NotifyTurnView {
        let live = open_writers(self.writers_of(characteristic), closed);
        let (holder, held) = match owner {
            Some(pair) => pair,
            None => (seq![], 0),
        };
        if owner is Some && !self.serves(holder, held) {
            NotifyTurnView::Refuse(BleErrorView::NotConnected(holder))
        } else if addressed(live, to).len() == 0 && owner is Some && waited
            < NOTIFY_WRITER_ACQUIRE_TIMEOUT {
            NotifyTurnView::Wait
        } else if !self.writers.contains_key(characteristic) {
            NotifyTurnView::Refuse(
                BleErrorView::Gatt("no active notify session for characteristic"@),
            )
        } else {
            NotifyTurnView::Write(addressed(live, to))
        }
    }
}

/// What a notification does next.
pub enum NotifyTurn {
    Refuse(BleError),
    /// The subscriber's writer may still be on its way: look again behind a pause.
    Wait,
    /// Write to these writers, in order.
    Write(Vec<u64>),
}

pub enum NotifyTurnView {
    Refuse(BleErrorView),
    Wait,
    Write(Seq<u64>),
}

impl View for NotifyTurn {
    type V = NotifyTurnView;

    open spec fn view(&self) -> NotifyTurnView {
        match self {
            NotifyTurn::Refuse(e) => NotifyTurnView::Refuse(e@),
            NotifyTurn::Wait => NotifyTurnView::Wait,
            NotifyTurn::Write(ids) => NotifyTurnView::Write(ids@),
        }
    }
}

/// What a write or a notify session means to the server.
pub enum Arrival {
    /// It belongs to a server that was stopped.
    Stale,
    /// The central is served already.
    Known { session: u64 },
    /// The central is new, and must be watched.
    New { session: u64 },
}

/// What the watch of a served central sees.
pub enum WatchEvent {
    /// The central was gone before the watch began.
    NotConnected,
    /// The central disconnected, or its events ended.
    Disconnected,
    /// Time passed: how old the watch is, and whether the central can be notified.
    Poll { age: Duration, reachable: bool },
}

/// Whether the watch of a served central ends. One that cannot be notified is as good as
/// gone, once its writer has had time to arrive.
pub fn watch_ends(event: WatchEvent) -> (r: bool)
    ensures
        r == match event {
            WatchEvent::Poll { age, reachable } => age >= NOTIFY_WRITER_ACQUIRE_TIMEOUT
                && !reachable,
            _ => true,
        },
{
    match event {
        WatchEvent::Poll { age, reachable } => age >= NOTIFY_WRITER_ACQUIRE_TIMEOUT && !reachable,
        WatchEvent::NotConnected => true,
        WatchEvent::Disconnected => true,
    }
}

fn contains_id(ids: &Vec<u64>, id: u64) -> (r: bool)
    ensures
        r == ids@.contains(id),
{
    let mut i: usize = 0;
    while i < ids.len()
        invariant
            i <= ids@.len(),
            forall|k: int| 0 <= k < i ==> ids@[k] != id,
        decreases ids.len() - i,
    {
        if ids[i] == id {
            return true;
        }
        i = i + 1;
    }
    false
}

/// The open writers of a list.
fn keep_open(list: &Vec<NotifyWriter>, closed: &Vec<u64>) -> (r: Vec<NotifyWriter>)
    ensures
        writers_view(r@) == open_writers(writers_view(list@), closed@),
{
    let mut r: Vec<NotifyWriter> = Vec::new();
    let mut i: usize = 0;
    let ghost all = writers_view(list@);
    assert(writers_view(r@) =~= open_writers(all.take(0), closed@));
    while i < list.len()
        invariant
            i <= list@.len(),
            all == writers_view(list@),
            writers_view(r@) == open_writers(all.take(i as int), closed@),
        decreases list.len() - i,
    {
        let ghost before = r@;
        assert(all.take(i + 1).drop_last() =~= all.take(i as int));
        assert(all.take(i + 1).last() == list@[i as int]@);
        if !contains_id(closed, list[i].id) {
            r.push(NotifyWriter { id: list[i].id, peer: list[i].peer.clone() });
            assert(writers_view(r@) =~= writers_view(before).push(list@[i as int]@));
        }
        i = i + 1;
    }
    assert(all.take(i as int) =~= all);
    r
}

/// The numbers of the writers that lead to a subscriber, or of all.
fn select(list: &Vec<NotifyWriter>, to: Option<&PeerAddress>) -> (r: Vec<u64>)
    ensures
        r@ == addressed(
            writers_view(list@),
            match to {
                Some(peer) => Some(peer@),
                None => None,
            },
        ),
{
    let mut r: Vec<u64> = Vec::new();
    let mut i: usize = 0;
    let ghost all = writers_view(list@);
    let ghost target = match to {
        Some(peer) => Some(peer@),
        None => None::<Seq<char>>,
    };
    assert(r@ =~= addressed(all.take(0), target));
    while i < list.len()
        invariant
            i <= list@.len(),
            all == writers_view(list@),
            target == match to {
                Some(peer) => Some(peer@),
                None => None::<Seq<char>>,
            },
            r@ == addressed(all.take(i as int), target),
        decreases list.len() - i,
    {
        assert(all.take(i + 1).drop_last() =~= all.take(i as int));
        assert(all.take(i + 1).last() == list@[i as int]@);
        let hit = match to {
            Some(peer) => peer.same(&list[i].peer),
            None => true,
        };
        if hit {
            r.push(list[i].id);
        }
        i = i + 1;
    }
    assert(all.take(i as int) =~= all);
    r
}

pub open spec fn owner_view(owner: Option<(PeerAddress, u64)>) -> Option<(Seq<char>, u64)> {
    match owner {
        Some((peer, session)) => Some((peer@, session)),
        None => None,
    }
}

pub open spec fn target_view(to: Option<&PeerAddress>) -> Option<Seq<char>> {
    match to {
        Some(peer) => Some(peer@),
        None => None,
    }
}

/// How a notification that reached nobody names whom it did not reach.
pub open spec fn nobody(to: Option<Seq<char>>) -> Seq<char> {
    match to {
        Some(peer) => peer + " has no live notify session"@,
        None => "no subscriber"@,
    }
}

/// What the sender of a notification is told, by how each write went: reaching one
/// subscriber is success, reaching nobody is an error.
pub fn notify_outcome(results: &Vec<Result<(), String>>, to: Option<&PeerAddress>) -> (r: Result<
    (),
    BleError,
>)
    ensures
        r is Ok <==> exists|i: int| 0 <= i < results@.len() && (#[trigger] results@[i]) is Ok,
        r is Err ==> r->Err_0@ == BleErrorView::Gatt(
            if results@.len() == 0 {
                "notify reached "@ + nobody(target_view(to))
            } else {
                "notify reached "@ + nobody(target_view(to)) + ": "@ + results@.last()->Err_0@
            },
        ),
{
    let mut i: usize = 0;
    while i < results.len()
        invariant
            i <= results@.len(),
            forall|k: int| 0 <= k < i ==> (#[trigger] results@[k]) is Err,
        decreases results.len() - i,
    {
        match &results[i] {
            Ok(_) => {
                assert(results@[i as int] is Ok);
                return Ok(());
            },
            Err(_) => {},
        }
        i = i + 1;
    }
    let whom = match to {
        Some(peer) => joined(peer.0.as_str(), " has no live notify session"),
        None => owned("no subscriber"),
    };
    let mut text = joined("notify reached ", whom.as_str());
    if results.len() > 0 {
        match &results[results.len() - 1] {
            Ok(_) => {},
            Err(e) => {
                text.append(": ");
                text.append(e.as_str());
            },
        }
    }
    Err(BleError::Gatt(text))
}

impl GattServer {
    pub fn new() -> (r: GattServer)
        ensures
            r@ == (GattServerView {
                values: Map::empty(),
                served: Map::empty(),
                writers: Map::empty(),
                generation: 1,
            }),
    {
        let r = GattServer {
            values: AssocMap::new(),
            served_peers: AssocMap::new(),
            notify_writers: AssocMap::new(),
            generation: 1,
        };
        assert(r@.values =~= Map::empty());
        assert(r@.writers =~= Map::empty());
        r
    }

    /// Sets the server up anew for a service. Returns the generation that its handlers
    /// belong to.
    pub fn advertise(&mut self, service: &GattServiceSpec) -> (generation: u64)
        ensures
            final(self)@ == old(self)@.advertising(service@),
            generation == final(self)@.generation,
    {
        self.generation = self.generation.wrapping_add(1);
        let ghost specs = service@.characteristics;
        let mut i: usize = 0;
        assert(specs.take(0) =~= seq![]);
        while i < service.characteristics.len()
            invariant
                i <= service.characteristics@.len(),
                specs == service@.characteristics,
                self@ == (GattServerView {
                    values: set_up(old(self)@.values, specs.take(i as int)),
                    generation: following(old(self)@.generation),
                    ..old(self)@
                }),
            decreases service.characteristics.len() - i,
        {
            let ghost before = self.values@;
            let ghost whole = self@;
            let value = copied(&service.characteristics[i].initial_value);
            self.values.insert(service.characteristics[i].uuid, value);
            proof {
                assert(specs.take(i + 1).drop_last() =~= specs.take(i as int));
                assert(specs.take(i + 1).last() == service.characteristics@[i as int]@);
                assert(self@.values =~= whole.values.insert(
                    specs[i as int].uuid,
                    specs[i as int].initial_value,
                ));
            }
            i = i + 1;
        }
        assert(specs.take(i as int) =~= specs);
        self.generation
    }

    /// What a read of a characteristic returns.
    pub fn read(&self, characteristic: CharacteristicUuid) -> (value: Vec<u8>)
        ensures
            value@ == if self@.values.contains_key(characteristic) {
                self@.values[characteristic]
            } else {
                seq![]
            },
    {
        match self.values.get(&characteristic) {
            Some(value) => copied(value),
            None => Vec::new(),
        }
    }

    /// Finds a central's session, or begins to serve it.
    fn welcome(&mut self, peer: &PeerAddress, sessions: &mut Sessions) -> (r: Arrival)
        ensures
            final(self)@ == old(self)@.serving(peer@, old(sessions)@),
            r == if old(self)@.served.contains_key(peer@) {
                Arrival::Known { session: old(self)@.served[peer@] }
            } else {
                Arrival::New { session: old(sessions)@ }
            },
            final(sessions)@ == if old(self)@.served.contains_key(peer@) {
                old(sessions)@
            } else {
                following(old(sessions)@)
            },
    {
        match self.served_peers.get(peer) {
            Some(session) => {
                assert(self@ =~= old(self)@.serving(peer@, old(sessions)@));
                Arrival::Known { session: *session }
            },
            None => {
                let session = sessions.allocate();
                self.served_peers.insert(peer.clone(), session);
                assert(self@ =~= old(self)@.serving(peer@, old(sessions)@));
                Arrival::New { session }
            },
        }
    }

    /// A central wrote to a characteristic. The value is kept, the central is served, and
    /// its arrival is announced ahead of the write. A handler of a server that was stopped
    /// does none of it.
    pub fn on_write(
        &mut self,
        generation: u64,
        characteristic: CharacteristicUuid,
        peer: &PeerAddress,
        value: Vec<u8>,
        sessions: &mut Sessions,
    ) -> (r: (Arrival, Vec<GattEvent>))
        ensures
            generation != old(self)@.generation ==> {
                &&& final(self)@ == old(self)@
                &&& final(sessions)@ == old(sessions)@
                &&& r.0 is Stale
                &&& r.1@.len() == 0
            },
            generation == old(self)@.generation ==> {
                let known = old(self)@.served.contains_key(peer@);
                let session = old(self)@.session_of(peer@, old(sessions)@);
                &&& final(self)@ == old(self)@.written(
                    characteristic,
                    peer@,
                    value@,
                    old(sessions)@,
                )
                &&& final(sessions)@ == if known {
                    old(sessions)@
                } else {
                    following(old(sessions)@)
                }
                &&& r.0 == if known {
                    Arrival::Known { session }
                } else {
                    Arrival::New { session }
                }
                &&& r.1@.len() == 2
                &&& r.1@[0]@ == arrived(peer@, session)
                &&& r.1@[1]@ == (GattEventView::CharacteristicWritten {
                    peer: peer@,
                    characteristic,
                    value: value@,
                })
            },
    {
        if generation != self.generation {
            return (Arrival::Stale, Vec::new());
        }
        let ghost start = self@;
        self.values.insert(characteristic, copied(&value));
        let ghost stored = self@;
        assert(stored.values =~= start.values.insert(characteristic, value@));
        let arrival = self.welcome(peer, sessions);
        let session: u64 = match arrival {
            Arrival::Known { session } => session,
            Arrival::New { session } => session,
            Arrival::Stale => 0,
        };
        let mut events: Vec<GattEvent> = Vec::new();
        events.push(
            GattEvent::Connected {
                peer: peer.clone(),
                local_role: Role::Peripheral,
                session: Some(session),
            },
        );
        events.push(GattEvent::CharacteristicWritten { peer: peer.clone(), characteristic, value });
        (arrival, events)
    }

    /// A central acquired a notify session on a characteristic. A central that is new is
    /// announced.
    pub fn on_notify_session(
        &mut self,
        generation: u64,
        characteristic: CharacteristicUuid,
        writer: NotifyWriter,
        closed: &Vec<u64>,
        sessions: &mut Sessions,
    ) -> (r: (Arrival, Option<GattEvent>))
        ensures
            generation != old(self)@.generation ==> {
                &&& final(self)@ == old(self)@
                &&& final(sessions)@ == old(sessions)@
                &&& r.0 is Stale
                &&& r.1 is None
            },
            generation == old(self)@.generation ==> {
                let known = old(self)@.served.contains_key(writer.peer@);
                let session = old(self)@.session_of(writer.peer@, old(sessions)@);
                &&& final(self)@ == old(self)@.subscribed(
                    characteristic,
                    writer@,
                    closed@,
                    old(sessions)@,
                )
                &&& final(sessions)@ == if known {
                    old(sessions)@
                } else {
                    following(old(sessions)@)
                }
                &&& r.0 == if known {
                    Arrival::Known { session }
                } else {
                    Arrival::New { session }
                }
                &&& r.1 is Some <==> !known
                &&& r.1 is Some ==> r.1->0@ == arrived(writer.peer@, session)
            },
    {
        if generation != self.generation {
            return (Arrival::Stale, None);
        }
        let ghost start = self@;
        let mut list: Vec<NotifyWriter> = match self.notify_writers.get(&characteristic) {
            Some(list) => keep_open(list, closed),
            None => Vec::new(),
        };
        let peer = writer.peer.clone();
        let ghost kept = list@;
        list.push(writer);
        proof {
            assert(writers_view(kept) =~= open_writers(start.writers_of(characteristic), closed@));
            assert(writers_view(list@) =~= writers_view(kept).push(writer@));
        }
        self.notify_writers.insert(characteristic, list);
        assert(self@.writers =~= start.writers.insert(
            characteristic,
            open_writers(start.writers_of(characteristic), closed@).push(writer@),
        ));
        let arrival = self.welcome(&peer, sessions);
        let event = match arrival {
            Arrival::New { session } => Some(
                GattEvent::Connected { peer, local_role: Role::Peripheral, session: Some(session) },
            ),
            _ => None,
        };
        (arrival, event)
    }

    /// The watch of a served central ended. Its departure is announced if the central is
    /// still served by the session that was watched.
    pub fn on_departure(&mut self, peer: &PeerAddress, session: u64) -> (r: Option<GattEvent>)
        ensures
            final(self)@ == old(self)@.released(peer@, session),
            r is Some <==> old(self)@.serves(peer@, session),
            r is Some ==> r->0@ == (GattEventView::Disconnected {
                peer: peer@,
                local_role: Role::Peripheral,
                session: Some(session),
            }),
    {
        if !self.serves(peer, session) {
            return None;
        }
        self.served_peers.remove(peer);
        assert(self@ =~= old(self)@.released(peer@, session));
        Some(
            GattEvent::Disconnected {
                peer: peer.clone(),
                local_role: Role::Peripheral,
                session: Some(session),
            },
        )
    }

    fn serves(&self, peer: &PeerAddress, session: u64) -> (r: bool)
        ensures
            r == self@.serves(peer@, session),
    {
        match self.served_peers.get(peer) {
            Some(current) => *current == session,
            None => false,
        }
    }

    /// Whether the platform is to be told to disconnect a central: not where a session is
    /// named that is no longer served.
    pub fn may_disconnect(&self, peer: &PeerAddress, session: Option<u64>) -> (r: bool)
        ensures
            r == match session {
                Some(session) => self@.serves(peer@, session),
                None => true,
            },
    {
        match session {
            Some(session) => self.serves(peer, session),
            None => true,
        }
    }

    /// Whether a central can still be notified. Closed writers are forgotten.
    pub fn has_live_session(&mut self, peer: &PeerAddress, closed: &Vec<u64>) -> (r: bool)
        ensures
            final(self)@ == old(self)@.all_pruned(closed@),
            r == old(self)@.reaches(peer@, closed@),
    {
        let keys = self.notify_writers.keys();
        let mut live = false;
        let mut i: usize = 0;
        while i < keys.len()
            invariant
                i <= keys@.len(),
                forall|k: int|
                    0 <= k < keys@.len() ==> self@.writers.contains_key(#[trigger] keys@[k]),
                self@ == old(self)@,
                live == exists|k: int|
                    0 <= k < i && addressed(
                        open_writers(old(self)@.writers[#[trigger] keys@[k]], closed@),
                        Some(peer@),
                    ).len() > 0,
            decreases keys.len() - i,
        {
            match self.notify_writers.get(&keys[i]) {
                Some(list) => {
                    let kept = keep_open(list, closed);
                    let hits = select(&kept, Some(peer));
                    if hits.len() > 0 {
                        live = true;
                        assert(addressed(
                            open_writers(old(self)@.writers[keys@[i as int]], closed@),
                            Some(peer@),
                        ).len() > 0);
                    }
                },
                None => {},
            }
            i = i + 1;
        }
        proof {
            if old(self)@.reaches(peer@, closed@) {
                let c = choose|c: CharacteristicUuid| #[trigger]
                    old(self)@.writers.contains_key(c) && addressed(
                        open_writers(old(self)@.writers[c], closed@),
                        Some(peer@),
                    ).len() > 0;
                assert(self.notify_writers@.contains_key(c));
                assert(among(keys@, keys@.len() as int, c));
                let k = choose|k: int| 0 <= k < keys@.len() && (#[trigger] keys@[k]).content() == c;
                assert(keys@[k] == c);
            }
            if live {
                let k = choose|k: int|
                    0 <= k < i && addressed(
                        open_writers(old(self)@.writers[#[trigger] keys@[k]], closed@),
                        Some(peer@),
                    ).len() > 0;
                assert(old(self)@.writers.contains_key(keys@[k]));
            }
        }
        let keep = |list: &Vec<NotifyWriter>| -> (r: Vec<NotifyWriter>)
            ensures
                writers_view(r@) == open_writers(writers_view(list@), closed@),
        { keep_open(list, closed) };
        let ghost before = self.notify_writers@;
        self.notify_writers.update(keep);
        proof {
            assert(self@.writers =~= old(self)@.all_pruned(closed@).writers) by {
                assert forall|c: CharacteristicUuid| #[trigger]
                    self.notify_writers@.contains_key(c) implies writers_view(
                    self.notify_writers@[c]@,
                ) == open_writers(writers_view(before[c]@), closed@) by {
                    assert(call_ensures(keep, (&before[c],), self.notify_writers@[c]));
                }
            }
        }
        live
    }

    /// Takes one turn of a notification on a characteristic, to one subscriber or to all.
    /// Where the notification belongs to a session, the session must still be served, and
    /// its writer is waited for. Closed writers are forgotten, whatever comes of it.
    pub fn notify_turn(
        &mut self,
        characteristic: CharacteristicUuid,
        owner: &Option<(PeerAddress, u64)>,
        to: Option<&PeerAddress>,
        waited: Duration,
        closed: &Vec<u64>,
    ) -> (r: NotifyTurn)
        ensures
            r@ == old(self)@.notify_turn(
                characteristic,
                owner_view(*owner),
                target_view(to),
                waited,
                closed@,
            ),
            final(self)@ == old(self)@.pruned(characteristic, closed@),
    {
        self.notify_done(characteristic, closed);
        match owner {
            Some((peer, session)) => {
                if !self.serves(peer, *session) {
                    return NotifyTurn::Refuse(BleError::NotConnected(peer.0.clone()));
                }
            },
            None => {},
        }
        let known = self.notify_writers.get(&characteristic);
        let present = known.is_some();
        let hits: Vec<u64> = match known {
            Some(list) => select(list, to),
            None => Vec::new(),
        };
        proof {
            let start = old(self)@;
            let live = open_writers(start.writers_of(characteristic), closed@);
            assert(self@ == start.pruned(characteristic, closed@));
            assert(present == self.notify_writers@.contains_key(characteristic));
            assert(present == self@.writers.contains_key(characteristic));
            if present {
                assert(self@.writers[characteristic] == live);
            } else {
                assert(live =~= seq![]);
            }
            assert(hits@ =~= addressed(live, target_view(to)));
        }
        if hits.len() == 0 && owner.is_some() && waited < NOTIFY_WRITER_ACQUIRE_TIMEOUT {
            return NotifyTurn::Wait;
        }
        if !present {
            return NotifyTurn::Refuse(
                BleError::Gatt(owned("no active notify session for characteristic")),
            );
        }
        NotifyTurn::Write(hits)
    }

    /// Forgets the closed writers of a characteristic, as when the writes of a notification
    /// are done.
    pub fn notify_done(&mut self, characteristic: CharacteristicUuid, closed: &Vec<u64>)
        ensures
            final(self)@ == old(self)@.pruned(characteristic, closed@),
    {
        let kept = match self.notify_writers.get(&characteristic) {
            Some(list) => keep_open(list, closed),
            None => {
                return;
            },
        };
        self.notify_writers.insert(characteristic, kept);
        assert(self@ =~= old(self)@.pruned(characteristic, closed@));
    }

    /// Stops the server. Every central that was served is announced as departed, in an
    /// order that is open, and forgotten.
    pub fn stop_advertising(&mut self) -> (events: Vec<GattEvent>)
        ensures
            final(self)@ == old(self)@.stopped(),
            events@.len() == old(self)@.served.dom().len(),
            forall|i: int|
                #![trigger events@[i]]
                0 <= i < events@.len() ==> {
                    &&& events@[i]@ matches GattEventView::Disconnected {
                        peer,
                        local_role,
                        session,
                    }
                    &&& old(self)@.served.contains_key(peer)
                    &&& local_role == Role::Peripheral
                    &&& session is None
                },
            forall|peer: Seq<char>| #[trigger]
                old(self)@.served.contains_key(peer) ==> exists|i: int|
                    0 <= i < events@.len() && (#[trigger] events@[i])@ == (
                    GattEventView::Disconnected {
                        peer,
                        local_role: Role::Peripheral,
                        session: None,
                    }),
    {
        self.generation = self.generation.wrapping_add(1);
        let peers = self.served_peers.keys();
        let mut events: Vec<GattEvent> = Vec::new();
        let mut i: usize = 0;
        while i < peers.len()
            invariant
                i <= peers@.len(),
                events@.len() == i,
                forall|k: int|
                    0 <= k < i ==> (#[trigger] events@[k])@ == (GattEventView::Disconnected {
                        peer: peers@[k]@,
                        local_role: Role::Peripheral,
                        session: None,
                    }),
            decreases peers.len() - i,
        {
            events.push(
                GattEvent::Disconnected {
                    peer: peers[i].clone(),
                    local_role: Role::Peripheral,
                    session: None,
                },
            );
            i = i + 1;
        }
        proof {
            assert forall|k: int| 0 <= k < events@.len() implies old(self)@.served.contains_key(
                (#[trigger] events@[k])@->Disconnected_peer,
            ) by {
                assert(self.served_peers@.contains_key(peers@[k].content()));
            }
            assert forall|peer: Seq<char>| #[trigger]
                old(self)@.served.contains_key(peer) implies exists|k: int|
                0 <= k < events@.len() && (#[trigger] events@[k])@ == (
                GattEventView::Disconnected { peer, local_role: Role::Peripheral, session: None }) by {
                assert(self.served_peers@.contains_key(peer));
                let k = choose|k: int|
                    0 <= k < peers@.len() && (#[trigger] peers@[k]).content() == peer;
                assert(events@[k]@ == (GattEventView::Disconnected {
                    peer: peers@[k]@,
                    local_role: Role::Peripheral,
                    session: None,
                }));
            }
        }
        self.served_peers = AssocMap::new();
        self.notify_writers = AssocMap::new();
        assert(self@ =~= old(self)@.stopped());
        events
    }
}

// ---------------------------------------------------------------------------
// Laws
// ---------------------------------------------------------------------------

/// A central keeps the session that it was first served by, however often it writes or
/// subscribes.
pub proof fn a_served_central_keeps_its_session(
    server: GattServerView,
    peer: Seq<char>,
    characteristic: CharacteristicUuid,
    value: Seq<u8>,
    writer: NotifyWriterView,
    closed: Seq<u64>,
    fresh: u64,
    session: u64,
)
    requires
        server.serves(peer, session),
    ensures
        server.written(characteristic, peer, value, fresh).serves(peer, session),
        server.subscribed(characteristic, writer, closed, fresh).serves(peer, session),
{
}

/// What a central wrote is what a read of the characteristic returns.
pub proof fn a_written_value_is_read_back(
    server: GattServerView,
    peer: Seq<char>,
    characteristic: CharacteristicUuid,
    value: Seq<u8>,
    fresh: u64,
)
    ensures
        ({
            let after = server.written(characteristic, peer, value, fresh);
            after.values.contains_key(characteristic) && after.values[characteristic] == value
        }),
{
}

/// The late end of a watch does not touch the session that replaced the one it watched.
pub proof fn a_stale_departure_releases_nobody(
    server: GattServerView,
    peer: Seq<char>,
    older: u64,
    newer: u64,
)
    requires
        server.serves(peer, newer),
        older != newer,
    ensures
        server.released(peer, older) == server,
{
}

/// A notification of a session that is no longer served is refused: it cannot reach the
/// session that replaced it.
pub proof fn a_superseded_session_cannot_notify(
    server: GattServerView,
    peer: Seq<char>,
    session: u64,
    characteristic: CharacteristicUuid,
    waited: Duration,
    closed: Seq<u64>,
)
    requires
        !server.serves(peer, session),
    ensures
        server.notify_turn(characteristic, Some((peer, session)), Some(peer), waited, closed)
            == NotifyTurnView::Refuse(BleErrorView::NotConnected(peer)),
{
}

/// A stopped server serves nobody and reaches nobody, and no handler of it is current.
pub proof fn a_stopped_server_is_empty(server: GattServerView, peer: Seq<char>, closed: Seq<u64>)
    ensures
        !server.stopped().served.contains_key(peer),
        !server.stopped().reaches(peer, closed),
        server.stopped().generation != server.generation,
{
}

/// Each characteristic of an advertised service is read as its own initial value, the last
/// one counting where a UUID occurs again; the values of all others stay as they were.
pub proof fn each_characteristic_has_its_own_initial_value(
    server: GattServerView,
    service: GattServiceSpecView,
    i: int,
    other: CharacteristicUuid,
)
    requires
        0 <= i < service.characteristics.len(),
        forall|j: int|
            i < j < service.characteristics.len() ==> (#[trigger] service.characteristics[j]).uuid
                != service.characteristics[i].uuid,
        forall|j: int|
            0 <= j < service.characteristics.len() ==> (#[trigger] service.characteristics[j]).uuid
                != other,
    ensures
        ({
            let values = server.advertising(service).values;
            let spec = service.characteristics[i];
            &&& values.contains_key(spec.uuid) && values[spec.uuid] == spec.initial_value
            &&& values.contains_key(other) <==> server.values.contains_key(other)
            &&& server.values.contains_key(other) ==> values[other] == server.values[other]
        }),
{
    an_initial_value_is_kept(server.values, service.characteristics, i);
    other_values_are_kept(server.values, service.characteristics, other);
}

proof fn an_initial_value_is_kept(
    values: Map<CharacteristicUuid, Seq<u8>>,
    specs: Seq<GattCharacteristicSpecView>,
    i: int,
)
    requires
        0 <= i < specs.len(),
        forall|j: int| i < j < specs.len() ==> (#[trigger] specs[j]).uuid != specs[i].uuid,
    ensures
        set_up(values, specs).contains_key(specs[i].uuid),
        set_up(values, specs)[specs[i].uuid] == specs[i].initial_value,
    decreases specs.len(),
{
    if i < specs.len() - 1 {
        let front = specs.drop_last();
        assert forall|j: int| i < j < front.len() implies (#[trigger] front[j]).uuid
            != front[i].uuid by {
            assert(front[j] == specs[j]);
        }
        an_initial_value_is_kept(values, front, i);
        assert(specs.last() == specs[specs.len() - 1]);
    }
}

proof fn other_values_are_kept(
    values: Map<CharacteristicUuid, Seq<u8>>,
    specs: Seq<GattCharacteristicSpecView>,
    other: CharacteristicUuid,
)
    requires
        forall|j: int| 0 <= j < specs.len() ==> (#[trigger] specs[j]).uuid != other,
    ensures
        set_up(values, specs).contains_key(other) <==> values.contains_key(other),
        values.contains_key(other) ==> set_up(values, specs)[other] == values[other],
    decreases specs.len(),
{
    if specs.len() > 0 {
        let front = specs.drop_last();
        assert forall|j: int| 0 <= j < front.len() implies (#[trigger] front[j]).uuid != other by {
            assert(front[j] == specs[j]);
        }
        other_values_are_kept(values, front, other);
        assert(specs.last() == specs[specs.len() - 1]);
    }
}

/// To advertise and to stop leave what does not belong to them: centrals that are served and
/// their notify sessions outlast a new service, and values outlast the server. Either makes
/// the handlers of before stale.
pub proof fn a_service_begins_and_ends_a_generation(
    server: GattServerView,
    service: GattServiceSpecView,
)
    ensures
        server.advertising(service).served == server.served,
        server.advertising(service).writers == server.writers,
        server.advertising(service).generation == following(server.generation),
        server.stopped().values == server.values,
        server.stopped().generation == following(server.generation),
        following(server.generation) != server.generation,
{
}

/// The open writers of a list are found piece by piece, in the order of the list: each writer
/// stays exactly if its number is not among the closed ones.
pub proof fn writers_stay_unless_they_are_closed(
    front: Seq<NotifyWriterView>,
    writer: NotifyWriterView,
    back: Seq<NotifyWriterView>,
    closed: Seq<u64>,
)
    ensures
        open_writers(front + back, closed) == open_writers(front, closed) + open_writers(
            back,
            closed,
        ),
        closed.contains(writer.id) ==> open_writers(seq![writer], closed).len() == 0,
        !closed.contains(writer.id) ==> open_writers(seq![writer], closed) == seq![writer],
    decreases back.len(),
{
    assert(seq![writer].drop_last() =~= seq![]);
    assert(open_writers(seq![], closed) =~= seq![]);
    if back.len() == 0 {
        assert(front + back =~= front);
    } else {
        writers_stay_unless_they_are_closed(front, writer, back.drop_last(), closed);
        assert((front + back).drop_last() =~= front + back.drop_last());
        assert((front + back).last() == back.last());
    }
    assert(open_writers(front + back, closed) =~= open_writers(front, closed) + open_writers(
        back,
        closed,
    ));
}

/// A notification is addressed piece by piece, in the order of the writers: to each one that
/// leads to its subscriber, or to every one where it is meant for all.
pub proof fn a_notification_is_addressed_writer_by_writer(
    front: Seq<NotifyWriterView>,
    writer: NotifyWriterView,
    back: Seq<NotifyWriterView>,
    peer: Seq<char>,
    to: Option<Seq<char>>,
)
    ensures
        addressed(front + back, to) == addressed(front, to) + addressed(back, to),
        addressed(seq![writer], None) == seq![writer.id],
        writer.peer == peer ==> addressed(seq![writer], Some(peer)) == seq![writer.id],
        writer.peer != peer ==> addressed(seq![writer], Some(peer)).len() == 0,
    decreases back.len(),
{
    assert(seq![writer].drop_last() =~= seq![]);
    assert(addressed(seq![], None) =~= seq![]);
    assert(addressed(seq![], Some(peer)) =~= seq![]);
    if back.len() == 0 {
        assert(front + back =~= front);
    } else {
        a_notification_is_addressed_writer_by_writer(front, writer, back.drop_last(), peer, to);
        assert((front + back).drop_last() =~= front + back.drop_last());
        assert((front + back).last() == back.last());
    }
    assert(addressed(front + back, to) =~= addressed(front, to) + addressed(back, to));
}

/// A central that subscribes is served and can be notified on that characteristic: the writer
/// that it acquired stands behind the open ones of before, and a notification for the central
/// is written to it.
pub proof fn a_subscriber_can_be_notified(
    server: GattServerView,
    characteristic: CharacteristicUuid,
    writer: NotifyWriterView,
    closed: Seq<u64>,
    fresh: u64,
    waited: Duration,
    other: CharacteristicUuid,
)
    requires
        !closed.contains(writer.id),
        other != characteristic,
    ensures
        ({
            let after = server.subscribed(characteristic, writer, closed, fresh);
            let session = after.served[writer.peer];
            let turn = after.notify_turn(
                characteristic,
                Some((writer.peer, session)),
                Some(writer.peer),
                waited,
                closed,
            );
            &&& after.served.contains_key(writer.peer)
            &&& !server.served.contains_key(writer.peer) ==> session == fresh
            &&& after.writers_of(characteristic).last() == writer
            &&& turn is Write && turn->Write_0.contains(writer.id)
            &&& after.writers_of(other) == server.writers_of(other)
            &&& after.values == server.values && after.generation == server.generation
        }),
{
    let after = server.subscribed(characteristic, writer, closed, fresh);
    let before = open_writers(server.writers_of(characteristic), closed);
    let list = after.writers_of(characteristic);
    assert(list =~= before + seq![writer]);
    writers_stay_unless_they_are_closed(before, writer, seq![writer], closed);
    let live = open_writers(list, closed);
    a_notification_is_addressed_writer_by_writer(
        open_writers(before, closed),
        writer,
        seq![writer],
        writer.peer,
        Some(writer.peer),
    );
    let ids = addressed(live, Some(writer.peer));
    assert(ids.last() == writer.id);
    assert(ids[ids.len() - 1] == writer.id);
}

/// A notification is written to the open writers that it is meant for, to no others. One that
/// finds none waits while its subscriber's writer may still be on its way, which only a
/// notification of a served session does, and is then refused if nobody ever subscribed.
pub proof fn a_notification_is_written_waits_or_is_refused(
    server: GattServerView,
    characteristic: CharacteristicUuid,
    owner: Option<(Seq<char>, u64)>,
    to: Option<Seq<char>>,
    waited: Duration,
    closed: Seq<u64>,
)
    requires
        owner matches Some((peer, session)) ==> server.serves(peer, session),
    ensures
        ({
            let turn = server.notify_turn(characteristic, owner, to, waited, closed);
            let meant = addressed(open_writers(server.writers_of(characteristic), closed), to);
            &&& meant.len() > 0 ==> turn == NotifyTurnView::Write(meant)
            &&& meant.len() == 0 ==> (turn is Wait <==> owner is Some && waited
                < NOTIFY_WRITER_ACQUIRE_TIMEOUT)
            &&& turn is Refuse <==> {
                &&& !server.writers.contains_key(characteristic)
                &&& owner is None || waited >= NOTIFY_WRITER_ACQUIRE_TIMEOUT
            }
            &&& turn is Refuse ==> turn == NotifyTurnView::Refuse(
                BleErrorView::Gatt("no active notify session for characteristic"@),
            )
        }),
{
    if !server.writers.contains_key(characteristic) {
        assert(open_writers(server.writers_of(characteristic), closed) =~= seq![]);
        assert(addressed(seq![], to) =~= seq![]);
    }
}

/// A write is kept for its characteristic alone, and the writer is served: by the session
/// that it had, or by a fresh one. Nobody else is touched.
pub proof fn a_write_touches_its_characteristic_and_its_central(
    server: GattServerView,
    characteristic: CharacteristicUuid,
    peer: Seq<char>,
    value: Seq<u8>,
    fresh: u64,
    other: CharacteristicUuid,
    somebody: Seq<char>,
)
    requires
        other != characteristic,
        somebody != peer,
    ensures
        ({
            let after = server.written(characteristic, peer, value, fresh);
            &&& after.values.get(other) == server.values.get(other)
            &&& after.values.get(characteristic) == Some(value)
            &&& after.served.get(somebody) == server.served.get(somebody)
            &&& server.served.contains_key(peer) ==> after.served.get(peer) == server.served.get(peer)
            &&& !server.served.contains_key(peer) ==> after.served.get(peer) == Some(fresh)
            &&& after.writers == server.writers && after.generation == server.generation
        }),
{
}

/// A session that is released is served no longer, and nobody else is touched. To forget
/// closed writers touches nobody's session and no value.
pub proof fn a_release_touches_one_session(
    server: GattServerView,
    peer: Seq<char>,
    session: u64,
    somebody: Seq<char>,
    characteristic: CharacteristicUuid,
    other: CharacteristicUuid,
    closed: Seq<u64>,
)
    requires
        somebody != peer,
        other != characteristic,
    ensures
        !server.released(peer, session).serves(peer, session),
        server.released(peer, session).served.get(somebody) == server.served.get(somebody),
        server.released(peer, session).values == server.values,
        server.released(peer, session).writers == server.writers,
        server.released(peer, session).generation == server.generation,
        server.pruned(characteristic, closed).served == server.served,
        server.pruned(characteristic, closed).values == server.values,
        server.pruned(characteristic, closed).generation == server.generation,
        server.pruned(characteristic, closed).writers_of(other) == server.writers_of(other),
        server.pruned(characteristic, closed).writers.contains_key(characteristic)
            == server.writers.contains_key(characteristic),
        server.pruned(characteristic, closed).writers_of(characteristic) =~= open_writers(
            server.writers_of(characteristic),
            closed,
        ),
        server.all_pruned(closed).served == server.served,
        server.all_pruned(closed).values == server.values,
        server.all_pruned(closed).generation == server.generation,
        server.all_pruned(closed).writers_of(characteristic) =~= open_writers(
            server.writers_of(characteristic),
            closed,
        ),
{
}

/// A central is reached exactly if an open writer of some characteristic leads to it.
pub proof fn a_central_is_reached_by_an_open_writer(
    server: GattServerView,
    characteristic: CharacteristicUuid,
    i: int,
    closed: Seq<u64>,
)
    requires
        server.writers.contains_key(characteristic),
        0 <= i < server.writers[characteristic].len(),
        !closed.contains(server.writers[characteristic][i].id),
    ensures
        server.reaches(server.writers[characteristic][i].peer, closed),
{
    let list = server.writers[characteristic];
    let writer = list[i];
    let (front, back) = (list.take(i), list.skip(i + 1));
    assert(list =~= front + (seq![writer] + back));
    writers_stay_unless_they_are_closed(front, writer, seq![writer] + back, closed);
    writers_stay_unless_they_are_closed(seq![writer], writer, back, closed);
    let live = open_writers(list, closed);
    let rest = open_writers(back, closed);
    assert(live =~= open_writers(front, closed) + (seq![writer] + rest));
    let to = Some(writer.peer);
    a_notification_is_addressed_writer_by_writer(
        open_writers(front, closed),
        writer,
        seq![writer] + rest,
        writer.peer,
        to,
    );
    a_notification_is_addressed_writer_by_writer(seq![writer], writer, rest, writer.peer, to);
    assert(addressed(live, to).len() > 0);
}

/// A central that is reached has an open writer of some characteristic that leads to it.
pub proof fn a_reached_central_has_an_open_writer(
    server: GattServerView,
    peer: Seq<char>,
    closed: Seq<u64>,
)
    requires
        server.reaches(peer, closed),
    ensures
        exists|c: CharacteristicUuid, i: int|
            #![trigger server.writers[c][i]]
            {
                &&& server.writers.contains_key(c)
                &&& 0 <= i < server.writers[c].len()
                &&& server.writers[c][i].peer == peer
                &&& !closed.contains(server.writers[c][i].id)
            },
{
    let c = choose|c: CharacteristicUuid| #[trigger]
        server.writers.contains_key(c) && addressed(
            open_writers(server.writers[c], closed),
            Some(peer),
        ).len() > 0;
    let live = open_writers(server.writers[c], closed);
    let j = an_addressed_writer_leads_to_its_peer(live, peer);
    let i = an_open_writer_is_in_the_list(server.writers[c], closed, j);
    assert(server.writers[c][i].peer == peer);
}

proof fn an_addressed_writer_leads_to_its_peer(list: Seq<NotifyWriterView>, peer: Seq<char>) -> (i:
    int)
    requires
        addressed(list, Some(peer)).len() > 0,
    ensures
        0 <= i < list.len(),
        list[i].peer == peer,
    decreases list.len(),
{
    if list.last().peer == peer {
        list.len() - 1
    } else {
        an_addressed_writer_leads_to_its_peer(list.drop_last(), peer)
    }
}

proof fn an_open_writer_is_in_the_list(
    list: Seq<NotifyWriterView>,
    closed: Seq<u64>,
    j: int,
) -> (i: int)
    requires
        0 <= j < open_writers(list, closed).len(),
    ensures
        0 <= i < list.len(),
        list[i] == open_writers(list, closed)[j],
        !closed.contains(list[i].id),
    decreases list.len(),
{
    let front = open_writers(list.drop_last(), closed);
    if j < front.len() {
        an_open_writer_is_in_the_list(list.drop_last(), closed, j)
    } else {
        list.len() - 1
    }
}

/// A central that arrives is announced as one that this device serves, under its session.
pub proof fn an_arrival_names_the_central_and_its_session(
    peer: Seq<char>,
    session: u64,
    to: PeerAddress,
)
    ensures
        arrived(peer, session) == (GattEventView::Connected {
            peer,
            local_role: Role::Peripheral,
            session: Some(session),
        }),
        nobody(Some(peer)) == peer + " has no live notify session"@,
        nobody(None) == "no subscriber"@,
        target_view(Some(&to)) == Some(to@),
        owner_view(Some((to, session))) == Some((to@, session)),
{
}

} // verus!
