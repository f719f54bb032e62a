//! The local GATT server: its advertisement, the centrals that it serves, and the
//! notifications that wait to be sent.

use vstd::prelude::*;

use crate::assoc::AssocMap;
use crate::backend::next;
#[allow(unused_imports)]
use crate::backend::following;
use crate::error::BleError;
#[allow(unused_imports)]
use crate::error::{outcome, BleErrorView};
use crate::models::{
    copied, CharacteristicUuid, GattCharacteristicSpec, GattEvent, GattServiceSpec, PeerAddress,
    Role,
};
#[allow(unused_imports)]
use crate::models::GattEventView;
use crate::text::{append_signed_decimal, joined, joined3, owned};
#[allow(unused_imports)]
use crate::text::signed_decimal;
use crate::uuids::{read_uuid, uuid_text};
#[allow(unused_imports)]
use crate::uuids::{hyphenated, named_uuid};

verus! {

/// The code of an advertisement that was stopped before the platform had answered. The
/// platform's own codes are lower.
pub const ADVERTISE_ERROR_STOPPED: i32 = 102;

/// The attempts to advertise.
pub struct Advertising {
    generation: u64,
    pending: bool,
}

pub struct AdvertisingView {
    /// Which attempt is current.
    pub generation: u64,
    /// An attempt waits for the platform's answer.
    pub pending: bool,
}

impl View for Advertising {
    type V = AdvertisingView;

    closed spec fn view(&self) -> AdvertisingView {
        AdvertisingView { generation: self.generation, pending: self.pending }
    }
}

impl Advertising {
    pub fn new() -> (r: Advertising)
        ensures
            r@ == (AdvertisingView { generation: 1, pending: false }),
    {
        Advertising { generation: 1, pending: false }
    }

    /// Begins an attempt. One that still waits is let go of.
    pub fn begin(&mut self) -> (generation: u64)
        ensures
            generation == following(old(self)@.generation),
            final(self)@ == (AdvertisingView { generation, pending: true }),
    {
        self.generation = next(self.generation);
        self.pending = true;
        self.generation
    }

    /// The platform answered. Returns what the attempt that waits is told.
    pub fn on_result(&mut self, success: bool, code: i32) -> (r: Option<Result<(), i32>>)
        ensures
            r == if !old(self)@.pending {
                None
            } else if success {
                Some(Ok::<(), i32>(()))
            } else {
                Some(Err(code))
            },
            final(self)@ == (AdvertisingView { pending: false, ..old(self)@ }),
    {
        if !self.pending {
            return None;
        }
        self.pending = false;
        if success {
            Some(Ok(()))
        } else {
            Some(Err(code))
        }
    }

    /// Advertising stops. An attempt that waits is told so: the platform's answer to it
    /// would be ignored, so nothing else would complete it.
    pub fn stop(&mut self) -> (r: Option<i32>)
        ensures
            r == if old(self)@.pending {
                Some(ADVERTISE_ERROR_STOPPED)
            } else {
                None
            },
            final(self)@ == (AdvertisingView { pending: false, ..old(self)@ }),
    {
        if self.pending {
            self.pending = false;
            Some(ADVERTISE_ERROR_STOPPED)
        } else {
            None
        }
    }

    /// An attempt was given up before its answer came. Returns whether the platform's
    /// advertisement is to be stopped: not if another attempt has taken its place.
    pub fn abandon(&mut self, generation: u64) -> (stop: bool)
        ensures
            stop == (old(self)@.generation == generation),
            final(self)@ == if stop {
                AdvertisingView { pending: false, ..old(self)@ }
            } else {
                old(self)@
            },
    {
        if self.generation != generation {
            return false;
        }
        self.pending = false;
        true
    }
}

/// A service as the bridge takes it: one list per property of its characteristics.
pub struct AdvertiseArguments {
    pub service: String,
    pub uuids: Vec<String>,
    pub readable: Vec<bool>,
    pub writable: Vec<bool>,
    pub notifiable: Vec<bool>,
    pub values: Vec<Vec<u8>>,
}

/// Whether the lists hold, at the first `n` places, the first `n` of `specs`.
pub open spec fn lists_first(
    arguments: AdvertiseArguments,
    specs: Seq<GattCharacteristicSpec>,
    n: int,
) -> bool {
    &&& arguments.uuids@.len() == n
    &&& arguments.readable@.len() == n
    &&& arguments.writable@.len() == n
    &&& arguments.notifiable@.len() == n
    &&& arguments.values@.len() == n
    &&& forall|i: int|
        #![trigger specs[i]]
        0 <= i < n ==> {
            &&& arguments.uuids@[i]@ == hyphenated(specs[i].uuid.0)
            &&& arguments.readable@[i] == specs[i].readable
            &&& arguments.writable@[i] == specs[i].writable
            &&& arguments.notifiable@[i] == specs[i].notifiable
            &&& arguments.values@[i]@ == specs[i].initial_value@
        }
}

/// Lays a service out for the bridge.
pub fn advertise_arguments(service: &GattServiceSpec) -> (r: AdvertiseArguments)
    ensures
        r.service@ == hyphenated(service.uuid.0),
        lists_first(r, service.characteristics@, service.characteristics@.len() as int),
{
    let mut r = AdvertiseArguments {
        service: uuid_text(service.uuid.0),
        uuids: Vec::new(),
        readable: Vec::new(),
        writable: Vec::new(),
        notifiable: Vec::new(),
        values: Vec::new(),
    };
    let mut i: usize = 0;
    while i < service.characteristics.len()
        invariant
            i <= service.characteristics@.len(),
            r.service@ == hyphenated(service.uuid.0),
            lists_first(r, service.characteristics@, i as int),
        decreases service.characteristics.len() - i,
    {
        let spec = &service.characteristics[i];
        r.uuids.push(uuid_text(spec.uuid.0));
        r.readable.push(spec.readable);
        r.writable.push(spec.writable);
        r.notifiable.push(spec.notifiable);
        r.values.push(copied(&spec.initial_value));
        i = i + 1;
    }
    r
}

/// The outcome of an attempt to advertise, by the platform's answer.
pub fn advertise_outcome(answer: Option<Result<(), i32>>) -> (r: Result<(), BleError>)
    ensures
        outcome(r) == match answer {
            Some(Ok(_)) => Ok::<(), BleErrorView>(()),
            Some(Err(code)) => Err(
                BleErrorView::Gatt(
                    "Android refused to start advertising (AdvertiseCallback error "@
                        + signed_decimal(code as int) + ")"@,
                ),
            ),
            None => Err(BleErrorView::Gatt("advertise outcome was never reported"@)),
        },
{
    match answer {
        Some(Ok(_)) => Ok(()),
        Some(Err(code)) => {
            let mut text = owned("Android refused to start advertising (AdvertiseCallback error ");
            append_signed_decimal(&mut text, code);
            text.append(")");
            Err(BleError::Gatt(text))
        },
        None => Err(BleError::Gatt(owned("advertise outcome was never reported"))),
    }
}

/// The centrals of the local server, and the notifications that wait to be sent.
pub struct ServerSessions {
    sessions: AssocMap<PeerAddress, u64>,
    notify_waiters: AssocMap<u64, ()>,
    next_notify_id: u64,
}

#[verifier::ext_equal]
pub struct ServerSessionsView {
    pub sessions: Map<Seq<char>, u64>,
    pub waiting: Set<u64>,
    pub next: u64,
}

impl View for ServerSessions {
    type V = ServerSessionsView;

    closed spec fn view(&self) -> ServerSessionsView {
        ServerSessionsView {
            sessions: self.sessions@,
            waiting: self.notify_waiters@.dom(),
            next: self.next_notify_id,
        }
    }
}

pub open spec fn attached(peer: Seq<char>, session: u64) -> GattEventView {
    GattEventView::Connected { peer, local_role: Role::Peripheral, session: Some(session) }
}

impl ServerSessionsView {
    pub open spec fn serving(self, peer: Seq<char>, session: u64) -> ServerSessionsView {
        ServerSessionsView { sessions: self.sessions.insert(peer, session), ..self }
    }

    pub open spec fn without(self, request: u64) -> ServerSessionsView {
        ServerSessionsView { waiting: self.waiting.remove(request), ..self }
    }
}

impl ServerSessions {
    pub fn new() -> (r: ServerSessions)
        ensures
            r@ == (ServerSessionsView { sessions: Map::empty(), waiting: Set::empty(), next: 1 }),
    {
        let r = ServerSessions {
            sessions: AssocMap::new(),
            notify_waiters: AssocMap::new(),
            next_notify_id: 1,
        };
        assert(r@.waiting =~= Set::empty());
        r
    }

    /// A central enabled notifications. This, and not its connection, is its arrival: only
    /// now can it be reached.
    pub fn on_subscribed(&mut self, peer: &PeerAddress, session: u64) -> (event: GattEvent)
        ensures
            final(self)@ == old(self)@.serving(peer@, session),
            event@ == attached(peer@, session),
    {
        self.sessions.insert(peer.clone(), session);
        GattEvent::Connected {
            peer: peer.clone(),
            local_role: Role::Peripheral,
            session: Some(session),
        }
    }

    /// A central wrote to a characteristic. It is announced again ahead of the write, for
    /// one that writes before it subscribes.
    pub fn on_written(
        &mut self,
        peer: &PeerAddress,
        characteristic: CharacteristicUuid,
        value: Vec<u8>,
        session: u64,
    ) -> (events: Vec<GattEvent>)
        ensures
            final(self)@ == old(self)@.serving(peer@, session),
            events@.len() == 2,
            events@[0]@ == attached(peer@, session),
            events@[1]@ == (GattEventView::CharacteristicWritten {
                peer: peer@,
                characteristic,
                value: value@,
            }),
    {
        let arrival = self.on_subscribed(peer, session);
        let mut events: Vec<GattEvent> = Vec::new();
        events.push(arrival);
        events.push(GattEvent::CharacteristicWritten { peer: peer.clone(), characteristic, value });
        events
    }

    /// A central wrote, as the bridge reports it: a write to a characteristic that cannot
    /// be read is dropped.
    pub fn on_written_text(
        &mut self,
        peer: &PeerAddress,
        characteristic: &str,
        value: Vec<u8>,
        session: u64,
    ) -> (events: Vec<GattEvent>)
        ensures
            match named_uuid(characteristic@) {
                Some(uuid) => {
                    &&& final(self)@ == old(self)@.serving(peer@, session)
                    &&& events@.len() == 2
                    &&& events@[0]@ == attached(peer@, session)
                    &&& events@[1]@ == (GattEventView::CharacteristicWritten {
                        peer: peer@,
                        characteristic: CharacteristicUuid(uuid),
                        value: value@,
                    })
                },
                None => final(self)@ == old(self)@ && events@.len() == 0,
            },
    {
        match read_uuid(characteristic) {
            Some(uuid) => self.on_written(peer, CharacteristicUuid(uuid), value, session),
            None => Vec::new(),
        }
    }

    /// A central left. This says nothing of a connection of this device's own to it.
    pub fn on_disconnected(&mut self, peer: &PeerAddress) -> (event: GattEvent)
        ensures
            final(self)@ == (ServerSessionsView {
                sessions: old(self)@.sessions.remove(peer@),
                ..old(self)@
            }),
            event@ == (GattEventView::Disconnected {
                peer: peer@,
                local_role: Role::Peripheral,
                session: if old(self)@.sessions.contains_key(peer@) {
                    Some(old(self)@.sessions[peer@])
                } else {
                    None
                },
            }),
    {
        let session = self.sessions.remove(peer);
        GattEvent::Disconnected { peer: peer.clone(), local_role: Role::Peripheral, session }
    }

    /// Begins a notification and returns its number.
    pub fn begin_notify(&mut self) -> (request: u64)
        ensures
            request == old(self)@.next,
            final(self)@ == (ServerSessionsView {
                waiting: old(self)@.waiting.insert(request),
                next: following(request),
                ..old(self)@
            }),
    {
        let request = self.next_notify_id;
        self.next_notify_id = next(request);
        self.notify_waiters.insert(request, ());
        assert(self@.waiting =~= old(self)@.waiting.insert(request));
        request
    }

    /// The bridge took a notification, or did not. One that was not taken is never
    /// answered, so it no longer waits.
    pub fn on_queued(&mut self, peer: &PeerAddress, request: u64, taken: bool) -> (r: Result<
        (),
        BleError,
    >)
        ensures
            outcome(r) == if taken {
                Ok::<(), BleErrorView>(())
            } else {
                Err(
                    BleErrorView::Gatt(
                        peer@ + " has no live notify session for this characteristic"@,
                    ),
                )
            },
            final(self)@ == if taken {
                old(self)@
            } else {
                old(self)@.without(request)
            },
    {
        if taken {
            return Ok(());
        }
        self.cancel_notify(request);
        Err(
            BleError::Gatt(
                joined(peer.0.as_str(), " has no live notify session for this characteristic"),
            ),
        )
    }

    /// A notification could not be handed to the bridge: it no longer waits.
    pub fn cancel_notify(&mut self, request: u64)
        ensures
            final(self)@ == old(self)@.without(request),
    {
        self.notify_waiters.remove(&request);
        assert(self@ =~= old(self)@.without(request));
    }

    /// A notification was sent, or failed. Returns whether it still waits for this.
    pub fn on_notify_sent(&mut self, request: u64) -> (waits: bool)
        ensures
            waits == old(self)@.waiting.contains(request),
            final(self)@ == old(self)@.without(request),
    {
        let waits = self.notify_waiters.contains(&request);
        self.cancel_notify(request);
        waits
    }
}

/// The outcome of a notification that the bridge took: what the platform reported, or
/// nothing if the wait was let go of.
pub fn notify_outcome(peer: &PeerAddress, sent: Option<bool>) -> (r: Result<(), BleError>)
    ensures
        outcome(r) == match sent {
            Some(true) => Ok::<(), BleErrorView>(()),
            Some(false) => Err(BleErrorView::Gatt("notify to "@ + peer@ + " failed"@)),
            None => Err(
                BleErrorView::Gatt("notify to "@ + peer@ + " was abandoned before completion"@),
            ),
        },
{
    match sent {
        Some(sent) => if sent {
            Ok(())
        } else {
            Err(BleError::Gatt(joined3("notify to ", peer.0.as_str(), " failed")))
        },
        None => Err(
            BleError::Gatt(
                joined3("notify to ", peer.0.as_str(), " was abandoned before completion"),
            ),
        ),
    }
}

/// The outcome of a notification to all subscribers, by how each one's went: reaching one
/// is success; otherwise the last error stands, or that there was nobody.
pub fn notify_all_outcome(results: &Vec<Result<(), BleError>>) -> (r: Result<(), BleError>)
    ensures
        r is Ok <==> exists|i: int| 0 <= i < results@.len() && (#[trigger] results@[i]) is Ok,
        r is Err ==> r->Err_0@ == if results@.len() == 0 {
            BleErrorView::Gatt(
                "notify reached no subscriber — not advertising, unknown characteristic, or nobody subscribed"@,
            )
        } else {
            results@.last()->Err_0@
        },
{
    let mut i: usize = 0;
    while i < results.len()
        invariant
            i <= results@.len(),
            forall|k: int| 0 <= k < i ==> (#[trigger] results@[k]) is Err,
        decreases results.len() - i,
    {
        match &results[i] {
            Ok(_) => {
                assert(results@[i as int] is Ok);
                return Ok(());
            },
            Err(_) => {},
        }
        i = i + 1;
    }
    if results.len() > 0 {
        match &results[results.len() - 1] {
            Ok(_) => Ok(()),
            Err(e) => Err(e.clone()),
        }
    } else {
        Err(
            BleError::Gatt(
                owned(
                    "notify reached no subscriber — not advertising, unknown characteristic, or nobody subscribed",
                ),
            ),
        )
    }
}

// ---------------------------------------------------------------------------
// Laws
// ---------------------------------------------------------------------------

/// A notification is answered at most once.
pub proof fn a_notification_is_answered_once(server: ServerSessionsView, request: u64)
    ensures
        !server.without(request).waiting.contains(request),
{
}

/// A service is laid out for the bridge place by place: as many as it has characteristics, in
/// each list, and at each place what belongs to the characteristic there.
pub proof fn a_service_is_laid_out_place_by_place(
    arguments: AdvertiseArguments,
    specs: Seq<GattCharacteristicSpec>,
    i: int,
)
    requires
        lists_first(arguments, specs, specs.len() as int),
        0 <= i < specs.len(),
    ensures
        arguments.uuids@.len() == specs.len(),
        arguments.readable@.len() == specs.len(),
        arguments.writable@.len() == specs.len(),
        arguments.notifiable@.len() == specs.len(),
        arguments.values@.len() == specs.len(),
        arguments.uuids@[i]@ == hyphenated(specs[i].uuid.0),
        arguments.readable@[i] == specs[i].readable,
        arguments.writable@[i] == specs[i].writable,
        arguments.notifiable@[i] == specs[i].notifiable,
        arguments.values@[i]@ == specs[i].initial_value@,
{
}

/// A central is served by the session that it came with last, whoever else is; nothing that
/// waits is touched. The end of a wait touches no other wait and no session.
pub proof fn a_central_and_a_wait_are_kept_apart(
    server: ServerSessionsView,
    peer: Seq<char>,
    session: u64,
    somebody: Seq<char>,
    request: u64,
    other: u64,
)
    requires
        somebody != peer,
        other != request,
    ensures
        server.serving(peer, session).sessions.get(peer) == Some(session),
        server.serving(peer, session).sessions.get(somebody) == server.sessions.get(somebody),
        server.serving(peer, session).waiting == server.waiting,
        server.serving(peer, session).next == server.next,
        server.without(request).waiting.contains(other) <==> server.waiting.contains(other),
        server.without(request).sessions == server.sessions,
        server.without(request).next == server.next,
        attached(peer, session) == (GattEventView::Connected {
            peer,
            local_role: Role::Peripheral,
            session: Some(session),
        }),
{
}

} // verus!
