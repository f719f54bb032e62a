//! State machines for a peer's link, one per concern: the radio's power, the
//! central-role connection to a peer, and a central's attachment to the local
//! GATT server.
//!
//! Transitions are pure: `now` is an argument, and a transition returns the next
//! state with the effects that keep the machine's invariant true. A pair of state
//! and event that the tables do not name leaves the state alone, because events
//! race transitions that have already moved past them.

use vstd::prelude::*;

use crate::clock::{elapsed, Duration, Instant};
#[allow(unused_imports)]
use crate::clock::spec_elapsed;

verus! {

/// Identifies successive connections to the same peer, so that a lifecycle event
/// queued from an earlier one is recognisable as stale.
pub type Session = u64;

/// How long a dial may run before it is abandoned.
pub const DIAL_WINDOW: Duration = 20_000_000_000;

/// How long to wait for the platform to confirm a disconnect before forcing it.
pub const DISCONNECT_WINDOW: Duration = 5_000_000_000;

/// How long one cleanup of an abandoned dial may run before it is retried.
pub const DRAIN_WINDOW: Duration = 10_000_000_000;

/// Whether the deadline `window` after `since` has been reached at `now`.
pub open spec fn expired(since: Instant, window: Duration, now: Instant) -> bool {
    spec_elapsed(since, now) >= window
}

// ---------------------------------------------------------------------------
// The radio
// ---------------------------------------------------------------------------

/// Whether the platform radio is usable.
#[derive(Debug, Clone, Copy, PartialEq, Eq, Structural)]
pub enum RadioState {
    /// The adapter exists but is off; powering on recovers it.
    Off,
    On,
    /// No usable adapter, for good.
    Unsupported,
}

#[derive(Debug, Clone, Copy, PartialEq, Eq, Structural)]
pub enum RadioEvent {
    PoweredOn,
    PoweredOff,
    NoAdapter,
}

/// What must follow when the radio stops being usable: every per-peer machine is
/// told that the radio was lost.
#[derive(Debug, Clone, Copy, PartialEq, Eq, Structural)]
pub enum RadioEffect {
    InvalidateAllLinks,
}

/// The radio's next state: a missing adapter is final, otherwise power follows
/// the event.
pub open spec fn radio_next(state: RadioState, event: RadioEvent) -> RadioState {
    if state == RadioState::Unsupported || event == RadioEvent::NoAdapter {
        RadioState::Unsupported
    } else if event == RadioEvent::PoweredOn {
        RadioState::On
    } else {
        RadioState::Off
    }
}

/// Links are invalidated exactly when a usable radio stops being usable.
pub open spec fn radio_effects(state: RadioState, event: RadioEvent) -> Seq<RadioEffect> {
    if state == RadioState::On && radio_next(state, event) != RadioState::On {
        seq![RadioEffect::InvalidateAllLinks]
    } else {
        seq![]
    }
}

impl RadioState {
    pub fn usable(&self) -> (r: bool)
        ensures
            r == (*self == RadioState::On),
    {
        matches!(self, RadioState::On)
    }

    /// The pure transition. The machine has no deadlines, so `_now` is unread; it
    /// is there so that every machine is driven the same way.
    pub fn apply(&self, event: RadioEvent, _now: Instant) -> (r: (RadioState, Vec<RadioEffect>))
        ensures
            r.0 == radio_next(*self, event),
            r.1@ == radio_effects(*self, event),
    {
        match (*self, event) {
            (RadioState::On, RadioEvent::PoweredOff) => {
                (RadioState::Off, vec![RadioEffect::InvalidateAllLinks])
            },
            (RadioState::On, RadioEvent::NoAdapter) => {
                (RadioState::Unsupported, vec![RadioEffect::InvalidateAllLinks])
            },
            (RadioState::Off, RadioEvent::PoweredOn) => (RadioState::On, vec![]),
            (RadioState::Off, RadioEvent::NoAdapter) => (RadioState::Unsupported, vec![]),
            (state, _) => (state, vec![]),
        }
    }
}

// ---------------------------------------------------------------------------
// The central-role link
// ---------------------------------------------------------------------------

/// One peer's central-role link.
///
/// A platform GATT connection to the peer exists iff the state is `Connected` or
/// `Disconnecting`.
#[derive(Debug, Clone, Copy, PartialEq, Eq, Structural)]
pub enum CentralLink {
    /// No link, nothing in flight. A dial may proceed.
    Idle,
    /// An outbound connect is issued; the platform has not confirmed it.
    Dialing { since: Instant, session: Session },
    /// The link is up.
    Connected { session: Session },
    /// A disconnect is issued; the platform has not confirmed it.
    Disconnecting { since: Instant, session: Session },
    /// An abandoned dial is being cleaned up; blocks a fresh dial until it clears.
    Draining { since: Instant },
    /// The radio is down; no link can exist.
    RadioOff,
}

/// Something that happened to a central-role link.
#[derive(Debug, Clone, Copy, PartialEq, Eq, Structural)]
pub enum CentralEvent {
    /// The caller has issued the platform's connect.
    DialStarted { session: Session },
    /// The platform confirmed the link.
    DialSucceeded,
    /// The platform reported failure, or the link died before completing.
    DialFailed,
    /// The caller asked for a disconnect.
    DisconnectRequested,
    /// An unsolicited drop of a connected link.
    LinkDropped,
    /// The platform confirmed a teardown that the caller asked for.
    DisconnectConfirmed,
    /// The cleanup of an abandoned dial began.
    CleanupStarted,
    /// That cleanup completed.
    CleanupConfirmed,
    /// The radio stopped being usable.
    RadioLost,
    /// The radio is usable again.
    RadioBack,
    /// Time passed.
    Tick,
}

/// Close the platform handle for this peer. `emit_disconnected` also announces the
/// loss, for a link that the consumer knew and did not ask to end.
#[derive(Debug, Clone, Copy, PartialEq, Eq, Structural)]
pub struct TearDown {
    pub emit_disconnected: bool,
}

/// Whether a list of effects announces a disconnect.
pub open spec fn announces(effects: Seq<TearDown>) -> bool {
    exists|i: int| 0 <= i < effects.len() && (#[trigger] effects[i]).emit_disconnected
}

pub open spec fn tear_down(emit_disconnected: bool) -> Seq<TearDown> {
    seq![TearDown { emit_disconnected }]
}

impl CentralLink {
    pub open spec fn spec_has_connection(self) -> bool {
        self is Connected || self is Disconnecting
    }

    pub open spec fn spec_holds_resource(self) -> bool {
        !(self is Idle || self is RadioOff)
    }

    pub open spec fn spec_session(self) -> Option<Session> {
        match self {
            CentralLink::Dialing { session, .. } => Some(session),
            CentralLink::Connected { session } => Some(session),
            CentralLink::Disconnecting { session, .. } => Some(session),
            _ => None,
        }
    }

    /// The state and effects that follow `event`, read off the machine's table.
    pub open spec fn step(self, event: CentralEvent, now: Instant) -> (CentralLink, Seq<TearDown>) {
        match (self, event) {
            (_, CentralEvent::RadioLost) => (
                CentralLink::RadioOff,
                if self.spec_holds_resource() {
                    tear_down(self.spec_has_connection())
                } else {
                    seq![]
                },
            ),
            (CentralLink::RadioOff, CentralEvent::RadioBack) => (CentralLink::Idle, seq![]),
            (CentralLink::Idle, CentralEvent::DialStarted { session }) => (
                CentralLink::Dialing { since: now, session },
                seq![],
            ),
            (CentralLink::Dialing { session, .. }, CentralEvent::DialSucceeded) => (
                CentralLink::Connected { session },
                seq![],
            ),
            (CentralLink::Dialing { .. }, CentralEvent::DialFailed) => (
                CentralLink::Idle,
                tear_down(false),
            ),
            (CentralLink::Dialing { since, .. }, CentralEvent::Tick) => {
                if expired(since, DIAL_WINDOW, now) {
                    (CentralLink::Idle, tear_down(false))
                } else {
                    (self, seq![])
                }
            },
            (CentralLink::Connected { session }, CentralEvent::DisconnectRequested) => (
                CentralLink::Disconnecting { since: now, session },
                seq![],
            ),
            (CentralLink::Connected { .. }, CentralEvent::LinkDropped) => (
                CentralLink::Idle,
                tear_down(true),
            ),
            (CentralLink::Disconnecting { .. }, CentralEvent::DisconnectConfirmed) => (
                CentralLink::Idle,
                seq![],
            ),
            (CentralLink::Disconnecting { since, .. }, CentralEvent::Tick) => {
                if expired(since, DISCONNECT_WINDOW, now) {
                    (CentralLink::Idle, tear_down(true))
                } else {
                    (self, seq![])
                }
            },
            (CentralLink::Idle, CentralEvent::CleanupStarted) => (
                CentralLink::Draining { since: now },
                seq![],
            ),
            (CentralLink::Dialing { .. }, CentralEvent::CleanupStarted) => (
                CentralLink::Draining { since: now },
                seq![],
            ),
            (CentralLink::Draining { .. }, CentralEvent::CleanupConfirmed) => (
                CentralLink::Idle,
                seq![],
            ),
            (CentralLink::Draining { since }, CentralEvent::Tick) => {
                if expired(since, DRAIN_WINDOW, now) {
                    (CentralLink::Draining { since: now }, tear_down(false))
                } else {
                    (self, seq![])
                }
            },
            _ => (self, seq![]),
        }
    }

    /// The starting point for a peer whose radio is up.
    pub fn new() -> (r: Self)
        ensures
            r == CentralLink::Idle,
    {
        CentralLink::Idle
    }

    /// Whether a platform connection to the peer exists.
    pub fn has_connection(&self) -> (r: bool)
        ensures
            r == self.spec_has_connection(),
    {
        matches!(self, CentralLink::Connected { .. } | CentralLink::Disconnecting { .. })
    }

    /// Whether any platform resource needs closing: a half-open dial, a cleanup or
    /// a live link.
    pub fn holds_resource(&self) -> (r: bool)
        ensures
            r == self.spec_holds_resource(),
    {
        !matches!(self, CentralLink::Idle | CentralLink::RadioOff)
    }

    /// Whether a dial may start now.
    pub fn may_dial(&self) -> (r: bool)
        ensures
            r == (*self == CentralLink::Idle),
    {
        matches!(self, CentralLink::Idle)
    }

    pub fn session(&self) -> (r: Option<Session>)
        ensures
            r == self.spec_session(),
    {
        match self {
            CentralLink::Dialing { session, .. } => Some(*session),
            CentralLink::Connected { session } => Some(*session),
            CentralLink::Disconnecting { session, .. } => Some(*session),
            _ => None,
        }
    }

    /// The pure transition.
    pub fn apply(&self, event: CentralEvent, now: Instant) -> (r: (CentralLink, Vec<TearDown>))
        ensures
            (r.0, r.1@) == self.step(event, now),
    {
        match (*self, event) {
            (state, CentralEvent::RadioLost) => {
                let effects = if state.has_connection() {
                    vec![TearDown { emit_disconnected: true }]
                } else if state.holds_resource() {
                    vec![TearDown { emit_disconnected: false }]
                } else {
                    vec![]
                };
                (CentralLink::RadioOff, effects)
            },
            (CentralLink::RadioOff, CentralEvent::RadioBack) => (CentralLink::Idle, vec![]),
            (CentralLink::Idle, CentralEvent::DialStarted { session }) => {
                (CentralLink::Dialing { since: now, session }, vec![])
            },
            (CentralLink::Dialing { session, .. }, CentralEvent::DialSucceeded) => {
                (CentralLink::Connected { session }, vec![])
            },
            // The caller learns of a failed dial from its own call, not from the
            // lifecycle stream.
            (CentralLink::Dialing { .. }, CentralEvent::DialFailed) => {
                (CentralLink::Idle, vec![TearDown { emit_disconnected: false }])
            },
            (CentralLink::Dialing { since, .. }, CentralEvent::Tick)
                if elapsed(since, now) >= DIAL_WINDOW => {
                (CentralLink::Idle, vec![TearDown { emit_disconnected: false }])
            },
            (CentralLink::Connected { session }, CentralEvent::DisconnectRequested) => {
                (CentralLink::Disconnecting { since: now, session }, vec![])
            },
            (CentralLink::Connected { .. }, CentralEvent::LinkDropped) => {
                (CentralLink::Idle, vec![TearDown { emit_disconnected: true }])
            },
            // The caller asked for this, so the loss is silent.
            (CentralLink::Disconnecting { .. }, CentralEvent::DisconnectConfirmed) => {
                (CentralLink::Idle, vec![])
            },
            (CentralLink::Disconnecting { since, .. }, CentralEvent::Tick)
                if elapsed(since, now) >= DISCONNECT_WINDOW => {
                (CentralLink::Idle, vec![TearDown { emit_disconnected: true }])
            },
            (CentralLink::Idle, CentralEvent::CleanupStarted) => {
                (CentralLink::Draining { since: now }, vec![])
            },
            (CentralLink::Dialing { .. }, CentralEvent::CleanupStarted) => {
                (CentralLink::Draining { since: now }, vec![])
            },
            (CentralLink::Draining { .. }, CentralEvent::CleanupConfirmed) => {
                (CentralLink::Idle, vec![])
            },
            // The peer stays quarantined until a cleanup genuinely completes.
            (CentralLink::Draining { since }, CentralEvent::Tick)
                if elapsed(since, now) >= DRAIN_WINDOW => {
                (CentralLink::Draining { since: now }, vec![TearDown { emit_disconnected: false }])
            },
            (state, _) => (state, vec![]),
        }
    }
}

// ---------------------------------------------------------------------------
// The peripheral-role link
// ---------------------------------------------------------------------------

/// One remote central's attachment to the local GATT server.
///
/// The server holds a connection slot for the peer iff the state is `Accepted`,
/// `Serving` or `Disconnecting`.
#[derive(Debug, Clone, Copy, PartialEq, Eq, Structural)]
pub enum PeripheralLink {
    /// No central at this address.
    Absent,
    /// A central connected but has not subscribed yet.
    Accepted { session: Session },
    /// Subscribed: notifications can reach it.
    Serving { session: Session },
    /// A disconnect is issued; the platform has not confirmed it.
    Disconnecting { since: Instant, session: Session },
    /// The radio is down.
    RadioOff,
}

#[derive(Debug, Clone, Copy, PartialEq, Eq, Structural)]
pub enum PeripheralEvent {
    /// A central connected to the server.
    CentralConnected { session: Session },
    /// It enabled notifications.
    CentralSubscribed,
    /// It disabled notifications while staying connected.
    CentralUnsubscribed,
    /// It dropped the connection.
    CentralDropped,
    /// The caller asked to drop it.
    DisconnectRequested,
    /// The platform confirmed the drop.
    DisconnectConfirmed,
    RadioLost,
    RadioBack,
    Tick,
}

impl PeripheralLink {
    pub open spec fn spec_holds_slot(self) -> bool {
        self is Accepted || self is Serving || self is Disconnecting
    }

    pub open spec fn spec_session(self) -> Option<Session> {
        match self {
            PeripheralLink::Accepted { session } => Some(session),
            PeripheralLink::Serving { session } => Some(session),
            PeripheralLink::Disconnecting { session, .. } => Some(session),
            _ => None,
        }
    }

    /// The state and effects that follow `event`, read off the machine's table.
    pub open spec fn step(self, event: PeripheralEvent, now: Instant) -> (
        PeripheralLink,
        Seq<TearDown>,
    ) {
        match (self, event) {
            (_, PeripheralEvent::RadioLost) => (
                PeripheralLink::RadioOff,
                if self.spec_holds_slot() {
                    tear_down(true)
                } else {
                    seq![]
                },
            ),
            (PeripheralLink::RadioOff, PeripheralEvent::RadioBack) => (
                PeripheralLink::Absent,
                seq![],
            ),
            (_, PeripheralEvent::CentralConnected { session }) => {
                if self is Absent || self is Accepted || self is Serving {
                    (PeripheralLink::Accepted { session }, seq![])
                } else {
                    (self, seq![])
                }
            },
            (PeripheralLink::Accepted { session }, PeripheralEvent::CentralSubscribed) => (
                PeripheralLink::Serving { session },
                seq![],
            ),
            (_, PeripheralEvent::CentralUnsubscribed) => {
                if self is Accepted || self is Serving {
                    (PeripheralLink::Absent, tear_down(true))
                } else {
                    (self, seq![])
                }
            },
            (_, PeripheralEvent::CentralDropped) => {
                if self.spec_holds_slot() {
                    (PeripheralLink::Absent, tear_down(true))
                } else {
                    (self, seq![])
                }
            },
            (PeripheralLink::Accepted { session }, PeripheralEvent::DisconnectRequested) => (
                PeripheralLink::Disconnecting { since: now, session },
                seq![],
            ),
            (PeripheralLink::Serving { session }, PeripheralEvent::DisconnectRequested) => (
                PeripheralLink::Disconnecting { since: now, session },
                seq![],
            ),
            (PeripheralLink::Disconnecting { .. }, PeripheralEvent::DisconnectConfirmed) => (
                PeripheralLink::Absent,
                seq![],
            ),
            (PeripheralLink::Disconnecting { since, .. }, PeripheralEvent::Tick) => {
                if expired(since, DISCONNECT_WINDOW, now) {
                    (PeripheralLink::Absent, tear_down(true))
                } else {
                    (self, seq![])
                }
            },
            _ => (self, seq![]),
        }
    }

    pub fn new() -> (r: Self)
        ensures
            r == PeripheralLink::Absent,
    {
        PeripheralLink::Absent
    }

    /// Whether the server holds a connection slot for this peer.
    pub fn holds_slot(&self) -> (r: bool)
        ensures
            r == self.spec_holds_slot(),
    {
        matches!(
            self,
            PeripheralLink::Accepted { .. } | PeripheralLink::Serving { .. }
                | PeripheralLink::Disconnecting { .. }
        )
    }

    pub fn session(&self) -> (r: Option<Session>)
        ensures
            r == self.spec_session(),
    {
        match self {
            PeripheralLink::Accepted { session } => Some(*session),
            PeripheralLink::Serving { session } => Some(*session),
            PeripheralLink::Disconnecting { session, .. } => Some(*session),
            _ => None,
        }
    }

    /// The pure transition.
    pub fn apply(&self, event: PeripheralEvent, now: Instant) -> (r: (
        PeripheralLink,
        Vec<TearDown>,
    ))
        ensures
            (r.0, r.1@) == self.step(event, now),
    {
        match (*self, event) {
            (state, PeripheralEvent::RadioLost) => {
                let effects = if state.holds_slot() {
                    vec![TearDown { emit_disconnected: true }]
                } else {
                    vec![]
                };
                (PeripheralLink::RadioOff, effects)
            },
            (PeripheralLink::RadioOff, PeripheralEvent::RadioBack) => {
                (PeripheralLink::Absent, vec![])
            },
            // A fresh connection for an address already served supersedes it.
            (PeripheralLink::Absent, PeripheralEvent::CentralConnected { session }) => {
                (PeripheralLink::Accepted { session }, vec![])
            },
            (PeripheralLink::Accepted { .. }, PeripheralEvent::CentralConnected { session }) => {
                (PeripheralLink::Accepted { session }, vec![])
            },
            (PeripheralLink::Serving { .. }, PeripheralEvent::CentralConnected { session }) => {
                (PeripheralLink::Accepted { session }, vec![])
            },
            (PeripheralLink::Accepted { session }, PeripheralEvent::CentralSubscribed) => {
                (PeripheralLink::Serving { session }, vec![])
            },
            (PeripheralLink::Serving { .. }, PeripheralEvent::CentralUnsubscribed) => {
                (PeripheralLink::Absent, vec![TearDown { emit_disconnected: true }])
            },
            (PeripheralLink::Accepted { .. }, PeripheralEvent::CentralUnsubscribed) => {
                (PeripheralLink::Absent, vec![TearDown { emit_disconnected: true }])
            },
            (state, PeripheralEvent::CentralDropped) if state.holds_slot() => {
                (PeripheralLink::Absent, vec![TearDown { emit_disconnected: true }])
            },
            (PeripheralLink::Accepted { session }, PeripheralEvent::DisconnectRequested) => {
                (PeripheralLink::Disconnecting { since: now, session }, vec![])
            },
            (PeripheralLink::Serving { session }, PeripheralEvent::DisconnectRequested) => {
                (PeripheralLink::Disconnecting { since: now, session }, vec![])
            },
            (PeripheralLink::Disconnecting { .. }, PeripheralEvent::DisconnectConfirmed) => {
                (PeripheralLink::Absent, vec![])
            },
            (PeripheralLink::Disconnecting { since, .. }, PeripheralEvent::Tick)
                if elapsed(since, now) >= DISCONNECT_WINDOW => {
                (PeripheralLink::Absent, vec![TearDown { emit_disconnected: true }])
            },
            (state, _) => (state, vec![]),
        }
    }
}

// ---------------------------------------------------------------------------
// Laws
// ---------------------------------------------------------------------------

/// A radio without an adapter stays that way, whatever happens.
pub proof fn unsupported_radio_is_final(event: RadioEvent)
    ensures
        radio_next(RadioState::Unsupported, event) == RadioState::Unsupported,
        radio_effects(RadioState::Unsupported, event) == Seq::<RadioEffect>::empty(),
{
}

/// A `Disconnected` is announced exactly when a connection that the consumer knew
/// of ends, save for the teardown that the caller asked for and saw confirmed.
pub proof fn central_disconnect_announced_iff_known_link_ends(
    state: CentralLink,
    event: CentralEvent,
    now: Instant,
)
    ensures
        ({
            let (next, effects) = state.step(event, now);
            announces(effects) <==> state.spec_has_connection() && !next.spec_has_connection()
                && event != CentralEvent::DisconnectConfirmed
        }),
{
    let (next, effects) = state.step(event, now);
    if effects.len() > 0 {
        assert(effects[0] == TearDown { emit_disconnected: effects[0].emit_disconnected });
    }
}

/// No transition leaves a state that holds a platform resource for one that holds
/// none without a teardown, unless the event itself reports that the platform has
/// already let go.
pub proof fn central_never_leaks_a_resource(state: CentralLink, event: CentralEvent, now: Instant)
    ensures
        ({
            let (next, effects) = state.step(event, now);
            state.spec_holds_resource() && !next.spec_holds_resource() && effects.len() == 0
                ==> event == CentralEvent::DisconnectConfirmed || event
                == CentralEvent::CleanupConfirmed
        }),
{
}

/// Losing the radio ends every link from every state, and only the radio's return
/// leaves that state.
pub proof fn central_radio_loss_is_total(state: CentralLink, event: CentralEvent, now: Instant)
    ensures
        state.step(CentralEvent::RadioLost, now).0 == CentralLink::RadioOff,
        CentralLink::RadioOff.step(event, now).0 == if event == CentralEvent::RadioBack {
            CentralLink::Idle
        } else {
            CentralLink::RadioOff
        },
{
}

/// A dial starts from `Idle` alone: in every other state a started dial changes
/// nothing, so a quarantined, connected or powered-off peer cannot be dialled.
pub proof fn only_an_idle_link_dials(state: CentralLink, session: Session, now: Instant)
    ensures
        state.step(CentralEvent::DialStarted { session }, now).0 is Dialing <==> state is Idle
            || state is Dialing,
        state !is Idle ==> state.step(CentralEvent::DialStarted { session }, now) == (
            state,
            Seq::<TearDown>::empty(),
        ),
{
}

/// The session that a link carries was the one its dial started with: no event but
/// the start of a dial brings in another.
pub proof fn central_session_comes_from_its_dial(
    state: CentralLink,
    event: CentralEvent,
    now: Instant,
)
    ensures
        ({
            let next = state.step(event, now).0.spec_session();
            next matches Some(s) ==> state.spec_session() == next || event
                == CentralEvent::DialStarted { session: s }
        }),
{
}

/// A slot of the server is freed exactly when its loss is announced, save for the
/// drop that the caller asked for and saw confirmed.
pub proof fn peripheral_slot_freed_iff_announced(
    state: PeripheralLink,
    event: PeripheralEvent,
    now: Instant,
)
    ensures
        ({
            let (next, effects) = state.step(event, now);
            announces(effects) <==> state.spec_holds_slot() && !next.spec_holds_slot() && event
                != PeripheralEvent::DisconnectConfirmed
        }),
{
    let (next, effects) = state.step(event, now);
    if effects.len() > 0 {
        assert(effects[0] == TearDown { emit_disconnected: effects[0].emit_disconnected });
    }
}

/// Losing the radio takes every attachment down, and only the radio's return
/// leaves that state.
pub proof fn peripheral_radio_loss_is_total(
    state: PeripheralLink,
    event: PeripheralEvent,
    now: Instant,
)
    ensures
        state.step(PeripheralEvent::RadioLost, now).0 == PeripheralLink::RadioOff,
        PeripheralLink::RadioOff.step(event, now).0 == if event == PeripheralEvent::RadioBack {
            PeripheralLink::Absent
        } else {
            PeripheralLink::RadioOff
        },
{
}

/// The radio is usable exactly if it is powered on and has an adapter, and its links are
/// invalidated exactly by the change that ends that.
pub proof fn the_radio_follows_its_power(state: RadioState, event: RadioEvent)
    ensures
        radio_next(state, RadioEvent::NoAdapter) == RadioState::Unsupported,
        state != RadioState::Unsupported ==> {
            &&& radio_next(state, RadioEvent::PoweredOn) == RadioState::On
            &&& radio_next(state, RadioEvent::PoweredOff) == RadioState::Off
        },
        radio_effects(state, event).len() == if state == RadioState::On && event
            != RadioEvent::PoweredOn {
            1int
        } else {
            0
        },
{
}

/// The deadlines: twenty seconds for a dial, five for a disconnect, ten for a cleanup. One is
/// over once that much time has passed, and not before.
pub proof fn a_deadline_is_over_once_its_window_has_passed(
    since: Instant,
    window: Duration,
    now: Instant,
)
    ensures
        DIAL_WINDOW == 20 * crate::clock::SECOND,
        DISCONNECT_WINDOW == 5 * crate::clock::SECOND,
        DRAIN_WINDOW == 10 * crate::clock::SECOND,
        crate::clock::SECOND == 1000 * crate::clock::MILLISECOND,
        crate::clock::MILLISECOND == 1_000_000,
        window > 0 ==> (expired(since, window, now) <==> now >= since + window),
{
}

/// A dial's life: it starts with the reading of the clock, comes up with its own session,
/// and comes to nothing by a failure or once its time is over; then the peer is idle again
/// and the handle is closed without a word, since nobody knew of the link.
pub proof fn a_dial_comes_up_or_comes_to_nothing(session: Session, at: Instant, now: Instant)
    ensures
        ({
            let dialling = CentralLink::Idle.step(CentralEvent::DialStarted { session }, at).0;
            let silent = tear_down(false);
            &&& dialling == CentralLink::Dialing { since: at, session }
            &&& dialling.step(CentralEvent::DialSucceeded, now) == (
                CentralLink::Connected { session },
                Seq::<TearDown>::empty(),
            )
            &&& dialling.step(CentralEvent::DialFailed, now) == (CentralLink::Idle, silent)
            &&& now >= at + DIAL_WINDOW ==> dialling.step(CentralEvent::Tick, now) == (
                CentralLink::Idle,
                silent,
            )
            &&& now < at + DIAL_WINDOW ==> dialling.step(CentralEvent::Tick, now) == (
                dialling,
                Seq::<TearDown>::empty(),
            )
            &&& silent.len() == 1 && !silent[0].emit_disconnected
            &&& dialling.spec_session() == Some(session)
        }),
{
}

/// A link that is up ends in one of two ways. One that drops is gone at once and its loss is
/// announced; one that is asked to end waits for the platform's word, which ends it without
/// an announcement, or until the time for that is over, which announces it.
pub proof fn a_link_that_is_up_drops_or_is_disconnected(
    session: Session,
    at: Instant,
    now: Instant,
)
    ensures
        ({
            let up = CentralLink::Connected { session };
            let ending = up.step(CentralEvent::DisconnectRequested, at).0;
            let announced = tear_down(true);
            &&& up.step(CentralEvent::LinkDropped, now) == (CentralLink::Idle, announced)
            &&& up.step(CentralEvent::Tick, now) == (up, Seq::<TearDown>::empty())
            &&& ending.spec_session() == Some(session)
            &&& ending.spec_has_connection()
            &&& up.step(CentralEvent::DisconnectRequested, at).1 == Seq::<TearDown>::empty()
            &&& ending.step(CentralEvent::DisconnectConfirmed, now) == (
                CentralLink::Idle,
                Seq::<TearDown>::empty(),
            )
            &&& now >= at + DISCONNECT_WINDOW ==> ending.step(CentralEvent::Tick, now) == (
                CentralLink::Idle,
                announced,
            )
            &&& now < at + DISCONNECT_WINDOW ==> ending.step(CentralEvent::Tick, now) == (
                ending,
                Seq::<TearDown>::empty(),
            )
            &&& announced.len() == 1 && announced[0].emit_disconnected
        }),
{
}

/// While an abandoned dial is cleaned up nothing is dialled. The cleanup ends with the
/// platform's word; one that takes too long is tried again, with a deadline of its own.
pub proof fn a_cleanup_goes_on_until_it_is_confirmed(
    state: CentralLink,
    at: Instant,
    now: Instant,
    session: Session,
)
    requires
        state is Idle || state is Dialing,
    ensures
        ({
            let draining = state.step(CentralEvent::CleanupStarted, at).0;
            let again = CentralLink::Idle.step(CentralEvent::CleanupStarted, now).0;
            &&& draining.spec_holds_resource() && !draining.spec_has_connection()
            &&& draining.step(CentralEvent::DialStarted { session }, now).0 == draining
            &&& draining.step(CentralEvent::CleanupConfirmed, now) == (
                CentralLink::Idle,
                Seq::<TearDown>::empty(),
            )
            &&& now >= at + DRAIN_WINDOW ==> draining.step(CentralEvent::Tick, now) == (
                again,
                tear_down(false),
            )
            &&& now < at + DRAIN_WINDOW ==> draining.step(CentralEvent::Tick, now) == (
                draining,
                Seq::<TearDown>::empty(),
            )
        }),
{
}

/// What comes late moves nothing: no link is moved by an event that speaks of a stage that it
/// is not in.
pub proof fn a_stale_event_moves_no_link(state: CentralLink, event: CentralEvent, now: Instant)
    requires
        event is DialSucceeded || event is DialFailed ==> state !is Dialing,
        event is LinkDropped || event is DisconnectRequested ==> state !is Connected,
        event is DisconnectConfirmed ==> state !is Disconnecting,
        event is CleanupConfirmed ==> state !is Draining,
        event is CleanupStarted ==> state !is Idle && state !is Dialing,
        event is RadioBack ==> state !is RadioOff,
        event is DialStarted ==> state !is Idle,
        event is Tick ==> state is Idle || state is Connected || state is RadioOff,
        event !is RadioLost,
    ensures
        state.step(event, now) == (state, Seq::<TearDown>::empty()),
{
}

/// A platform connection exists while a link is up or is being ended, and something has to be
/// closed in every state but idleness and a dead radio.
pub proof fn a_link_says_what_it_holds(state: CentralLink)
    ensures
        state.spec_has_connection() ==> state.spec_holds_resource() && state.spec_session() is Some,
        state is Idle || state is RadioOff <==> !state.spec_holds_resource(),
        state is Idle || state is RadioOff || state is Draining <==> state.spec_session() is None,
        state is Dialing ==> state.spec_holds_resource() && !state.spec_has_connection(),
        state is Connected || state is Disconnecting ==> state.spec_has_connection(),
        state is Idle || state is Dialing || state is Draining || state is RadioOff
            ==> !state.spec_has_connection(),
{
}

/// A served central's life: it is accepted under its session, served once it subscribes, and
/// leaves by dropping the link or its subscription. A new connection takes the place of an
/// earlier one. One that is asked to leave keeps its place until the platform's word, or
/// until the time for that is over.
pub proof fn a_central_is_accepted_served_and_let_go(
    state: PeripheralLink,
    session: Session,
    at: Instant,
    now: Instant,
)
    requires
        state is Absent || state is Accepted || state is Serving,
    ensures
        ({
            let accepted = state.step(PeripheralEvent::CentralConnected { session }, at).0;
            let serving = accepted.step(PeripheralEvent::CentralSubscribed, at).0;
            let ending = serving.step(PeripheralEvent::DisconnectRequested, at).0;
            let gone = (PeripheralLink::Absent, tear_down(true));
            &&& accepted == PeripheralLink::Accepted { session }
            &&& serving == PeripheralLink::Serving { session }
            &&& accepted.step(PeripheralEvent::DisconnectRequested, at).0 == ending
            &&& ending.spec_session() == Some(session) && ending.spec_holds_slot()
            &&& serving.spec_session() == Some(session) && serving.spec_holds_slot()
            &&& accepted.spec_session() == Some(session) && accepted.spec_holds_slot()
            &&& !PeripheralLink::Absent.spec_holds_slot()
            &&& !PeripheralLink::RadioOff.spec_holds_slot()
            &&& accepted.step(PeripheralEvent::CentralUnsubscribed, now) == gone
            &&& serving.step(PeripheralEvent::CentralUnsubscribed, now) == gone
            &&& accepted.step(PeripheralEvent::CentralDropped, now) == gone
            &&& serving.step(PeripheralEvent::CentralDropped, now) == gone
            &&& ending.step(PeripheralEvent::CentralDropped, now) == gone
            &&& ending.step(PeripheralEvent::DisconnectConfirmed, now) == (
                PeripheralLink::Absent,
                Seq::<TearDown>::empty(),
            )
            &&& now >= at + DISCONNECT_WINDOW ==> ending.step(PeripheralEvent::Tick, now) == gone
            &&& now < at + DISCONNECT_WINDOW ==> ending.step(PeripheralEvent::Tick, now) == (
                ending,
                Seq::<TearDown>::empty(),
            )
        }),
{
}

/// What comes late moves no attachment: no event does that speaks of a stage that it is not
/// in.
pub proof fn a_stale_event_moves_no_attachment(
    state: PeripheralLink,
    event: PeripheralEvent,
    now: Instant,
)
    requires
        event is CentralConnected ==> state is Disconnecting || state is RadioOff,
        event is CentralSubscribed ==> state !is Accepted,
        event is CentralUnsubscribed ==> state !is Accepted && state !is Serving,
        event is CentralDropped ==> state is Absent || state is RadioOff,
        event is DisconnectRequested ==> state !is Accepted && state !is Serving,
        event is DisconnectConfirmed || event is Tick ==> state !is Disconnecting,
        event is RadioBack ==> state !is RadioOff,
        event !is RadioLost,
    ensures
        state.step(event, now) == (state, Seq::<TearDown>::empty()),
{
}

} // verus!
