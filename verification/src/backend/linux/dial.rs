//! Outbound connections: which peer may be dialled, which dial owns an address, and the
//! release of dials that were given up.
//!
//! Giving up on a dial does not cancel it at the platform. So its address is quarantined
//! at once and stays so until a disconnect has settled: a stale disconnect must not land
//! on a connection that replaces the dial.

use vstd::prelude::*;

use crate::assoc::AssocMap;
use crate::backend::linux::{connect_failed, PlatformError, Sessions};
#[allow(unused_imports)]
use crate::backend::following;
use crate::error::BleError;
#[allow(unused_imports)]
use crate::error::{outcome, BleErrorView};
use crate::models::{GattEvent, PeerAddress, Role};
#[allow(unused_imports)]
use crate::models::GattEventView;

verus! {

/// The outbound connections of a backend.
pub struct Dials {
    /// The dial, or the connection it led to, that owns an address.
    dialed: AssocMap<PeerAddress, u64>,
    /// Addresses of dials that were given up and are not cleaned up yet.
    pending_cleanup: AssocMap<PeerAddress, ()>,
    /// Addresses that a dial is under way to.
    in_flight: AssocMap<PeerAddress, ()>,
}

/// The contents of `Dials`.
#[verifier::ext_equal]
pub struct DialsView {
    pub dialed: Map<Seq<char>, u64>,
    pub quarantined: Set<Seq<char>>,
    pub in_flight: Set<Seq<char>>,
}

impl View for Dials {
    type V = DialsView;

    closed spec fn view(&self) -> DialsView {
        DialsView {
            dialed: self.dialed@,
            quarantined: self.pending_cleanup@.dom(),
            in_flight: self.in_flight@.dom(),
        }
    }
}

pub open spec fn still_cleaning(peer: Seq<char>) -> BleErrorView {
    BleErrorView::ConnectFailed {
        peer,
        reason: "a previous cancelled connect attempt is still being cleaned up"@,
    }
}

pub open spec fn already_dialling(peer: Seq<char>) -> BleErrorView {
    BleErrorView::ConnectFailed {
        peer,
        reason: "a connect attempt to this peer is already in flight"@,
    }
}

/// How the platform answered a dial.
pub enum DialReply {
    Connected,
    Refused(PlatformError),
    /// It has not answered in time, and may still do so.
    TimedOut,
}

/// What a dial came to.
pub enum DialEnd {
    /// The connection stands: announce it and watch it.
    Up { session: u64, announce: GattEvent },
    Failed(BleError),
    /// The dial failed, and what is left of it must be cleaned up.
    FailedUnsettled(BleError),
}

/// How far the release of a dial that was given up has come.
#[derive(Debug, Clone, Copy, PartialEq, Eq, Structural)]
pub enum CleanupStage {
    /// No disconnect is under way.
    Ready,
    /// A disconnect was issued and has not settled.
    Outstanding,
    Finished,
}

/// What happened to the release of a dial.
pub enum CleanupEvent {
    /// A disconnect may be issued now.
    Due { device_known: bool },
    /// The disconnect settled.
    Settled(Result<(), PlatformError>),
    /// The task of the disconnect ended without a reply.
    Died,
    /// The disconnect has not settled within the wait for it.
    TimedOut,
}

#[derive(Debug, Clone, Copy, PartialEq, Eq, Structural)]
pub enum CleanupAction {
    Nothing,
    StartDisconnect,
    /// Wait for the same disconnect again.
    KeepWaiting,
    /// Try again behind a pause.
    RetryLater,
    Stop,
}

/// The release of a dial: one disconnect at a time, until one settles in there being no
/// connection. A newer dial to the address, or a device that the platform no longer
/// knows, leaves nothing to release.
pub open spec fn cleanup_step(stage: CleanupStage, event: CleanupEvent, redialled: bool) -> (
    CleanupStage,
    CleanupAction,
) {
    match (stage, event) {
        (CleanupStage::Ready, CleanupEvent::Due { device_known }) => if redialled
            || !device_known {
            (CleanupStage::Finished, CleanupAction::Stop)
        } else {
            (CleanupStage::Outstanding, CleanupAction::StartDisconnect)
        },
        (CleanupStage::Outstanding, CleanupEvent::Settled(reply)) => if reply is Ok
            || reply->Err_0.not_connected() {
            (CleanupStage::Finished, CleanupAction::Stop)
        } else {
            (CleanupStage::Ready, CleanupAction::RetryLater)
        },
        (CleanupStage::Outstanding, CleanupEvent::Died) => (
            CleanupStage::Ready,
            CleanupAction::RetryLater,
        ),
        (CleanupStage::Outstanding, CleanupEvent::TimedOut) => (
            CleanupStage::Outstanding,
            CleanupAction::KeepWaiting,
        ),
        _ => (stage, CleanupAction::Nothing),
    }
}

impl DialsView {
    /// Whether the connection or dial `session` owns the address.
    pub open spec fn owns(self, peer: Seq<char>, session: u64) -> bool {
        self.dialed.contains_key(peer) && self.dialed[peer] == session
    }

    /// The view once `session` no longer owns the address, if it did.
    pub open spec fn disowned(self, peer: Seq<char>, session: u64) -> DialsView {
        if self.owns(peer, session) {
            DialsView { dialed: self.dialed.remove(peer), ..self }
        } else {
            self
        }
    }

    pub open spec fn released(self, peer: Seq<char>) -> DialsView {
        DialsView { in_flight: self.in_flight.remove(peer), ..self }
    }

    pub open spec fn quarantining(self, peer: Seq<char>) -> DialsView {
        DialsView { quarantined: self.quarantined.insert(peer), ..self }
    }

    pub open spec fn claimed(self, peer: Seq<char>) -> (DialsView, Result<(), BleErrorView>) {
        if self.quarantined.contains(peer) {
            (self, Err(still_cleaning(peer)))
        } else if self.in_flight.contains(peer) {
            (self, Err(already_dialling(peer)))
        } else {
            (DialsView { in_flight: self.in_flight.insert(peer), ..self }, Ok(()))
        }
    }

    pub open spec fn started(self, peer: Seq<char>, session: u64) -> (
        DialsView,
        Result<u64, BleErrorView>,
    ) {
        if self.quarantined.contains(peer) {
            (self.released(peer), Err(still_cleaning(peer)))
        } else {
            (DialsView { dialed: self.dialed.insert(peer, session), ..self }, Ok(session))
        }
    }

    pub open spec fn ended(self, peer: Seq<char>, session: u64, reply: DialReply) -> DialsView {
        match reply {
            DialReply::Connected => self.released(peer),
            DialReply::Refused(_) => self.disowned(peer, session).released(peer),
            DialReply::TimedOut => self.abandoned(peer, Some(session)),
        }
    }

    /// The view once a dial was given up: one that had begun, by its session, or one that
    /// still waited for its turn.
    pub open spec fn abandoned(self, peer: Seq<char>, session: Option<u64>) -> DialsView {
        match session {
            Some(session) => self.disowned(peer, session).quarantining(peer).released(peer),
            None => self.released(peer),
        }
    }

    pub open spec fn cleaned(
        self,
        peer: Seq<char>,
        stage: CleanupStage,
        event: CleanupEvent,
    ) -> DialsView {
        if cleanup_step(stage, event, self.dialed.contains_key(peer)).1 == CleanupAction::Stop {
            DialsView { quarantined: self.quarantined.remove(peer), ..self }
        } else {
            self
        }
    }
}

pub open spec fn timed_out(peer: Seq<char>) -> BleErrorView {
    BleErrorView::ConnectFailed {
        peer,
        reason: "timed out after 20s waiting for BlueZ to respond to Connect"@,
    }
}

impl Dials {
    pub fn new() -> (r: Dials)
        ensures
            r@ == (DialsView {
                dialed: Map::empty(),
                quarantined: Set::empty(),
                in_flight: Set::empty(),
            }),
    {
        let r = Dials {
            dialed: AssocMap::new(),
            pending_cleanup: AssocMap::new(),
            in_flight: AssocMap::new(),
        };
        assert(r@.quarantined =~= Set::empty());
        assert(r@.in_flight =~= Set::empty());
        r
    }

    /// Claims the dialling of a peer, before waiting for the turn to dial. A second dial is
    /// refused rather than queued behind the first.
    pub fn claim(&mut self, peer: &PeerAddress) -> (r: Result<(), BleError>)
        ensures
            final(self)@ == old(self)@.claimed(peer@).0,
            outcome(r) == old(self)@.claimed(peer@).1,
    {
        if self.pending_cleanup.contains(peer) {
            return Err(
                connect_failed(
                    peer,
                    "a previous cancelled connect attempt is still being cleaned up",
                ),
            );
        }
        if self.in_flight.contains(peer) {
            return Err(
                connect_failed(peer, "a connect attempt to this peer is already in flight"),
            );
        }
        self.in_flight.insert(peer.clone(), ());
        assert(self@ =~= old(self)@.claimed(peer@).0);
        Ok(())
    }

    /// Begins a claimed dial once its turn has come. The address may have been quarantined
    /// in the meantime.
    pub fn start(&mut self, peer: &PeerAddress, sessions: &mut Sessions) -> (r: Result<
        u64,
        BleError,
    >)
        ensures
            final(self)@ == old(self)@.started(peer@, old(sessions)@).0,
            outcome(r) == old(self)@.started(peer@, old(sessions)@).1,
            final(sessions)@ == if r is Ok {
                following(old(sessions)@)
            } else {
                old(sessions)@
            },
    {
        if self.pending_cleanup.contains(peer) {
            self.in_flight.remove(peer);
            assert(self@ =~= old(self)@.started(peer@, old(sessions)@).0);
            return Err(
                connect_failed(
                    peer,
                    "a previous cancelled connect attempt is still being cleaned up",
                ),
            );
        }
        let session = sessions.allocate();
        self.dialed.insert(peer.clone(), session);
        assert(self@ =~= old(self)@.started(peer@, old(sessions)@).0);
        Ok(session)
    }

    /// Takes the address from `session`, if it still owns it.
    fn disown(&mut self, peer: &PeerAddress, session: u64)
        ensures
            final(self)@ == old(self)@.disowned(peer@, session),
    {
        let owned = match self.dialed.get(peer) {
            Some(current) => *current == session,
            None => false,
        };
        if owned {
            self.dialed.remove(peer);
        }
        assert(self@ =~= old(self)@.disowned(peer@, session));
    }

    /// Ends a dial by the platform's reply.
    pub fn finish(&mut self, peer: &PeerAddress, session: u64, reply: DialReply) -> (r: DialEnd)
        ensures
            final(self)@ == old(self)@.ended(peer@, session, reply),
            match reply {
                DialReply::Connected => {
                    &&& r matches DialEnd::Up { session: s, announce }
                    &&& s == session
                    &&& announce@ == (GattEventView::Connected {
                        peer: peer@,
                        local_role: Role::Central,
                        session: Some(session),
                    })
                },
                DialReply::Refused(error) => {
                    &&& r matches DialEnd::Failed(e)
                    &&& e@ == (BleErrorView::ConnectFailed { peer: peer@, reason: error.text@ })
                },
                DialReply::TimedOut => r is FailedUnsettled && r->FailedUnsettled_0@ == timed_out(
                    peer@,
                ),
            },
    {
        match reply {
            DialReply::Connected => {
                self.in_flight.remove(peer);
                assert(self@ =~= old(self)@.released(peer@));
                DialEnd::Up {
                    session,
                    announce: GattEvent::Connected {
                        peer: peer.clone(),
                        local_role: Role::Central,
                        session: Some(session),
                    },
                }
            },
            DialReply::Refused(error) => {
                self.disown(peer, session);
                let ghost mid = self@;
                self.in_flight.remove(peer);
                assert(self@ =~= mid.released(peer@));
                DialEnd::Failed(connect_failed(peer, error.text.as_str()))
            },
            DialReply::TimedOut => {
                self.abandon(peer, Some(session));
                DialEnd::FailedUnsettled(
                    connect_failed(
                        peer,
                        "timed out after 20s waiting for BlueZ to respond to Connect",
                    ),
                )
            },
        }
    }

    /// Gives up on a dial: one that had begun, by its session, or one that still waited for
    /// its turn. What had begun is quarantined before anyone can dial again.
    pub fn abandon(&mut self, peer: &PeerAddress, session: Option<u64>)
        ensures
            final(self)@ == old(self)@.abandoned(peer@, session),
    {
        match session {
            Some(session) => {
                self.disown(peer, session);
                self.pending_cleanup.insert(peer.clone(), ());
            },
            None => {},
        }
        self.in_flight.remove(peer);
        assert(self@ =~= old(self)@.abandoned(peer@, session));
    }

    /// Moves the release of a dial on. The quarantine ends with it.
    pub fn clean_up(&mut self, peer: &PeerAddress, stage: CleanupStage, event: CleanupEvent) -> (r: (
        CleanupStage,
        CleanupAction,
    ))
        ensures
            r == cleanup_step(stage, event, old(self)@.dialed.contains_key(peer@)),
            final(self)@ == old(self)@.cleaned(peer@, stage, event),
    {
        let r = match (stage, event) {
            (CleanupStage::Ready, CleanupEvent::Due { device_known }) => {
                if self.dialed.contains(peer) || !device_known {
                    (CleanupStage::Finished, CleanupAction::Stop)
                } else {
                    (CleanupStage::Outstanding, CleanupAction::StartDisconnect)
                }
            },
            (CleanupStage::Outstanding, CleanupEvent::Settled(reply)) => {
                let clean = match reply {
                    Ok(_) => true,
                    Err(error) => error.is_not_connected(),
                };
                if clean {
                    (CleanupStage::Finished, CleanupAction::Stop)
                } else {
                    (CleanupStage::Ready, CleanupAction::RetryLater)
                }
            },
            (CleanupStage::Outstanding, CleanupEvent::Died) => {
                (CleanupStage::Ready, CleanupAction::RetryLater)
            },
            (CleanupStage::Outstanding, CleanupEvent::TimedOut) => {
                (CleanupStage::Outstanding, CleanupAction::KeepWaiting)
            },
            _ => (stage, CleanupAction::Nothing),
        };
        if r.1 == CleanupAction::Stop {
            self.pending_cleanup.remove(peer);
        }
        assert(self@ =~= old(self)@.cleaned(peer@, stage, event));
        r
    }

    /// Reports the loss of a connection, if it still owns its address.
    pub fn report_central_loss(&mut self, peer: &PeerAddress, session: u64) -> (r: Option<GattEvent>)
        ensures
            final(self)@ == old(self)@.disowned(peer@, session),
            r is Some <==> old(self)@.owns(peer@, session),
            r is Some ==> r->0@ == (GattEventView::Disconnected {
                peer: peer@,
                local_role: Role::Central,
                session: Some(session),
            }),
    {
        let current = match self.dialed.get(peer) {
            Some(current) => *current == session,
            None => false,
        };
        self.disown(peer, session);
        if current {
            Some(
                GattEvent::Disconnected {
                    peer: peer.clone(),
                    local_role: Role::Central,
                    session: Some(session),
                },
            )
        } else {
            None
        }
    }

    /// Whether a handle still owns its connection. An address without an owner is nobody's.
    pub fn ensure_current(&self, peer: &PeerAddress, session: u64) -> (r: Result<(), BleError>)
        ensures
            outcome(r) == if self@.owns(peer@, session) {
                Ok::<(), BleErrorView>(())
            } else {
                Err(BleErrorView::NotConnected(peer@))
            },
    {
        match self.dialed.get(peer) {
            Some(current) => if *current == session {
                Ok(())
            } else {
                Err(BleError::NotConnected(peer.0.clone()))
            },
            None => Err(BleError::NotConnected(peer.0.clone())),
        }
    }
}

// ---------------------------------------------------------------------------
// Laws
// ---------------------------------------------------------------------------

/// Whichever way a dial ends, its claim on the peer is released; and a dial that was
/// given up after it had begun leaves its address quarantined.
pub proof fn every_way_out_releases_the_claim(
    dials: DialsView,
    peer: Seq<char>,
    session: u64,
    reply: DialReply,
    begun: Option<u64>,
)
    ensures
        !dials.ended(peer, session, reply).in_flight.contains(peer),
        !dials.abandoned(peer, begun).in_flight.contains(peer),
        begun is Some ==> dials.abandoned(peer, begun).quarantined.contains(peer),
        dials.started(peer, session).1 is Err ==> !dials.started(
            peer,
            session,
        ).0.in_flight.contains(peer),
{
}

/// A quarantined address is not dialled, neither when the dial is claimed nor when its
/// turn comes.
pub proof fn a_quarantined_peer_is_not_dialled(dials: DialsView, peer: Seq<char>, session: u64)
    requires
        dials.quarantined.contains(peer),
    ensures
        dials.claimed(peer) == (dials, Err::<(), BleErrorView>(still_cleaning(peer))),
        dials.started(peer, session).1 == Err::<u64, BleErrorView>(still_cleaning(peer)),
        dials.started(peer, session).0.dialed == dials.dialed,
{
}

/// While a dial is claimed, another one to the same peer is refused.
pub proof fn one_dial_at_a_time(dials: DialsView, peer: Seq<char>)
    requires
        dials.claimed(peer).1 is Ok,
    ensures
        dials.claimed(peer).0.claimed(peer) == (
            dials.claimed(peer).0,
            Err::<(), BleErrorView>(already_dialling(peer)),
        ),
{
}

/// A dial that was given up can be retried once its release has settled, and not before.
pub proof fn a_dial_that_was_given_up_can_be_retried(
    dials: DialsView,
    peer: Seq<char>,
    session: u64,
    stage: CleanupStage,
    event: CleanupEvent,
)
    ensures
        ({
            let left = dials.abandoned(peer, Some(session));
            let settled = left.cleaned(peer, stage, event);
            let step = cleanup_step(stage, event, left.dialed.contains_key(peer));
            settled.claimed(peer).1 is Ok <==> step.1 == CleanupAction::Stop
        }),
{
}

/// No disconnect is issued before the one before it has settled.
pub proof fn one_disconnect_at_a_time(stage: CleanupStage, event: CleanupEvent, redialled: bool)
    ensures
        cleanup_step(stage, event, redialled).1 == CleanupAction::StartDisconnect ==> stage
            == CleanupStage::Ready,
        stage == CleanupStage::Outstanding && cleanup_step(stage, event, redialled).0
            != CleanupStage::Outstanding ==> event is Settled || event is Died,
        stage == CleanupStage::Finished ==> cleanup_step(stage, event, redialled) == (
            CleanupStage::Finished,
            CleanupAction::Nothing,
        ),
{
}

/// The report of a dial that was replaced disturbs nothing: the connection that replaced
/// it keeps the address, and the older handle is refused.
pub proof fn a_replaced_dial_disturbs_nothing(
    dials: DialsView,
    peer: Seq<char>,
    older: u64,
    newer: u64,
)
    requires
        dials.owns(peer, newer),
        older != newer,
    ensures
        dials.disowned(peer, older) == dials,
        !dials.owns(peer, older),
        dials.ended(peer, older, DialReply::TimedOut).owns(peer, newer),
{
}

/// A connection that was lost is nobody's: its own handle is refused too.
pub proof fn a_lost_connection_is_nobodys(dials: DialsView, peer: Seq<char>, session: u64)
    ensures
        !dials.disowned(peer, session).owns(peer, session),
{
}

/// What is done for one peer leaves every other peer alone.
pub proof fn other_peers_dials_are_left_alone(
    dials: DialsView,
    peer: Seq<char>,
    session: u64,
    begun: Option<u64>,
    reply: DialReply,
    stage: CleanupStage,
    event: CleanupEvent,
    other: Seq<char>,
)
    requires
        other != peer,
    ensures
        ({
            let nexts = seq![
                dials.claimed(peer).0,
                dials.started(peer, session).0,
                dials.ended(peer, session, reply),
                dials.abandoned(peer, begun),
                dials.disowned(peer, session),
                dials.cleaned(peer, stage, event),
            ];
            forall|i: int|
                #![trigger nexts[i]]
                0 <= i < nexts.len() ==> {
                    &&& nexts[i].dialed.get(other) == dials.dialed.get(other)
                    &&& nexts[i].quarantined.contains(other) <==> dials.quarantined.contains(other)
                    &&& nexts[i].in_flight.contains(other) <==> dials.in_flight.contains(other)
                }
        }),
{
}

/// A dial that is claimed and started owns its address: by its own session and no other. If
/// it comes up it goes on to, and the peer may be claimed again; if it is refused it owns the
/// address no longer; if it is given up it does not either, and the address is quarantined.
pub proof fn a_dial_owns_its_address_until_it_ends(
    dials: DialsView,
    peer: Seq<char>,
    session: u64,
    other: u64,
    error: PlatformError,
)
    requires
        dials.claimed(peer).1 is Ok,
        other != session,
    ensures
        ({
            let claimed = dials.claimed(peer).0;
            let (dialling, r) = claimed.started(peer, session);
            let up = dialling.ended(peer, session, DialReply::Connected);
            let refused = dialling.ended(peer, session, DialReply::Refused(error));
            let late = dialling.ended(peer, session, DialReply::TimedOut);
            &&& claimed.in_flight.contains(peer)
            &&& claimed.dialed == dials.dialed && claimed.quarantined == dials.quarantined
            &&& r == Ok::<u64, BleErrorView>(session)
            &&& dialling.owns(peer, session) && !dialling.owns(peer, other)
            &&& dialling.in_flight.contains(peer)
            &&& up.owns(peer, session) && up.claimed(peer).1 is Ok
            &&& !refused.owns(peer, session) && refused.claimed(peer).1 is Ok
            &&& !refused.quarantined.contains(peer)
            &&& !late.owns(peer, session) && late.quarantined.contains(peer)
            &&& late.claimed(peer).1 == Err::<(), BleErrorView>(still_cleaning(peer))
        }),
{
}

/// A dial that is given up while it still waits for its turn gives back its claim alone.
pub proof fn a_dial_that_never_began_leaves_nothing(dials: DialsView, peer: Seq<char>)
    ensures
        dials.abandoned(peer, None).dialed == dials.dialed,
        dials.abandoned(peer, None).quarantined == dials.quarantined,
        dials.claimed(peer).1 is Ok ==> dials.claimed(peer).0.abandoned(peer, None).in_flight
            =~= dials.in_flight,
{
}

/// A refusal says which peer and why.
pub proof fn a_refused_dial_says_why(peer: Seq<char>)
    ensures
        still_cleaning(peer) == (BleErrorView::ConnectFailed {
            peer,
            reason: "a previous cancelled connect attempt is still being cleaned up"@,
        }),
        already_dialling(peer) == (BleErrorView::ConnectFailed {
            peer,
            reason: "a connect attempt to this peer is already in flight"@,
        }),
        timed_out(peer) == (BleErrorView::ConnectFailed {
            peer,
            reason: "timed out after 20s waiting for BlueZ to respond to Connect"@,
        }),
{
}

/// The release of a dial ends exactly when there is nothing to release: a newer dial has the
/// address or the device is unknown when the next disconnect is due, or a disconnect settled
/// in there being no connection. Anything else is tried again, or waited for.
pub proof fn a_release_goes_on_until_nothing_is_left(
    device_known: bool,
    reply: Result<(), PlatformError>,
    redialled: bool,
)
    ensures
        cleanup_step(CleanupStage::Ready, CleanupEvent::Due { device_known }, redialled) == if
            device_known && !redialled {
            (CleanupStage::Outstanding, CleanupAction::StartDisconnect)
        } else {
            (CleanupStage::Finished, CleanupAction::Stop)
        },
        reply is Ok ==> cleanup_step(
            CleanupStage::Outstanding,
            CleanupEvent::Settled(reply),
            redialled,
        ) == (CleanupStage::Finished, CleanupAction::Stop),
        reply is Err && reply->Err_0.not_connected() ==> cleanup_step(
            CleanupStage::Outstanding,
            CleanupEvent::Settled(reply),
            redialled,
        ) == (CleanupStage::Finished, CleanupAction::Stop),
        reply is Err && !reply->Err_0.not_connected() ==> cleanup_step(
            CleanupStage::Outstanding,
            CleanupEvent::Settled(reply),
            redialled,
        ) == (CleanupStage::Ready, CleanupAction::RetryLater),
        cleanup_step(CleanupStage::Outstanding, CleanupEvent::Died, redialled) == (
            CleanupStage::Ready,
            CleanupAction::RetryLater,
        ),
        cleanup_step(CleanupStage::Outstanding, CleanupEvent::TimedOut, redialled) == (
            CleanupStage::Outstanding,
            CleanupAction::KeepWaiting,
        ),
{
}

} // verus!
