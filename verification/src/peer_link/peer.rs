//! One tracked peer: how its link, its dialling and its patience change.

use vstd::prelude::*;

use crate::backend::link_state::{CentralEvent, CentralLink, RadioState, Session};
use crate::clock::{elapsed, Duration, Instant};
#[allow(unused_imports)]
use crate::clock::spec_elapsed;
use crate::peer_link::{PeerStatus, RetryBudget};

verus! {

/// What is kept of one tracked peer.
#[derive(Debug, Clone, Copy, PartialEq, Eq, Structural)]
pub struct Peer {
    pub central: CentralLink,
    /// Whether this side dials.
    pub dials: bool,
    /// When this side's patience began: with the first failed dial, where it dials, and with
    /// the wait for a link, where it does not.
    pub trying_since: Option<Instant>,
    pub attempts: u64,
    /// No dial before this.
    pub retry_at: Option<Instant>,
    pub gave_up: bool,
    /// Whether a channel stands.
    pub link: bool,
    /// Whether the channel that stands was accepted, not dialled.
    pub accepted: bool,
}

/// When the patience of a side begins that has just been set to getting a link: at once
/// where it waits for one. A side that dials has to fail first.
pub open spec fn patience_from(dials: bool, now: Instant) -> Option<Instant> {
    if dials {
        None
    } else {
        Some(now)
    }
}

fn begin_patience(dials: bool, now: Instant) -> (r: Option<Instant>)
    ensures
        r == patience_from(dials, now),
{
    if dials {
        None
    } else {
        Some(now)
    }
}

/// A point in time `span` behind `now`, or the last one there is.
pub open spec fn later(now: Instant, span: Duration) -> Instant {
    if now + span > u128::MAX {
        u128::MAX
    } else {
        (now + span) as u128
    }
}

/// The backoff behind the `attempts`-th attempt: the ladder's last rung repeats.
pub open spec fn rung(backoff: Seq<Duration>, attempts: u64) -> Duration {
    if attempts <= 1 {
        backoff[0]
    } else if attempts > backoff.len() {
        backoff[backoff.len() - 1]
    } else {
        backoff[attempts - 1]
    }
}

impl Peer {
    /// A link stands exactly when the machine of the dialled link says so, or one was
    /// accepted; and there is only ever one.
    pub open spec fn wf(self) -> bool {
        &&& self.link <==> self.central is Connected || self.accepted
        &&& self.accepted ==> self.central !is Connected && self.central !is Dialing
        &&& self.central !is Disconnecting
        &&& self.central !is Draining
    }

    pub open spec fn spec_fresh(dials: bool, now: Instant) -> Peer {
        Peer {
            central: CentralLink::Idle,
            dials,
            trying_since: patience_from(dials, now),
            attempts: 0,
            retry_at: None,
            gave_up: false,
            link: false,
            accepted: false,
        }
    }

    /// Whether the peer may be dialled now.
    pub open spec fn spec_eligible(self, now: Instant) -> bool {
        &&& !self.link
        &&& !self.gave_up
        &&& self.dials
        &&& self.central is Idle
        &&& !(self.retry_at matches Some(at) && now < at)
    }

    /// Whether the peer takes up one of the links that may exist at once.
    pub open spec fn spec_occupies(self) -> bool {
        self.link || self.central is Dialing
    }

    pub open spec fn spec_dialling(self, session: Session, now: Instant) -> Peer {
        Peer {
            central: self.central.step(CentralEvent::DialStarted { session }, now).0,
            attempts: if self.attempts == u64::MAX {
                u64::MAX
            } else {
                (self.attempts + 1) as u64
            },
            ..self
        }
    }

    pub open spec fn spec_retried(self, now: Instant) -> Peer {
        Peer {
            gave_up: false,
            attempts: 0,
            retry_at: None,
            trying_since: patience_from(self.dials, now),
            ..self
        }
    }

    /// The peer once an inbound link was accepted: it takes the place of a dial under way,
    /// and of having given up.
    pub open spec fn spec_accepted(self, now: Instant) -> Peer {
        Peer {
            central: self.central.step(CentralEvent::DialFailed, now).0,
            attempts: 0,
            trying_since: None,
            retry_at: None,
            gave_up: false,
            link: true,
            accepted: true,
            ..self
        }
    }

    pub open spec fn spec_connected(self, now: Instant) -> Peer {
        Peer {
            central: self.central.step(CentralEvent::DialSucceeded, now).0,
            attempts: 0,
            trying_since: None,
            retry_at: None,
            link: true,
            ..self
        }
    }

    /// The peer behind a failed dial: the next one is due by the ladder, unless the
    /// budget is spent. Of a dial whose place an accepted link has taken, nothing comes.
    pub open spec fn spec_failed(self, budget: &RetryBudget, now: Instant) -> Peer {
        if self.accepted {
            self
        } else {
            self.spec_set_back(budget, now)
        }
    }

    pub open spec fn spec_set_back(self, budget: &RetryBudget, now: Instant) -> Peer {
        let central = self.central.step(CentralEvent::DialFailed, now).0;
        let since = match self.trying_since {
            Some(since) => since,
            None => now,
        };
        let tried = Peer { central, trying_since: Some(since), ..self };
        if spec_elapsed(since, now) >= budget.give_up_after {
            Peer { gave_up: true, retry_at: None, ..tried }
        } else if budget.backoff@.len() == 0 {
            Peer { gave_up: true, ..tried }
        } else {
            Peer { retry_at: Some(later(now, rung(budget.backoff@, self.attempts))), ..tried }
        }
    }

    pub open spec fn spec_gone(self, now: Instant) -> Peer {
        Peer {
            central: self.central.step(CentralEvent::LinkDropped, now).0,
            trying_since: patience_from(self.dials, now),
            attempts: 0,
            retry_at: None,
            link: false,
            accepted: false,
            ..self
        }
    }

    pub open spec fn spec_radio_lost(self, now: Instant) -> Peer {
        Peer {
            central: self.central.step(CentralEvent::RadioLost, now).0,
            link: false,
            accepted: false,
            ..self.spec_retried(now)
        }
    }

    pub open spec fn spec_radio_back(self, now: Instant) -> Peer {
        Peer { central: self.central.step(CentralEvent::RadioBack, now).0, ..self }
    }

    /// Whether a dial has run out of its time by now, which is a way to fail.
    pub open spec fn dial_runs_out(self, now: Instant) -> bool {
        self.central is Dialing && self.central.step(CentralEvent::Tick, now).0 !is Dialing
    }

    /// Time passed: the link's deadlines, and the one for having a link at all.
    pub open spec fn spec_ticked(self, budget: &RetryBudget, now: Instant) -> Peer {
        let ticked = Peer {
            central: self.central.step(CentralEvent::Tick, now).0,
            trying_since: if self.trying_since is None && self.dial_runs_out(now) {
                Some(now)
            } else {
                self.trying_since
            },
            ..self
        };
        let deadline = if self.dials {
            budget.give_up_after
        } else {
            budget.acceptor_deadline
        };
        if !self.link && !self.gave_up && (ticked.trying_since matches Some(since) && spec_elapsed(
            since,
            now,
        ) >= deadline) {
            Peer { gave_up: true, retry_at: None, ..ticked }
        } else {
            ticked
        }
    }

    /// The peer's coarse status.
    pub open spec fn spec_status(self, radio: RadioState, full: bool) -> PeerStatus {
        if radio != RadioState::On {
            PeerStatus::Unavailable
        } else if self.link {
            PeerStatus::Connected
        } else if self.gave_up {
            PeerStatus::GaveUp
        } else if self.retry_at is Some {
            PeerStatus::Waiting
        } else if full && self.dials {
            PeerStatus::Queued
        } else {
            PeerStatus::Connecting
        }
    }

    pub fn fresh(dials: bool, now: Instant) -> (r: Peer)
        ensures
            r == Peer::spec_fresh(dials, now),
    {
        Peer {
            central: CentralLink::new(),
            dials,
            trying_since: begin_patience(dials, now),
            attempts: 0,
            retry_at: None,
            gave_up: false,
            link: false,
            accepted: false,
        }
    }

    pub fn eligible(&self, now: Instant) -> (r: bool)
        ensures
            r == self.spec_eligible(now),
    {
        if self.link || self.gave_up || !self.dials || !self.central.may_dial() {
            return false;
        }
        match self.retry_at {
            Some(at) => now >= at,
            None => true,
        }
    }

    pub fn occupies(&self) -> (r: bool)
        ensures
            r == self.spec_occupies(),
    {
        self.link || matches!(self.central, CentralLink::Dialing { .. })
    }

    pub fn dialling(&self, session: Session, now: Instant) -> (r: Peer)
        ensures
            r == self.spec_dialling(session, now),
    {
        let mut r = *self;
        let (next, _) = self.central.apply(CentralEvent::DialStarted { session }, now);
        r.central = next;
        r.attempts = if self.attempts == u64::MAX {
            u64::MAX
        } else {
            self.attempts + 1
        };
        r
    }

    /// The peer's budget starts anew.
    pub fn retried(&self, now: Instant) -> (r: Peer)
        ensures
            r == self.spec_retried(now),
    {
        let mut r = *self;
        r.gave_up = false;
        r.attempts = 0;
        r.retry_at = None;
        r.trying_since = begin_patience(self.dials, now);
        r
    }

    /// An inbound link of the peer is taken in.
    pub fn accepted(&self, now: Instant) -> (r: Peer)
        ensures
            r == self.spec_accepted(now),
    {
        let mut r = *self;
        let (next, _) = self.central.apply(CentralEvent::DialFailed, now);
        r.central = next;
        r.attempts = 0;
        r.trying_since = None;
        r.retry_at = None;
        r.gave_up = false;
        r.link = true;
        r.accepted = true;
        r
    }

    pub fn connected(&self, now: Instant) -> (r: Peer)
        ensures
            r == self.spec_connected(now),
    {
        let mut r = *self;
        let (next, _) = self.central.apply(CentralEvent::DialSucceeded, now);
        r.central = next;
        r.attempts = 0;
        r.trying_since = None;
        r.retry_at = None;
        r.link = true;
        r
    }

    pub fn failed(&self, budget: &RetryBudget, now: Instant) -> (r: Peer)
        ensures
            r == self.spec_failed(budget, now),
    {
        let mut r = *self;
        if self.accepted {
            return r;
        }
        let (next, _) = self.central.apply(CentralEvent::DialFailed, now);
        r.central = next;
        r.apply_backoff(budget, now);
        r
    }

    /// Schedules the next attempt, or gives up.
    fn apply_backoff(&mut self, budget: &RetryBudget, now: Instant)
        ensures
            ({
                let since = match old(self).trying_since {
                    Some(since) => since,
                    None => now,
                };
                let tried = Peer { trying_since: Some(since), ..*old(self) };
                *final(self) == if spec_elapsed(since, now) >= budget.give_up_after {
                    Peer { gave_up: true, retry_at: None, ..tried }
                } else if budget.backoff@.len() == 0 {
                    Peer { gave_up: true, ..tried }
                } else {
                    Peer {
                        retry_at: Some(later(now, rung(budget.backoff@, old(self).attempts))),
                        ..tried
                    }
                }
            }),
    {
        let since: Instant = match self.trying_since {
            Some(since) => since,
            None => now,
        };
        self.trying_since = Some(since);
        if elapsed(since, now) >= budget.give_up_after {
            self.gave_up = true;
            self.retry_at = None;
            return;
        }
        let rungs: usize = budget.backoff.len();
        if rungs == 0 {
            self.gave_up = true;
            return;
        }
        let index: usize = if self.attempts <= 1 {
            0
        } else if self.attempts > rungs as u64 {
            rungs - 1
        } else {
            (self.attempts - 1) as usize
        };
        let wait: Duration = budget.backoff[index];
        self.retry_at = Some(
            match now.checked_add(wait) {
                Some(at) => at,
                None => u128::MAX,
            },
        );
    }

    pub fn gone(&self, now: Instant) -> (r: Peer)
        ensures
            r == self.spec_gone(now),
    {
        let mut r = *self;
        let (next, _) = self.central.apply(CentralEvent::LinkDropped, now);
        r.central = next;
        r.trying_since = begin_patience(self.dials, now);
        r.attempts = 0;
        r.retry_at = None;
        r.link = false;
        r.accepted = false;
        r
    }

    pub fn radio_lost(&self, now: Instant) -> (r: Peer)
        ensures
            r == self.spec_radio_lost(now),
    {
        let mut r = self.retried(now);
        let (next, _) = self.central.apply(CentralEvent::RadioLost, now);
        r.central = next;
        r.link = false;
        r.accepted = false;
        r
    }

    pub fn radio_back(&self, now: Instant) -> (r: Peer)
        ensures
            r == self.spec_radio_back(now),
    {
        let mut r = *self;
        let (next, _) = self.central.apply(CentralEvent::RadioBack, now);
        r.central = next;
        r
    }

    pub fn ticked(&self, budget: &RetryBudget, now: Instant) -> (r: Peer)
        ensures
            r == self.spec_ticked(budget, now),
    {
        let mut r = *self;
        let (next, _) = self.central.apply(CentralEvent::Tick, now);
        r.central = next;
        let dialling = matches!(self.central, CentralLink::Dialing { .. });
        let still = matches!(next, CentralLink::Dialing { .. });
        if dialling && !still && self.trying_since.is_none() {
            r.trying_since = Some(now);
        }
        if self.link || self.gave_up {
            return r;
        }
        let deadline: Duration = if self.dials {
            budget.give_up_after
        } else {
            budget.acceptor_deadline
        };
        match r.trying_since {
            Some(since) => {
                if elapsed(since, now) >= deadline {
                    r.gave_up = true;
                    r.retry_at = None;
                }
            },
            None => {},
        }
        r
    }

    /// Projects the peer's coarse status; `full` says that as many links stand as may.
    pub fn project(&self, radio: RadioState, full: bool) -> (r: PeerStatus)
        ensures
            r == self.spec_status(radio, full),
    {
        if !radio.usable() {
            return PeerStatus::Unavailable;
        }
        if self.link {
            return PeerStatus::Connected;
        }
        if self.gave_up {
            return PeerStatus::GaveUp;
        }
        if self.retry_at.is_some() {
            return PeerStatus::Waiting;
        }
        if full && self.dials {
            return PeerStatus::Queued;
        }
        PeerStatus::Connecting
    }
}

} // verus!
