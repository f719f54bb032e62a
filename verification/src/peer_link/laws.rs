//! What holds of links over several turns of the driver.

use vstd::prelude::*;

#[allow(unused_imports)]
use crate::assoc::counted;
#[allow(unused_imports)]
use crate::backend::link_state::{radio_effects, RadioState, Session};
#[allow(unused_imports)]
use crate::clock::{spec_elapsed, Instant};
#[allow(unused_imports)]
use crate::models::RadioStatus;
#[allow(unused_imports)]
use crate::peer_link::driver::{
    all_down, down_event, DialOutcome, Input, LinkActionView, PeerLinkView,
};
#[allow(unused_imports)]
use crate::peer_link::peer::Peer;
#[allow(unused_imports)]
use crate::peer_link::{LinkId, LinkRole, PeerLinkEventView, PeerStatus, RetryBudget};
#[allow(unused_imports)]
use crate::text::texts_are_ordered;

verus! {

/// Of two peers that both dial and accept and whose ids differ, exactly one dials the
/// other.
pub proof fn exactly_one_side_dials(a: LinkRole, a_id: LinkId, b: LinkRole, b_id: LinkId)
    requires
        a == (LinkRole::Symmetric { local_id: a_id }),
        b == (LinkRole::Symmetric { local_id: b_id }),
        a_id.0@ != b_id.0@,
    ensures
        a.spec_dials(b_id.0@) != b.spec_dials(a_id.0@),
{
    texts_are_ordered(a_id.0@, b_id.0@);
}

/// Never do more peers hold a link than may.
pub proof fn links_never_exceed_the_limit(driver: PeerLinkView)
    requires
        driver.wf(),
    ensures
        driver.links() <= driver.in_use() <= driver.config.max_links.0,
{
    let standing = counted(driver.peers, |p: Peer| p.link);
    let taken = counted(driver.peers, |p: Peer| p.spec_occupies());
    assert(standing.subset_of(taken));
    assert(taken.subset_of(driver.peers.dom()));
    vstd::set_lib::lemma_set_subset_finite(driver.peers.dom(), taken);
    vstd::set_lib::lemma_len_subset(standing, taken);
}

/// Whatever the input, a peer's link comes up only while it has none, by a dial that
/// succeeded or a channel that was accepted; and once it has been reported up it stands.
pub proof fn a_link_comes_up_only_where_there_is_none(
    before: PeerLinkView,
    after: PeerLinkView,
    input: Input,
    now: Instant,
    out: Seq<LinkActionView>,
    peer: Seq<char>,
    max_message_len: usize,
)
    requires
        before.wf(),
        before.did_take(after, input, now, out),
        out.contains(LinkActionView::Emit(PeerLinkEventView::Up { peer, max_message_len })),
    ensures
        before.peers.contains_key(peer) && !before.peers[peer].link,
        after.peers.contains_key(peer) && after.peers[peer].link,
        match input {
            Input::Dialled { peer: dialled, outcome } => dialled@ == peer && outcome is Ok
                && outcome->Ok_0 == max_message_len,
            Input::Accepted { peer: accepted, max_message_len: len } => accepted@ == peer && len
                == max_message_len,
            _ => false,
        },
{
    let up = LinkActionView::Emit(PeerLinkEventView::Up { peer, max_message_len });
    let at = choose|i: int| 0 <= i < out.len() && out[i] == up;
    assert(out[at] == up);
    match input {
        Input::Backend(event) => {
            match event@ {
                crate::models::GattEventView::RadioChanged { status } => {
                    let told = LinkActionView::Emit(PeerLinkEventView::RadioChanged { status });
                    if radio_effects(
                        before.radio,
                        crate::peer_link::driver::radio_event(status),
                    ).len() > 0 {
                        let order = choose|order: Seq<Seq<char>>| #[trigger]
                            before.lists_links(order) && out == seq![told] + all_down(order);
                        all_down_brings_nothing_up(order, peer, max_message_len);
                        assert(at > 0);
                        assert(all_down(order)[at - 1] == up);
                    }
                },
                _ => {},
            }
        },
        _ => {},
    }
}

/// The steps that end links bring none up.
proof fn all_down_brings_nothing_up(order: Seq<Seq<char>>, peer: Seq<char>, max_message_len: usize)
    ensures
        forall|i: int|
            0 <= i < all_down(order).len() ==> #[trigger] all_down(order)[i]
                != LinkActionView::Emit(PeerLinkEventView::Up { peer, max_message_len }),
    decreases order.len(),
{
    if order.len() > 0 {
        all_down_brings_nothing_up(order.drop_last(), peer, max_message_len);
        let rest = all_down(order.drop_last());
        assert forall|i: int| 0 <= i < all_down(order).len() implies #[trigger] all_down(order)[i]
            != LinkActionView::Emit(PeerLinkEventView::Up { peer, max_message_len }) by {
            if i < rest.len() {
                assert(all_down(order)[i] == rest[i]);
            }
        }
    }
}

/// An inbound link of a tracked peer that has none is taken in wherever this side accepts
/// links and one is free: it stands, it is reported, and a peer that was given up is not
/// given up any more.
pub proof fn an_inbound_link_ends_giving_up(
    before: PeerLinkView,
    after: PeerLinkView,
    peer: Seq<char>,
    max_message_len: usize,
    now: Instant,
    out: Seq<LinkActionView>,
)
    requires
        before.wf(),
        before.radio == RadioState::On,
        before.config.role.spec_accepts(),
        before.peers.contains_key(peer) && !before.peers[peer].link,
        before.peers[peer].spec_occupies() || before.in_use() < before.config.max_links.0,
        before.did_accept(after, peer, max_message_len, now, out),
    ensures
        after.peers.contains_key(peer) && after.peers[peer].link,
        after.status_now(peer) == PeerStatus::Connected,
        !after.peers[peer].gave_up,
        out == seq![LinkActionView::Emit(PeerLinkEventView::Up { peer, max_message_len })],
{
}

/// An inbound link is let go of, and changes nothing, where this side only dials, where
/// nobody tracks the peer, where it has a link, and where no link is free.
pub proof fn an_inbound_link_that_has_no_place_is_let_go_of(
    before: PeerLinkView,
    after: PeerLinkView,
    peer: Seq<char>,
    max_message_len: usize,
    now: Instant,
    out: Seq<LinkActionView>,
)
    requires
        before.did_accept(after, peer, max_message_len, now, out),
        before.config.role is DialOnly || !before.peers.contains_key(peer)
            || before.peers[peer].link || (!before.peers[peer].spec_occupies() && before.in_use()
            >= before.config.max_links.0),
    ensures
        after == before,
        out == seq![LinkActionView::DropChannel { peer }],
{
}

/// A side that dials loses patience only by failing: being tracked, retried or without its
/// link starts no clock, the first failed dial does, and until then no time that passes
/// makes it give up.
pub proof fn patience_starts_with_the_first_failed_dial(
    p: Peer,
    budget: &RetryBudget,
    now: Instant,
)
    requires
        p.wf(),
        p.dials,
    ensures
        Peer::spec_fresh(true, now).trying_since is None,
        p.spec_retried(now).trying_since is None,
        p.spec_gone(now).trying_since is None,
        p.spec_radio_lost(now).trying_since is None,
        !p.accepted ==> p.spec_failed(budget, now).trying_since == Some(
            match p.trying_since {
                Some(since) => since,
                None => now,
            },
        ),
        p.trying_since is None && !p.gave_up && !p.dial_runs_out(now) ==> {
            &&& !p.spec_ticked(budget, now).gave_up
            &&& p.spec_ticked(budget, now).trying_since is None
        },
{
}

/// The steps that end links, taken in some order, report down exactly the peers in it.
proof fn all_down_reports(order: Seq<Seq<char>>, peer: Seq<char>)
    ensures
        all_down(order).contains(down_event(peer)) <==> order.contains(peer),
        all_down(order).contains(LinkActionView::DropLink { peer }) <==> order.contains(peer),
    decreases order.len(),
{
    let whole = all_down(order);
    if order.len() == 0 {
        assert(whole =~= seq![]);
    } else {
        let rest = all_down(order.drop_last());
        let n = rest.len() as int;
        all_down_reports(order.drop_last(), peer);
        assert(whole == rest.push(LinkActionView::DropLink { peer: order.last() }).push(
            down_event(order.last()),
        ));
        assert(forall|i: int| 0 <= i < n ==> whole[i] == rest[i]);
        assert(whole[n] == LinkActionView::DropLink { peer: order.last() });
        assert(whole[n + 1] == down_event(order.last()));
        if order.contains(peer) {
            let k = choose|k: int| 0 <= k < order.len() && order[k] == peer;
            if k < order.len() - 1 {
                assert(order.drop_last()[k] == peer);
                let i = choose|i: int| 0 <= i < n && rest[i] == down_event(peer);
                assert(whole[i] == down_event(peer));
                let j = choose|j: int|
                    0 <= j < n && rest[j] == (LinkActionView::DropLink { peer });
                assert(whole[j] == (LinkActionView::DropLink { peer }));
            }
        }
        if order.drop_last().contains(peer) {
            let k = choose|k: int| 0 <= k < order.drop_last().len() && order.drop_last()[k] == peer;
            assert(order[k] == peer);
        }
        if whole.contains(down_event(peer)) {
            let i = choose|i: int| 0 <= i < whole.len() && whole[i] == down_event(peer);
            if i < n {
                assert(rest[i] == down_event(peer));
            } else {
                assert(order[order.len() - 1] == peer);
            }
        }
        if whole.contains(LinkActionView::DropLink { peer }) {
            let i = choose|i: int|
                0 <= i < whole.len() && whole[i] == (LinkActionView::DropLink { peer });
            if i < n {
                assert(rest[i] == (LinkActionView::DropLink { peer }));
            } else {
                assert(order[order.len() - 1] == peer);
            }
        }
    }
}

/// Whatever the input, a link is reported down only if it stood, and then it is gone.
pub proof fn a_link_goes_down_only_if_it_stood(
    before: PeerLinkView,
    after: PeerLinkView,
    input: Input,
    now: Instant,
    out: Seq<LinkActionView>,
    peer: Seq<char>,
)
    requires
        before.wf(),
        before.did_take(after, input, now, out),
        out.contains(down_event(peer)),
    ensures
        before.peers.contains_key(peer) && before.peers[peer].link,
        !(after.peers.contains_key(peer) && after.peers[peer].link),
{
    let at = choose|i: int| 0 <= i < out.len() && out[i] == down_event(peer);
    assert(out[at] == down_event(peer));
    match input {
        Input::Backend(event) => {
            match event@ {
                crate::models::GattEventView::RadioChanged { status } => {
                    let told = LinkActionView::Emit(PeerLinkEventView::RadioChanged { status });
                    if radio_effects(
                        before.radio,
                        crate::peer_link::driver::radio_event(status),
                    ).len() > 0 {
                        let order = choose|order: Seq<Seq<char>>| #[trigger]
                            before.lists_links(order) && out == seq![told] + all_down(order);
                        all_down_reports(order, peer);
                        assert(at > 0);
                        assert(all_down(order)[at - 1] == down_event(peer));
                        assert(order.contains(peer));
                    }
                },
                _ => {},
            }
        },
        _ => {},
    }
}

/// A radio that stops being usable takes every link down: each one that stood is dropped
/// and reported, none stands behind it, and whoever is tracked is unavailable.
pub proof fn a_lost_radio_takes_every_link_down(
    before: PeerLinkView,
    after: PeerLinkView,
    status: RadioStatus,
    now: Instant,
    out: Seq<LinkActionView>,
    peer: Seq<char>,
)
    requires
        before.wf(),
        before.radio == RadioState::On,
        status == RadioStatus::Off || status == RadioStatus::Unsupported,
        before.did_change_radio(after, status, now, out),
        before.peers.contains_key(peer),
    ensures
        after.radio != RadioState::On,
        after.peers.contains_key(peer),
        !after.peers[peer].spec_occupies(),
        after.status_now(peer) == PeerStatus::Unavailable,
        before.peers[peer].link ==> out.contains(down_event(peer)) && out.contains(
            LinkActionView::DropLink { peer },
        ),
{
    let told = LinkActionView::Emit(PeerLinkEventView::RadioChanged { status });
    let order = choose|order: Seq<Seq<char>>| #[trigger]
        before.lists_links(order) && out == seq![told] + all_down(order);
    if before.peers[peer].link {
        all_down_reports(order, peer);
        assert(order.contains(peer));
        let down = all_down(order);
        let i = choose|i: int| 0 <= i < down.len() && down[i] == down_event(peer);
        assert(out[i + 1] == down_event(peer));
        let j = choose|j: int| 0 <= j < down.len() && down[j] == (LinkActionView::DropLink { peer });
        assert(out[j + 1] == (LinkActionView::DropLink { peer }));
    }
}

/// A radio that goes off and comes back lets every peer that this side dials be dialled at
/// once, whatever had become of it before.
pub proof fn a_radio_that_comes_back_lets_every_peer_be_dialled(
    before: PeerLinkView,
    off: PeerLinkView,
    on: PeerLinkView,
    at: Instant,
    back_at: Instant,
    out: Seq<LinkActionView>,
    out_back: Seq<LinkActionView>,
    peer: Seq<char>,
)
    requires
        before.wf(),
        before.radio == RadioState::On,
        before.did_change_radio(off, RadioStatus::Off, at, out),
        off.did_change_radio(on, RadioStatus::On, back_at, out_back),
        before.peers.contains_key(peer),
        before.peers[peer].dials,
    ensures
        on.radio == RadioState::On,
        on.may_dial(peer, back_at),
{
}

/// A retry leaves giving up: the peer's budget starts anew, and where this side dials and
/// the peer is idle and without a link it may be dialled at once.
pub proof fn a_retry_leaves_giving_up(driver: PeerLinkView, peer: Seq<char>, now: Instant)
    requires
        driver.wf(),
        driver.peers.contains_key(peer),
    ensures
        ({
            let next = driver.retrying(peer, now);
            &&& next.peers.contains_key(peer)
            &&& next.status_now(peer) != PeerStatus::GaveUp
            &&& next.status_now(peer) != PeerStatus::Waiting
            &&& driver.peers[peer].dials && driver.peers[peer].central is Idle
                && !driver.peers[peer].link ==> next.may_dial(peer, now)
        }),
{
}

/// Both sides of a pair give up once their time for getting a link is spent, and a peer
/// that was given up is not dialled.
pub proof fn a_spent_budget_ends_in_giving_up(
    driver: PeerLinkView,
    peer: Seq<char>,
    since: Instant,
    now: Instant,
)
    requires
        driver.wf(),
        driver.radio == RadioState::On,
        driver.peers.contains_key(peer),
        !driver.peers[peer].link,
        driver.peers[peer].trying_since == Some(since),
        spec_elapsed(since, now) >= if driver.peers[peer].dials {
            driver.config.retry_budget.give_up_after
        } else {
            driver.config.retry_budget.acceptor_deadline
        },
    ensures
        driver.ticked(now).peers.contains_key(peer),
        driver.ticked(now).status_now(peer) == PeerStatus::GaveUp,
        !driver.ticked(now).may_dial(peer, now),
{
}

/// What becomes of a dial, an inbound channel, a link or a retry of one peer leaves every
/// other peer as it was.
pub proof fn other_peers_are_left_alone(
    before: PeerLinkView,
    after: PeerLinkView,
    peer: Seq<char>,
    other: Seq<char>,
    outcome: DialOutcome,
    max_message_len: usize,
    now: Instant,
    out: Seq<LinkActionView>,
)
    requires
        other != peer,
        before.did_dial(after, peer, outcome, now, out) || before.did_accept(
            after,
            peer,
            max_message_len,
            now,
            out,
        ) || before.did_lose(after, peer, now, out) || after == before.retrying(peer, now) || before.did_untrack(after, peer, out),
    ensures
        after.peers.contains_key(other) <==> before.peers.contains_key(other),
        before.peers.contains_key(other) ==> after.peers[other] == before.peers[other],
{
}

/// A peer that may be dialled is dialled, whatever keeps the others busy, as long as there
/// are links for all that may be.
pub proof fn a_busy_peer_does_not_hold_up_the_others(
    before: PeerLinkView,
    after: PeerLinkView,
    now: Instant,
    seed: Session,
    dialled: Seq<Seq<char>>,
    out: Seq<LinkActionView>,
    waiting: Set<Seq<char>>,
    peer: Seq<char>,
)
    requires
        before.radio == RadioState::On,
        before.did_pump(after, now, seed, dialled, out),
        waiting.finite(),
        forall|k: Seq<char>| #[trigger] before.may_dial(k, now) ==> waiting.contains(k),
        waiting.len() <= before.free(),
        before.may_dial(peer, now),
    ensures
        dialled.contains(peer),
        after.peers[peer].central is Dialing,
{
    let chosen = dialled.to_set();
    assert(dialled.no_duplicates()) by {
        assert forall|i: int, j: int| 0 <= i < j < dialled.len() implies dialled[i]
            != dialled[j] by {
            texts_are_ordered(dialled[i], dialled[j]);
            texts_are_ordered(dialled[i], dialled[i]);
        }
    }
    if !dialled.contains(peer) {
        dialled.unique_seq_to_set();
        assert(chosen.insert(peer).subset_of(waiting)) by {
            assert forall|k: Seq<char>| chosen.insert(peer).contains(k) implies waiting.contains(
                k,
            ) by {
                if k != peer {
                    let i = choose|i: int| 0 <= i < dialled.len() && dialled[i] == k;
                    assert(before.may_dial(dialled[i], now));
                }
            }
        }
        vstd::set_lib::lemma_len_subset(chosen.insert(peer), waiting);
    }
    let i = choose|i: int| 0 <= i < dialled.len() && dialled[i] == peer;
    assert(before.may_dial(dialled[i], now));
}

/// A link that is let go of goes to a peer that waits for one.
pub proof fn a_freed_link_goes_to_a_waiting_peer(
    before: PeerLinkView,
    freed: PeerLinkView,
    after: PeerLinkView,
    peer: Seq<char>,
    waiting: Seq<char>,
    now: Instant,
    seed: Session,
    out: Seq<LinkActionView>,
    dialled: Seq<Seq<char>>,
    dials: Seq<LinkActionView>,
)
    requires
        before.wf(),
        before.available,
        before.radio == RadioState::On,
        before.peers.contains_key(peer) && before.peers[peer].link,
        before.did_untrack(freed, peer, out),
        freed.may_dial(waiting, now),
        freed.did_pump(after, now, seed, dialled, dials),
    ensures
        dialled.len() > 0,
        dialled.contains(waiting) || crate::text::text_before(dialled[0], waiting),
{
    let busy = |p: Peer| p.spec_occupies();
    let held = counted(before.peers, busy);
    assert(held.subset_of(before.peers.dom()));
    vstd::set_lib::lemma_set_subset_finite(before.peers.dom(), held);
    assert(counted(freed.peers, busy) =~= held.remove(peer));
    assert(held.contains(peer));
}

/// A status is told only when it has changed: telling again tells nothing.
pub proof fn an_unchanged_status_is_not_told_again(
    before: PeerLinkView,
    told: PeerLinkView,
    after: PeerLinkView,
    out: Seq<LinkActionView>,
    again: Seq<LinkActionView>,
)
    requires
        before.did_refresh(told, out),
        told.did_refresh(after, again),
    ensures
        again.len() == 0,
        after == told,
{
    if again.len() > 0 {
        let first = again[0];
        let peer = first->Emit_0->Status_peer;
        assert(told.status.contains_key(peer));
        assert(told.status_now(peer) == before.status_now(peer));
        assert(before.status_now(peer) != PeerStatus::Untracked);
    }
    assert(after.status =~= told.status) by {
        assert forall|k: Seq<char>| told.status.contains_key(k) implies #[trigger] after.status[k]
            == told.status[k] by {
            assert(after.status.contains_key(k));
        }
    }
}

/// An untracked peer is forgotten, and its link goes with it.
pub proof fn an_untracked_peer_is_forgotten(
    before: PeerLinkView,
    after: PeerLinkView,
    peer: Seq<char>,
    out: Seq<LinkActionView>,
)
    requires
        before.available,
        before.did_untrack(after, peer, out),
    ensures
        !after.peers.contains_key(peer),
        !after.status.contains_key(peer),
        out.contains(LinkActionView::DropLink { peer }) <==> before.peers.contains_key(peer)
            && before.peers[peer].link,
{
    if before.peers.contains_key(peer) && before.peers[peer].link {
        assert(out[0] == (LinkActionView::DropLink { peer }));
    }
}

/// A dial that comes back for a peer that no longer waits for it leaves the driver as it
/// was, and its channel is let go of.
pub proof fn a_late_channel_is_let_go_of(
    before: PeerLinkView,
    after: PeerLinkView,
    peer: Seq<char>,
    max_message_len: usize,
    now: Instant,
    out: Seq<LinkActionView>,
)
    requires
        before.did_dial(after, peer, Ok(max_message_len), now, out),
        !(before.peers.contains_key(peer) && before.peers[peer].central is Dialing),
    ensures
        after == before,
        out == seq![LinkActionView::DropChannel { peer }],
{
}

/// Each failed dial in a row is followed by the wait of the ladder's next entry, the last of
/// them repeating: behind the n-th, as long as the budget is not spent, the next dial is due
/// after entry n, or after the last one where the ladder is shorter.
pub proof fn each_redial_waits_by_the_next_rung(p: Peer, budget: &RetryBudget, now: Instant)
    requires
        !p.accepted,
        !p.gave_up,
        p.attempts >= 1,
        budget.backoff@.len() > 0,
        budget.give_up_after > 0,
        p.trying_since matches Some(since) ==> now < since + budget.give_up_after,
    ensures
        ({
            let failed = p.spec_failed(budget, now);
            let wait = budget.backoff@[if p.attempts <= budget.backoff@.len() {
                p.attempts - 1
            } else {
                budget.backoff@.len() - 1
            }];
            &&& !failed.gave_up
            &&& failed.retry_at is Some
            &&& now + wait <= u128::MAX ==> failed.retry_at->0 == now + wait
            &&& now + wait > u128::MAX ==> failed.retry_at->0 == u128::MAX
        }),
{
}

/// Attempts are counted from one: a tracked peer has none, each dial is one more, a failure
/// and the passing of time leave the count, and a link, its end, a retry and the loss of the
/// radio start it anew.
pub proof fn attempts_are_counted_in_a_row(
    p: Peer,
    budget: &RetryBudget,
    session: Session,
    dials: bool,
    now: Instant,
)
    ensures
        Peer::spec_fresh(dials, now).attempts == 0,
        p.attempts < u64::MAX ==> p.spec_dialling(session, now).attempts == p.attempts + 1,
        p.spec_failed(budget, now).attempts == p.attempts,
        p.spec_ticked(budget, now).attempts == p.attempts,
        p.spec_radio_back(now).attempts == p.attempts,
        p.spec_connected(now).attempts == 0,
        p.spec_accepted(now).attempts == 0,
        p.spec_gone(now).attempts == 0,
        p.spec_retried(now).attempts == 0,
        p.spec_radio_lost(now).attempts == 0,
{
}

/// The peer behind one failed dial after another, each given by its session, the time it
/// started and the time it failed.
pub open spec fn failed_dials(
    p: Peer,
    budget: &RetryBudget,
    dials: Seq<(Session, Instant, Instant)>,
) -> Peer
    decreases dials.len(),
{
    if dials.len() == 0 {
        p
    } else {
        let (session, started, failed) = dials.last();
        failed_dials(p, budget, dials.drop_last()).spec_dialling(session, started).spec_failed(
            budget,
            failed,
        )
    }
}

proof fn failed_dials_so_far(
    budget: &RetryBudget,
    tracked_at: Instant,
    dials: Seq<(Session, Instant, Instant)>,
)
    requires
        budget.backoff@.len() > 0,
        dials.len() < u64::MAX,
        forall|i: int|
            0 <= i < dials.len() ==> (#[trigger] dials[i]).2 < dials[0].2 + budget.give_up_after,
    ensures
        ({
            let p = failed_dials(Peer::spec_fresh(true, tracked_at), budget, dials);
            &&& p.attempts == dials.len()
            &&& !p.accepted && !p.gave_up && !p.link && p.dials
            &&& p.central is Idle
            &&& p.trying_since == if dials.len() == 0 {
                None
            } else {
                Some(dials[0].2)
            }
        }),
    decreases dials.len(),
{
    if dials.len() > 0 {
        let before = dials.drop_last();
        assert forall|i: int| 0 <= i < before.len() implies (#[trigger] before[i]).2 < before[0].2
            + budget.give_up_after by {
            assert(before[i] == dials[i]);
        }
        failed_dials_so_far(budget, tracked_at, before);
        if before.len() > 0 {
            assert(before[0] == dials[0]);
        }
        assert(dials.last() == dials[dials.len() - 1]);
    }
}

/// A tracked peer whose first n dials fail, all within the budget of the first failure, is
/// due again after the ladder's n-th wait, counted from the last failure, or its last wait
/// where it has fewer. It is dialled then and no sooner.
pub proof fn the_ladder_is_climbed_dial_by_dial(
    budget: &RetryBudget,
    tracked_at: Instant,
    dials: Seq<(Session, Instant, Instant)>,
    now: Instant,
)
    requires
        0 < dials.len() < u64::MAX,
        budget.backoff@.len() > 0,
        forall|i: int|
            0 <= i < dials.len() ==> (#[trigger] dials[i]).2 < dials[0].2 + budget.give_up_after,
        forall|i: int|
            0 <= i < budget.backoff@.len() ==> dials.last().2 + #[trigger] budget.backoff@[i]
                <= u128::MAX,
    ensures
        ({
            let p = failed_dials(Peer::spec_fresh(true, tracked_at), budget, dials);
            let n = dials.len() as int;
            let rungs = budget.backoff@.len() as int;
            &&& n <= rungs ==> p.retry_at == Some((dials.last().2 + budget.backoff@[n - 1]) as u128)
            &&& n > rungs ==> p.retry_at == Some(
                (dials.last().2 + budget.backoff@[rungs - 1]) as u128,
            )
            &&& p.spec_eligible(now) <==> now >= p.retry_at->0
        }),
{
    let before = dials.drop_last();
    assert forall|i: int| 0 <= i < before.len() implies (#[trigger] before[i]).2 < before[0].2
        + budget.give_up_after by {
        assert(before[i] == dials[i]);
    }
    failed_dials_so_far(budget, tracked_at, before);
    failed_dials_so_far(budget, tracked_at, dials);
    if before.len() > 0 {
        assert(before[0] == dials[0]);
    }
    assert(dials.last() == dials[dials.len() - 1]);
    let (session, started, failed) = dials.last();
    let dialled = failed_dials(Peer::spec_fresh(true, tracked_at), budget, before).spec_dialling(
        session,
        started,
    );
    each_redial_waits_by_the_next_rung(dialled, budget, failed);
}

/// A failed dial ends in giving up exactly if the time since the first failure is spent or
/// there is no ladder; then no further dial is due.
pub proof fn a_failed_dial_gives_up_only_when_it_must(p: Peer, budget: &RetryBudget, now: Instant)
    requires
        p.wf(),
        !p.accepted,
        !p.gave_up,
        p.central is Dialing,
    ensures
        ({
            let failed = p.spec_failed(budget, now);
            let first = match p.trying_since {
                Some(since) => since,
                None => now,
            };
            &&& failed.gave_up <==> budget.backoff@.len() == 0 || spec_elapsed(first, now)
                >= budget.give_up_after
            &&& failed.gave_up ==> !failed.spec_eligible(now)
            &&& failed.trying_since == Some(first)
            &&& failed.central is Idle && !failed.spec_occupies()
        }),
{
}

/// What becomes of a peer leaves who dials as it is. A link stands behind a dial that
/// succeeded and a channel that was accepted, and behind nothing that ends one.
pub proof fn a_peers_link_comes_and_goes(
    p: Peer,
    budget: &RetryBudget,
    session: Session,
    now: Instant,
)
    requires
        p.wf(),
    ensures
        p.central is Dialing ==> {
            &&& p.spec_connected(now).link && p.spec_connected(now).wf()
            &&& p.spec_connected(now).central.spec_session() == p.central.spec_session()
            &&& p.spec_connected(now).retry_at is None
        },
        !p.link ==> p.spec_accepted(now).link && p.spec_accepted(now).wf() && !p.spec_accepted(
            now,
        ).gave_up,
        p.link ==> {
            &&& !p.spec_gone(now).link && !p.spec_gone(now).spec_occupies()
            &&& p.spec_gone(now).wf()
            &&& p.dials && !p.gave_up && p.spec_gone(now).central is Idle
                ==> p.spec_gone(now).spec_eligible(now)
        },
        !p.spec_radio_lost(now).link && p.spec_radio_lost(now).central is RadioOff,
        p.spec_radio_lost(now).spec_radio_back(now).central is Idle,
        p.spec_retried(now).link == p.link && p.spec_retried(now).central == p.central,
        p.spec_ticked(budget, now).link == p.link,
        p.spec_failed(budget, now).link == p.link,
        p.spec_dialling(session, now).link == p.link,
        p.spec_radio_back(now).link == p.link,
        p.central is Idle ==> {
            &&& p.spec_dialling(session, now).central is Dialing
            &&& p.spec_dialling(session, now).central.spec_session() == Some(session)
            &&& p.spec_dialling(session, now).spec_occupies()
        },
        p.spec_dialling(session, now).dials == p.dials,
        p.spec_connected(now).dials == p.dials,
        p.spec_accepted(now).dials == p.dials,
        p.spec_gone(now).dials == p.dials,
        p.spec_failed(budget, now).dials == p.dials,
        p.spec_ticked(budget, now).dials == p.dials,
        p.spec_retried(now).dials == p.dials,
        p.spec_radio_lost(now).dials == p.dials,
        p.spec_radio_back(now).dials == p.dials,
{
}

/// Time makes a peer give up only while it has no link, and only by its own deadline: the
/// dialling side's counts from its first failure, the accepting side's from when it began to
/// wait. A peer that is not given up keeps its due dial.
pub proof fn time_gives_up_only_past_the_deadline(p: Peer, budget: &RetryBudget, now: Instant)
    requires
        p.wf(),
    ensures
        ({
            let ticked = p.spec_ticked(budget, now);
            let deadline = if p.dials {
                budget.give_up_after
            } else {
                budget.acceptor_deadline
            };
            &&& p.gave_up ==> ticked.gave_up
            &&& p.link ==> ticked.gave_up == p.gave_up && ticked.central == p.central
            &&& !p.gave_up && !p.link && !p.dial_runs_out(now) ==> (ticked.gave_up <==> {
                &&& p.trying_since is Some
                &&& spec_elapsed(p.trying_since->0, now) >= deadline
            })
            &&& !ticked.gave_up ==> ticked.retry_at == p.retry_at
            &&& p.trying_since is Some ==> ticked.trying_since == p.trying_since
            &&& p.central is Dialing && !p.dial_runs_out(now) ==> ticked.central == p.central
            &&& p.dial_runs_out(now) ==> ticked.central is Idle && ticked.trying_since is Some
        }),
{
}

/// A dial runs out of time exactly once its window has passed.
pub proof fn a_dial_has_its_window(p: Peer, since: Instant, session: Session, now: Instant)
    requires
        p.central == (crate::backend::link_state::CentralLink::Dialing { since, session }),
    ensures
        p.dial_runs_out(now) <==> now >= since + crate::backend::link_state::DIAL_WINDOW,
{
}

/// A side that waits for a link counts from when it was set to waiting.
pub proof fn an_acceptor_counts_from_the_start_of_its_wait(p: Peer, now: Instant)
    requires
        !p.dials,
    ensures
        Peer::spec_fresh(false, now).trying_since == Some(now),
        p.spec_retried(now).trying_since == Some(now),
        p.spec_gone(now).trying_since == Some(now),
        p.spec_radio_lost(now).trying_since == Some(now),
{
}

/// A peer is dialled only while it has no link, was not given up, is idle and is this side's
/// to dial, and not before its next dial is due; then it may be.
pub proof fn a_peer_is_dialled_when_its_dial_is_due(p: Peer, now: Instant)
    ensures
        p.spec_eligible(now) ==> !p.link && !p.gave_up && p.dials && p.central is Idle,
        !p.link && !p.gave_up && p.dials && p.central is Idle ==> (p.spec_eligible(now)
            <==> p.retry_at is None || now >= p.retry_at->0),
{
}

/// A peer's status says what it stands at: whether the radio is usable comes first, then
/// whether it has a link, was given up, waits for its next dial, or waits for a link to be
/// free.
pub proof fn a_status_says_where_a_peer_stands(p: Peer, radio: RadioState, full: bool)
    ensures
        ({
            let status = p.spec_status(radio, full);
            &&& status == PeerStatus::Unavailable <==> radio != RadioState::On
            &&& status == PeerStatus::Connected <==> radio == RadioState::On && p.link
            &&& status == PeerStatus::GaveUp <==> radio == RadioState::On && !p.link && p.gave_up
            &&& status == PeerStatus::Waiting <==> radio == RadioState::On && !p.link && !p.gave_up
                && p.retry_at is Some
            &&& status == PeerStatus::Queued <==> radio == RadioState::On && !p.link && !p.gave_up
                && p.retry_at is None && p.dials && full
            &&& status != PeerStatus::Untracked
        }),
{
}

/// Who dials is a matter of the role: one side always, one never, and of two that do both the
/// one whose id comes first.
pub proof fn the_side_with_the_lower_id_dials(local_id: LinkId, peer_id: Seq<char>)
    ensures
        LinkRole::DialOnly.spec_dials(peer_id),
        !LinkRole::AcceptOnly.spec_dials(peer_id),
        (LinkRole::Symmetric { local_id }).spec_dials(peer_id) <==> crate::text::text_before(
            local_id.0@,
            peer_id,
        ),
        !LinkRole::DialOnly.spec_accepts(),
        LinkRole::AcceptOnly.spec_accepts(),
        (LinkRole::Symmetric { local_id }).spec_accepts(),
{
}

/// A peer that was not tracked is tracked without a link, and may be dialled at once where
/// this side dials it; one that is tracked stays as it is. Nobody else is touched, and the
/// peer's status is told if it is news.
pub proof fn a_tracked_peer_joins_as_it_is(
    before: PeerLinkView,
    after: PeerLinkView,
    peer: Seq<char>,
    dials: bool,
    now: Instant,
    out: Seq<LinkActionView>,
    other: Seq<char>,
)
    requires
        before.available,
        before.did_track(after, peer, dials, now, out),
        other != peer,
    ensures
        after.peers.contains_key(peer),
        before.peers.contains_key(peer) ==> after.peers[peer] == before.peers[peer],
        !before.peers.contains_key(peer) ==> {
            &&& !after.peers[peer].link && !after.peers[peer].gave_up
            &&& after.peers[peer].dials == dials
            &&& after.may_dial(peer, now) == dials
        },
        after.peers.contains_key(other) <==> before.peers.contains_key(other),
        before.peers.contains_key(other) ==> after.peers[other] == before.peers[other],
        after.status.contains_key(peer) && after.status[peer] == after.status_now(peer),
        out.len() <= 1,
        out.len() == 1 <==> !(before.status.contains_key(peer) && before.status[peer]
            == after.status_now(peer)),
        out.len() == 1 ==> out[0] == LinkActionView::Emit(
            PeerLinkEventView::Status { peer, status: after.status_now(peer) },
        ),
{
}

/// A link that ends on its own is reported down once, and a peer that this side dials may be
/// dialled again at once.
pub proof fn a_lost_link_is_reported_and_redialled(
    before: PeerLinkView,
    after: PeerLinkView,
    peer: Seq<char>,
    now: Instant,
    out: Seq<LinkActionView>,
)
    requires
        before.wf(),
        before.did_lose(after, peer, now, out),
        before.peers.contains_key(peer) && before.peers[peer].link,
    ensures
        out == seq![LinkActionView::Emit(PeerLinkEventView::Down { peer })],
        after.peers.contains_key(peer) && !after.peers[peer].link,
        before.peers[peer].dials && !before.peers[peer].gave_up && (
        before.peers[peer].central is Connected || before.peers[peer].central is Idle)
            ==> after.may_dial(peer, now),
{
}

/// A dial that succeeds for a peer that waits for it brings the link up and reports it, with
/// the largest message that the channel takes; one that fails reports nothing.
pub proof fn a_successful_dial_brings_the_link_up(
    before: PeerLinkView,
    after: PeerLinkView,
    peer: Seq<char>,
    outcome: DialOutcome,
    now: Instant,
    out: Seq<LinkActionView>,
)
    requires
        before.wf(),
        before.did_dial(after, peer, outcome, now, out),
        before.peers.contains_key(peer) && before.peers[peer].central is Dialing,
    ensures
        after.peers.contains_key(peer),
        outcome is Ok ==> {
            &&& out == seq![
                LinkActionView::Emit(
                    PeerLinkEventView::Up { peer, max_message_len: outcome->Ok_0 },
                ),
            ]
            &&& after.peers[peer].link
        },
        outcome is Err ==> out.len() == 0 && !after.peers[peer].spec_occupies(),
{
}

/// Whatever the input, a driver keeps its configuration and its adapter; only a report of
/// the radio changes the radio; and only tracking and untracking change who is tracked.
pub proof fn an_input_changes_only_what_it_is_about(
    before: PeerLinkView,
    after: PeerLinkView,
    input: Input,
    now: Instant,
    out: Seq<LinkActionView>,
)
    requires
        before.did_take(after, input, now, out),
    ensures
        after.config == before.config,
        after.available == before.available,
        input !is Backend ==> after.radio == before.radio && after.radio_status
            == before.radio_status,
        input !is Track && input !is Untrack ==> after.peers.dom() =~= before.peers.dom()
            && after.status == before.status,
{
}

/// A reported change of the radio is told first, as it was reported, and is what the driver
/// knows of the radio from then on. A radio that is powered on is usable, unless it was found
/// to have no adapter.
pub proof fn a_change_of_the_radio_is_told_first(
    before: PeerLinkView,
    after: PeerLinkView,
    status: RadioStatus,
    now: Instant,
    out: Seq<LinkActionView>,
)
    requires
        before.did_change_radio(after, status, now, out),
    ensures
        out.len() > 0,
        out[0] == LinkActionView::Emit(PeerLinkEventView::RadioChanged { status }),
        after.radio_status == status,
        before.radio != RadioState::Unsupported ==> {
            &&& status == RadioStatus::On <==> after.radio == RadioState::On
            &&& status == RadioStatus::Off <==> after.radio == RadioState::Off
        },
        before.radio == RadioState::Unsupported || status == RadioStatus::Unsupported
            ==> after.radio == RadioState::Unsupported,
        before.radio != RadioState::On || status == RadioStatus::On ==> out.len() == 1,
{
}

/// What takes up one of the links that may exist at once is a link that stands and a dial
/// under way, and nothing else; only the former count as links. The rest of the limit is
/// free.
pub proof fn links_and_dials_are_counted(
    driver: PeerLinkView,
    taken: Set<Seq<char>>,
    standing: Set<Seq<char>>,
)
    requires
        driver.wf(),
        forall|k: Seq<char>| #[trigger]
            taken.contains(k) <==> driver.peers.contains_key(k) && (driver.peers[k].link
                || driver.peers[k].central is Dialing),
        forall|k: Seq<char>| #[trigger]
            standing.contains(k) <==> driver.peers.contains_key(k) && driver.peers[k].link,
    ensures
        driver.in_use() == taken.len(),
        driver.links() == standing.len(),
        driver.full() <==> standing.len() >= driver.config.max_links.0,
        driver.free() + taken.len() == driver.config.max_links.0,
{
    assert(counted(driver.peers, |p: Peer| p.spec_occupies()) =~= taken);
    assert(counted(driver.peers, |p: Peer| p.link) =~= standing);
}

/// The dials that one turn starts have sessions of their own.
pub proof fn dials_of_a_turn_have_their_own_sessions(seed: Session, i: int, j: int)
    requires
        0 <= i < j,
        j < 0x1_0000_0000_0000_0000,
    ensures
        crate::peer_link::driver::nth_session(seed, i) != crate::peer_link::driver::nth_session(
            seed,
            j,
        ),
{
}

/// A status is news exactly if it is not what was last told of the peer; once published it is
/// what was last told, and it is no news again.
pub proof fn a_published_status_is_no_news(
    driver: PeerLinkView,
    peer: Seq<char>,
    status: PeerStatus,
    other: Seq<char>,
)
    requires
        other != peer,
    ensures
        status != PeerStatus::Untracked ==> {
            &&& driver.is_news(peer, status) <==> driver.status.get(peer) != Some(status)
            &&& driver.published(peer, status).status.get(peer) == Some(status)
        },
        driver.is_news(peer, PeerStatus::Untracked) <==> driver.status.contains_key(peer),
        !driver.published(peer, PeerStatus::Untracked).status.contains_key(peer),
        !driver.published(peer, status).is_news(peer, status),
        driver.published(peer, status).status.get(other) == driver.status.get(other),
        driver.published(peer, status).peers == driver.peers,
        driver.is_news(peer, status) ==> driver.news(peer, status) == seq![
            LinkActionView::Emit(PeerLinkEventView::Status { peer, status }),
        ],
        !driver.is_news(peer, status) ==> driver.news(peer, status).len() == 0,
{
}

/// A tick reaches every tracked peer alike, each by what the passing of time does to it
/// alone.
pub proof fn time_passes_for_each_peer_alone(
    one: PeerLinkView,
    another: PeerLinkView,
    peer: Seq<char>,
    now: Instant,
)
    requires
        one.config == another.config,
        one.peers.contains_key(peer) && another.peers.contains_key(peer),
        one.peers[peer] == another.peers[peer],
    ensures
        one.ticked(now).peers[peer] == another.ticked(now).peers[peer],
        one.ticked(now).peers.dom() =~= one.peers.dom(),
        one.ticked(now).status == one.status,
{
}

/// The first error of a scan is where the peers that were found end: everything in front of
/// it is a peer.
pub proof fn the_first_error_ends_what_was_found(
    items: Seq<Result<crate::models::DiscoveredPeer, crate::error::BleError>>,
    i: int,
)
    ensures
        crate::peer_link::first_error(items) <= items.len(),
        0 <= i < crate::peer_link::first_error(items) ==> items[i] is Ok,
        crate::peer_link::first_error(items) < items.len()
            ==> items[crate::peer_link::first_error(items) as int] is Err,
    decreases items.len(),
{
    if items.len() > 0 && items[0] is Ok {
        the_first_error_ends_what_was_found(items.drop_first(), i - 1);
    }
}

/// An item of a scan is found at the address of its peer alone.
pub proof fn a_peer_is_found_at_its_own_address(
    items: Seq<Result<crate::models::DiscoveredPeer, crate::error::BleError>>,
    i: int,
    address: Seq<char>,
)
    requires
        0 <= i < items.len(),
    ensures
        crate::peer_link::found_at(items, i, address) <==> items[i] is Ok
            && items[i]->Ok_0.address@ == address,
{
}

/// Dials start only while the radio is usable, no more of them than links are free, and for
/// the first addresses first: a peer that could be dialled and is not finds every free link
/// taken by one whose address comes before its own. Each dial is asked for once, under the
/// session that the peer's machine carries, and nobody else is touched.
pub proof fn dials_start_in_the_order_of_addresses(
    before: PeerLinkView,
    after: PeerLinkView,
    now: Instant,
    seed: Session,
    dialled: Seq<Seq<char>>,
    out: Seq<LinkActionView>,
    peer: Seq<char>,
    i: int,
)
    requires
        before.did_pump(after, now, seed, dialled, out),
    ensures
        before.radio != RadioState::On ==> out.len() == 0 && after == before,
        out.len() == dialled.len(),
        before.radio == RadioState::On ==> out.len() <= before.free(),
        before.radio == RadioState::On && before.may_dial(peer, now) && !dialled.contains(peer) ==> {
            &&& dialled.len() == before.free()
            &&& 0 <= i < dialled.len() ==> crate::text::text_before(dialled[i], peer)
        },
        0 <= i < out.len() ==> {
            &&& out[i] is Dial
            &&& before.may_dial(out[i]->Dial_peer, now)
            &&& after.peers[out[i]->Dial_peer].central
                == crate::backend::link_state::CentralLink::Dialing {
                since: now,
                session: out[i]->session,
            }
        },
        before.peers.contains_key(peer) && !dialled.contains(peer) ==> after.peers[peer]
            == before.peers[peer],
        after.status == before.status && after.config == before.config && after.radio
            == before.radio,
{
    if 0 <= i < out.len() && before.radio == RadioState::On {
        assert(before.may_dial(dialled[i], now));
        assert(out[i]->Dial_peer == dialled[i]);
    }
}

/// Behind a turn, what was last told of each tracked peer is how it stands, and the turn told
/// it exactly if it had changed.
pub proof fn a_refresh_tells_what_changed(
    before: PeerLinkView,
    after: PeerLinkView,
    out: Seq<LinkActionView>,
    peer: Seq<char>,
)
    requires
        before.did_refresh(after, out),
        before.peers.contains_key(peer),
    ensures
        after.peers == before.peers && after.radio == before.radio,
        after.status.contains_key(peer),
        after.status[peer] == after.status_now(peer),
        out.contains(
            LinkActionView::Emit(
                PeerLinkEventView::Status { peer, status: after.status_now(peer) },
            ),
        ) <==> before.status.get(peer) != Some(after.status_now(peer)),
{
    let told = LinkActionView::Emit(
        PeerLinkEventView::Status { peer, status: after.status_now(peer) },
    );
    a_status_says_where_a_peer_stands(before.peers[peer], before.radio, before.full());
    assert(after.status.contains_key(peer));
    if out.contains(told) {
        let k = choose|k: int| 0 <= k < out.len() && out[k] == told;
        assert(out[k] == told);
    }
}

/// A turn ends with the statuses told: whatever the input was, what was last told of each
/// tracked peer is how it stands.
pub proof fn a_turn_ends_with_the_statuses_told(
    before: PeerLinkView,
    after: PeerLinkView,
    input: Input,
    now: Instant,
    seed: Session,
    out: Seq<LinkActionView>,
    peer: Seq<char>,
)
    requires
        before.did_turn(after, input, now, seed, out),
        after.peers.contains_key(peer),
    ensures
        after.status.contains_key(peer) && after.status[peer] == after.status_now(peer),
        after.config == before.config,
{
    let (taken, pumped, dialled, first, dials, news) = choose|
        taken: PeerLinkView,
        pumped: PeerLinkView,
        dialled: Seq<Seq<char>>,
        first: Seq<LinkActionView>,
        dials: Seq<LinkActionView>,
        news: Seq<LinkActionView>,
    |
        {
            &&& #[trigger] before.did_take(taken, input, now, first)
            &&& #[trigger] taken.did_pump(pumped, now, seed, dialled, dials)
            &&& #[trigger] pumped.did_refresh(after, news)
            &&& out == first + dials + news
        };
    an_input_changes_only_what_it_is_about(before, taken, input, now, first);
    a_refresh_tells_what_changed(pumped, after, news, peer);
}

/// A reported loss of a dialled connection is left to the keeper of a link that stands, and
/// an event of the server's, of a write or of lost events moves no peer.
pub proof fn a_reported_loss_takes_no_standing_link(
    before: PeerLinkView,
    after: PeerLinkView,
    event: crate::models::GattEventView,
    now: Instant,
    out: Seq<LinkActionView>,
    peer: Seq<char>,
)
    requires
        before.wf(),
        before.did_hear(after, event, now, out),
        event !is RadioChanged,
    ensures
        out.len() == 0,
        after.peers.dom() =~= before.peers.dom(),
        before.peers.contains_key(peer) ==> after.peers[peer] == before.peers[peer],
        after.radio == before.radio,
{
}

/// Whatever becomes of a peer, it stays consistent.
pub proof fn a_peer_stays_consistent(
    p: Peer,
    budget: &RetryBudget,
    session: Session,
    dials: bool,
    now: Instant,
)
    requires
        p.wf(),
    ensures
        Peer::spec_fresh(dials, now).wf(),
        p.spec_retried(now).wf(),
        p.spec_failed(budget, now).wf(),
        p.spec_ticked(budget, now).wf(),
        p.spec_radio_lost(now).wf(),
        p.spec_radio_back(now).wf(),
        p.link ==> p.spec_gone(now).wf(),
        !p.link ==> p.spec_accepted(now).wf(),
        p.central is Dialing ==> p.spec_connected(now).wf(),
        p.central is Idle && !p.link ==> p.spec_dialling(session, now).wf(),
        p.link <==> p.central is Connected || p.accepted,
{
}

/// The sessions of a turn's dials count up behind its seed.
pub proof fn the_sessions_of_a_turn_count_up(seed: Session, i: int)
    requires
        0 <= i,
        seed + 1 + i <= u64::MAX,
    ensures
        crate::peer_link::driver::nth_session(seed, i) == seed + 1 + i,
{
}

/// What is seen of the driver's actions is each of them, in order and whole.
pub proof fn actions_are_seen_whole(
    out: Seq<crate::peer_link::driver::LinkAction>,
    i: int,
    peer: crate::models::PeerAddress,
    session: Session,
    max_message_len: usize,
    status: PeerStatus,
    radio: RadioStatus,
)
    ensures
        crate::peer_link::driver::actions(out).len() == out.len(),
        0 <= i < out.len() ==> crate::peer_link::driver::actions(out)[i] == out[i]@,
        (crate::peer_link::driver::LinkAction::Dial { peer, session })@ == (LinkActionView::Dial {
            peer: peer@,
            session,
        }),
        (crate::peer_link::driver::LinkAction::DropLink { peer })@ == (LinkActionView::DropLink {
            peer: peer@,
        }),
        (crate::peer_link::driver::LinkAction::DropChannel { peer })@ == (
        LinkActionView::DropChannel { peer: peer@ }),
        crate::peer_link::driver::LinkAction::Emit(
            crate::peer_link::PeerLinkEvent::Up { peer, max_message_len },
        )@ == LinkActionView::Emit(PeerLinkEventView::Up { peer: peer@, max_message_len }),
        crate::peer_link::driver::LinkAction::Emit(
            crate::peer_link::PeerLinkEvent::Down { peer },
        )@ == LinkActionView::Emit(PeerLinkEventView::Down { peer: peer@ }),
        crate::peer_link::driver::LinkAction::Emit(
            crate::peer_link::PeerLinkEvent::Status { peer, status },
        )@ == LinkActionView::Emit(PeerLinkEventView::Status { peer: peer@, status }),
        crate::peer_link::driver::LinkAction::Emit(
            crate::peer_link::PeerLinkEvent::RadioChanged { status: radio },
        )@ == LinkActionView::Emit(PeerLinkEventView::RadioChanged { status: radio }),
        down_event(peer@) == LinkActionView::Emit(PeerLinkEventView::Down { peer: peer@ }),
        crate::peer_link::driver::status_event(peer@, status) == LinkActionView::Emit(
            PeerLinkEventView::Status { peer: peer@, status },
        ),
{
}

/// Links are looked after once a second and peers are searched for three; a link's queues
/// hold sixteen messages to send and sixty-four received, the driver's a hundred and
/// twenty-eight events.
pub proof fn the_driver_has_its_measures()
    ensures
        crate::peer_link::TICK_INTERVAL == crate::clock::SECOND,
        crate::peer_link::DISCOVER_WINDOW == 3 * crate::clock::SECOND,
        crate::peer_link::CHANNEL_SEND_QUEUE == 16,
        crate::peer_link::CHANNEL_RECV_QUEUE == 64,
        crate::peer_link::EVENT_CHANNEL_CAPACITY == 128,
{
}

} // verus!
