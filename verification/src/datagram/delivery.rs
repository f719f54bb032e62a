//! What reassembly makes of the fragments that splitting produced: the message
//! arrives byte for byte, in whatever order its fragments do and whatever else is
//! in flight.

use vstd::prelude::*;

use crate::clock::Instant;
#[allow(unused_imports)]
use crate::clock::spec_elapsed;
#[allow(unused_imports)]
use crate::datagram::channel::ChannelView;
#[allow(unused_imports)]
use crate::datagram::fragment::{
    chunk, chunk_start, chunks_joined, chunks_rejoin_to_the_payload, fragment, fragment_count,
    fragment_count_covers, fragments_are_labelled_and_bounded, FragmentHeader, MAX_FRAGMENTS,
};
#[allow(unused_imports)]
use crate::datagram::reassembly::{
    accept_step, bytes_held, declared_min, fragments_joined, indices_fill_a_range,
    insertion_adds_its_length, opened, unexpired, AcceptView, PartialView, ReassemblyLimits,
};

verus! {

/// A message that a sender has split: its id, its bytes and its fragment budget.
pub struct SplitMessage {
    pub msg_id: u16,
    pub payload: Seq<u8>,
    pub budget: nat,
}

impl SplitMessage {
    pub open spec fn count(self) -> nat {
        fragment_count(self.payload.len(), self.budget)
    }

    /// Whether the message can be sent and is within a receiver's size limit.
    pub open spec fn fits(self, limits: ReassemblyLimits) -> bool {
        &&& self.budget > 0
        &&& self.count() <= MAX_FRAGMENTS
        &&& self.payload.len() <= limits.max_message_len
    }

    pub open spec fn header(self, index: u16) -> FragmentHeader {
        FragmentHeader { msg_id: self.msg_id, index, total: self.count() as u16 }
    }

    pub open spec fn chunk(self, index: u16) -> Seq<u8> {
        chunk(self.payload, self.budget, index as nat)
    }

    /// The message in flight once the fragments in `got` have arrived, the first of
    /// them at `started_at`.
    pub open spec fn partly(self, got: Set<u16>, started_at: Instant) -> PartialView {
        PartialView {
            total: self.count() as u16,
            fragments: Map::new(|i: u16| got.contains(i), |i: u16| self.chunk(i)),
            started_at,
        }
    }

    /// What a receiver's table holds of the message at `now`: nothing that is still
    /// within the timeout when `got` is empty, otherwise exactly the fragments in
    /// `got`.
    pub open spec fn received(
        self,
        limits: ReassemblyLimits,
        state: Map<u16, PartialView>,
        got: Set<u16>,
        started_at: Instant,
        now: Instant,
    ) -> bool {
        let live = unexpired(state, limits.reassembly_timeout, now);
        if got == Set::<u16>::empty() {
            !live.contains_key(self.msg_id)
        } else {
            live.contains_key(self.msg_id) && state[self.msg_id] == self.partly(got, started_at)
        }
    }
}

proof fn part_is_no_longer_than_the_payload(message: SplitMessage, got: Set<u16>, n: nat)
    requires
        n <= 65536,
    ensures
        bytes_held(message.partly(got, 0).fragments, n) <= chunk_start(
            message.payload.len(),
            message.budget,
            n,
        ),
    decreases n,
{
    if n > 0 {
        let m = (n - 1) as nat;
        part_is_no_longer_than_the_payload(message, got, m);
        assert(n * message.budget == m * message.budget + message.budget) by (nonlinear_arith)
            requires
                n == m + 1,
        ;
    }
}

proof fn whole_joins_to_the_chunks(message: SplitMessage, got: Set<u16>, n: nat)
    requires
        n <= 65536,
        forall|i: u16| i < n ==> got.contains(i),
    ensures
        fragments_joined(message.partly(got, 0).fragments, n) == chunks_joined(
            message.payload,
            message.budget,
            n,
        ),
    decreases n,
{
    if n > 0 {
        whole_joins_to_the_chunks(message, got, (n - 1) as nat);
    }
}

/// One fragment of a split message that fits the receiver's limits, arriving when
/// some others have and within the timeout: it is stored, or, being the last one
/// missing, completes the message to the payload that was split. The rest of the
/// receiver's table does not matter.
pub proof fn a_fragment_is_stored_or_completes_its_message(
    limits: ReassemblyLimits,
    state: Map<u16, PartialView>,
    message: SplitMessage,
    got: Set<u16>,
    started_at: Instant,
    index: u16,
    now: Instant,
)
    requires
        message.fits(limits),
        index < message.count(),
        forall|i: u16| got.contains(i) ==> i < message.count(),
        !got.contains(index),
        message.received(limits, state, got, started_at, now),
    ensures
        ({
            let (next, result) = accept_step(
                limits,
                state,
                message.header(index),
                message.chunk(index),
                now,
            );
            let since = if got == Set::<u16>::empty() {
                now
            } else {
                started_at
            };
            if got.insert(index).len() < message.count() {
                &&& result == AcceptView::Pending
                &&& next.contains_key(message.msg_id)
                &&& next[message.msg_id] == message.partly(got.insert(index), since)
            } else {
                &&& result == AcceptView::Complete(message.payload)
                &&& !next.contains_key(message.msg_id)
            }
        }),
{
    let id = message.msg_id;
    let header = message.header(index);
    let payload = message.chunk(index);
    let count = message.count();
    let len = message.payload.len();
    let live = unexpired(state, limits.reassembly_timeout, now);
    let more = got.insert(index);
    fragment_count_covers(len, message.budget);
    assert((index + 1) * message.budget == index * message.budget + message.budget)
        by (nonlinear_arith);
    assert(payload.len() <= message.budget);
    assert(payload.len() <= len);
    indices_fill_a_range(got, count);
    indices_fill_a_range(more, count);
    if count == 1 {
        assert(index == 0);
        assert(got =~= Set::<u16>::empty()) by {
            assert(forall|i: u16| got.contains(i) ==> i == 0);
        }
        assert(payload =~= message.payload) by {
            assert(0 * message.budget == 0);
            assert(1 * message.budget == message.budget);
            assert(count * message.budget == message.budget);
        }
    } else {
        assert(len > 0);
        let per_fragment = if payload.len() == 0 {
            1
        } else {
            payload.len()
        };
        assert((count - 1) * per_fragment <= (count - 1) * message.budget) by (nonlinear_arith)
            requires
                count >= 1,
                per_fragment <= message.budget,
        ;
        assert(declared_min(header.total, payload.len()) <= limits.max_message_len);
        let since = if got == Set::<u16>::empty() {
            now
        } else {
            started_at
        };
        let open = opened(limits, live, header, now);
        assert(open[id] =~= message.partly(got, since)) by {
            if got == Set::<u16>::empty() {
                assert(message.partly(got, since).fragments =~= Map::<u16, Seq<u8>>::empty());
            }
        }
        let fragments = open[id].fragments.insert(index, payload);
        assert(fragments =~= message.partly(more, since).fragments);
        assert(fragments.dom() =~= more);
        assert(message.partly(more, since).fragments == message.partly(more, 0).fragments);
        part_is_no_longer_than_the_payload(message, more, count);
        insertion_adds_its_length(open[id].fragments, index, payload, count);
        assert(bytes_held(fragments, count) <= len);
        if more.len() >= count {
            whole_joins_to_the_chunks(message, more, count);
            chunks_rejoin_to_the_payload(message.payload, message.budget);
        }
    }
}

/// The receiver's table and its last answer once the fragments named by `order`
/// have arrived one after the other, each at its own time.
pub open spec fn delivered(
    limits: ReassemblyLimits,
    state: Map<u16, PartialView>,
    message: SplitMessage,
    order: Seq<u16>,
    times: Seq<Instant>,
) -> (Map<u16, PartialView>, AcceptView)
    decreases order.len(),
{
    if order.len() == 0 {
        (state, AcceptView::Pending)
    } else {
        let (before, _) = delivered(limits, state, message, order.drop_last(), times);
        accept_step(
            limits,
            before,
            message.header(order.last()),
            message.chunk(order.last()),
            times[order.len() - 1],
        )
    }
}

proof fn delivery_so_far(
    limits: ReassemblyLimits,
    state: Map<u16, PartialView>,
    message: SplitMessage,
    order: Seq<u16>,
    times: Seq<Instant>,
)
    requires
        message.fits(limits),
        0 < order.len() <= message.count(),
        order.len() <= times.len(),
        order.no_duplicates(),
        forall|k: int| 0 <= k < order.len() ==> #[trigger] order[k] < message.count(),
        !unexpired(state, limits.reassembly_timeout, times[0]).contains_key(message.msg_id),
        forall|k: int|
            0 < k < order.len() ==> spec_elapsed(times[0], #[trigger] times[k])
                <= limits.reassembly_timeout,
    ensures
        ({
            let (next, result) = delivered(limits, state, message, order, times);
            &&& if order.len() < message.count() {
                &&& result == AcceptView::Pending
                &&& next.contains_key(message.msg_id)
                &&& next[message.msg_id] == message.partly(order.to_set(), times[0])
            } else {
                &&& result == AcceptView::Complete(message.payload)
                &&& !next.contains_key(message.msg_id)
            }
            &&& state == Map::<u16, PartialView>::empty() ==> forall|id: u16|
                id != message.msg_id ==> !(#[trigger] next.contains_key(id))
        }),
    decreases order.len(),
{
    let shorter = order.drop_last();
    let index = order.last();
    let now = times[order.len() - 1];
    assert(order =~= shorter.push(index));
    assert(index < message.count()) by {
        assert(order[order.len() - 1] == index);
    }
    let got = shorter.to_set();
    assert(got.insert(index) =~= order.to_set()) by {
        assert forall|i: u16| order.to_set().contains(i) implies got.insert(index).contains(i) by {
            let k = choose|k: int| 0 <= k < order.len() && order[k] == i;
            if k < shorter.len() {
                assert(shorter[k] == i);
            }
        }
        assert forall|i: u16| got.contains(i) implies order.to_set().contains(i) by {
            let k = choose|k: int| 0 <= k < shorter.len() && shorter[k] == i;
            assert(order[k] == i);
        }
    }
    order.unique_seq_to_set();
    assert(!got.contains(index)) by {
        if got.contains(index) {
            let k = choose|k: int| 0 <= k < shorter.len() && shorter[k] == index;
            assert(order[k] == order[order.len() - 1]);
        }
    }
    assert forall|i: u16| got.contains(i) implies i < message.count() by {
        let k = choose|k: int| 0 <= k < shorter.len() && shorter[k] == i;
        assert(order[k] == i);
    }
    if shorter.len() == 0 {
        assert(got =~= Set::<u16>::empty());
        assert(delivered(limits, state, message, shorter, times).0 == state);
        a_fragment_is_stored_or_completes_its_message(
            limits,
            state,
            message,
            got,
            times[0],
            index,
            now,
        );
    } else {
        assert forall|k: int| 0 <= k < shorter.len() implies #[trigger] shorter[k]
            < message.count() by {
            assert(order[k] == shorter[k]);
        }
        delivery_so_far(limits, state, message, shorter, times);
        let before = delivered(limits, state, message, shorter, times).0;
        assert(got.contains(shorter[0]));
        assert(spec_elapsed(times[0], now) <= limits.reassembly_timeout);
        a_fragment_is_stored_or_completes_its_message(
            limits,
            before,
            message,
            got,
            times[0],
            index,
            now,
        );
    }
}

/// A message that was split and fits the receiver's limits arrives byte for byte:
/// once each of its fragments has arrived, in any order and within the timeout of
/// the first, the last of them completes it to the payload that was sent, and the
/// receiver keeps nothing of it.
pub proof fn a_split_message_reassembles_in_any_order(
    limits: ReassemblyLimits,
    state: Map<u16, PartialView>,
    message: SplitMessage,
    order: Seq<u16>,
    times: Seq<Instant>,
)
    requires
        message.fits(limits),
        order.no_duplicates(),
        order.len() == message.count() == times.len(),
        forall|k: int| 0 <= k < order.len() ==> #[trigger] order[k] < message.count(),
        !unexpired(state, limits.reassembly_timeout, times[0]).contains_key(message.msg_id),
        forall|k: int|
            0 < k < order.len() ==> spec_elapsed(times[0], #[trigger] times[k])
                <= limits.reassembly_timeout,
    ensures
        ({
            let (next, result) = delivered(limits, state, message, order, times);
            &&& result == AcceptView::Complete(message.payload)
            &&& !next.contains_key(message.msg_id)
            &&& state == Map::<u16, PartialView>::empty() ==> next == state
        }),
{
    fragment_count_covers(message.payload.len(), message.budget);
    delivery_so_far(limits, state, message, order, times);
    let next = delivered(limits, state, message, order, times).0;
    if state == Map::<u16, PartialView>::empty() {
        assert(next =~= state);
    }
}

/// Until its last fragment arrives a message stays pending: no prefix of the
/// fragments completes it.
pub proof fn an_incomplete_message_stays_pending(
    limits: ReassemblyLimits,
    state: Map<u16, PartialView>,
    message: SplitMessage,
    order: Seq<u16>,
    times: Seq<Instant>,
)
    requires
        message.fits(limits),
        order.no_duplicates(),
        0 < order.len() < message.count(),
        order.len() <= times.len(),
        forall|k: int| 0 <= k < order.len() ==> #[trigger] order[k] < message.count(),
        !unexpired(state, limits.reassembly_timeout, times[0]).contains_key(message.msg_id),
        forall|k: int|
            0 < k < order.len() ==> spec_elapsed(times[0], #[trigger] times[k])
                <= limits.reassembly_timeout,
    ensures
        delivered(limits, state, message, order, times).1 == AcceptView::Pending,
{
    delivery_so_far(limits, state, message, order, times);
}

/// Interleaved messages do not disturb each other: a fragment of one leaves another
/// that is in flight as it is, unless that one has expired, or the fragment opens a
/// message for which no place is free.
pub proof fn other_messages_are_left_alone(
    limits: ReassemblyLimits,
    state: Map<u16, PartialView>,
    header: FragmentHeader,
    payload: Seq<u8>,
    id: u16,
    now: Instant,
)
    requires
        id != header.msg_id,
        ({
            let live = unexpired(state, limits.reassembly_timeout, now);
            &&& live.contains_key(id)
            &&& live.contains_key(header.msg_id) || live.len() < limits.max_concurrent_reassemblies
        }),
    ensures
        accept_step(limits, state, header, payload, now).0.contains_key(id),
        accept_step(limits, state, header, payload, now).0[id] == state[id],
{
}

/// A message that has been in flight for longer than the timeout is gone: a fragment
/// of it that comes later starts afresh, and never meets the stale bytes.
pub proof fn an_expired_message_is_forgotten(
    limits: ReassemblyLimits,
    state: Map<u16, PartialView>,
    id: u16,
    now: Instant,
)
    requires
        state.contains_key(id),
        spec_elapsed(state[id].started_at, now) > limits.reassembly_timeout,
    ensures
        !unexpired(state, limits.reassembly_timeout, now).contains_key(id),
{
}

/// A second copy of a fragment that is already held changes nothing: the first copy
/// counts.
pub proof fn the_first_copy_of_a_fragment_wins(
    limits: ReassemblyLimits,
    state: Map<u16, PartialView>,
    header: FragmentHeader,
    payload: Seq<u8>,
    now: Instant,
)
    requires
        1 < header.total,
        header.index < header.total,
        payload.len() <= limits.max_message_len,
        ({
            let live = unexpired(state, limits.reassembly_timeout, now);
            &&& live.contains_key(header.msg_id)
            &&& live[header.msg_id].total == header.total
            &&& live[header.msg_id].fragments.contains_key(header.index)
        }),
    ensures
        accept_step(limits, state, header, payload, now) == (
            unexpired(state, limits.reassembly_timeout, now),
            AcceptView::Pending,
        ),
{
}

// ---------------------------------------------------------------------------
// From channel to channel
// ---------------------------------------------------------------------------

/// A receiving channel after the raw fragments `raws` arrived one after the other,
/// and the messages that they completed, in order.
pub open spec fn fed(receiver: ChannelView, raws: Seq<Seq<u8>>, times: Seq<Instant>) -> (
    ChannelView,
    Seq<Seq<u8>>,
)
    decreases raws.len(),
{
    if raws.len() == 0 {
        (receiver, seq![])
    } else {
        let (before, messages) = fed(receiver, raws.drop_last(), times);
        let (next, message) = before.after(raws.last(), times[raws.len() - 1]);
        (
            next,
            match message {
                Some(m) => messages.push(m),
                None => messages,
            },
        )
    }
}

/// The fragments of a message on the wire, in the order that `order` names.
pub open spec fn on_the_wire(message: SplitMessage, order: Seq<u16>) -> Seq<Seq<u8>> {
    order.map_values(
        |i: u16| fragment(message.msg_id, message.payload, message.budget, i as nat),
    )
}

proof fn feeding_is_delivery(
    receiver: ChannelView,
    message: SplitMessage,
    order: Seq<u16>,
    times: Seq<Instant>,
)
    requires
        message.fits(receiver.limits),
        order.len() <= message.count(),
        order.len() <= times.len(),
        order.no_duplicates(),
        forall|k: int| 0 <= k < order.len() ==> #[trigger] order[k] < message.count(),
        !unexpired(receiver.partial, receiver.limits.reassembly_timeout, times[0]).contains_key(
            message.msg_id,
        ),
        forall|k: int|
            0 < k < order.len() ==> spec_elapsed(times[0], #[trigger] times[k])
                <= receiver.limits.reassembly_timeout,
    ensures
        ({
            let (partial, _) = delivered(
                receiver.limits,
                receiver.partial,
                message,
                order,
                times,
            );
            fed(receiver, on_the_wire(message, order), times) == (
                ChannelView { partial, ..receiver },
                if order.len() < message.count() {
                    Seq::<Seq<u8>>::empty()
                } else {
                    seq![message.payload]
                },
            )
        }),
    decreases order.len(),
{
    let raws = on_the_wire(message, order);
    fragment_count_covers(message.payload.len(), message.budget);
    if order.len() > 0 {
        let shorter = order.drop_last();
        let index = order.last();
        assert(order[order.len() - 1] == index);
        assert(raws.drop_last() =~= on_the_wire(message, shorter));
        assert forall|k: int| 0 <= k < shorter.len() implies #[trigger] shorter[k]
            < message.count() by {
            assert(order[k] == shorter[k]);
        }
        feeding_is_delivery(receiver, message, shorter, times);
        delivery_so_far(receiver.limits, receiver.partial, message, order, times);
        fragments_are_labelled_and_bounded(
            message.msg_id,
            message.payload,
            message.budget,
            index as nat,
        );
        let raw = raws.last();
        assert(raw == fragment(message.msg_id, message.payload, message.budget, index as nat));
        assert(FragmentHeader::decoded(raw) == message.header(index));
        let (before, messages) = fed(receiver, raws.drop_last(), times);
        assert(messages =~= Seq::<Seq<u8>>::empty());
        if order.len() == message.count() {
            assert(messages.push(message.payload) =~= seq![message.payload]);
        }
    } else {
        assert(raws =~= Seq::<Seq<u8>>::empty());
    }
}

/// What one channel sends, the other receives: the fragments of a message that fits
/// the receiver's limits, in any order and within the timeout of the first, give the
/// receiver that message and no other.
pub proof fn a_sent_message_is_received(
    receiver: ChannelView,
    message: SplitMessage,
    order: Seq<u16>,
    times: Seq<Instant>,
)
    requires
        message.fits(receiver.limits),
        order.no_duplicates(),
        order.len() == message.count() == times.len(),
        forall|k: int| 0 <= k < order.len() ==> #[trigger] order[k] < message.count(),
        !unexpired(receiver.partial, receiver.limits.reassembly_timeout, times[0]).contains_key(
            message.msg_id,
        ),
        forall|k: int|
            0 < k < order.len() ==> spec_elapsed(times[0], #[trigger] times[k])
                <= receiver.limits.reassembly_timeout,
    ensures
        fed(receiver, on_the_wire(message, order), times).1 == seq![message.payload],
{
    feeding_is_delivery(receiver, message, order, times);
}

/// The fragment indices of a message of `count` fragments, in sending order.
pub open spec fn in_order(count: nat) -> Seq<u16> {
    Seq::new(count, |i: int| i as u16)
}

/// The id of the message that follows `n` others on a channel.
pub open spec fn nth_id(n: nat) -> u16 {
    (n % 65536) as u16
}

/// A receiving channel after whole messages arrived back to back as a fresh sender
/// sends them, and what it received.
pub open spec fn piped(
    receiver: ChannelView,
    payloads: Seq<Seq<u8>>,
    budget: nat,
    times: Seq<Seq<Instant>>,
) -> (ChannelView, Seq<Seq<u8>>)
    decreases payloads.len(),
{
    if payloads.len() == 0 {
        (receiver, seq![])
    } else {
        let n = (payloads.len() - 1) as nat;
        let (before, received) = piped(receiver, payloads.drop_last(), budget, times);
        let message = SplitMessage { msg_id: nth_id(n), payload: payloads.last(), budget };
        let (next, more) = fed(before, on_the_wire(message, in_order(message.count())), times[n as int]);
        (next, received + more)
    }
}

/// A message that arrives in sending order at a receiver that holds nothing is received,
/// and leaves the receiver as it was.
proof fn one_more_message_arrives(
    receiver: ChannelView,
    message: SplitMessage,
    times: Seq<Instant>,
)
    requires
        receiver.partial == Map::<u16, PartialView>::empty(),
        message.fits(receiver.limits),
        times.len() == message.count(),
        forall|k: int|
            0 < k < times.len() ==> spec_elapsed(times[0], #[trigger] times[k])
                <= receiver.limits.reassembly_timeout,
    ensures
        fed(receiver, on_the_wire(message, in_order(message.count())), times) == (
            receiver,
            seq![message.payload],
        ),
{
    let order = in_order(message.count());
    assert(order.no_duplicates());
    feeding_is_delivery(receiver, message, order, times);
    a_split_message_reassembles_in_any_order(
        receiver.limits,
        receiver.partial,
        message,
        order,
        times,
    );
}

/// Several messages, sent one after the other, arrive in that order and intact, each
/// within its own timeout.
pub proof fn messages_arrive_in_order_and_intact(
    receiver: ChannelView,
    payloads: Seq<Seq<u8>>,
    budget: nat,
    times: Seq<Seq<Instant>>,
)
    requires
        receiver.partial == Map::<u16, PartialView>::empty(),
        budget > 0,
        payloads.len() == times.len(),
        forall|n: int|
            #![trigger payloads[n]]
            0 <= n < payloads.len() ==> {
                &&& payloads[n].len() <= receiver.limits.max_message_len
                &&& fragment_count(payloads[n].len(), budget) <= MAX_FRAGMENTS
                &&& times[n].len() == fragment_count(payloads[n].len(), budget)
                &&& forall|k: int|
                    0 < k < times[n].len() ==> spec_elapsed(times[n][0], #[trigger] times[n][k])
                        <= receiver.limits.reassembly_timeout
            },
    ensures
        piped(receiver, payloads, budget, times) == (receiver, payloads),
    decreases payloads.len(),
{
    if payloads.len() > 0 {
        let n = (payloads.len() - 1) as nat;
        let shorter = payloads.drop_last();
        let earlier = times.drop_last();
        assert forall|k: int| #![trigger shorter[k]] 0 <= k < shorter.len() implies {
            &&& shorter[k] == payloads[k]
            &&& earlier[k] == times[k]
        } by {}
        messages_arrive_in_order_and_intact(receiver, shorter, budget, earlier);
        piped_ignores_later_times(receiver, shorter, budget, earlier, times);
        let message = SplitMessage { msg_id: nth_id(n), payload: payloads.last(), budget };
        assert(payloads[n as int] == payloads.last());
        fragment_count_covers(message.payload.len(), budget);
        one_more_message_arrives(receiver, message, times[n as int]);
        assert(shorter + seq![payloads.last()] =~= payloads);
    } else {
        assert(payloads =~= Seq::<Seq<u8>>::empty());
    }
}

proof fn piped_ignores_later_times(
    receiver: ChannelView,
    payloads: Seq<Seq<u8>>,
    budget: nat,
    times: Seq<Seq<Instant>>,
    more: Seq<Seq<Instant>>,
)
    requires
        payloads.len() <= times.len() <= more.len(),
        forall|k: int| 0 <= k < times.len() ==> times[k] == #[trigger] more[k],
    ensures
        piped(receiver, payloads, budget, times) == piped(receiver, payloads, budget, more),
    decreases payloads.len(),
{
    if payloads.len() > 0 {
        piped_ignores_later_times(receiver, payloads.drop_last(), budget, times, more);
        assert(times[payloads.len() - 1] == more[payloads.len() - 1]);
    }
}

} // verus!
