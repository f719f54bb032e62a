//! Bounded fragment reassembly.
//!
//! The bytes come from a peer that nothing above has authenticated yet, so every
//! bound here carries weight: without them a peer could pin memory by opening many
//! partial messages, by declaring an enormous fragment count, or by starting
//! messages that it never finishes.
//!
//! There is no I/O and no clock in here: `now` is an argument.

use std::collections::BTreeMap;

use vstd::prelude::*;
use vstd::std_specs::btree::*;
use vstd::std_specs::cmp::OrdSpec;
use vstd::std_specs::iter::IteratorSpec;

use crate::clock::{elapsed, Duration, Instant};
#[allow(unused_imports)]
use crate::clock::spec_elapsed;
use crate::datagram::fragment::{append_bytes, copy_bytes, FragmentHeader};

verus! {

broadcast use {
    group_btree_axioms,
    vstd::laws_cmp::group_laws_cmp,
};

#[derive(Debug, Clone, Copy, PartialEq, Eq, Structural)]
pub struct ReassemblyLimits {
    pub max_message_len: usize,
    pub reassembly_timeout: Duration,
    pub max_concurrent_reassemblies: usize,
}

/// Why a fragment was dropped.
#[derive(Debug, Clone, Copy, PartialEq, Eq, Structural)]
pub enum RejectReason {
    /// A message with no fragments is meaningless.
    EmptyMessage,
    /// The fragment claims a slot outside its own message.
    IndexOutOfRange,
    /// The fragment count disagrees with the one in flight for this message.
    InconsistentTotal,
    /// Accepting the fragment would push the message past the size limit.
    MessageTooLarge,
}

#[derive(Debug, PartialEq, Eq)]
pub enum Accept {
    /// All fragments are present; this is the message.
    Complete(Vec<u8>),
    /// The fragment was stored, or seen before; the message is still incomplete.
    Pending,
    /// The fragment was dropped.
    Rejected(RejectReason),
}

/// The contents of an `Accept`.
pub enum AcceptView {
    Complete(Seq<u8>),
    Pending,
    Rejected(RejectReason),
}

impl View for Accept {
    type V = AcceptView;

    open spec fn view(&self) -> AcceptView {
        match self {
            Accept::Complete(message) => AcceptView::Complete(message@),
            Accept::Pending => AcceptView::Pending,
            Accept::Rejected(reason) => AcceptView::Rejected(*reason),
        }
    }
}

struct PartialMessage {
    total: u16,
    fragments: BTreeMap<u16, Vec<u8>>,
    cumulative_len: usize,
    started_at: Instant,
}

/// A message of which some fragments have arrived.
#[verifier::ext_equal]
pub struct PartialView {
    pub total: u16,
    pub fragments: Map<u16, Seq<u8>>,
    pub started_at: Instant,
}

impl View for PartialMessage {
    type V = PartialView;

    closed spec fn view(&self) -> PartialView {
        PartialView {
            total: self.total,
            fragments: self.fragments@.map_values(|v: Vec<u8>| v@),
            started_at: self.started_at,
        }
    }
}

/// How many bytes the fragments with an index below `n` hold together.
pub open spec fn bytes_held(fragments: Map<u16, Seq<u8>>, n: nat) -> nat
    decreases n,
{
    if n == 0 {
        0
    } else {
        let i = (n - 1) as u16;
        bytes_held(fragments, (n - 1) as nat) + if fragments.contains_key(i) {
            fragments[i].len()
        } else {
            0
        }
    }
}

/// The fragments with an index below `n`, one behind the other in index order.
pub open spec fn fragments_joined(fragments: Map<u16, Seq<u8>>, n: nat) -> Seq<u8>
    decreases n,
{
    if n == 0 {
        seq![]
    } else {
        fragments_joined(fragments, (n - 1) as nat) + fragments[(n - 1) as u16]
    }
}

impl PartialView {
    pub open spec fn len(self) -> nat {
        bytes_held(self.fragments, self.total as nat)
    }

    /// What holds of every message in flight: it misses at least one fragment, holds
    /// at least one and none outside its own range, and is within the size limit.
    pub open spec fn wf(self, limits: ReassemblyLimits) -> bool {
        &&& self.fragments.dom().finite()
        &&& forall|i: u16| #[trigger] self.fragments.contains_key(i) ==> i < self.total
        &&& 0 < self.fragments.len() < self.total
        &&& self.len() <= limits.max_message_len
    }
}

/// What holds of the messages in flight between any two calls: each is within its
/// own bounds, and there are no more of them than the limit allows, or one where it
/// allows none.
pub open spec fn bounded(limits: ReassemblyLimits, state: Map<u16, PartialView>) -> bool {
    &&& state.dom().finite()
    &&& forall|id: u16| #[trigger] state.contains_key(id) ==> state[id].wf(limits)
    &&& state.len() <= limits.max_concurrent_reassemblies || state.len() <= 1
}

/// The messages that have not been in flight for longer than the timeout at `now`.
pub open spec fn unexpired(
    state: Map<u16, PartialView>,
    timeout: Duration,
    now: Instant,
) -> Map<u16, PartialView> {
    state.restrict(
        Set::new(|id: u16| state.contains_key(id) && spec_elapsed(state[id].started_at, now) <= timeout),
    )
}

/// Whether message `id` was started no later than any other in flight, the lower
/// id counting as the earlier of two started at once.
pub open spec fn is_oldest(state: Map<u16, PartialView>, id: u16) -> bool {
    &&& state.contains_key(id)
    &&& forall|other: u16| #[trigger]
        state.contains_key(other) ==> state[id].started_at < state[other].started_at || (
        state[id].started_at == state[other].started_at && id <= other)
}

/// Room for one more message: when the limit is reached, the oldest one is dropped.
pub open spec fn with_room(state: Map<u16, PartialView>, capacity: usize) -> Map<u16, PartialView> {
    if state.len() < capacity || state.dom() == Set::<u16>::empty() {
        state
    } else {
        state.remove(choose|id: u16| is_oldest(state, id))
    }
}

/// The least size of a message of `total` fragments one of which carries `len`
/// bytes, capped at what a `usize` can hold.
pub open spec fn declared_min(total: u16, len: nat) -> nat {
    let per_fragment = if len == 0 {
        1
    } else {
        len
    };
    let product = ((total - 1) * per_fragment) as nat;
    if product > usize::MAX {
        usize::MAX as nat
    } else {
        product
    }
}

/// The messages in flight once a fragment of message `header.msg_id` is known to be
/// admissible: the message is opened if it was not.
pub open spec fn opened(
    limits: ReassemblyLimits,
    live: Map<u16, PartialView>,
    header: FragmentHeader,
    now: Instant,
) -> Map<u16, PartialView> {
    if live.contains_key(header.msg_id) {
        live
    } else {
        with_room(live, limits.max_concurrent_reassemblies).insert(
            header.msg_id,
            PartialView { total: header.total, fragments: Map::empty(), started_at: now },
        )
    }
}

/// What becomes of an admissible fragment: a second copy changes nothing, one that
/// overflows the limit discards its message, and the last missing one completes it.
pub open spec fn stored(
    limits: ReassemblyLimits,
    open: Map<u16, PartialView>,
    header: FragmentHeader,
    payload: Seq<u8>,
) -> (Map<u16, PartialView>, AcceptView) {
    let message = open[header.msg_id];
    let fragments = message.fragments.insert(header.index, payload);
    if message.fragments.contains_key(header.index) {
        (open, AcceptView::Pending)
    } else if message.len() + payload.len() > limits.max_message_len {
        (open.remove(header.msg_id), AcceptView::Rejected(RejectReason::MessageTooLarge))
    } else if fragments.len() != message.total {
        (open.insert(header.msg_id, PartialView { fragments, ..message }), AcceptView::Pending)
    } else {
        (
            open.remove(header.msg_id),
            AcceptView::Complete(fragments_joined(fragments, message.total as nat)),
        )
    }
}

/// The messages in flight after a fragment arrives, and what becomes of it.
pub open spec fn accept_step(
    limits: ReassemblyLimits,
    state: Map<u16, PartialView>,
    header: FragmentHeader,
    payload: Seq<u8>,
    now: Instant,
) -> (Map<u16, PartialView>, AcceptView) {
    let live = unexpired(state, limits.reassembly_timeout, now);
    if header.total == 0 {
        (state, AcceptView::Rejected(RejectReason::EmptyMessage))
    } else if header.index >= header.total {
        (state, AcceptView::Rejected(RejectReason::IndexOutOfRange))
    } else if payload.len() > limits.max_message_len {
        (state, AcceptView::Rejected(RejectReason::MessageTooLarge))
    } else if header.total == 1 {
        (live.remove(header.msg_id), AcceptView::Complete(payload))
    } else if live.contains_key(header.msg_id) && live[header.msg_id].total != header.total {
        (live.remove(header.msg_id), AcceptView::Rejected(RejectReason::InconsistentTotal))
    } else if !live.contains_key(header.msg_id) && declared_min(header.total, payload.len())
        > limits.max_message_len {
        (live, AcceptView::Rejected(RejectReason::MessageTooLarge))
    } else {
        stored(limits, opened(limits, live, header, now), header, payload)
    }
}

/// Reassembles one peer's fragment stream. Hold one per peer: a message id is
/// unique only within a single sender's channel.
pub struct Reassembler {
    limits: ReassemblyLimits,
    partial: BTreeMap<u16, PartialMessage>,
}

impl View for Reassembler {
    type V = Map<u16, PartialView>;

    closed spec fn view(&self) -> Map<u16, PartialView> {
        self.partial@.map_values(|p: PartialMessage| p@)
    }
}

impl Reassembler {
    pub closed spec fn spec_limits(&self) -> ReassemblyLimits {
        self.limits
    }

    /// The bounds that hold between any two calls.
    pub closed spec fn wf(&self) -> bool {
        &&& bounded(self.limits, self@)
        &&& self.counted()
    }

    /// Every message's running length is that of the fragments it holds.
    closed spec fn counted(&self) -> bool {
        forall|id: u16| #[trigger]
            self.partial@.contains_key(id) ==> self.partial@[id].cumulative_len
                == self.partial@[id]@.len()
    }

    pub fn new(limits: ReassemblyLimits) -> (r: Self)
        ensures
            r.wf(),
            r.spec_limits() == limits,
            r@ == Map::<u16, PartialView>::empty(),
    {
        let r = Reassembler { limits, partial: BTreeMap::new() };
        assert(r@ =~= Map::<u16, PartialView>::empty());
        r
    }

    /// Number of messages in flight.
    pub fn pending_count(&self) -> (n: usize)
        ensures
            n == self@.len(),
    {
        assert(self@.dom() =~= self.partial@.dom());
        self.partial.len()
    }

    /// Drops the messages that have been in flight for longer than the timeout. Every
    /// accepted fragment does so too; an idle channel can do so on its own.
    pub fn expire(&mut self, now: Instant)
        requires
            old(self).wf(),
        ensures
            final(self).wf(),
            final(self).spec_limits() == old(self).spec_limits(),
            final(self)@ == unexpired(
                old(self)@,
                old(self).spec_limits().reassembly_timeout,
                now,
            ),
    {
        let timeout = self.limits.reassembly_timeout;
        let ids = ids_in_order(&self.partial);
        let mut k: usize = 0;
        let ghost before = self.partial@;
        assert(ids@.skip(0) =~= ids@);
        while k < ids.len()
            invariant
                k <= ids@.len(),
                self.limits == old(self).limits,
                timeout == self.limits.reassembly_timeout,
                before == old(self).partial@,
                self.counted(),
                forall|i: int, j: int| 0 <= i < j < ids@.len() ==> ids@[i] < ids@[j],
                forall|id: u16| #[trigger] before.contains_key(id) ==> ids@.contains(id),
                forall|i: int| 0 <= i < ids@.len() ==> before.contains_key(#[trigger] ids@[i]),
                forall|id: u16| #[trigger] self.partial@.contains_key(id) <==> {
                    &&& before.contains_key(id)
                    &&& spec_elapsed(before[id].started_at, now) <= timeout || ids@.skip(k as int).contains(id)
                },
                forall|id: u16| #[trigger] self.partial@.contains_key(id) ==> self.partial@[id] == before[id],
            decreases ids.len() - k,
        {
            let id = ids[k];
            proof {
                let rest = ids@.skip(k as int);
                assert(rest[0] == id);
                assert(self.partial@.contains_key(id));
                assert(rest.skip(1) =~= ids@.skip(k + 1));
                assert forall|other: u16| rest.contains(other) <==> other == id || rest.skip(1).contains(other) by {
                    if rest.contains(other) {
                        let i = choose|i: int| 0 <= i < rest.len() && rest[i] == other;
                        if i > 0 {
                            assert(rest.skip(1)[i - 1] == other);
                        }
                    }
                    if rest.skip(1).contains(other) {
                        let i = choose|i: int| 0 <= i < rest.skip(1).len() && rest.skip(1)[i] == other;
                        assert(rest[i + 1] == other);
                    }
                }
                assert(!rest.skip(1).contains(id));
            }
            let message = self.partial.get(&id).unwrap();
            if elapsed(message.started_at, now) > timeout {
                self.partial.remove(&id);
            }
            k = k + 1;
        }
        proof {
            assert(ids@.skip(k as int) =~= Seq::<u16>::empty());
            assert(self@ =~= unexpired(old(self)@, timeout, now));
            expiry_keeps_bounds(self.limits, old(self)@, now);
        }
    }

    pub fn accept(&mut self, header: FragmentHeader, payload: &[u8], now: Instant) -> (r: Accept)
        requires
            old(self).wf(),
        ensures
            final(self).wf(),
            final(self).spec_limits() == old(self).spec_limits(),
            (final(self)@, r@) == accept_step(
                old(self).spec_limits(),
                old(self)@,
                header,
                payload@,
                now,
            ),
    {
        let id = header.msg_id;
        proof {
            accept_keeps_bounds(self.limits, self@, header, payload@, now);
        }
        if header.total == 0 {
            return Accept::Rejected(RejectReason::EmptyMessage);
        }
        if header.index >= header.total {
            return Accept::Rejected(RejectReason::IndexOutOfRange);
        }
        if payload.len() > self.limits.max_message_len {
            return Accept::Rejected(RejectReason::MessageTooLarge);
        }
        self.expire(now);
        let ghost live = self@;
        // A message that arrives whole never enters the table, so a stream of small
        // messages cannot use up its places.
        if header.total == 1 {
            self.partial.remove(&id);
            assert(self@ =~= live.remove(id));
            return Accept::Complete(copy_bytes(payload));
        }
        match self.partial.get(&id) {
            Some(existing) => {
                if existing.total != header.total {
                    // The peer contradicts itself, or an old id is being reused: the
                    // buffered fragments are of no use either way.
                    self.partial.remove(&id);
                    assert(self@ =~= live.remove(id));
                    return Accept::Rejected(RejectReason::InconsistentTotal);
                }
            },
            None => {
                let per_fragment: usize = if payload.len() == 0 {
                    1
                } else {
                    payload.len()
                };
                let least: usize = match (header.total as usize - 1).checked_mul(per_fragment) {
                    Some(product) => product,
                    None => usize::MAX,
                };
                if least > self.limits.max_message_len {
                    return Accept::Rejected(RejectReason::MessageTooLarge);
                }
                self.evict_if_at_capacity();
                let ghost roomy = self@;
                let fresh = PartialMessage {
                    total: header.total,
                    fragments: BTreeMap::new(),
                    cumulative_len: 0,
                    started_at: now,
                };
                proof {
                    assert(fresh@.fragments =~= Map::<u16, Seq<u8>>::empty());
                    no_fragments_hold_nothing(header.total as nat);
                }
                self.partial.insert(id, fresh);
                assert(self@ =~= roomy.insert(id, fresh@));
            },
        }
        let ghost open = self@;
        assert(open == opened(self.limits, live, header, now));
        let ghost table = self.partial@;
        assert(forall|k: u16| #[trigger]
            table.contains_key(k) ==> table[k].cumulative_len == table[k]@.len());
        assert(table[id].cumulative_len <= self.limits.max_message_len) by {
            if live.contains_key(id) {
                assert(live[id].wf(self.limits));
            }
        }
        let mut message = self.partial.remove(&id).unwrap();
        let ghost before = message@;
        assert(before == open[id]);
        assert(self@ =~= open.remove(id));
        if message.fragments.contains_key(&header.index) {
            self.partial.insert(id, message);
            assert(self@ =~= open);
            return Accept::Pending;
        }
        if payload.len() > self.limits.max_message_len - message.cumulative_len {
            return Accept::Rejected(RejectReason::MessageTooLarge);
        }
        message.cumulative_len = message.cumulative_len + payload.len();
        message.fragments.insert(header.index, copy_bytes(payload));
        let ghost fragments = before.fragments.insert(header.index, payload@);
        proof {
            assert(message@.fragments =~= fragments);
            assert(message.fragments@.dom() =~= fragments.dom());
            insertion_adds_its_length(
                before.fragments,
                header.index,
                payload@,
                header.total as nat,
            );
            indices_fill_a_range(fragments.dom(), header.total as nat);
        }
        if message.fragments.len() != message.total as usize {
            proof {
                let stored = PartialView { fragments, ..before };
                assert(message@ =~= stored);
            }
            let ghost shown = message@;
            self.partial.insert(id, message);
            assert(self@ =~= open.insert(id, shown));
            return Accept::Pending;
        }
        let mut out: Vec<u8> = Vec::with_capacity(message.cumulative_len);
        let mut index: u16 = 0;
        while index < message.total
            invariant
                index <= message.total,
                message@.fragments == fragments,
                message.fragments@.dom() == fragments.dom(),
                forall|i: u16| i < message.total ==> fragments.contains_key(i),
                out@ == fragments_joined(fragments, index as nat),
            decreases message.total - index,
        {
            assert(fragments.contains_key(index));
            let piece = message.fragments.get(&index).unwrap();
            assert(piece@ == fragments[index]);
            append_bytes(&mut out, piece.as_slice());
            index = index + 1;
        }
        Accept::Complete(out)
    }

    /// Makes room for one more message by dropping the one that was started first,
    /// so that a peer trickling junk cannot starve a message in progress.
    fn evict_if_at_capacity(&mut self)
        requires
            old(self).counted(),
        ensures
            final(self).counted(),
            final(self).limits == old(self).limits,
            final(self)@ == with_room(old(self)@, old(self).limits.max_concurrent_reassemblies),
    {
        assert(self@.dom() =~= self.partial@.dom());
        if self.partial.len() < self.limits.max_concurrent_reassemblies {
            return;
        }
        let ids = ids_in_order(&self.partial);
        if ids.len() == 0 {
            assert(self@.dom() =~= Set::<u16>::empty());
            return;
        }
        assert(self.partial@.contains_key(ids@[0]));
        let mut oldest: u16 = ids[0];
        let mut started: Instant = self.partial.get(&oldest).unwrap().started_at;
        let mut k: usize = 1;
        while k < ids.len()
            invariant
                1 <= k <= ids@.len(),
                forall|i: int, j: int| 0 <= i < j < ids@.len() ==> ids@[i] < ids@[j],
                forall|id: u16| #[trigger] self.partial@.contains_key(id) ==> ids@.contains(id),
                forall|i: int| 0 <= i < ids@.len() ==> self.partial@.contains_key(#[trigger] ids@[i]),
                self.partial@.contains_key(oldest),
                self.partial@[oldest].started_at == started,
                exists|i: int| 0 <= i < k && ids@[i] == oldest,
                forall|i: int|
                    0 <= i < k ==> {
                        let other = #[trigger] ids@[i];
                        started < self.partial@[other].started_at || (started
                            == self.partial@[other].started_at && oldest <= other)
                    },
            decreases ids.len() - k,
        {
            let id = ids[k];
            assert(self.partial@.contains_key(id));
            let at = self.partial.get(&id).unwrap().started_at;
            if at < started {
                oldest = id;
                started = at;
            }
            k = k + 1;
        }
        let ghost before = self@;
        proof {
            assert(is_oldest(before, oldest)) by {
                assert forall|other: u16| before.contains_key(other) implies before[oldest].started_at
                    < before[other].started_at || (before[oldest].started_at
                    == before[other].started_at && oldest <= other) by {
                    let i = choose|i: int| 0 <= i < ids@.len() && ids@[i] == other;
                    assert(ids@[i] == other);
                }
            }
            let chosen = choose|id: u16| is_oldest(before, id);
            assert(is_oldest(before, chosen));
            assert(before.contains_key(chosen) && before.contains_key(oldest));
            assert(chosen == oldest);
        }
        self.partial.remove(&oldest);
        assert(self@ =~= before.remove(oldest));
    }
}

/// Dropping what has expired keeps every bound.
pub proof fn expiry_keeps_bounds(
    limits: ReassemblyLimits,
    state: Map<u16, PartialView>,
    now: Instant,
)
    requires
        bounded(limits, state),
    ensures
        bounded(limits, unexpired(state, limits.reassembly_timeout, now)),
{
    let live = unexpired(state, limits.reassembly_timeout, now);
    assert(live.dom().subset_of(state.dom()));
    vstd::set_lib::lemma_len_subset(live.dom(), state.dom());
}

/// There is an oldest message whenever there is any.
proof fn some_message_is_oldest(state: Map<u16, PartialView>) -> (id: u16)
    requires
        state.dom().finite(),
        state.dom() != Set::<u16>::empty(),
    ensures
        is_oldest(state, id),
    decreases state.dom().len(),
{
    let any = state.dom().choose();
    assert(state.dom().contains(any)) by {
        if forall|k: u16| !state.dom().contains(k) {
            assert(state.dom() =~= Set::<u16>::empty());
        }
    }
    let rest = state.remove(any);
    if rest.dom() =~= Set::<u16>::empty() {
        assert(is_oldest(state, any)) by {
            assert forall|other: u16| state.contains_key(other) implies other == any by {
                assert(!rest.contains_key(other));
            }
        }
        any
    } else {
        let best = some_message_is_oldest(rest);
        assert(rest.contains_key(best));
        if state[any].started_at < state[best].started_at || (state[any].started_at
            == state[best].started_at && any <= best) {
            assert forall|other: u16| state.contains_key(other) implies state[any].started_at
                < state[other].started_at || (state[any].started_at == state[other].started_at
                && any <= other) by {
                assert(other == any || rest.contains_key(other));
            }
            any
        } else {
            assert forall|other: u16| state.contains_key(other) implies state[best].started_at
                < state[other].started_at || (state[best].started_at == state[other].started_at
                && best <= other) by {
                assert(other == any || rest.contains_key(other));
            }
            best
        }
    }
}

/// Accepting any fragment, from any peer, keeps every bound: the number of messages
/// in flight, the size of each, and the range of its fragments.
pub proof fn accept_keeps_bounds(
    limits: ReassemblyLimits,
    state: Map<u16, PartialView>,
    header: FragmentHeader,
    payload: Seq<u8>,
    now: Instant,
)
    requires
        bounded(limits, state),
    ensures
        bounded(limits, accept_step(limits, state, header, payload, now).0),
{
    let live = unexpired(state, limits.reassembly_timeout, now);
    expiry_keeps_bounds(limits, state, now);
    let id = header.msg_id;
    let (next, result) = accept_step(limits, state, header, payload, now);
    if header.total <= 1 || header.index >= header.total || payload.len() > limits.max_message_len {
    } else if live.contains_key(id) && live[id].total != header.total {
    } else if !live.contains_key(id) && declared_min(header.total, payload.len())
        > limits.max_message_len {
    } else {
        let open = opened(limits, live, header, now);
        if !live.contains_key(id) {
            let roomy = with_room(live, limits.max_concurrent_reassemblies);
            if !(live.len() < limits.max_concurrent_reassemblies || live.dom() == Set::<
                u16,
            >::empty()) {
                let witness = some_message_is_oldest(live);
                let gone = choose|k: u16| is_oldest(live, k);
                assert(is_oldest(live, gone));
                assert(roomy.dom() =~= live.dom().remove(gone));
            }
            no_fragments_hold_nothing(header.total as nat);
            assert(open.dom() =~= roomy.dom().insert(id));
            assert(forall|k: u16| #[trigger]
                open.contains_key(k) && k != id ==> open[k] == live[k] && live.contains_key(k));
        }
        let message = open[id];
        let fragments = message.fragments.insert(header.index, payload);
        if !message.fragments.contains_key(header.index) {
            assert(fragments.dom() =~= message.fragments.dom().insert(header.index));
            insertion_adds_its_length(
                message.fragments,
                header.index,
                payload,
                header.total as nat,
            );
            indices_fill_a_range(fragments.dom(), header.total as nat);
            assert(open.insert(id, PartialView { fragments, ..message }).dom() =~= open.dom());
        }
    }
}

pub(crate) proof fn no_fragments_hold_nothing(n: nat)
    ensures
        bytes_held(Map::<u16, Seq<u8>>::empty(), n) == 0,
    decreases n,
{
    if n > 0 {
        no_fragments_hold_nothing((n - 1) as nat);
    }
}

pub(crate) proof fn insertion_adds_its_length(
    fragments: Map<u16, Seq<u8>>,
    index: u16,
    payload: Seq<u8>,
    n: nat,
)
    requires
        !fragments.contains_key(index),
        n <= 65536,
    ensures
        bytes_held(fragments.insert(index, payload), n) == bytes_held(fragments, n) + if index < n {
            payload.len()
        } else {
            0
        },
    decreases n,
{
    if n > 0 {
        insertion_adds_its_length(fragments, index, payload, (n - 1) as nat);
    }
}

/// The indices below `n`.
spec fn indices_below(n: nat) -> Set<u16> {
    Set::new(|i: u16| i < n)
}

proof fn indices_below_are_n(n: nat)
    requires
        n <= 65536,
    ensures
        indices_below(n).finite(),
        indices_below(n).len() == n,
    decreases n,
{
    if n == 0 {
        assert(indices_below(n) =~= Set::empty());
    } else {
        indices_below_are_n((n - 1) as nat);
        assert(indices_below(n) =~= indices_below((n - 1) as nat).insert((n - 1) as u16));
    }
}

/// A set of indices below `n` has at most `n` elements, and all of them when it has
/// `n`.
pub(crate) proof fn indices_fill_a_range(indices: Set<u16>, n: nat)
    requires
        n <= 65536,
        forall|i: u16| indices.contains(i) ==> i < n,
    ensures
        indices.finite(),
        indices.len() <= n,
        indices.len() == n ==> forall|i: u16| i < n ==> indices.contains(i),
{
    indices_below_are_n(n);
    assert(indices.subset_of(indices_below(n)));
    vstd::set_lib::lemma_len_subset(indices, indices_below(n));
    if indices.len() == n {
        vstd::set_lib::lemma_subset_equality(indices, indices_below(n));
    }
}

/// The keys of a map, in increasing order.
fn ids_in_order<V>(map: &BTreeMap<u16, V>) -> (ids: Vec<u16>)
    ensures
        forall|i: int, j: int| 0 <= i < j < ids@.len() ==> ids@[i] < ids@[j],
        forall|id: u16| #[trigger] map@.contains_key(id) ==> ids@.contains(id),
        forall|i: int| 0 <= i < ids@.len() ==> map@.contains_key(#[trigger] ids@[i]),
{
    let mut ids: Vec<u16> = Vec::new();
    for id in keys: map.keys()
        invariant
            keys.seq() == spec_keys_iter(map).remaining(),
            ids@.len() == keys.index(),
            forall|k: int| 0 <= k < ids@.len() ==> ids@[k] == *keys.seq()[k],
    {
        ids.push(*id);
    }
    proof {
        let seq = spec_keys_iter(map).remaining();
        assert(seq.unref() =~= ids@);
        assert(vstd::laws_cmp::obeys_cmp::<&u16>());
        assert(increasing_seq(seq));
        assert forall|i: int, j: int| 0 <= i < j < ids@.len() implies ids@[i] < ids@[j] by {
            assert(OrdSpec::cmp_spec(&seq[i], &seq[j]) is Less);
        }
        assert(ids@.to_set() == map@.dom());
    }
    ids
}

// ---------------------------------------------------------------------------
// Laws
// ---------------------------------------------------------------------------

/// Expiry goes by age alone: a message stays, as it is, exactly if no more than the timeout
/// has passed since it was opened.
pub proof fn expiry_goes_by_age(
    state: Map<u16, PartialView>,
    timeout: Duration,
    now: Instant,
    id: u16,
)
    requires
        state.contains_key(id),
    ensures
        unexpired(state, timeout, now).contains_key(id) <==> now <= state[id].started_at + timeout,
        unexpired(state, timeout, now).contains_key(id) ==> unexpired(state, timeout, now)[id]
            == state[id],
{
}

/// A header that makes no sense is refused for what is wrong with it, and changes nothing in
/// flight; so is a fragment that is alone larger than any message may be.
pub proof fn a_senseless_fragment_is_refused(
    limits: ReassemblyLimits,
    state: Map<u16, PartialView>,
    header: FragmentHeader,
    payload: Seq<u8>,
    now: Instant,
)
    ensures
        ({
            let (next, result) = accept_step(limits, state, header, payload, now);
            &&& header.total == 0 ==> result == AcceptView::Rejected(RejectReason::EmptyMessage)
            &&& 0 < header.total <= header.index ==> result == AcceptView::Rejected(
                RejectReason::IndexOutOfRange,
            )
            &&& header.index < header.total && payload.len() > limits.max_message_len ==> result
                == AcceptView::Rejected(RejectReason::MessageTooLarge)
            &&& header.index >= header.total || payload.len() > limits.max_message_len ==> next
                == state
            &&& result == AcceptView::Rejected(RejectReason::EmptyMessage) ==> header.total == 0
            &&& result == AcceptView::Rejected(RejectReason::IndexOutOfRange) ==> header.index
                >= header.total > 0
        }),
{
}

/// A message of one fragment is complete at once, whatever is in flight, and frees its id.
pub proof fn a_message_of_one_fragment_is_complete_at_once(
    limits: ReassemblyLimits,
    state: Map<u16, PartialView>,
    msg_id: u16,
    payload: Seq<u8>,
    now: Instant,
)
    requires
        payload.len() <= limits.max_message_len,
    ensures
        ({
            let header = FragmentHeader { msg_id, index: 0, total: 1 };
            let (next, result) = accept_step(limits, state, header, payload, now);
            &&& result == AcceptView::Complete(payload)
            &&& !next.contains_key(msg_id)
            &&& forall|id: u16| #[trigger]
                next.contains_key(id) ==> state.contains_key(id) && next[id] == state[id]
        }),
{
}

/// A sender that changes its mind about a message's fragment count loses the message: the
/// fragment is refused and nothing of the id stays in flight.
pub proof fn a_change_of_count_discards_the_message(
    limits: ReassemblyLimits,
    state: Map<u16, PartialView>,
    header: FragmentHeader,
    payload: Seq<u8>,
    now: Instant,
)
    requires
        header.index < header.total,
        header.total > 1,
        payload.len() <= limits.max_message_len,
        state.contains_key(header.msg_id),
        now <= state[header.msg_id].started_at + limits.reassembly_timeout,
    ensures
        ({
            let (next, result) = accept_step(limits, state, header, payload, now);
            &&& result == AcceptView::Rejected(RejectReason::InconsistentTotal)
                <==> state[header.msg_id].total != header.total
            &&& state[header.msg_id].total != header.total ==> !next.contains_key(header.msg_id)
        }),
{
}

/// A fragment that would push its message past the limit is refused, and takes the whole
/// message with it; one that does not is never refused for size.
pub proof fn an_overflow_discards_the_message(
    limits: ReassemblyLimits,
    state: Map<u16, PartialView>,
    header: FragmentHeader,
    payload: Seq<u8>,
    now: Instant,
)
    requires
        header.index < header.total,
        header.total > 1,
        payload.len() <= limits.max_message_len,
        state.contains_key(header.msg_id),
        now <= state[header.msg_id].started_at + limits.reassembly_timeout,
        state[header.msg_id].total == header.total,
        !state[header.msg_id].fragments.contains_key(header.index),
    ensures
        ({
            let (next, result) = accept_step(limits, state, header, payload, now);
            let held = state[header.msg_id].len();
            &&& held + payload.len() > limits.max_message_len <==> result == AcceptView::Rejected(
                RejectReason::MessageTooLarge,
            )
            &&& held + payload.len() > limits.max_message_len ==> !next.contains_key(header.msg_id)
            &&& held + payload.len() <= limits.max_message_len && result == AcceptView::Pending ==> {
                &&& next.contains_key(header.msg_id)
                &&& next[header.msg_id].fragments.contains_key(header.index)
                &&& next[header.msg_id].fragments[header.index] == payload
                &&& next[header.msg_id].started_at == state[header.msg_id].started_at
                &&& next[header.msg_id].total == state[header.msg_id].total
                &&& forall|i: u16| #[trigger]
                    state[header.msg_id].fragments.contains_key(i)
                        ==> next[header.msg_id].fragments.contains_key(i)
                        && next[header.msg_id].fragments[i] == state[header.msg_id].fragments[i]
            }
        }),
{
}

/// A message that is already declared larger than allowed is never opened. The fragments in
/// front of the last are taken to be as long as the one that arrived, and to hold at least
/// a byte.
pub proof fn a_message_declared_too_large_is_not_opened(
    limits: ReassemblyLimits,
    state: Map<u16, PartialView>,
    header: FragmentHeader,
    payload: Seq<u8>,
    now: Instant,
)
    requires
        header.index < header.total,
        header.total > 1,
        payload.len() <= limits.max_message_len < usize::MAX,
        !state.contains_key(header.msg_id),
    ensures
        ({
            let (next, result) = accept_step(limits, state, header, payload, now);
            let too_large = (header.total - 1) * payload.len() > limits.max_message_len
                || header.total - 1 > limits.max_message_len;
            &&& too_large <==> result == AcceptView::Rejected(RejectReason::MessageTooLarge)
            &&& too_large ==> !next.contains_key(header.msg_id)
            &&& !too_large ==> {
                &&& result == AcceptView::Pending
                &&& next.contains_key(header.msg_id)
                &&& next[header.msg_id].total == header.total
                &&& next[header.msg_id].started_at == now
                &&& next[header.msg_id].fragments == map![header.index => payload]
            }
        }),
{
    no_fragments_hold_nothing(header.total as nat);
    let rest = (header.total - 1) as nat;
    let len = payload.len();
    if len == 0 {
        assert(rest * 1 == rest);
        assert(rest * len == 0) by (nonlinear_arith)
            requires
                len == 0,
        ;
    } else {
        assert(rest * len >= rest) by (nonlinear_arith)
            requires
                len >= 1,
        ;
    }
    let only = Map::<u16, Seq<u8>>::empty().insert(header.index, payload);
    assert(only =~= map![header.index => payload]);
    assert(only.dom() =~= Set::<u16>::empty().insert(header.index));
}

/// When as many messages are in flight as may be, a new one takes the place of a single
/// other: none in flight was opened earlier than that one, and all the rest stay as they
/// are.
pub proof fn a_new_message_displaces_only_the_oldest(
    limits: ReassemblyLimits,
    state: Map<u16, PartialView>,
    header: FragmentHeader,
    payload: Seq<u8>,
    now: Instant,
    gone: u16,
    other: u16,
)
    requires
        bounded(limits, state),
        header.index < header.total,
        state.contains_key(gone) && state.contains_key(other),
        gone != header.msg_id && other != header.msg_id,
        now <= state[gone].started_at + limits.reassembly_timeout,
        now <= state[other].started_at + limits.reassembly_timeout,
        !accept_step(limits, state, header, payload, now).0.contains_key(gone),
    ensures
        state[gone].started_at <= state[other].started_at,
        other != gone ==> {
            &&& accept_step(limits, state, header, payload, now).0.contains_key(other)
            &&& accept_step(limits, state, header, payload, now).0[other] == state[other]
        },
        !state.contains_key(header.msg_id) || now > state[header.msg_id].started_at
            + limits.reassembly_timeout,
        unexpired(state, limits.reassembly_timeout, now).len() >= limits.max_concurrent_reassemblies,
{
    let live = unexpired(state, limits.reassembly_timeout, now);
    expiry_keeps_bounds(limits, state, now);
    assert(live.contains_key(gone) && live.contains_key(other));
    assert(live.dom() != Set::<u16>::empty());
    let witness = some_message_is_oldest(live);
    let dropped = choose|k: u16| is_oldest(live, k);
    assert(is_oldest(live, dropped));
}

} // verus!
