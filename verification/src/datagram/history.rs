//! What a reassembler has made of everything that ever happened to it: a message that it
//! completes is made of the first copies of its fragments.

use vstd::prelude::*;

use crate::clock::Instant;
#[allow(unused_imports)]
use crate::datagram::fragment::FragmentHeader;
#[allow(unused_imports)]
use crate::datagram::reassembly::{
    accept_keeps_bounds, accept_step, bounded, bytes_held, expiry_keeps_bounds, fragments_joined,
    indices_fill_a_range, insertion_adds_its_length, opened, unexpired, AcceptView, PartialView,
    ReassemblyLimits,
};

verus! {

/// One call that a reassembler was given.
pub enum Call {
    Accept { header: FragmentHeader, payload: Seq<u8>, now: Instant },
    Expire { now: Instant },
}

/// The messages in flight once a fresh reassembler was given `calls` in order.
pub open spec fn in_flight(limits: ReassemblyLimits, calls: Seq<Call>) -> Map<u16, PartialView>
    decreases calls.len(),
{
    if calls.len() == 0 {
        Map::empty()
    } else {
        let before = in_flight(limits, calls.drop_last());
        match calls.last() {
            Call::Accept { header, payload, now } => accept_step(
                limits,
                before,
                header,
                payload,
                now,
            ).0,
            Call::Expire { now } => unexpired(before, limits.reassembly_timeout, now),
        }
    }
}

/// Whether the last of `calls` took a fragment of message `id`: it was not refused.
pub open spec fn takes(limits: ReassemblyLimits, calls: Seq<Call>, id: u16) -> bool {
    match calls.last() {
        Call::Accept { header, payload, now } => header.msg_id == id && !(accept_step(
            limits,
            in_flight(limits, calls.drop_last()),
            header,
            payload,
            now,
        ).1 is Rejected),
        Call::Expire { .. } => false,
    }
}

/// Whether the last of `calls` opened message `id`: it took a fragment of it while nothing
/// of it was in flight, or one that is a whole message, which takes the place of whatever
/// was in flight under its id.
pub open spec fn opens(limits: ReassemblyLimits, calls: Seq<Call>, id: u16) -> bool {
    &&& takes(limits, calls, id)
    &&& calls.last()->header.total == 1 || !unexpired(
        in_flight(limits, calls.drop_last()),
        limits.reassembly_timeout,
        calls.last()->Accept_now,
    ).contains_key(id)
}

/// The position of the call that last opened message `id`.
pub open spec fn last_opening(limits: ReassemblyLimits, calls: Seq<Call>, id: u16) -> Option<int>
    decreases calls.len(),
{
    if calls.len() == 0 {
        None
    } else if opens(limits, calls, id) {
        Some(calls.len() - 1)
    } else {
        last_opening(limits, calls.drop_last(), id)
    }
}

/// The payload of the first fragment with this index that was taken for message `id` from
/// the call at position `since` on.
pub open spec fn first_taken(
    limits: ReassemblyLimits,
    calls: Seq<Call>,
    since: int,
    id: u16,
    index: u16,
) -> Option<Seq<u8>>
    decreases calls.len(),
{
    if calls.len() <= since || calls.len() == 0 {
        None
    } else {
        match first_taken(limits, calls.drop_last(), since, id, index) {
            Some(payload) => Some(payload),
            None => if takes(limits, calls, id) && calls.last()->header.index == index {
                Some(calls.last()->payload)
            } else {
                None
            },
        }
    }
}

/// The first payloads taken for the indices below `n`, one behind the other in index order.
pub open spec fn first_taken_joined(
    limits: ReassemblyLimits,
    calls: Seq<Call>,
    since: int,
    id: u16,
    n: nat,
) -> Seq<u8>
    decreases n,
{
    if n == 0 {
        seq![]
    } else {
        first_taken_joined(limits, calls, since, id, (n - 1) as nat) + first_taken(
            limits,
            calls,
            since,
            id,
            (n - 1) as u16,
        )->0
    }
}

/// Whether a message in flight holds exactly the first payloads taken since it was opened.
spec fn accounted_for(limits: ReassemblyLimits, calls: Seq<Call>, id: u16) -> bool {
    let fragments = in_flight(limits, calls)[id].fragments;
    match last_opening(limits, calls, id) {
        None => false,
        Some(since) => {
            &&& 0 <= since < calls.len()
            &&& forall|i: u16| #[trigger]
                first_taken(limits, calls, since, id, i) == if fragments.contains_key(i) {
                    Some(fragments[i])
                } else {
                    None::<Seq<u8>>
                }
        },
    }
}

/// Nothing is taken at a position that has not come yet.
proof fn nothing_is_taken_ahead(
    limits: ReassemblyLimits,
    calls: Seq<Call>,
    since: int,
    id: u16,
    index: u16,
)
    requires
        calls.len() <= since,
    ensures
        first_taken(limits, calls, since, id, index) is None,
{
}

/// Whatever a reassembler was given, what is in flight is within every bound.
pub proof fn always_bounded(limits: ReassemblyLimits, calls: Seq<Call>)
    ensures
        bounded(limits, in_flight(limits, calls)),
    decreases calls.len(),
{
    if calls.len() > 0 {
        always_bounded(limits, calls.drop_last());
        let before = in_flight(limits, calls.drop_last());
        match calls.last() {
            Call::Accept { header, payload, now } => {
                accept_keeps_bounds(limits, before, header, payload, now);
            },
            Call::Expire { now } => {
                expiry_keeps_bounds(limits, before, now);
            },
        }
    }
}

/// Every message in flight holds exactly the first payloads taken since it was opened.
proof fn messages_hold_first_copies(limits: ReassemblyLimits, calls: Seq<Call>, id: u16)
    requires
        in_flight(limits, calls).contains_key(id),
    ensures
        accounted_for(limits, calls, id),
    decreases calls.len(),
{
    let shorter = calls.drop_last();
    let before = in_flight(limits, shorter);
    let after = in_flight(limits, calls);
    match calls.last() {
        Call::Expire { now } => {
            messages_hold_first_copies(limits, shorter, id);
            let since = last_opening(limits, shorter, id)->0;
            assert(last_opening(limits, calls, id) == Some(since));
            assert forall|i: u16| #[trigger]
                first_taken(limits, calls, since, id, i) == if after[id].fragments.contains_key(i) {
                    Some(after[id].fragments[i])
                } else {
                    None::<Seq<u8>>
                } by {
                assert(first_taken(limits, shorter, since, id, i) == first_taken(
                    limits,
                    calls,
                    since,
                    id,
                    i,
                ));
            }
        },
        Call::Accept { header, payload, now } => {
            let live = unexpired(before, limits.reassembly_timeout, now);
            let taken = takes(limits, calls, id);
            if opens(limits, calls, id) {
                let since = calls.len() - 1;
                assert forall|i: u16| #[trigger]
                    first_taken(limits, calls, since, id, i) == if after[id].fragments.contains_key(
                        i,
                    ) {
                        Some(after[id].fragments[i])
                    } else {
                        None::<Seq<u8>>
                    } by {
                    nothing_is_taken_ahead(limits, shorter, since, id, i);
                }
            } else {
                assert(before.contains_key(id));
                messages_hold_first_copies(limits, shorter, id);
                let since = last_opening(limits, shorter, id)->0;
                assert(last_opening(limits, calls, id) == Some(since));
                assert forall|i: u16| #[trigger]
                    first_taken(limits, calls, since, id, i) == if after[id].fragments.contains_key(
                        i,
                    ) {
                        Some(after[id].fragments[i])
                    } else {
                        None::<Seq<u8>>
                    } by {
                    assert(first_taken(limits, shorter, since, id, i)
                        == if before[id].fragments.contains_key(i) {
                        Some(before[id].fragments[i])
                    } else {
                        None::<Seq<u8>>
                    });
                }
            }
        },
    }
}

/// Fragments that are all there join to as many bytes as they hold.
proof fn joining_keeps_every_byte(fragments: Map<u16, Seq<u8>>, n: nat)
    requires
        n <= 65536,
        forall|i: u16| i < n ==> fragments.contains_key(i),
    ensures
        fragments_joined(fragments, n).len() == bytes_held(fragments, n),
    decreases n,
{
    if n > 0 {
        joining_keeps_every_byte(fragments, (n - 1) as nat);
    }
}

/// The first payloads join as the fragments do that hold them.
proof fn first_copies_join(
    limits: ReassemblyLimits,
    calls: Seq<Call>,
    since: int,
    id: u16,
    fragments: Map<u16, Seq<u8>>,
    n: nat,
)
    requires
        n <= 65536,
        forall|i: u16|
            i < n ==> #[trigger] first_taken(limits, calls, since, id, i) == Some(fragments[i]),
    ensures
        first_taken_joined(limits, calls, since, id, n) == fragments_joined(fragments, n),
    decreases n,
{
    if n > 0 {
        first_copies_join(limits, calls, since, id, fragments, (n - 1) as nat);
        let i = (n - 1) as u16;
        assert(first_taken(limits, calls, since, id, i) == Some(fragments[i]));
    }
}

/// Whatever a reassembler was given before, in whatever order and at whatever times: a
/// message that it completes is within the size limit, misses no fragment, and joins for
/// every index the first payload that was taken for it since the message was opened.
pub proof fn a_completed_message_joins_the_first_copies(
    limits: ReassemblyLimits,
    calls: Seq<Call>,
    header: FragmentHeader,
    payload: Seq<u8>,
    now: Instant,
    message: Seq<u8>,
)
    requires
        accept_step(limits, in_flight(limits, calls), header, payload, now).1
            == AcceptView::Complete(message),
    ensures
        message.len() <= limits.max_message_len,
        ({
            let all = calls.push(Call::Accept { header, payload, now });
            let id = header.msg_id;
            &&& last_opening(limits, all, id) matches Some(since)
            &&& forall|i: u16|
                i < header.total ==> (#[trigger] first_taken(limits, all, since, id, i)) is Some
            &&& message == first_taken_joined(limits, all, since, id, header.total as nat)
        }),
{
    let all = calls.push(Call::Accept { header, payload, now });
    let id = header.msg_id;
    let before = in_flight(limits, calls);
    let live = unexpired(before, limits.reassembly_timeout, now);
    assert(all.drop_last() =~= calls);
    assert(all.last() == (Call::Accept { header, payload, now }));
    assert(takes(limits, all, id));
    always_bounded(limits, calls);
    if header.total == 1 {
        assert(header.index == 0);
        let since = calls.len() as int;
        assert(opens(limits, all, id));
        nothing_is_taken_ahead(limits, calls, since, id, 0);
        assert(first_taken(limits, all, since, id, 0) == Some(payload));
        assert(first_taken_joined(limits, all, since, id, 0) =~= seq![]);
        assert(first_taken_joined(limits, all, since, id, 1) =~= payload);
    } else {
        let open = opened(limits, live, header, now);
        let fragments = open[id].fragments.insert(header.index, payload);
        let total = header.total as nat;
        expiry_keeps_bounds(limits, before, now);
        insertion_adds_its_length(open[id].fragments, header.index, payload, total);
        indices_fill_a_range(fragments.dom(), total);
        joining_keeps_every_byte(fragments, total);
        assert(live.contains_key(id)) by {
            if !live.contains_key(id) {
                assert(open[id].fragments =~= Map::<u16, Seq<u8>>::empty());
                assert(fragments.dom() =~= set![header.index]);
            }
        }
        messages_hold_first_copies(limits, calls, id);
        let since = last_opening(limits, calls, id)->0;
        assert forall|i: u16| i < total implies #[trigger] first_taken(limits, all, since, id, i)
            == Some(fragments[i]) by {
            assert(first_taken(limits, calls, since, id, i) == if before[id].fragments.contains_key(
                i,
            ) {
                Some(before[id].fragments[i])
            } else {
                None::<Seq<u8>>
            });
            assert(fragments.dom().contains(i));
            assert(all.drop_last() == calls && since < all.len());
            if i != header.index {
                assert(before[id].fragments.contains_key(i));
            }
        }
        first_copies_join(limits, all, since, id, fragments, total);
    }
}

} // verus!
