//! Bounded reassembly.

use ble_gatt::clock::{Instant, MILLISECOND, SECOND};
use ble_gatt::datagram::fragment::FragmentHeader;
use ble_gatt::datagram::reassembly::{Accept, Reassembler, ReassemblyLimits, RejectReason};

fn t0() -> Instant {
    1_000_000_000_000
}

fn limits() -> ReassemblyLimits {
    ReassemblyLimits {
        max_message_len: 1024,
        reassembly_timeout: 30 * SECOND,
        max_concurrent_reassemblies: 4,
    }
}

fn header(msg_id: u16, index: u16, total: u16) -> FragmentHeader {
    FragmentHeader {
        msg_id,
        index,
        total,
    }
}

#[test]
fn a_single_fragment_message_completes_immediately() {
    let mut r = Reassembler::new(limits());
    let now = t0();
    assert_eq!(
        r.accept(header(1, 0, 1), b"hello", now),
        Accept::Complete(b"hello".to_vec())
    );
    assert_eq!(r.pending_count(), 0);
}

#[test]
fn multiple_fragments_reassemble_in_index_order() {
    let mut r = Reassembler::new(limits());
    let now = t0();
    assert_eq!(r.accept(header(1, 0, 3), b"aaa", now), Accept::Pending);
    assert_eq!(r.accept(header(1, 1, 3), b"bbb", now), Accept::Pending);
    assert_eq!(
        r.accept(header(1, 2, 3), b"ccc", now),
        Accept::Complete(b"aaabbbccc".to_vec())
    );
}

#[test]
fn fragments_arriving_out_of_order_still_reassemble_correctly() {
    let mut r = Reassembler::new(limits());
    let now = t0();
    assert_eq!(r.accept(header(1, 2, 3), b"ccc", now), Accept::Pending);
    assert_eq!(r.accept(header(1, 0, 3), b"aaa", now), Accept::Pending);
    assert_eq!(
        r.accept(header(1, 1, 3), b"bbb", now),
        Accept::Complete(b"aaabbbccc".to_vec())
    );
}

#[test]
fn a_duplicate_index_is_ignored_and_the_first_copy_wins() {
    let mut r = Reassembler::new(limits());
    let now = t0();
    assert_eq!(r.accept(header(1, 0, 2), b"first", now), Accept::Pending);
    assert_eq!(r.accept(header(1, 0, 2), b"second", now), Accept::Pending);
    assert_eq!(
        r.accept(header(1, 1, 2), b"!", now),
        Accept::Complete(b"first!".to_vec())
    );
}

#[test]
fn an_index_outside_the_message_is_rejected() {
    let mut r = Reassembler::new(limits());
    assert_eq!(
        r.accept(header(1, 3, 3), b"x", t0()),
        Accept::Rejected(RejectReason::IndexOutOfRange)
    );
}

#[test]
fn a_zero_fragment_message_is_rejected() {
    let mut r = Reassembler::new(limits());
    assert_eq!(
        r.accept(header(1, 0, 0), b"x", t0()),
        Accept::Rejected(RejectReason::EmptyMessage)
    );
}

#[test]
fn a_total_that_changes_mid_message_discards_the_set() {
    let mut r = Reassembler::new(limits());
    let now = t0();
    assert_eq!(r.accept(header(1, 0, 3), b"aaa", now), Accept::Pending);
    assert_eq!(
        r.accept(header(1, 1, 5), b"bbb", now),
        Accept::Rejected(RejectReason::InconsistentTotal)
    );
    assert_eq!(r.pending_count(), 0);
}

#[test]
fn a_message_exceeding_the_size_cap_is_rejected() {
    let mut r = Reassembler::new(ReassemblyLimits {
        max_message_len: 10,
        ..limits()
    });
    let now = t0();
    assert_eq!(r.accept(header(1, 0, 2), b"12345", now), Accept::Pending);
    assert_eq!(
        r.accept(header(1, 1, 2), b"678901", now),
        Accept::Rejected(RejectReason::MessageTooLarge)
    );
    assert_eq!(r.pending_count(), 0, "the partial set must be freed too");
}

#[test]
fn a_single_oversized_fragment_is_rejected_before_being_stored() {
    let mut r = Reassembler::new(ReassemblyLimits {
        max_message_len: 4,
        ..limits()
    });
    assert_eq!(
        r.accept(header(1, 0, 2), b"far too long", t0()),
        Accept::Rejected(RejectReason::MessageTooLarge)
    );
    assert_eq!(r.pending_count(), 0);
}

#[test]
fn exceeding_the_concurrency_cap_evicts_the_oldest_partial_message() {
    let mut r = Reassembler::new(ReassemblyLimits {
        max_concurrent_reassemblies: 2,
        ..limits()
    });
    let base = t0();
    r.accept(header(1, 0, 2), b"a", base, );
    r.accept(header(2, 0, 2), b"b", base + 1 * MILLISECOND);
    assert_eq!(r.pending_count(), 2);

    // Third distinct message evicts msg_id 1, the oldest.
    r.accept(header(3, 0, 2), b"c", base + 2 * MILLISECOND);
    assert_eq!(r.pending_count(), 2);

    // msg_id 1's buffered fragment is gone: completing it now behaves as
    // a fresh message rather than silently resurrecting stale bytes.
    assert_eq!(
        r.accept(header(1, 1, 2), b"z", base + 3 * MILLISECOND),
        Accept::Pending
    );
}

#[test]
fn a_partial_message_is_dropped_once_it_exceeds_the_timeout() {
    let mut r = Reassembler::new(ReassemblyLimits {
        reassembly_timeout: 30 * SECOND,
        ..limits()
    });
    let base = t0();
    assert_eq!(r.accept(header(1, 0, 2), b"aaa", base), Accept::Pending);
    assert_eq!(r.pending_count(), 1);

    r.expire(base + 31 * SECOND);
    assert_eq!(r.pending_count(), 0);
}

#[test]
fn interleaved_messages_from_one_peer_do_not_corrupt_each_other() {
    let mut r = Reassembler::new(limits());
    let now = t0();
    assert_eq!(r.accept(header(1, 0, 2), b"one-", now), Accept::Pending);
    assert_eq!(r.accept(header(2, 0, 2), b"two-", now), Accept::Pending);
    assert_eq!(
        r.accept(header(2, 1, 2), b"second", now),
        Accept::Complete(b"two-second".to_vec())
    );
    assert_eq!(
        r.accept(header(1, 1, 2), b"first", now),
        Accept::Complete(b"one-first".to_vec())
    );
}

#[test]
fn a_partial_message_is_kept_up_to_the_timeout() {
    let mut r = Reassembler::new(limits());
    let base = t0();
    assert_eq!(r.accept(header(1, 0, 2), b"aaa", base), Accept::Pending);
    r.expire(base + 30 * SECOND);
    assert_eq!(r.pending_count(), 1);
    r.expire(base + 30 * SECOND + 1);
    assert_eq!(r.pending_count(), 0);
    assert_eq!(r.accept(header(2, 0, 2), b"aaa", base), Accept::Pending);
    assert_eq!(
        r.accept(header(2, 1, 2), b"bbb", base + 30 * SECOND),
        Accept::Complete(b"aaabbb".to_vec())
    );
}

#[test]
fn a_completed_message_is_made_of_the_first_copies() {
    let mut r = Reassembler::new(limits());
    let base = t0();
    assert_eq!(r.accept(header(1, 1, 3), b"old", base), Accept::Pending);
    r.expire(base + 31 * SECOND);
    let again = base + 31 * SECOND;
    assert_eq!(r.accept(header(1, 1, 3), b"two", again), Accept::Pending);
    assert_eq!(r.accept(header(1, 1, 3), b"TWO", again), Accept::Pending);
    assert_eq!(r.accept(header(1, 0, 3), b"one", again), Accept::Pending);
    r.expire(again + SECOND);
    assert_eq!(r.accept(header(1, 0, 3), b"ONE", again + SECOND), Accept::Pending);
    assert_eq!(
        r.accept(header(1, 2, 3), b"end", again + SECOND),
        Accept::Complete(b"onetwoend".to_vec())
    );
    assert_eq!(r.pending_count(), 0);
}

#[test]
fn a_whole_message_takes_the_place_of_what_was_in_flight_under_its_id() {
    let mut r = Reassembler::new(limits());
    let now = t0();
    assert_eq!(r.accept(header(1, 0, 2), b"part", now), Accept::Pending);
    assert_eq!(r.accept(header(1, 0, 1), b"whole", now), Accept::Complete(b"whole".to_vec()));
}
