//! Fragment header encoding and payload splitting.
//!
//! Every fragment carries the same six-byte header, also one of a message small
//! enough to fit in a single fragment, so that a receiver never has to guess the
//! format of what it is looking at:
//!
//! ```text
//! offset 0..2   msg_id   u16 little-endian   rolling per-channel counter, wraps
//! offset 2..4   index    u16 little-endian   0-based fragment index
//! offset 4..6   total    u16 little-endian   fragment count for this message
//! offset 6..    payload
//! ```

use vstd::prelude::*;
use vstd::slice::slice_subrange;

use crate::error::BleError;
#[allow(unused_imports)]
use crate::error::BleErrorView;
use crate::text::{append_decimal, owned};
#[allow(unused_imports)]
use crate::text::decimal;

verus! {

/// Size of the fragment header in bytes. Subtract it from a connection's largest
/// write to get the payload budget of one fragment.
pub const FRAGMENT_HEADER_LEN: usize = 6;

/// Largest number of fragments that one message can be split into, bounded by the
/// header's 16-bit `total`.
pub const MAX_FRAGMENTS: usize = 65_535;

#[derive(Debug, Clone, Copy, PartialEq, Eq, Structural)]
pub struct FragmentHeader {
    pub msg_id: u16,
    pub index: u16,
    pub total: u16,
}

/// A 16-bit number on the wire: the low byte first.
pub open spec fn le16(n: u16) -> Seq<u8> {
    seq![(n % 256) as u8, (n / 256) as u8]
}

/// The 16-bit number whose low byte is `lo` and whose high byte is `hi`.
pub open spec fn from_le16(lo: u8, hi: u8) -> u16 {
    (lo + 256 * hi) as u16
}

fn read_le16(lo: u8, hi: u8) -> (n: u16)
    ensures
        n == from_le16(lo, hi),
{
    lo as u16 + 256 * (hi as u16)
}

fn write_le16(out: &mut Vec<u8>, n: u16)
    ensures
        final(out)@ == old(out)@ + le16(n),
{
    out.push((n % 256) as u8);
    out.push((n / 256) as u8);
}

/// Copies the bytes of a slice.
pub fn copy_bytes(bytes: &[u8]) -> (r: Vec<u8>)
    ensures
        r@ == bytes@,
{
    let mut r: Vec<u8> = Vec::with_capacity(bytes.len());
    append_bytes(&mut r, bytes);
    r
}

/// Writes `bytes` behind what `out` already holds.
pub fn append_bytes(out: &mut Vec<u8>, bytes: &[u8])
    ensures
        final(out)@ == old(out)@ + bytes@,
{
    let mut i: usize = 0;
    let ghost before = out@;
    while i < bytes.len()
        invariant
            i <= bytes.len(),
            out@ == before + bytes@.take(i as int),
        decreases bytes.len() - i,
    {
        out.push(bytes[i]);
        i = i + 1;
        assert(bytes@.take(i as int) =~= bytes@.take(i - 1).push(bytes@[i - 1]));
    }
    assert(bytes@.take(i as int) =~= bytes@);
}

impl FragmentHeader {
    /// The header's six bytes.
    pub open spec fn encoded(self) -> Seq<u8> {
        le16(self.msg_id) + le16(self.index) + le16(self.total)
    }

    /// The header that the first six of `bytes` hold.
    pub open spec fn decoded(bytes: Seq<u8>) -> FragmentHeader {
        FragmentHeader {
            msg_id: from_le16(bytes[0], bytes[1]),
            index: from_le16(bytes[2], bytes[3]),
            total: from_le16(bytes[4], bytes[5]),
        }
    }

    pub fn write_to(&self, out: &mut Vec<u8>)
        ensures
            final(out)@ == old(out)@ + self.encoded(),
    {
        write_le16(out, self.msg_id);
        write_le16(out, self.index);
        write_le16(out, self.total);
    }

    /// Splits a received fragment into its header and payload. `None` when the
    /// buffer is too short to hold a header: a truncated or foreign write, which is
    /// dropped.
    pub fn parse(bytes: &[u8]) -> (r: Option<(Self, &[u8])>)
        ensures
            bytes@.len() < FRAGMENT_HEADER_LEN <==> r is None,
            r matches Some((header, payload)) ==> {
                &&& header == FragmentHeader::decoded(bytes@)
                &&& payload@ == bytes@.skip(FRAGMENT_HEADER_LEN as int)
            },
    {
        if bytes.len() < FRAGMENT_HEADER_LEN {
            return None;
        }
        let header = FragmentHeader {
            msg_id: read_le16(bytes[0], bytes[1]),
            index: read_le16(bytes[2], bytes[3]),
            total: read_le16(bytes[4], bytes[5]),
        };
        let payload = slice_subrange(bytes, FRAGMENT_HEADER_LEN, bytes.len());
        assert(payload@ =~= bytes@.skip(FRAGMENT_HEADER_LEN as int));
        Some((header, payload))
    }
}

/// How many fragments a message of `len` bytes takes at `budget` bytes each: the
/// quotient rounded up, and one for an empty message.
pub open spec fn fragment_count(len: nat, budget: nat) -> nat {
    if len == 0 {
        1
    } else {
        ((len + budget - 1) / budget as int) as nat
    }
}

/// Where fragment `index` of a message of `len` bytes begins.
pub open spec fn chunk_start(len: nat, budget: nat, index: nat) -> nat {
    if index * budget <= len {
        index * budget
    } else {
        len
    }
}

/// The part of `payload` that fragment `index` carries.
pub open spec fn chunk(payload: Seq<u8>, budget: nat, index: nat) -> Seq<u8> {
    payload.subrange(
        chunk_start(payload.len(), budget, index) as int,
        chunk_start(payload.len(), budget, index + 1) as int,
    )
}

/// Fragment `index` of `payload` on the wire.
pub open spec fn fragment(msg_id: u16, payload: Seq<u8>, budget: nat, index: nat) -> Seq<u8> {
    FragmentHeader {
        msg_id,
        index: index as u16,
        total: fragment_count(payload.len(), budget) as u16,
    }.encoded() + chunk(payload, budget, index)
}

pub open spec fn zero_budget_error() -> BleErrorView {
    BleErrorView::Gatt(
        "fragment payload budget is zero — negotiated MTU is too small to carry data"@,
    )
}

pub open spec fn too_many_fragments_error(total: nat) -> BleErrorView {
    BleErrorView::Gatt(
        "message needs "@ + decimal(total) + " fragments, exceeding the "@ + decimal(
            MAX_FRAGMENTS as nat,
        ) + "-fragment limit"@,
    )
}

/// Facts about rounded-up division: `count` pieces of `budget` bytes cover `len`
/// bytes, and one piece fewer does not.
pub proof fn fragment_count_covers(len: nat, budget: nat)
    requires
        budget > 0,
    ensures
        fragment_count(len, budget) >= 1,
        fragment_count(len, budget) * budget >= len,
        len > 0 ==> (fragment_count(len, budget) - 1) * budget < len,
        len > 0 ==> fragment_count(len, budget) <= len,
{
    if len > 0 {
        let count = fragment_count(len, budget) as int;
        let n = len + budget - 1;
        let b = budget as int;
        vstd::arithmetic::div_mod::lemma_fundamental_div_mod(n, b);
        vstd::arithmetic::div_mod::lemma_mod_bound(n, b);
        assert(count == n / b) by {
            vstd::arithmetic::div_mod::lemma_div_pos_is_pos(n, b);
        }
        assert(count * b == b * count) by (nonlinear_arith);
        assert((count - 1) * b == count * b - b) by (nonlinear_arith);
        assert(count >= 1) by (nonlinear_arith)
            requires
                b * count > 0,
                b > 0,
        ;
        assert(count <= len) by (nonlinear_arith)
            requires
                (count - 1) * b < len,
                b >= 1,
                count >= 1,
        ;
    }
}

/// Splits `payload` into wire-ready fragments, each of at most
/// `max_fragment_payload` bytes of payload behind the header.
///
/// An empty payload still gives exactly one fragment, so that sending nothing
/// arrives as nothing rather than vanishing.
pub fn split(msg_id: u16, payload: &[u8], max_fragment_payload: usize) -> (r: Result<
    Vec<Vec<u8>>,
    BleError,
>)
    ensures
        ({
            let count = fragment_count(payload@.len(), max_fragment_payload as nat);
            match r {
                Err(e) => if max_fragment_payload == 0 {
                    e@ == zero_budget_error()
                } else {
                    count > MAX_FRAGMENTS && e@ == too_many_fragments_error(count)
                },
                Ok(fragments) => {
                    &&& max_fragment_payload > 0
                    &&& fragments@.len() == count <= MAX_FRAGMENTS
                    &&& forall|i: int|
                        #![trigger fragments@[i]]
                        0 <= i < count ==> fragments@[i]@ == fragment(
                            msg_id,
                            payload@,
                            max_fragment_payload as nat,
                            i as nat,
                        )
                },
            }
        }),
{
    if max_fragment_payload == 0 {
        return Err(
            BleError::Gatt(
                owned("fragment payload budget is zero — negotiated MTU is too small to carry data"),
            ),
        );
    }
    let ghost len = payload@.len();
    let ghost budget = max_fragment_payload as nat;
    let total: usize = if payload.len() == 0 {
        1
    } else {
        let whole: usize = (payload.len() - 1) / max_fragment_payload;
        proof {
            assert(len + budget - 1 == (len - 1) + budget);
            vstd::arithmetic::div_mod::lemma_div_plus_one(len - 1, budget as int);
            assert(whole + 1 == fragment_count(len, budget));
            fragment_count_covers(len, budget);
        }
        whole + 1
    };
    if total > MAX_FRAGMENTS {
        let mut text = owned("message needs ");
        append_decimal(&mut text, total as u64);
        text.append(" fragments, exceeding the ");
        append_decimal(&mut text, MAX_FRAGMENTS as u64);
        text.append("-fragment limit");
        return Err(BleError::Gatt(text));
    }
    let mut fragments: Vec<Vec<u8>> = Vec::with_capacity(total);
    let mut index: usize = 0;
    let mut start: usize = 0;
    proof {
        fragment_count_covers(len, budget);
    }
    while index < total
        invariant
            len == payload@.len(),
            budget == max_fragment_payload > 0,
            total == fragment_count(len, budget),
            total <= MAX_FRAGMENTS,
            index <= total,
            start == chunk_start(len, budget, index as nat),
            start <= len,
            fragments@.len() == index,
            forall|i: int|
                #![trigger fragments@[i]]
                0 <= i < index ==> fragments@[i]@ == fragment(msg_id, payload@, budget, i as nat),
        decreases total - index,
    {
        let end: usize = if payload.len() - start <= max_fragment_payload {
            payload.len()
        } else {
            start + max_fragment_payload
        };
        proof {
            assert((index + 1) * budget == index * budget + budget) by (nonlinear_arith);
            assert(end == chunk_start(len, budget, (index + 1) as nat));
        }
        let mut bytes: Vec<u8> = Vec::with_capacity(FRAGMENT_HEADER_LEN);
        let header = FragmentHeader { msg_id, index: index as u16, total: total as u16 };
        header.write_to(&mut bytes);
        append_bytes(&mut bytes, slice_subrange(payload, start, end));
        assert(bytes@ =~= fragment(msg_id, payload@, budget, index as nat));
        fragments.push(bytes);
        index = index + 1;
        start = end;
    }
    Ok(fragments)
}

// ---------------------------------------------------------------------------
// Laws
// ---------------------------------------------------------------------------

/// A header read back from the wire is the one that was written, whatever follows
/// it, and what follows it is the payload.
pub proof fn header_round_trips(header: FragmentHeader, payload: Seq<u8>)
    ensures
        (header.encoded() + payload).len() >= FRAGMENT_HEADER_LEN,
        FragmentHeader::decoded(header.encoded() + payload) == header,
        (header.encoded() + payload).skip(FRAGMENT_HEADER_LEN as int) == payload,
{
    let bytes = header.encoded() + payload;
    assert(bytes.skip(FRAGMENT_HEADER_LEN as int) =~= payload);
    assert(header.encoded().len() == 6);
    assert(bytes[0] == (header.msg_id % 256) as u8 && bytes[1] == (header.msg_id / 256) as u8);
    assert(bytes[2] == (header.index % 256) as u8 && bytes[3] == (header.index / 256) as u8);
    assert(bytes[4] == (header.total % 256) as u8 && bytes[5] == (header.total / 256) as u8);
}

/// Every fragment of a message that can be sent fits its budget, and carries the
/// message's id, its own position and the message's fragment count.
pub proof fn fragments_are_labelled_and_bounded(
    msg_id: u16,
    payload: Seq<u8>,
    budget: nat,
    index: nat,
)
    requires
        budget > 0,
        fragment_count(payload.len(), budget) <= MAX_FRAGMENTS,
        index < fragment_count(payload.len(), budget),
    ensures
        ({
            let bytes = fragment(msg_id, payload, budget, index);
            let header = FragmentHeader::decoded(bytes);
            &&& FRAGMENT_HEADER_LEN <= bytes.len() <= FRAGMENT_HEADER_LEN + budget
            &&& bytes.skip(FRAGMENT_HEADER_LEN as int) == chunk(payload, budget, index)
            &&& header.msg_id == msg_id
            &&& header.index == index
            &&& header.total == fragment_count(payload.len(), budget)
        }),
{
    let header = FragmentHeader {
        msg_id,
        index: index as u16,
        total: fragment_count(payload.len(), budget) as u16,
    };
    header_round_trips(header, chunk(payload, budget, index));
    assert((index + 1) * budget == index * budget + budget) by (nonlinear_arith);
    assert(header.encoded().len() == 6);
}

/// The first `n` chunks of a payload, one behind the other.
pub open spec fn chunks_joined(payload: Seq<u8>, budget: nat, n: nat) -> Seq<u8>
    decreases n,
{
    if n == 0 {
        seq![]
    } else {
        chunks_joined(payload, budget, (n - 1) as nat) + chunk(payload, budget, (n - 1) as nat)
    }
}

proof fn chunks_joined_are_a_prefix(payload: Seq<u8>, budget: nat, n: nat)
    ensures
        chunks_joined(payload, budget, n) == payload.take(
            chunk_start(payload.len(), budget, n) as int,
        ),
    decreases n,
{
    if n == 0 {
        assert(0 * budget == 0);
        assert(chunks_joined(payload, budget, n) =~= payload.take(0));
    } else {
        let m = (n - 1) as nat;
        chunks_joined_are_a_prefix(payload, budget, m);
        assert(n * budget == m * budget + budget) by (nonlinear_arith)
            requires
                n == m + 1,
        ;
        assert(chunks_joined(payload, budget, n) =~= payload.take(
            chunk_start(payload.len(), budget, n) as int,
        ));
    }
}

/// The chunks of all fragments, joined in index order, are the payload byte for
/// byte.
pub proof fn chunks_rejoin_to_the_payload(payload: Seq<u8>, budget: nat)
    requires
        budget > 0,
    ensures
        chunks_joined(payload, budget, fragment_count(payload.len(), budget)) == payload,
{
    let count = fragment_count(payload.len(), budget);
    fragment_count_covers(payload.len(), budget);
    chunks_joined_are_a_prefix(payload, budget, count);
    assert(payload.take(payload.len() as int) =~= payload);
}

/// A header is six bytes: the message's id, the fragment's position and the fragment count,
/// each with its low byte first.
pub proof fn a_header_is_laid_out_low_byte_first(header: FragmentHeader)
    ensures
        ({
            let bytes = header.encoded();
            &&& bytes.len() == 6 == FRAGMENT_HEADER_LEN
            &&& bytes[0] + 256 * bytes[1] == header.msg_id
            &&& bytes[2] + 256 * bytes[3] == header.index
            &&& bytes[4] + 256 * bytes[5] == header.total
        }),
{
}

/// No message is split into more fragments than it takes: whatever number of full fragments
/// holds it is at least its count. An empty message takes one.
pub proof fn a_message_takes_the_fewest_fragments(len: nat, budget: nat, n: nat)
    requires
        budget > 0,
        n >= 1,
    ensures
        fragment_count(0, budget) == 1,
        n * budget >= len <==> n >= fragment_count(len, budget),
{
    fragment_count_covers(len, budget);
    let count = fragment_count(len, budget) as int;
    let b = budget as int;
    if n >= count {
        assert(n * b >= len) by (nonlinear_arith)
            requires
                n >= count,
                count * b >= len,
                b > 0,
        ;
    } else {
        assert(n * b < len) by (nonlinear_arith)
            requires
                n <= count - 1,
                (count - 1) * b < len,
                b > 0,
        ;
    }
}

/// Every byte of a message is carried by the fragment that its position falls into, at the
/// rest of that position behind the header, and every fragment but the last is full.
pub proof fn every_byte_has_its_place(msg_id: u16, payload: Seq<u8>, budget: nat, index: nat, at: nat)
    requires
        budget > 0,
        at < budget,
        index * budget + at < payload.len(),
    ensures
        index < fragment_count(payload.len(), budget),
        fragment(msg_id, payload, budget, index).len() > FRAGMENT_HEADER_LEN + at,
        fragment(msg_id, payload, budget, index)[FRAGMENT_HEADER_LEN + at] == payload[(index * budget
            + at) as int],
        (index + 1) * budget <= payload.len() ==> fragment(msg_id, payload, budget, index).len()
            == FRAGMENT_HEADER_LEN + budget,
{
    a_message_takes_the_fewest_fragments(payload.len(), budget, index + 1);
    fragment_count_covers(payload.len(), budget);
    assert((index + 1) * budget == index * budget + budget) by (nonlinear_arith);
    let count = fragment_count(payload.len(), budget);
    if index >= count {
        assert(index * budget >= count * budget) by (nonlinear_arith)
            requires
                index >= count,
        ;
    }
    let header = FragmentHeader { msg_id, index: index as u16, total: count as u16 };
    assert(header.encoded().len() == 6);
    assert(chunk(payload, budget, index)[at as int] == payload[(index * budget + at) as int]);
}

/// The largest number of fragments is the largest that the header's count can name.
pub proof fn the_fragment_count_fits_its_field()
    ensures
        MAX_FRAGMENTS == u16::MAX,
{
}

/// What is wrong with a message that cannot be split: there is no room for it at all, or it
/// takes more fragments than can be counted, and both numbers are said.
pub proof fn a_split_says_what_is_wrong(total: nat)
    ensures
        zero_budget_error() == BleErrorView::Gatt(
            "fragment payload budget is zero — negotiated MTU is too small to carry data"@,
        ),
        too_many_fragments_error(total) == BleErrorView::Gatt(
            "message needs "@ + decimal(total) + " fragments, exceeding the "@ + decimal(65_535)
                + "-fragment limit"@,
        ),
{
}

} // verus!
