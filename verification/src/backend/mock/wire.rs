//! The protocol between a broker and its clients: what travels, and how its frames are
//! delimited on a byte stream.
//!
//! A frame is a 32-bit length, most significant byte first, and that many bytes of an
//! encoded envelope. A `correlation_id` ties a response to its request; zero marks a
//! request that awaits none, and everything that a broker sends on its own account.

use vstd::prelude::*;
use vstd::slice::slice_subrange;

use crate::datagram::fragment::{append_bytes, copy_bytes};
use crate::error::BleError;
#[allow(unused_imports)]
use crate::error::BleErrorView;
use crate::models::{
    CharacteristicUuid, DiscoveredPeer, GattEvent, GattServiceSpec, PeerAddress, ServiceUuid,
    WriteType,
};
#[allow(unused_imports)]
use crate::backend::mock::local::peers_view;
#[allow(unused_imports)]
use crate::models::{text_view, DiscoveredPeerView};

verus! {

pub struct Envelope {
    pub correlation_id: u64,
    pub frame: Frame,
}

pub enum Frame {
    Req(Request),
    Resp(Response),
    Push(Push),
}

#[allow(inconsistent_fields)]
pub enum Request {
    /// Routes the events of `address` to this connection from now on. Sent without a
    /// correlation and ahead of everything else that a client sends for the address.
    RegisterAddress { address: PeerAddress },
    Scan { requester: PeerAddress, service: ServiceUuid },
    Connect { central: PeerAddress, peer: PeerAddress },
    Advertise { address: PeerAddress, service: GattServiceSpec },
    StopAdvertising { address: PeerAddress },
    Notify { address: PeerAddress, characteristic: CharacteristicUuid, value: Vec<u8> },
    NotifyPeer {
        address: PeerAddress,
        peer: PeerAddress,
        session: Option<u64>,
        characteristic: CharacteristicUuid,
        value: Vec<u8>,
    },
    DisconnectPeer { address: PeerAddress, peer: PeerAddress, session: Option<u64> },
    Read {
        session: u64,
        central: PeerAddress,
        peripheral: PeerAddress,
        characteristic: CharacteristicUuid,
    },
    WriteWithType {
        session: u64,
        central: PeerAddress,
        peripheral: PeerAddress,
        characteristic: CharacteristicUuid,
        value: Vec<u8>,
        write_type: WriteType,
    },
    /// The client picks `subscription_id` and registers it before it sends this, so that
    /// no item can arrive ahead of its destination.
    Subscribe {
        session: u64,
        central: PeerAddress,
        peripheral: PeerAddress,
        characteristic: CharacteristicUuid,
        subscription_id: u64,
    },
    Disconnect { session: u64, central: PeerAddress, peripheral: PeerAddress },
}

pub enum Response {
    Unit,
    ScanSnapshot { peers: Vec<DiscoveredPeer>, armed_failure: Option<String> },
    Session(u64),
    Bytes(Vec<u8>),
    Failed(BleError),
}

/// The contents of a `Response`.
pub enum ResponseView {
    Unit,
    ScanSnapshot { peers: Seq<DiscoveredPeerView>, armed_failure: Option<Seq<char>> },
    Session(u64),
    Bytes(Seq<u8>),
    Failed(BleErrorView),
}

impl View for Response {
    type V = ResponseView;

    open spec fn view(&self) -> ResponseView {
        match self {
            Response::Unit => ResponseView::Unit,
            Response::ScanSnapshot { peers, armed_failure } => ResponseView::ScanSnapshot {
                peers: peers_view(peers@),
                armed_failure: text_view(*armed_failure),
            },
            Response::Session(session) => ResponseView::Session(*session),
            Response::Bytes(bytes) => ResponseView::Bytes(bytes@),
            Response::Failed(e) => ResponseView::Failed(e@),
        }
    }
}

pub enum Push {
    Event { address: PeerAddress, event: GattEvent },
    NotifyItem { subscription_id: u64, item: Result<Vec<u8>, BleError> },
}

/// Length of the prefix of a frame.
pub const FRAME_PREFIX_LEN: usize = 4;

/// A 32-bit number on the wire: the most significant byte first.
pub open spec fn be32(n: u32) -> Seq<u8> {
    seq![
        (n / 0x1000000) as u8,
        (n / 0x10000 % 0x100) as u8,
        (n / 0x100 % 0x100) as u8,
        (n % 0x100) as u8,
    ]
}

/// The 32-bit number whose bytes these are, the most significant first.
pub open spec fn from_be32(b0: u8, b1: u8, b2: u8, b3: u8) -> int {
    b0 * 0x1000000 + b1 * 0x10000 + b2 * 0x100 + b3
}

/// A body as a frame, where its length fits the prefix.
pub fn write_frame(body: &[u8]) -> (r: Option<Vec<u8>>)
    ensures
        match r {
            Some(frame) => body@.len() <= u32::MAX && frame@ == be32(body@.len() as u32) + body@,
            None => body@.len() > u32::MAX,
        },
{
    if body.len() as u64 > 0xffff_ffff {
        return None;
    }
    let n: u32 = body.len() as u32;
    let mut frame: Vec<u8> = Vec::with_capacity(FRAME_PREFIX_LEN);
    frame.push((n / 0x1000000) as u8);
    frame.push((n / 0x10000 % 0x100) as u8);
    frame.push((n / 0x100 % 0x100) as u8);
    frame.push((n % 0x100) as u8);
    assert(frame@ =~= be32(n));
    append_bytes(&mut frame, body);
    Some(frame)
}

/// How many bytes of body follow a prefix.
pub fn body_len(b0: u8, b1: u8, b2: u8, b3: u8) -> (n: u32)
    ensures
        n == from_be32(b0, b1, b2, b3),
{
    b0 as u32 * 0x1000000 + b1 as u32 * 0x10000 + b2 as u32 * 0x100 + b3 as u32
}

/// The length of the body of the frame at the head of a buffer.
pub open spec fn head_len(buffer: Seq<u8>) -> int {
    from_be32(buffer[0], buffer[1], buffer[2], buffer[3])
}

/// Takes the first frame off a buffer: its body, and how many bytes it took up. `None`
/// while the buffer holds only a part of it.
pub fn read_frame(buffer: &[u8]) -> (r: Option<(Vec<u8>, usize)>)
    ensures
        r is Some <==> {
            &&& buffer@.len() >= FRAME_PREFIX_LEN
            &&& buffer@.len() >= FRAME_PREFIX_LEN + head_len(buffer@)
        },
        r matches Some((body, used)) ==> {
            &&& used == FRAME_PREFIX_LEN + head_len(buffer@)
            &&& body@ == buffer@.subrange(FRAME_PREFIX_LEN as int, used as int)
        },
{
    if buffer.len() < FRAME_PREFIX_LEN {
        return None;
    }
    let n = body_len(buffer[0], buffer[1], buffer[2], buffer[3]);
    if ((buffer.len() - FRAME_PREFIX_LEN) as u64) < n as u64 {
        return None;
    }
    let end: usize = FRAME_PREFIX_LEN + n as usize;
    let body = copy_bytes(slice_subrange(buffer, FRAME_PREFIX_LEN, end));
    Some((body, end))
}

/// The body of a frame read back from a stream is the one that was written, whatever
/// follows it, and the next frame begins right behind it.
pub proof fn a_frame_is_read_back(body: Seq<u8>, rest: Seq<u8>)
    requires
        body.len() <= u32::MAX,
    ensures
        ({
            let buffer = be32(body.len() as u32) + body + rest;
            let used = FRAME_PREFIX_LEN + head_len(buffer);
            &&& buffer.len() >= used
            &&& buffer.subrange(FRAME_PREFIX_LEN as int, used) == body
            &&& buffer.skip(used) == rest
        }),
{
    let n = body.len() as u32;
    let buffer = be32(n) + body + rest;
    assert(from_be32(
        (n / 0x1000000) as u8,
        (n / 0x10000 % 0x100) as u8,
        (n / 0x100 % 0x100) as u8,
        (n % 0x100) as u8,
    ) == n);
    assert(head_len(buffer) == n) by {
        assert(buffer[0] == be32(n)[0]);
        assert(buffer[1] == be32(n)[1]);
        assert(buffer[2] == be32(n)[2]);
        assert(buffer[3] == be32(n)[3]);
    }
    assert(buffer.subrange(4, 4 + n) =~= body);
    assert(buffer.skip(4 + n) =~= rest);
}

/// A length is written with its most significant byte first, and every four bytes are the
/// length that they stand for.
pub proof fn a_length_is_written_most_significant_first(n: u32, b0: u8, b1: u8, b2: u8, b3: u8)
    ensures
        be32(n).len() == 4 == FRAME_PREFIX_LEN,
        ((be32(n)[0] * 256 + be32(n)[1]) * 256 + be32(n)[2]) * 256 + be32(n)[3] == n,
        from_be32(b0, b1, b2, b3) == ((b0 * 256 + b1) * 256 + b2) * 256 + b3,
{
}

/// What is seen of a response is all that it holds.
pub proof fn a_response_is_seen_whole(
    peers: Vec<DiscoveredPeer>,
    armed_failure: Option<String>,
    session: u64,
    bytes: Vec<u8>,
    e: BleError,
    i: int,
)
    ensures
        Response::Unit@ == ResponseView::Unit,
        Response::Session(session)@ == ResponseView::Session(session),
        Response::Bytes(bytes)@ == ResponseView::Bytes(bytes@),
        Response::Failed(e)@ == ResponseView::Failed(e@),
        ({
            let seen = (Response::ScanSnapshot { peers, armed_failure })@;
            &&& seen is ScanSnapshot
            &&& seen->peers.len() == peers@.len()
            &&& 0 <= i < peers@.len() ==> seen->peers[i] == peers@[i]@
            &&& armed_failure is None <==> seen->armed_failure is None
            &&& armed_failure is Some ==> seen->armed_failure->0 == armed_failure->0@
        }),
{
}

} // verus!
