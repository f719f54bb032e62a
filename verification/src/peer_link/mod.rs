//! Keeping links to a set of peers alive.
//!
//! A consumer names the peers that it cares about and one policy, who dials. This tier
//! owns the dialling, the ladder of redials and giving up, one link per peer, and taking
//! everything down and up again with the radio. The consumer gets a channel and a coarse
//! status per peer.

pub mod driver;
pub mod laws;
pub mod peer;

use vstd::prelude::*;

use crate::clock::Duration;
use crate::datagram::DatagramConfig;
use crate::error::BleError;
#[allow(unused_imports)]
use crate::error::BleErrorView;
use crate::models::{DiscoveredPeer, PeerAddress, RadioStatus};
use crate::text::{comes_before, joined, owned};
#[allow(unused_imports)]
use crate::text::text_before;

verus! {

pub const EVENT_CHANNEL_CAPACITY: usize = 128;

pub const TICK_INTERVAL: Duration = 1_000_000_000;

pub const CHANNEL_SEND_QUEUE: usize = 16;

pub const CHANNEL_RECV_QUEUE: usize = 64;

pub const DISCOVER_WINDOW: Duration = 3_000_000_000;

/// A stable identity that both peers of a pair compare the same way to decide which side
/// dials. It is the application's to establish; a peer's address cannot serve.
#[derive(Debug, Clone, PartialEq, Eq, PartialOrd, Ord, Hash)]
pub struct LinkId(pub String);

impl From<String> for LinkId {
    fn from(text: String) -> (r: LinkId) {
        LinkId(text)
    }
}

impl vstd::std_specs::convert::FromSpecImpl<String> for LinkId {
    open spec fn obeys_from_spec() -> bool {
        true
    }

    open spec fn from_spec(text: String) -> LinkId {
        LinkId(text)
    }
}

impl From<&str> for LinkId {
    fn from(text: &str) -> (r: LinkId)
        ensures
            r.0@ == text@,
    {
        LinkId(owned(text))
    }
}

/// A text has more than one `String` as far as its view goes, so that the result is not
/// named as a value; the contract of `from` says what it holds.
impl vstd::std_specs::convert::FromSpecImpl<&str> for LinkId {
    open spec fn obeys_from_spec() -> bool {
        false
    }

    open spec fn from_spec(text: &str) -> LinkId {
        choose|id: LinkId| id.0@ == text@
    }
}

/// Who dials, for a pair that can both see each other.
#[derive(Debug, Clone)]
pub enum LinkRole {
    /// Dials and accepts: of each pair, the side with the lower id dials. An inbound link is
    /// accepted from either.
    Symmetric { local_id: LinkId },
    /// Only ever dials.
    DialOnly,
    /// Only ever accepts.
    AcceptOnly,
}

impl LinkRole {
    pub open spec fn spec_dials(&self, peer_id: Seq<char>) -> bool {
        match self {
            LinkRole::DialOnly => true,
            LinkRole::AcceptOnly => false,
            LinkRole::Symmetric { local_id } => text_before(local_id.0@, peer_id),
        }
    }

    /// Whether this side accepts inbound links.
    pub open spec fn spec_accepts(&self) -> bool {
        !(self is DialOnly)
    }

    pub fn accepts(&self) -> (r: bool)
        ensures
            r == self.spec_accepts(),
    {
        !matches!(self, LinkRole::DialOnly)
    }

    /// Whether this side dials the peer of that id.
    pub fn dials(&self, peer_id: &LinkId) -> (r: bool)
        ensures
            r == self.spec_dials(peer_id.0@),
    {
        match self {
            LinkRole::DialOnly => true,
            LinkRole::AcceptOnly => false,
            LinkRole::Symmetric { local_id } => comes_before(
                local_id.0.as_str(),
                peer_id.0.as_str(),
            ),
        }
    }
}

/// The ladder of redials for the side that dials, and the deadline for the other one.
#[derive(Debug, Clone)]
pub struct RetryBudget {
    /// How long to wait before each successive redial. The last entry repeats; without
    /// any, nothing is redialled, and an inbound link is still accepted.
    pub backoff: Vec<Duration>,
    /// How long after its first failed attempt the dialling side gives up.
    pub give_up_after: Duration,
    /// How long the accepting side waits for a link before it gives up.
    pub acceptor_deadline: Duration,
}

impl Default for RetryBudget {
    fn default() -> (r: Self)
        ensures
            r.backoff@ == seq![
                1_000_000_000u128,
                2_000_000_000u128,
                4_000_000_000u128,
                8_000_000_000u128,
                30_000_000_000u128,
            ],
            r.give_up_after == 60_000_000_000,
            r.acceptor_deadline == 60_000_000_000,
    {
        RetryBudget {
            backoff: vec![
                1_000_000_000,
                2_000_000_000,
                4_000_000_000,
                8_000_000_000,
                30_000_000_000,
            ],
            give_up_after: 60_000_000_000,
            acceptor_deadline: 60_000_000_000,
        }
    }
}

/// How many peers hold a link at once. Peers beyond that are queued.
#[derive(Debug, Clone, Copy, PartialEq, Eq, Structural)]
pub struct MaxLinks(pub usize);

impl Default for MaxLinks {
    fn default() -> (r: Self)
        ensures
            r == MaxLinks(4),
    {
        MaxLinks(4)
    }
}

/// How links are kept.
pub struct PeerLinkConfig {
    pub datagram: DatagramConfig,
    pub role: LinkRole,
    pub retry_budget: RetryBudget,
    pub max_links: MaxLinks,
}

/// A tracked peer's coarse status.
#[derive(Debug, Clone, Copy, PartialEq, Eq, Structural)]
pub enum PeerStatus {
    Untracked,
    /// The radio is off or missing.
    Unavailable,
    /// As many links stand as may; the peer waits for one.
    Queued,
    /// Dialling, or waiting for an inbound link.
    Connecting,
    Connected,
    /// An attempt failed; the next one is due later.
    Waiting,
    /// The budget is spent. Left by a retry, or by an inbound link.
    GaveUp,
}

/// What the consumer reacts to.
#[derive(Debug, Clone)]
#[allow(inconsistent_fields)]
pub enum PeerLinkEvent {
    /// A link is up; its channel is valid until the peer's `Down`.
    Up { peer: PeerAddress, max_message_len: usize },
    /// The link is gone.
    Down { peer: PeerAddress },
    /// The coarse status changed.
    Status { peer: PeerAddress, status: PeerStatus },
    /// The radio's usability changed.
    RadioChanged { status: RadioStatus },
}

#[allow(inconsistent_fields)]
pub enum PeerLinkEventView {
    Up { peer: Seq<char>, max_message_len: usize },
    Down { peer: Seq<char> },
    Status { peer: Seq<char>, status: PeerStatus },
    RadioChanged { status: RadioStatus },
}

impl View for PeerLinkEvent {
    type V = PeerLinkEventView;

    open spec fn view(&self) -> PeerLinkEventView {
        match self {
            PeerLinkEvent::Up { peer, max_message_len } => PeerLinkEventView::Up {
                peer: peer@,
                max_message_len: *max_message_len,
            },
            PeerLinkEvent::Down { peer } => PeerLinkEventView::Down { peer: peer@ },
            PeerLinkEvent::Status { peer, status } => PeerLinkEventView::Status {
                peer: peer@,
                status: *status,
            },
            PeerLinkEvent::RadioChanged { status } => PeerLinkEventView::RadioChanged {
                status: *status,
            },
        }
    }
}

/// How an item that was handed to a link's send queue fared.
#[derive(Debug, Clone, Copy, PartialEq, Eq, Structural)]
pub enum QueueRefusal {
    Full,
    Closed,
}

/// What the sender of a message is told when the link's queue did not take it: a full
/// queue may clear, a closed one does not.
pub fn send_refused(peer: &PeerAddress, refusal: QueueRefusal) -> (e: BleError)
    ensures
        e@ == match refusal {
            QueueRefusal::Full => BleErrorView::GattBusy("send queue full for "@ + peer@),
            QueueRefusal::Closed => BleErrorView::NotConnected(peer@),
        },
{
    match refusal {
        QueueRefusal::Full => BleError::GattBusy(joined("send queue full for ", peer.0.as_str())),
        QueueRefusal::Closed => BleError::NotConnected(peer.0.clone()),
    }
}

/// What happens on a link that is up.
pub enum PumpEvent {
    /// The driver takes the link down.
    TearDown,
    /// The consumer hands over a message to send.
    Send(Vec<u8>),
    /// The consumer let go of its handle.
    HandleDropped,
    /// A message, or the report of a loss, arrived.
    Received(Result<Vec<u8>, BleError>),
    /// The channel closed.
    ChannelClosed,
    /// The consumer no longer reads.
    ReaderGone,
}

/// What the keeper of a link that is up does next.
pub enum PumpAction {
    Send(Vec<u8>),
    Deliver(Result<Vec<u8>, BleError>),
    /// Drop the channel, which disconnects it, and report the link gone.
    Stop,
}

/// The decision of a link's keeper: messages pass through, and anything that ends either
/// side ends the link.
pub fn pump_step(event: PumpEvent) -> (r: PumpAction)
    ensures
        r == match event {
            PumpEvent::Send(bytes) => PumpAction::Send(bytes),
            PumpEvent::Received(item) => PumpAction::Deliver(item),
            _ => PumpAction::Stop,
        },
{
    match event {
        PumpEvent::Send(bytes) => PumpAction::Send(bytes),
        PumpEvent::Received(item) => PumpAction::Deliver(item),
        PumpEvent::TearDown => PumpAction::Stop,
        PumpEvent::HandleDropped => PumpAction::Stop,
        PumpEvent::ChannelClosed => PumpAction::Stop,
        PumpEvent::ReaderGone => PumpAction::Stop,
    }
}

/// Position of the first error among the items of a scan, or their number.
pub open spec fn first_error(items: Seq<Result<DiscoveredPeer, BleError>>) -> nat
    decreases items.len(),
{
    if items.len() == 0 || items[0] is Err {
        0
    } else {
        1 + first_error(items.drop_first())
    }
}

/// Whether item `i` of a scan is a peer at `address`.
pub open spec fn found_at(
    items: Seq<Result<DiscoveredPeer, BleError>>,
    i: int,
    address: Seq<char>,
) -> bool {
    match items[i] {
        Ok(peer) => peer.address@ == address,
        Err(_) => false,
    }
}

/// The addresses that a bounded scan found, in order. An error among its items is the
/// outcome of the whole.
pub fn discovered_addresses(items: &Vec<Result<DiscoveredPeer, BleError>>) -> (r: Result<
    Vec<PeerAddress>,
    BleError,
>)
    ensures
        ({
            let n = first_error(items@);
            match r {
                Ok(found) => {
                    &&& n == items@.len() == found@.len()
                    &&& forall|i: int|
                        #![trigger found@[i]]
                        0 <= i < n ==> found_at(items@, i, found@[i]@)
                },
                Err(e) => n < items@.len() && items@[n as int] is Err && e
                    == items@[n as int]->Err_0,
            }
        }),
{
    let mut found: Vec<PeerAddress> = Vec::new();
    let mut i: usize = 0;
    assert(items@.skip(0) =~= items@);
    while i < items.len()
        invariant
            i <= items@.len(),
            first_error(items@) == i + first_error(items@.skip(i as int)),
            found@.len() == i,
            forall|k: int|
                #![trigger found@[k]]
                0 <= k < i ==> found_at(items@, k, found@[k]@),
        decreases items.len() - i,
    {
        proof {
            assert(items@.skip(i as int)[0] == items@[i as int]);
            assert(items@.skip(i as int).drop_first() =~= items@.skip(i + 1));
        }
        match &items[i] {
            Ok(peer) => {
                found.push(peer.address.clone());
            },
            Err(e) => {
                return Err(e.clone());
            },
        }
        i = i + 1;
    }
    Ok(found)
}

} // verus!
