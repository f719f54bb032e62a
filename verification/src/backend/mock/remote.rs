//! The client of a broker: which calls wait for an answer, where what the broker sends
//! belongs, and what the end of the connection means for all of them.

use vstd::prelude::*;

use crate::assoc::AssocMap;
#[allow(unused_imports)]
use crate::assoc::Key;
use crate::backend::next;
#[allow(unused_imports)]
use crate::backend::following;
use crate::backend::mock::wire::{Frame, Push, Response};
#[allow(unused_imports)]
use crate::backend::mock::wire::ResponseView;
use crate::error::BleError;
#[allow(unused_imports)]
use crate::error::{outcome, BleErrorView};
use crate::models::{DiscoveredPeer, GattEvent, PeerAddress};
use crate::text::{joined, owned};

verus! {

/// A client's bookkeeping. That the connection is closed is kept along with the calls
/// that wait, so that no call can begin to wait once nobody is left to answer it.
pub struct RemoteClient {
    waiting: AssocMap<u64, ()>,
    closed: bool,
    next_correlation: u64,
    next_subscription: u64,
    listening: AssocMap<PeerAddress, ()>,
    subscriptions: AssocMap<u64, ()>,
}

/// The contents of a `RemoteClient`.
#[verifier::ext_equal]
pub struct ClientView {
    /// The calls that wait for an answer, by correlation.
    pub waiting: Set<u64>,
    pub closed: bool,
    pub next_correlation: u64,
    pub next_subscription: u64,
    /// The addresses whose events are wanted here.
    pub listening: Set<Seq<char>>,
    pub subscriptions: Set<u64>,
}

impl View for RemoteClient {
    type V = ClientView;

    closed spec fn view(&self) -> ClientView {
        ClientView {
            waiting: self.waiting@.dom(),
            closed: self.closed,
            next_correlation: self.next_correlation,
            next_subscription: self.next_subscription,
            listening: self.listening@.dom(),
            subscriptions: self.subscriptions@.dom(),
        }
    }
}

pub open spec fn closed_error() -> BleErrorView {
    BleErrorView::Transport("broker connection closed"@)
}

pub open spec fn unexpected_error(operation: Seq<char>) -> BleErrorView {
    BleErrorView::Transport("unexpected response to "@ + operation)
}

fn closed_connection() -> (e: BleError)
    ensures
        e@ == closed_error(),
{
    BleError::Transport(owned("broker connection closed"))
}

fn unexpected(operation: &str) -> (e: BleError)
    ensures
        e@ == unexpected_error(operation@),
{
    BleError::Transport(joined("unexpected response to ", operation))
}

/// Where something that the broker sent belongs.
pub enum Delivery {
    /// It answers the call with this correlation.
    Answer { correlation_id: u64, response: Response },
    Event { address: PeerAddress, event: GattEvent },
    Item { subscription_id: u64, item: Result<Vec<u8>, BleError> },
    /// Nobody waits for it.
    Nowhere,
}

impl ClientView {
    /// The client once a call was given the next correlation; it waits unless the
    /// connection is closed.
    pub open spec fn calling(self) -> ClientView {
        ClientView {
            next_correlation: following(self.next_correlation),
            waiting: if self.closed {
                self.waiting
            } else {
                self.waiting.insert(self.next_correlation)
            },
            ..self
        }
    }

    pub open spec fn settled(self, correlation_id: u64) -> ClientView {
        ClientView { waiting: self.waiting.remove(correlation_id), ..self }
    }

    /// The client once its connection is gone.
    pub open spec fn ended(self) -> ClientView {
        ClientView { closed: true, waiting: Set::empty(), subscriptions: Set::empty(), ..self }
    }
}

impl RemoteClient {
    /// A client whose connection has just come up. Correlations start at one: zero is for
    /// requests that await nothing.
    pub fn new() -> (r: Self)
        ensures
            r@ == (ClientView {
                waiting: Set::empty(),
                closed: false,
                next_correlation: 1,
                next_subscription: 0,
                listening: Set::empty(),
                subscriptions: Set::empty(),
            }),
    {
        let r = RemoteClient {
            waiting: AssocMap::new(),
            closed: false,
            next_correlation: 1,
            next_subscription: 0,
            listening: AssocMap::new(),
            subscriptions: AssocMap::new(),
        };
        assert(r@.waiting =~= Set::empty());
        assert(r@.listening =~= Set::empty());
        assert(r@.subscriptions =~= Set::empty());
        r
    }

    /// Events of `address` are wanted here from now on.
    pub fn register_events_sender(&mut self, address: PeerAddress)
        ensures
            final(self)@ == (ClientView {
                listening: old(self)@.listening.insert(address@),
                ..old(self)@
            }),
    {
        self.listening.insert(address, ());
        assert(self@.listening =~= old(self)@.listening.insert(address@));
    }

    /// Begins a call: the correlation to send it under, or an error at once when the
    /// connection is closed.
    pub fn call(&mut self) -> (r: Result<u64, BleError>)
        ensures
            final(self)@ == old(self)@.calling(),
            outcome(r) == if old(self)@.closed {
                Err::<u64, BleErrorView>(closed_error())
            } else {
                Ok(old(self)@.next_correlation)
            },
    {
        let correlation_id = self.next_correlation;
        self.next_correlation = next(correlation_id);
        if self.closed {
            return Err(closed_connection());
        }
        self.waiting.insert(correlation_id, ());
        assert(self@.waiting =~= old(self)@.waiting.insert(correlation_id));
        Ok(correlation_id)
    }

    /// A call could not be sent: it waits no longer, and fails.
    pub fn send_failed(&mut self, correlation_id: u64) -> (e: BleError)
        ensures
            final(self)@ == old(self)@.settled(correlation_id),
            e@ == closed_error(),
    {
        self.waiting.remove(&correlation_id);
        assert(self@.waiting =~= old(self)@.waiting.remove(correlation_id));
        closed_connection()
    }

    /// Routes a frame that the broker sent. An answer settles the call that waits for it;
    /// nothing else changes anything.
    pub fn on_frame(&mut self, correlation_id: u64, frame: Frame) -> (d: Delivery)
        ensures
            final(self)@ == match frame {
                Frame::Resp(_) => old(self)@.settled(correlation_id),
                _ => old(self)@,
            },
            d == match frame {
                Frame::Resp(response) => if old(self)@.waiting.contains(correlation_id) {
                    Delivery::Answer { correlation_id, response }
                } else {
                    Delivery::Nowhere
                },
                Frame::Push(Push::Event { address, event }) => if old(self)@.listening.contains(
                    address@,
                ) {
                    Delivery::Event { address, event }
                } else {
                    Delivery::Nowhere
                },
                Frame::Push(Push::NotifyItem { subscription_id, item }) => if old(
                    self,
                )@.subscriptions.contains(subscription_id) {
                    Delivery::Item { subscription_id, item }
                } else {
                    Delivery::Nowhere
                },
                Frame::Req(_) => Delivery::Nowhere,
            },
    {
        match frame {
            Frame::Resp(response) => {
                let waited = self.waiting.remove(&correlation_id);
                assert(self@.waiting =~= old(self)@.waiting.remove(correlation_id));
                match waited {
                    Some(_) => Delivery::Answer { correlation_id, response },
                    None => Delivery::Nowhere,
                }
            },
            Frame::Push(Push::Event { address, event }) => {
                if self.listening.contains(&address) {
                    Delivery::Event { address, event }
                } else {
                    Delivery::Nowhere
                }
            },
            Frame::Push(Push::NotifyItem { subscription_id, item }) => {
                if self.subscriptions.contains(&subscription_id) {
                    Delivery::Item { subscription_id, item }
                } else {
                    Delivery::Nowhere
                }
            },
            // A broker sends no requests.
            Frame::Req(_) => Delivery::Nowhere,
        }
    }

    /// The connection is gone: every call that waited is handed back to be failed, every
    /// subscription ends, and no call begins to wait any more.
    pub fn on_closed(&mut self) -> (failed: Vec<u64>)
        ensures
            final(self)@ == old(self)@.ended(),
            failed@.no_duplicates(),
            failed@.to_set() == old(self)@.waiting,
    {
        let failed = self.waiting.keys();
        proof {
            assert(failed@.to_set() =~= old(self)@.waiting) by {
                assert forall|k: u64| old(self)@.waiting.contains(k) implies failed@.contains(
                    k,
                ) by {
                    let j = choose|j: int|
                        0 <= j < failed@.len() && (#[trigger] failed@[j]).content() == k;
                    assert(failed@[j] == k);
                }
                assert forall|k: u64| failed@.contains(k) implies old(self)@.waiting.contains(
                    k,
                ) by {
                    let j = choose|j: int| 0 <= j < failed@.len() && failed@[j] == k;
                    assert(failed@[j].content() == k);
                }
            }
            assert forall|i: int, j: int| 0 <= i < j < failed@.len() implies failed@[i]
                != failed@[j] by {
                assert(failed@[i].content() != failed@[j].content());
            }
        }
        self.closed = true;
        self.waiting = AssocMap::new();
        self.subscriptions = AssocMap::new();
        assert(self@ =~= old(self)@.ended());
        failed
    }

    /// The answer that a call gets whose connection closed under it.
    pub fn closed_response() -> (r: Response)
        ensures
            r@ == ResponseView::Failed(closed_error()),
    {
        Response::Failed(closed_connection())
    }

    /// Opens a destination for a subscription's items, ahead of the request for it.
    pub fn begin_subscribe(&mut self) -> (id: u64)
        ensures
            id == old(self)@.next_subscription,
            final(self)@ == (ClientView {
                next_subscription: following(id),
                subscriptions: old(self)@.subscriptions.insert(id),
                ..old(self)@
            }),
    {
        let id = self.next_subscription;
        self.next_subscription = next(id);
        self.subscriptions.insert(id, ());
        assert(self@.subscriptions =~= old(self)@.subscriptions.insert(id));
        id
    }

    /// Ends a subscription's setup: the destination stays only if the broker agreed.
    pub fn subscribe(&mut self, id: u64, reply: Result<Response, BleError>) -> (r: Result<
        (),
        BleError,
    >)
        ensures
            outcome(r) == unit_reply_of(reply_view(reply), "Subscribe"@),
            final(self)@ == if r is Ok {
                old(self)@
            } else {
                ClientView { subscriptions: old(self)@.subscriptions.remove(id), ..old(self)@ }
            },
    {
        let r = unit_reply(reply, "Subscribe");
        if r.is_err() {
            self.subscriptions.remove(&id);
            assert(self@.subscriptions =~= old(self)@.subscriptions.remove(id));
        }
        r
    }
}

/// The view of what a call came back with.
pub open spec fn reply_view(reply: Result<Response, BleError>) -> ResponseView {
    match reply {
        Ok(response) => response@,
        Err(e) => ResponseView::Failed(e@),
    }
}

pub open spec fn unit_reply_of(reply: ResponseView, operation: Seq<char>) -> Result<
    (),
    BleErrorView,
> {
    match reply {
        ResponseView::Unit => Ok(()),
        ResponseView::Failed(e) => Err(e),
        _ => Err(unexpected_error(operation)),
    }
}

/// The outcome of a call that returns nothing. An answer of any other shape is an error of
/// the transport that names the operation.
pub fn unit_reply(reply: Result<Response, BleError>, operation: &str) -> (r: Result<(), BleError>)
    ensures
        outcome(r) == unit_reply_of(reply_view(reply), operation@),
{
    match reply {
        Err(e) => Err(e),
        Ok(Response::Unit) => Ok(()),
        Ok(Response::Failed(e)) => Err(e),
        Ok(_) => Err(unexpected(operation)),
    }
}

/// The outcome of a dial.
pub fn session_reply(reply: Result<Response, BleError>) -> (r: Result<u64, BleError>)
    ensures
        outcome(r) == match reply_view(reply) {
            ResponseView::Session(session) => Ok(session),
            ResponseView::Failed(e) => Err(e),
            _ => Err(unexpected_error("Connect"@)),
        },
{
    match reply {
        Err(e) => Err(e),
        Ok(Response::Session(session)) => Ok(session),
        Ok(Response::Failed(e)) => Err(e),
        Ok(_) => Err(unexpected("Connect")),
    }
}

/// The outcome of a read.
pub fn bytes_reply(reply: Result<Response, BleError>) -> (r: Result<Vec<u8>, BleError>)
    ensures
        crate::backend::mock::local::item_view(r) == match reply_view(reply) {
            ResponseView::Bytes(bytes) => Ok(bytes),
            ResponseView::Failed(e) => Err(e),
            _ => Err(unexpected_error("Read"@)),
        },
{
    match reply {
        Err(e) => Err(e),
        Ok(Response::Bytes(bytes)) => Ok(bytes),
        Ok(Response::Failed(e)) => Err(e),
        Ok(_) => Err(unexpected("Read")),
    }
}

/// The outcome of a scan.
pub fn scan_reply(reply: Result<Response, BleError>) -> (r: Result<
    (Vec<DiscoveredPeer>, Option<String>),
    BleError,
>)
    ensures
        match reply {
            Ok(Response::ScanSnapshot { peers, armed_failure }) => r == Ok::<
                (Vec<DiscoveredPeer>, Option<String>),
                BleError,
            >((peers, armed_failure)),
            Ok(Response::Failed(e)) => r matches Err(got) && got@ == e@,
            Err(e) => r matches Err(got) && got@ == e@,
            _ => r matches Err(got) && got@ == unexpected_error("Scan"@),
        },
{
    match reply {
        Err(e) => Err(e),
        Ok(Response::ScanSnapshot { peers, armed_failure }) => Ok((peers, armed_failure)),
        Ok(Response::Failed(e)) => Err(e),
        Ok(_) => Err(unexpected("Scan")),
    }
}

/// Once the connection is closed no call is left waiting, and none begins to wait: each
/// fails at once.
pub proof fn no_call_waits_on_a_closed_connection(client: ClientView)
    ensures
        client.ended().waiting == Set::<u64>::empty(),
        client.ended().subscriptions == Set::<u64>::empty(),
        client.ended().calling().waiting == Set::<u64>::empty(),
        client.ended().calling().closed,
{
}

/// A call is answered once: its correlation waits no longer behind the first answer.
pub proof fn a_call_is_answered_once(client: ClientView, correlation_id: u64)
    ensures
        !client.settled(correlation_id).waiting.contains(correlation_id),
{
}

/// A call that begins on an open connection waits under a correlation that no earlier call
/// had, and is no longer waited for once it is settled. Calls, subscriptions and the
/// addresses listened to are kept apart.
pub proof fn a_call_waits_for_its_own_answer(client: ClientView, other: u64)
    requires
        !client.closed,
        other != client.next_correlation,
    ensures
        ({
            let waits = client.calling();
            &&& waits.waiting.contains(client.next_correlation)
            &&& waits.waiting.contains(other) <==> client.waiting.contains(other)
            &&& waits.next_correlation == following(client.next_correlation)
            &&& waits.settled(client.next_correlation).waiting.contains(other)
                <==> client.waiting.contains(other)
            &&& !waits.closed
            &&& waits.listening == client.listening && waits.subscriptions == client.subscriptions
            &&& waits.next_subscription == client.next_subscription
            &&& client.settled(other).listening == client.listening
            &&& client.settled(other).subscriptions == client.subscriptions
            &&& client.settled(other).next_correlation == client.next_correlation
            &&& client.settled(other).closed == client.closed
        }),
        client.ended().listening == client.listening,
        client.ended().next_correlation == client.next_correlation,
        client.ended().closed,
{
}

/// A reply is what the broker said, its error as it came, and one of another kind is an error
/// that names the operation.
pub proof fn a_reply_is_what_the_broker_said(
    e: BleErrorView,
    session: u64,
    bytes: Seq<u8>,
    operation: Seq<char>,
)
    ensures
        unit_reply_of(ResponseView::Unit, operation) is Ok,
        unit_reply_of(ResponseView::Failed(e), operation) == Err::<(), BleErrorView>(e),
        unit_reply_of(ResponseView::Session(session), operation) == Err::<(), BleErrorView>(
            BleErrorView::Transport("unexpected response to "@ + operation),
        ),
        unit_reply_of(ResponseView::Bytes(bytes), operation) is Err,
        closed_error() == BleErrorView::Transport("broker connection closed"@),
{
}

/// What a call came back with is its response, or a failure with its own error.
pub proof fn a_failed_call_is_a_failed_response(response: Response, e: BleError)
    ensures
        reply_view(Ok(response)) == response@,
        reply_view(Err(e)) == ResponseView::Failed(e@),
{
}

} // verus!
