//! The error that every fallible operation of the library returns.

use vstd::prelude::*;

use crate::text::{joined, owned};

verus! {

#[derive(Debug)]
pub enum BleError {
    AdapterUnavailable(String),
    PeripheralUnsupported,
    ConnectFailed { peer: String, reason: String },
    Gatt(String),
    /// A GATT operation was rejected in a way that may be transient. Nothing is
    /// retried here: whether to retry is the caller's decision.
    GattBusy(String),
    NotConnected(String),
    /// The connection to a broker failed, as opposed to an operation over it.
    Transport(String),
}

/// The contents of a `BleError`.
pub enum BleErrorView {
    AdapterUnavailable(Seq<char>),
    PeripheralUnsupported,
    ConnectFailed { peer: Seq<char>, reason: Seq<char> },
    Gatt(Seq<char>),
    GattBusy(Seq<char>),
    NotConnected(Seq<char>),
    Transport(Seq<char>),
}

impl View for BleError {
    type V = BleErrorView;

    open spec fn view(&self) -> BleErrorView {
        match self {
            BleError::AdapterUnavailable(s) => BleErrorView::AdapterUnavailable(s@),
            BleError::PeripheralUnsupported => BleErrorView::PeripheralUnsupported,
            BleError::ConnectFailed { peer, reason } => BleErrorView::ConnectFailed {
                peer: peer@,
                reason: reason@,
            },
            BleError::Gatt(s) => BleErrorView::Gatt(s@),
            BleError::GattBusy(s) => BleErrorView::GattBusy(s@),
            BleError::NotConnected(s) => BleErrorView::NotConnected(s@),
            BleError::Transport(s) => BleErrorView::Transport(s@),
        }
    }
}

impl BleErrorView {
    /// The sentence that reports the error to a person.
    pub open spec fn message(self) -> Seq<char> {
        match self {
            BleErrorView::AdapterUnavailable(s) => "BLE adapter unavailable: "@ + s,
            BleErrorView::PeripheralUnsupported =>
                "peripheral (GATT server) mode not supported on this backend"@,
            BleErrorView::ConnectFailed { peer, reason } => "connect to "@ + peer + " failed: "@
                + reason,
            BleErrorView::Gatt(s) => "GATT operation failed: "@ + s,
            BleErrorView::GattBusy(s) => "GATT operation rejected, possibly transient: "@ + s,
            BleErrorView::NotConnected(s) => "not connected to "@ + s,
            BleErrorView::Transport(s) => "mock broker transport error: "@ + s,
        }
    }
}

impl BleError {
    /// The sentence that reports the error to a person.
    pub fn message(&self) -> (r: String)
        ensures
            r@ == self@.message(),
    {
        match self {
            BleError::AdapterUnavailable(s) => joined("BLE adapter unavailable: ", s.as_str()),
            BleError::PeripheralUnsupported => owned(
                "peripheral (GATT server) mode not supported on this backend",
            ),
            BleError::ConnectFailed { peer, reason } => {
                let mut r = joined("connect to ", peer.as_str());
                r.append(" failed: ");
                r.append(reason.as_str());
                r
            },
            BleError::Gatt(s) => joined("GATT operation failed: ", s.as_str()),
            BleError::GattBusy(s) => joined(
                "GATT operation rejected, possibly transient: ",
                s.as_str(),
            ),
            BleError::NotConnected(s) => joined("not connected to ", s.as_str()),
            BleError::Transport(s) => joined("mock broker transport error: ", s.as_str()),
        }
    }
}

impl Clone for BleError {
    fn clone(&self) -> (r: Self)
        ensures
            r == *self,
    {
        match self {
            BleError::AdapterUnavailable(s) => BleError::AdapterUnavailable(s.clone()),
            BleError::PeripheralUnsupported => BleError::PeripheralUnsupported,
            BleError::ConnectFailed { peer, reason } => BleError::ConnectFailed {
                peer: peer.clone(),
                reason: reason.clone(),
            },
            BleError::Gatt(s) => BleError::Gatt(s.clone()),
            BleError::GattBusy(s) => BleError::GattBusy(s.clone()),
            BleError::NotConnected(s) => BleError::NotConnected(s.clone()),
            BleError::Transport(s) => BleError::Transport(s.clone()),
        }
    }
}

/// The view of a fallible operation's outcome: what it returned, or the contents of
/// its error.
pub open spec fn outcome<T>(r: Result<T, BleError>) -> Result<T, BleErrorView> {
    match r {
        Ok(v) => Ok(v),
        Err(e) => Err(e@),
    }
}

/// What is seen of an error is its kind and its texts, and of an outcome what it was.
pub proof fn an_error_is_seen_whole(s: String, peer: String, reason: String, value: u64)
    ensures
        BleError::AdapterUnavailable(s)@ == BleErrorView::AdapterUnavailable(s@),
        BleError::PeripheralUnsupported@ == BleErrorView::PeripheralUnsupported,
        (BleError::ConnectFailed { peer, reason })@ == (BleErrorView::ConnectFailed {
            peer: peer@,
            reason: reason@,
        }),
        BleError::Gatt(s)@ == BleErrorView::Gatt(s@),
        BleError::GattBusy(s)@ == BleErrorView::GattBusy(s@),
        BleError::NotConnected(s)@ == BleErrorView::NotConnected(s@),
        BleError::Transport(s)@ == BleErrorView::Transport(s@),
        outcome(Ok::<u64, BleError>(value)) == Ok::<u64, BleErrorView>(value),
        outcome(Err::<u64, BleError>(BleError::Gatt(s))) == Err::<u64, BleErrorView>(
            BleErrorView::Gatt(s@),
        ),
{
}

/// The sentence that reports an error ends in what the error says, so that errors of a kind
/// that say different things are reported differently.
pub proof fn a_report_says_what_the_error_says(a: Seq<char>, b: Seq<char>)
    requires
        BleErrorView::Gatt(a).message() == BleErrorView::Gatt(b).message()
            || BleErrorView::AdapterUnavailable(a).message() == BleErrorView::AdapterUnavailable(
            b,
        ).message() || BleErrorView::GattBusy(a).message() == BleErrorView::GattBusy(b).message()
            || BleErrorView::NotConnected(a).message() == BleErrorView::NotConnected(b).message()
            || BleErrorView::Transport(a).message() == BleErrorView::Transport(b).message(),
    ensures
        a == b,
{
    same_behind_the_same("GATT operation failed: "@, a, b);
    same_behind_the_same("BLE adapter unavailable: "@, a, b);
    same_behind_the_same("GATT operation rejected, possibly transient: "@, a, b);
    same_behind_the_same("not connected to "@, a, b);
    same_behind_the_same("mock broker transport error: "@, a, b);
}

proof fn same_behind_the_same(head: Seq<char>, a: Seq<char>, b: Seq<char>)
    ensures
        head + a == head + b ==> a == b,
{
    if head + a == head + b {
        assert((head + a).skip(head.len() as int) =~= a);
        assert((head + b).skip(head.len() as int) =~= b);
    }
}

/// A failed connect is reported with the peer and the reason, in this order.
pub proof fn a_failed_connect_is_reported_with_its_reason(peer: Seq<char>, reason: Seq<char>)
    ensures
        (BleErrorView::ConnectFailed { peer, reason }).message() == "connect to "@ + peer
            + " failed: "@ + reason,
{
}

} // verus!
