//! The decisions of the Android backend.
//!
//! The bridge to the platform calls back on threads of its own, at any time and in any
//! order. What is kept here says which call a callback completes, whether it belongs to
//! the current connection, scan or advertisement, and what is told to whom; the caller
//! makes the platform calls and completes the waiters.

pub mod connection;
pub mod discovery;
pub mod server;

use vstd::prelude::*;

use crate::clock::Duration;
use crate::error::BleError;
#[allow(unused_imports)]
use crate::error::BleErrorView;
use crate::models::CapabilityReport;
use crate::text::joined3;

verus! {

/// Scan results that wait to be read; more are dropped.
pub const DISCOVERY_QUEUE_DEPTH: usize = 64;

/// Notifications that wait to be read, per characteristic; more are dropped, and the gap
/// is reported.
pub const NOTIFY_QUEUE_DEPTH: usize = 256;

/// How long a disconnect waits for the platform to confirm it.
pub const DISCONNECT_TIMEOUT: Duration = 5_000_000_000;

pub const EVENT_CHANNEL_CAPACITY: usize = 64;

/// The low 16 bits of a number of the platform.
pub fn low_16(n: i32) -> (r: u16)
    ensures
        r == n as int % 0x1_0000,
{
    if n >= 0 {
        (n % 0x1_0000) as u16
    } else {
        let below: i64 = (-(n as i64)) % 0x1_0000;
        if below == 0 {
            0
        } else {
            (0x1_0000 - below) as u16
        }
    }
}

/// The low 16 bits of a number of the platform, with their sign.
pub open spec fn spec_low_16_signed(n: i32) -> int {
    let low = n as int % 0x1_0000;
    if low < 0x8000 {
        low
    } else {
        low - 0x1_0000
    }
}

pub fn low_16_signed(n: i32) -> (r: i16)
    ensures
        r == spec_low_16_signed(n),
{
    let low = low_16(n);
    if low < 0x8000 {
        low as i16
    } else {
        (low as i32 - 0x1_0000) as i16
    }
}

/// The error of a call into the bridge that failed: with what was thrown, if anything was.
pub fn call_failed(method: &str, error: &str, thrown: Option<&str>) -> (e: BleError)
    ensures
        e@ == BleErrorView::Gatt(
            method@ + " failed: "@ + error@ + match thrown {
                Some(detail) => " ("@ + detail@ + ")"@,
                None => seq![],
            },
        ),
{
    let mut text = joined3(method, " failed: ", error);
    let ghost head = text@;
    match thrown {
        Some(detail) => {
            text.append(" (");
            text.append(detail);
            text.append(")");
            assert(text@ =~= head + (" ("@ + detail@ + ")"@));
        },
        None => {
            assert(text@ =~= head + seq![]);
        },
    }
    BleError::Gatt(text)
}

/// What the device can do, by what the bridge answered. No answer counts as no support.
pub fn capabilities(central: Option<bool>, peripheral: Option<bool>) -> (r: CapabilityReport)
    ensures
        r == (CapabilityReport {
            central: central == Some(true),
            peripheral: peripheral == Some(true),
        }),
{
    CapabilityReport {
        central: match central {
            Some(value) => value,
            None => false,
        },
        peripheral: match peripheral {
            Some(value) => value,
            None => false,
        },
    }
}

/// How a session is named to the bridge: 0 stands for whichever session holds the address.
pub fn session_argument(session: Option<u64>) -> (r: u64)
    ensures
        r == match session {
            Some(session) => session,
            None => 0,
        },
{
    match session {
        Some(session) => session,
        None => 0,
    }
}

/// The signed low half of a number fits sixteen bits and differs from the number by a
/// multiple of what they count; a number that fits is its own.
pub proof fn a_low_half_is_the_number_where_it_fits(n: i32)
    ensures
        -0x8000 <= spec_low_16_signed(n) < 0x8000,
        (n - spec_low_16_signed(n)) % 0x1_0000 == 0,
        -0x8000 <= n < 0x8000 ==> spec_low_16_signed(n) == n,
{
}

/// A disconnect waits five seconds; sixty-four scan results, two hundred and fifty-six
/// notifications and sixty-four events may wait to be read.
pub proof fn the_bridge_has_its_measures()
    ensures
        DISCONNECT_TIMEOUT == 5 * crate::clock::SECOND,
        DISCOVERY_QUEUE_DEPTH == 64,
        NOTIFY_QUEUE_DEPTH == 256,
        EVENT_CHANNEL_CAPACITY == 64,
{
}

} // verus!
