//! What every platform backend shares: the bounds of the ATT protocol and the link
//! state machines.

pub mod android;
pub mod link_state;
pub mod linux;
pub mod mock;

use vstd::prelude::*;

use crate::models::GattEvent;

verus! {

/// The ATT MTU that every connection supports before anything is negotiated.
pub const DEFAULT_ATT_MTU: u16 = 23;

/// Bytes of protocol header in a write or a notification.
pub const ATT_HEADER_LEN: usize = 3;

/// The payload bound of one write under an ATT MTU, as a number.
pub open spec fn spec_max_write_len(att_mtu: u16) -> int {
    if att_mtu >= ATT_HEADER_LEN {
        att_mtu - ATT_HEADER_LEN
    } else {
        0
    }
}

/// Largest payload of a single write or notification on a connection whose
/// negotiated ATT MTU is `att_mtu`. Bulk transfers are chunked against this.
pub fn max_write_len(att_mtu: u16) -> (len: usize)
    ensures
        len == spec_max_write_len(att_mtu),
{
    (att_mtu as usize).saturating_sub(ATT_HEADER_LEN)
}

/// The number behind `id`, for numbers that are handed out in order. The first one follows
/// the last.
pub open spec fn following(id: u64) -> u64 {
    if id == u64::MAX {
        0
    } else {
        (id + 1) as u64
    }
}

pub(crate) fn next(id: u64) -> (r: u64)
    ensures
        r == following(id),
{
    id.wrapping_add(1)
}

/// What a receiver of events that may fall behind reads: an event, or how many it missed.
pub fn received(item: Result<GattEvent, u64>) -> (event: GattEvent)
    ensures
        event == match item {
            Ok(event) => event,
            Err(dropped) => GattEvent::Lagged { dropped },
        },
{
    match item {
        Ok(event) => event,
        Err(dropped) => GattEvent::Lagged { dropped },
    }
}

/// A write carries what the MTU leaves behind the protocol's own three bytes, and nothing
/// where it leaves nothing.
pub proof fn a_write_fills_its_packet(att_mtu: u16)
    ensures
        ATT_HEADER_LEN == 3,
        att_mtu >= 3 ==> spec_max_write_len(att_mtu) + 3 == att_mtu,
        att_mtu <= 3 ==> spec_max_write_len(att_mtu) == 0,
        spec_max_write_len(DEFAULT_ATT_MTU) == 20,
{
}

/// Numbers are handed out one behind the other: none is handed out again before all others
/// have been.
pub proof fn a_number_follows_another(id: u64, other: u64)
    ensures
        id < u64::MAX ==> following(id) == id + 1,
        following(u64::MAX) == 0,
        id != other ==> following(id) != following(other),
{
}

} // verus!
