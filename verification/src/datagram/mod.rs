//! The datagram tier: an ordered, opaque-bytes channel to a peer.
//!
//! A GATT connection caps every write at the negotiated MTU. This tier turns one
//! into a message pipe by fragmenting against the connection's budget and
//! reassembling under strict bounds. It carries bytes and does not interpret them.
//!
//! One service and one characteristic carry both directions: a central writes the
//! characteristic, a peripheral notifies on it. The peripheral serves one central at
//! a time.

pub mod channel;
pub mod delivery;
pub mod fragment;
pub mod history;
pub mod reassembly;
pub mod serve;

use std::collections::BTreeMap;

use vstd::prelude::*;

use crate::clock::{Duration, SECOND};
use crate::datagram::reassembly::ReassemblyLimits;
use crate::error::BleError;
#[allow(unused_imports)]
use crate::error::BleErrorView;
use crate::models::{
    CharacteristicUuid, GattCharacteristicSpec, GattServiceSpec, ServiceUuid, WriteType,
};
#[allow(unused_imports)]
use crate::models::{GattCharacteristicSpecView, GattServiceSpecView};
use crate::text::owned;

verus! {

pub const DEFAULT_MAX_MESSAGE_LEN: usize = 1_048_576;

pub const DEFAULT_REASSEMBLY_TIMEOUT: Duration = 30_000_000_000;

pub const DEFAULT_MAX_CONCURRENT_REASSEMBLIES: usize = 4;

/// Completed messages buffered before the reassembler applies backpressure.
pub const DEFAULT_INBOUND_QUEUE_DEPTH: usize = 32;

/// Raw fragments buffered ahead of the reassembler.
pub const DEFAULT_FRAGMENT_QUEUE_DEPTH: usize = 256;

/// Served channels that may wait to be picked up.
pub const DEFAULT_ACCEPT_QUEUE_DEPTH: usize = 8;

/// How a channel is set up. Both ends must agree on the service and the
/// characteristic.
#[derive(Debug, Clone)]
pub struct DatagramConfig {
    pub service: ServiceUuid,
    pub characteristic: CharacteristicUuid,
    pub max_message_len: usize,
    pub reassembly_timeout: Duration,
    pub max_concurrent_reassemblies: usize,
    /// Acknowledged by default. The unacknowledged kind trades that for throughput,
    /// and drops under load.
    pub write_type: WriteType,
    /// How many completed messages may sit unread before the reassembler stops
    /// accepting more.
    pub inbound_queue_depth: usize,
    /// How many raw fragments may wait for the reassembler.
    pub fragment_queue_depth: usize,
    /// How many served channels may wait to be picked up.
    pub accept_queue_depth: usize,
    /// Advertised along with the service while serving.
    pub advertised_manufacturer_data: BTreeMap<u16, Vec<u8>>,
}

pub open spec fn zero_depth_error(field: Seq<char>) -> BleErrorView {
    BleErrorView::Gatt(field + " must be at least one"@)
}

fn zero_depth(field: &str) -> (e: BleError)
    ensures
        e@ == zero_depth_error(field@),
{
    let mut text = owned(field);
    text.append(" must be at least one");
    BleError::Gatt(text)
}

impl DatagramConfig {
    pub open spec fn spec_limits(&self) -> ReassemblyLimits {
        ReassemblyLimits {
            max_message_len: self.max_message_len,
            reassembly_timeout: self.reassembly_timeout,
            max_concurrent_reassemblies: self.max_concurrent_reassemblies,
        }
    }

    /// The service on the wire: the one characteristic, readable, writable and
    /// notifiable.
    pub open spec fn spec_service(&self) -> GattServiceSpecView {
        GattServiceSpecView {
            uuid: self.service,
            characteristics: seq![
                GattCharacteristicSpecView {
                    uuid: self.characteristic,
                    readable: true,
                    writable: true,
                    notifiable: true,
                    initial_value: seq![],
                },
            ],
            manufacturer_data: self.advertised_manufacturer_data@,
            service_data: Map::empty(),
        }
    }

    pub fn new(service: ServiceUuid, characteristic: CharacteristicUuid) -> (r: Self)
        ensures
            r.service == service,
            r.characteristic == characteristic,
            r.max_message_len == DEFAULT_MAX_MESSAGE_LEN,
            r.reassembly_timeout == DEFAULT_REASSEMBLY_TIMEOUT,
            r.max_concurrent_reassemblies == DEFAULT_MAX_CONCURRENT_REASSEMBLIES,
            r.write_type == WriteType::WithResponse,
            r.inbound_queue_depth == DEFAULT_INBOUND_QUEUE_DEPTH,
            r.fragment_queue_depth == DEFAULT_FRAGMENT_QUEUE_DEPTH,
            r.accept_queue_depth == DEFAULT_ACCEPT_QUEUE_DEPTH,
            r.advertised_manufacturer_data@ == Map::<u16, Vec<u8>>::empty(),
    {
        DatagramConfig {
            service,
            characteristic,
            max_message_len: DEFAULT_MAX_MESSAGE_LEN,
            reassembly_timeout: DEFAULT_REASSEMBLY_TIMEOUT,
            max_concurrent_reassemblies: DEFAULT_MAX_CONCURRENT_REASSEMBLIES,
            write_type: WriteType::WithResponse,
            inbound_queue_depth: DEFAULT_INBOUND_QUEUE_DEPTH,
            fragment_queue_depth: DEFAULT_FRAGMENT_QUEUE_DEPTH,
            accept_queue_depth: DEFAULT_ACCEPT_QUEUE_DEPTH,
            advertised_manufacturer_data: BTreeMap::new(),
        }
    }

    pub fn limits(&self) -> (r: ReassemblyLimits)
        ensures
            r == self.spec_limits(),
    {
        ReassemblyLimits {
            max_message_len: self.max_message_len,
            reassembly_timeout: self.reassembly_timeout,
            max_concurrent_reassemblies: self.max_concurrent_reassemblies,
        }
    }

    /// Whether every queue can hold something.
    pub open spec fn spec_valid(&self) -> bool {
        self.inbound_queue_depth > 0 && self.fragment_queue_depth > 0 && self.accept_queue_depth > 0
    }

    /// The error of a configuration with a queue that can hold nothing: it names the
    /// first such queue.
    pub open spec fn spec_invalid(&self) -> BleErrorView {
        if self.inbound_queue_depth == 0 {
            zero_depth_error("inbound_queue_depth"@)
        } else if self.fragment_queue_depth == 0 {
            zero_depth_error("fragment_queue_depth"@)
        } else {
            zero_depth_error("accept_queue_depth"@)
        }
    }

    /// Refuses a configuration with a queue that can hold nothing.
    pub fn validate(&self) -> (r: Result<(), BleError>)
        ensures
            r is Ok <==> self.spec_valid(),
            r matches Err(e) ==> e@ == self.spec_invalid(),
    {
        if self.inbound_queue_depth == 0 {
            Err(zero_depth("inbound_queue_depth"))
        } else if self.fragment_queue_depth == 0 {
            Err(zero_depth("fragment_queue_depth"))
        } else if self.accept_queue_depth == 0 {
            Err(zero_depth("accept_queue_depth"))
        } else {
            Ok(())
        }
    }

    /// The GATT service that this tier expects on the wire. Both roles derive it
    /// from here.
    pub fn service_spec(&self) -> (r: GattServiceSpec)
        ensures
            r@ == self.spec_service(),
    {
        let characteristic = GattCharacteristicSpec {
            uuid: self.characteristic,
            readable: true,
            writable: true,
            notifiable: true,
            initial_value: Vec::new(),
        };
        let ghost shown = characteristic@;
        let r = GattServiceSpec {
            uuid: self.service,
            characteristics: vec![characteristic],
            manufacturer_data: self.advertised_manufacturer_data.clone(),
            service_data: BTreeMap::new(),
        };
        assert(shown == self.spec_service().characteristics[0]);
        assert(r@.characteristics =~= self.spec_service().characteristics);
        r
    }
}

/// How often an idle channel drops what has expired: four times per timeout, and no
/// more often than once a second.
pub fn expiry_tick(reassembly_timeout: Duration) -> (tick: Duration)
    ensures
        tick == if reassembly_timeout / 4 >= SECOND {
            reassembly_timeout / 4
        } else {
            SECOND
        },
{
    let quarter: Duration = reassembly_timeout / 4;
    if quarter >= SECOND {
        quarter
    } else {
        SECOND
    }
}

/// The service of a channel is the configured one with the configured characteristic alone,
/// which a central can write and be notified on, and read as empty; only the configured
/// payload is advertised with it.
pub proof fn the_service_carries_both_directions(config: &DatagramConfig)
    ensures
        ({
            let service = config.spec_service();
            &&& service.uuid == config.service
            &&& service.characteristics.len() == 1
            &&& service.characteristics[0].uuid == config.characteristic
            &&& service.characteristics[0].writable
            &&& service.characteristics[0].notifiable
            &&& service.characteristics[0].readable
            &&& service.characteristics[0].initial_value.len() == 0
            &&& forall|company: u16| #[trigger]
                service.manufacturer_data.contains_key(company)
                    <==> config.advertised_manufacturer_data@.contains_key(company)
            &&& forall|company: u16| #[trigger]
                service.manufacturer_data.contains_key(company)
                    ==> service.manufacturer_data[company]
                    == config.advertised_manufacturer_data@[company]
            &&& forall|uuid: u128| !(#[trigger] service.service_data.contains_key(uuid))
        }),
{
}

/// A receiver is bound by exactly what was configured.
pub proof fn the_configured_limits_bound_reassembly(config: &DatagramConfig)
    ensures
        config.spec_limits().max_message_len == config.max_message_len,
        config.spec_limits().reassembly_timeout == config.reassembly_timeout,
        config.spec_limits().max_concurrent_reassemblies == config.max_concurrent_reassemblies,
{
}

/// A configuration is valid exactly if none of its three queues has depth zero, and the
/// complaint about one that is not names a queue of depth zero.
pub proof fn a_queue_of_depth_zero_is_complained_about(config: &DatagramConfig)
    ensures
        config.spec_valid() <==> config.inbound_queue_depth != 0 && config.fragment_queue_depth != 0
            && config.accept_queue_depth != 0,
        config.inbound_queue_depth == 0 ==> config.spec_invalid() == zero_depth_error(
            "inbound_queue_depth"@,
        ),
        config.inbound_queue_depth > 0 && config.fragment_queue_depth == 0 ==> config.spec_invalid()
            == zero_depth_error("fragment_queue_depth"@),
        config.inbound_queue_depth > 0 && config.fragment_queue_depth > 0
            && config.accept_queue_depth == 0 ==> config.spec_invalid() == zero_depth_error(
            "accept_queue_depth"@,
        ),
{
}

/// What is configured where nothing is said: messages of up to a mebibyte, thirty seconds and
/// four places for reassembly, and queues that hold thirty-two messages, two hundred and
/// fifty-six fragments and eight channels.
pub proof fn the_defaults_are_what_they_are()
    ensures
        DEFAULT_MAX_MESSAGE_LEN == 1024 * 1024,
        DEFAULT_REASSEMBLY_TIMEOUT == 30 * SECOND,
        DEFAULT_MAX_CONCURRENT_REASSEMBLIES == 4,
        DEFAULT_INBOUND_QUEUE_DEPTH == 32,
        DEFAULT_FRAGMENT_QUEUE_DEPTH == 256,
        DEFAULT_ACCEPT_QUEUE_DEPTH == 8,
{
}

} // verus!
