//! A radio without hardware: peers that find, dial, write and notify each other in
//! memory, with the faults that a real radio has.

pub mod broker;
pub mod laws;
pub mod local;
pub mod remote;
pub mod wire;

use vstd::prelude::*;

use crate::assoc::AssocMap;
use crate::backend::mock::local::{Emission, MockNetwork};
#[allow(unused_imports)]
use crate::backend::mock::local::{emissions, peers_view, NetworkView};
use crate::clock::Duration;
use crate::error::BleError;
#[allow(unused_imports)]
use crate::error::{outcome, BleErrorView};
use crate::models::{
    CapabilityReport, DiscoveredPeer, GattServiceSpec, PeerAddress, ServiceUuid,
};
#[allow(unused_imports)]
use crate::models::DiscoveredPeerView;

verus! {

/// The ATT MTU of every in-memory connection.
pub const MOCK_ATT_MTU: u16 = 247;

/// One party on the in-memory radio. `capabilities` lets a test play a device that has no
/// peripheral role.
pub struct MockBackend {
    pub address: PeerAddress,
    pub capabilities: CapabilityReport,
    /// The dials that hang, and for how long.
    pub stalls: AssocMap<PeerAddress, Duration>,
}

/// The items of a scan: every peer, then the failure that ended it.
pub open spec fn scan_items(
    peers: Seq<DiscoveredPeerView>,
    failure: Option<Seq<char>>,
) -> Seq<Result<DiscoveredPeerView, BleErrorView>> {
    let found = peers.map_values(|p: DiscoveredPeerView| Ok::<DiscoveredPeerView, BleErrorView>(p));
    match failure {
        Some(message) => found.push(Err(BleErrorView::Gatt(message))),
        None => found,
    }
}

/// The view of an item of a scan.
pub open spec fn scan_item_view(item: Result<DiscoveredPeer, BleError>) -> Result<
    DiscoveredPeerView,
    BleErrorView,
> {
    match item {
        Ok(peer) => Ok(peer@),
        Err(e) => Err(e@),
    }
}

impl MockBackend {
    /// Joins a network, and observes its events from now on.
    pub fn new(
        address: PeerAddress,
        network: &mut MockNetwork,
        capabilities: CapabilityReport,
    ) -> (r: MockBackend)
        ensures
            r.address@ == address@,
            r.capabilities == capabilities,
            r.stalls@ == Map::<Seq<char>, Duration>::empty(),
            final(network)@ == (NetworkView {
                registered: old(network)@.registered.insert(address@),
                ..old(network)@
            }),
    {
        network.register_events_sender(address.clone());
        MockBackend { address, capabilities, stalls: AssocMap::new() }
    }

    /// Lets this device's dials to a peer hang for `delay`.
    pub fn stall_connect(&mut self, peer: &PeerAddress, delay: Duration)
        ensures
            final(self).stalls@ == old(self).stalls@.insert(peer@, delay),
            final(self).address == old(self).address,
            final(self).capabilities == old(self).capabilities,
    {
        self.stalls.insert(peer.clone(), delay);
    }

    /// How long a dial to a peer hangs before it goes on.
    pub fn connect_delay(&self, peer: &PeerAddress) -> (delay: Duration)
        ensures
            delay == if self.stalls@.contains_key(peer@) {
                self.stalls@[peer@]
            } else {
                0
            },
    {
        match self.stalls.get(peer) {
            Some(delay) => *delay,
            None => 0,
        }
    }

    /// Advertises a service, where this device can.
    pub fn advertise(&self, network: &mut MockNetwork, service: GattServiceSpec) -> (r: Result<
        (),
        BleError,
    >)
        ensures
            if self.capabilities.peripheral {
                r is Ok && final(network)@ == old(network)@.advertising(self.address@, service@)
            } else {
                &&& outcome(r) == Err::<(), BleErrorView>(BleErrorView::PeripheralUnsupported)
                &&& final(network)@ == old(network)@
            },
    {
        if !self.capabilities.peripheral {
            return Err(BleError::PeripheralUnsupported);
        }
        network.advertise(&self.address, service);
        Ok(())
    }

    /// The items of a scan for `service`. A failure comes as the last item, behind the
    /// peers already found, so that a failed scan does not look like an empty one.
    pub fn scan(&self, network: &mut MockNetwork, service: ServiceUuid) -> (items: Vec<
        Result<DiscoveredPeer, BleError>,
    >)
        ensures
            exists|peers: Seq<DiscoveredPeerView>|
                #![trigger scan_items(peers, old(network)@.armed_scan_failure)]
                {
                    &&& old(network)@.did_scan(
                        final(network)@,
                        self.address@,
                        service,
                        peers,
                        old(network)@.armed_scan_failure,
                    )
                    &&& items@.map_values(
                        |item: Result<DiscoveredPeer, BleError>| scan_item_view(item),
                    ) == scan_items(peers, old(network)@.armed_scan_failure)
                },
    {
        let (mut peers, failure) = network.scan(&self.address, service);
        let ghost shown = peers_view(peers@);
        let ghost all = peers@;
        let mut items: Vec<Result<DiscoveredPeer, BleError>> = Vec::new();
        while peers.len() > 0
            invariant
                peers@.len() + items@.len() == all.len(),
                peers@ == all.skip(items@.len() as int),
                forall|k: int|
                    0 <= k < items@.len() ==> (#[trigger] items@[k]) == Ok::<
                        DiscoveredPeer,
                        BleError,
                    >(all[k]),
            decreases peers.len(),
        {
            let peer = peers.remove(0);
            assert(peer == all[items@.len() as int]);
            items.push(Ok(peer));
            assert(peers@ =~= all.skip(items@.len() as int));
        }
        let ghost found = items@;
        match failure {
            Some(message) => {
                items.push(Err(BleError::Gatt(message)));
            },
            None => {},
        }
        proof {
            let view = |item: Result<DiscoveredPeer, BleError>| scan_item_view(item);
            assert(items@.map_values(view) =~= scan_items(
                shown,
                old(network)@.armed_scan_failure,
            )) by {
                assert forall|k: int| 0 <= k < found.len() implies items@.map_values(view)[k]
                    == scan_items(shown, old(network)@.armed_scan_failure)[k] by {
                    assert(items@[k] == found[k]);
                    assert(shown[k] == all[k]@);
                }
            }
        }
        items
    }

    /// The peer drops its link to this device without warning.
    pub fn simulate_peer_loss(&self, network: &mut MockNetwork, peer: &PeerAddress) -> (out: Vec<
        Emission,
    >)
        ensures
            final(network)@ == old(network)@.unlinked(peer@, self.address@),
            emissions(out@) == old(network)@.parting(seq![], peer@, self.address@),
    {
        network.simulate_peer_loss(&self.address, peer)
    }
}

/// A scan's items are the peers that it found, each at its place, and behind them its failure
/// if it failed.
pub proof fn a_failure_comes_behind_what_was_found(
    peers: Seq<DiscoveredPeerView>,
    failure: Option<Seq<char>>,
    i: int,
)
    ensures
        0 <= i < peers.len() ==> scan_items(peers, failure)[i] == Ok::<
            DiscoveredPeerView,
            BleErrorView,
        >(peers[i]),
        failure is None ==> scan_items(peers, failure).len() == peers.len(),
        failure is Some ==> {
            &&& scan_items(peers, failure).len() == peers.len() + 1
            &&& scan_items(peers, failure)[peers.len() as int] == Err::<
                DiscoveredPeerView,
                BleErrorView,
            >(BleErrorView::Gatt(failure->0))
        },
{
}

/// What is seen of an item of a scan is its peer, or its error.
pub proof fn an_item_is_a_peer_or_an_error(peer: DiscoveredPeer, e: BleError)
    ensures
        scan_item_view(Ok(peer)) == Ok::<DiscoveredPeerView, BleErrorView>(peer@),
        scan_item_view(Err(e)) == Err::<DiscoveredPeerView, BleErrorView>(e@),
{
}

/// A write on the in-memory radio carries what its MTU leaves: two hundred and forty-four
/// bytes.
pub proof fn the_radio_has_its_mtu()
    ensures
        MOCK_ATT_MTU == 247,
        crate::backend::spec_max_write_len(MOCK_ATT_MTU) == 244,
{
}

} // verus!
