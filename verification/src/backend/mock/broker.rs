//! The broker: what each request of a client does to the one network that its clients
//! share, and what is left behind when a client goes.

use vstd::prelude::*;

use crate::backend::mock::local::{contains_peer, Emission, MockNetwork, Notification};
#[allow(unused_imports)]
use crate::backend::mock::local::{
    emissions, notifications, EmissionView, NetworkView, NotificationView,
};
use crate::backend::mock::wire::{Envelope, Frame, Push, Request, Response};
#[allow(unused_imports)]
use crate::backend::mock::wire::ResponseView;
use crate::error::BleError;
#[allow(unused_imports)]
use crate::error::BleErrorView;
use crate::models::{CharacteristicUuid, GattEvent, PeerAddress};
#[allow(unused_imports)]
use crate::models::addresses;

verus! {

/// What a broker remembers of one client: the addresses that it registered, each once.
pub struct ClientConnection {
    pub owned_addresses: Vec<PeerAddress>,
}

/// A stream that must be forwarded to a client from now on.
pub enum Forward {
    /// The events of an address.
    Events { address: PeerAddress },
    /// The items of a subscription, under the client's id for it.
    Items {
        peripheral: PeerAddress,
        central: PeerAddress,
        characteristic: CharacteristicUuid,
        subscription_id: u64,
    },
}

/// The outcome of a request: its response, and what it causes elsewhere.
pub struct Dispatched {
    pub response: Response,
    pub emissions: Vec<Emission>,
    pub notifications: Vec<Notification>,
    pub forward: Option<Forward>,
}

/// The response to an operation without a value.
pub open spec fn unit_response(refusal: Option<BleErrorView>) -> ResponseView {
    match refusal {
        None => ResponseView::Unit,
        Some(e) => ResponseView::Failed(e),
    }
}

/// The refusal in a response.
pub open spec fn refusal_of(response: ResponseView) -> Option<BleErrorView> {
    match response {
        ResponseView::Failed(e) => Some(e),
        _ => None,
    }
}

/// The session in a response, or its error.
pub open spec fn session_of(response: ResponseView) -> Result<u64, BleErrorView> {
    match response {
        ResponseView::Session(session) => Ok(session),
        ResponseView::Failed(e) => Err(e),
        _ => Err(BleErrorView::PeripheralUnsupported),
    }
}

fn unit(r: Result<(), BleError>) -> (response: Response)
    ensures
        response@ == unit_response(crate::backend::mock::local::refused(r)),
{
    match r {
        Ok(()) => Response::Unit,
        Err(e) => Response::Failed(e),
    }
}

fn quiet(response: Response) -> (d: Dispatched)
    ensures
        d.response == response,
        emissions(d.emissions@) == Seq::<EmissionView>::empty(),
        notifications(d.notifications@) == Seq::<NotificationView>::empty(),
        d.forward is None,
{
    let d = Dispatched {
        response,
        emissions: Vec::new(),
        notifications: Vec::new(),
        forward: None,
    };
    assert(emissions(d.emissions@) =~= Seq::<EmissionView>::empty());
    assert(notifications(d.notifications@) =~= Seq::<NotificationView>::empty());
    d
}

impl ClientConnection {
    pub fn new() -> (r: Self)
        ensures
            r.owned_addresses@.len() == 0,
    {
        ClientConnection { owned_addresses: Vec::new() }
    }

    /// Runs a request against the network. A client sees exactly what it would see of a
    /// network in its own process.
    pub fn dispatch(&mut self, request: Request, network: &mut MockNetwork) -> (d: Dispatched)
        ensures
            (request !is RegisterAddress) ==> final(self).owned_addresses@ == old(
                self,
            ).owned_addresses@,
            (request !is RegisterAddress && request !is Subscribe) ==> d.forward is None,
            (request !is Notify && request !is NotifyPeer) ==> notifications(d.notifications@)
                == Seq::<NotificationView>::empty(),
            match request {
                Request::RegisterAddress { address } => {
                    let before = addresses(old(self).owned_addresses@);
                    &&& d.response@ == ResponseView::Unit
                    &&& d.forward == Some(Forward::Events { address })
                    &&& emissions(d.emissions@) == Seq::<EmissionView>::empty()
                    &&& final(network)@ == (NetworkView {
                        registered: old(network)@.registered.insert(address@),
                        ..old(network)@
                    })
                    &&& addresses(final(self).owned_addresses@) == if before.contains(address@) {
                        before
                    } else {
                        before.push(address@)
                    }
                },
                Request::Scan { requester, service } => {
                    &&& emissions(d.emissions@) == Seq::<EmissionView>::empty()
                    &&& d.response@ matches ResponseView::ScanSnapshot { peers, armed_failure }
                    &&& old(network)@.did_scan(
                        final(network)@,
                        requester@,
                        service,
                        peers,
                        armed_failure,
                    )
                },
                Request::Connect { central, peer } => {
                    &&& d.response@ is Session || d.response@ is Failed
                    &&& old(network)@.did_connect(
                        final(network)@,
                        central@,
                        peer@,
                        session_of(d.response@),
                        emissions(d.emissions@),
                    )
                },
                Request::Advertise { address, service } => {
                    &&& d.response@ == ResponseView::Unit
                    &&& emissions(d.emissions@) == Seq::<EmissionView>::empty()
                    &&& final(network)@ == old(network)@.advertising(address@, service@)
                },
                Request::StopAdvertising { address } => {
                    &&& d.response@ == ResponseView::Unit
                    &&& old(network)@.did_stop(
                        final(network)@,
                        address@,
                        emissions(d.emissions@),
                    )
                },
                Request::Notify { address, characteristic, value } => {
                    &&& final(network)@ == old(network)@
                    &&& emissions(d.emissions@) == Seq::<EmissionView>::empty()
                    &&& d.response@ is Unit || d.response@ is Failed
                    &&& old(network)@.did_notify(
                        address@,
                        characteristic,
                        value@,
                        refusal_of(d.response@),
                        notifications(d.notifications@),
                    )
                },
                Request::NotifyPeer { address, peer, session, characteristic, value } => {
                    &&& final(network)@ == old(network)@
                    &&& emissions(d.emissions@) == Seq::<EmissionView>::empty()
                    &&& match old(network)@.notifies_peer(
                        address@,
                        peer@,
                        session,
                        characteristic,
                        value@,
                    ) {
                        Ok(sent) => {
                            &&& d.response@ == ResponseView::Unit
                            &&& notifications(d.notifications@) == seq![sent]
                        },
                        Err(e) => {
                            &&& d.response@ == ResponseView::Failed(e)
                            &&& notifications(d.notifications@) == Seq::<NotificationView>::empty()
                        },
                    }
                },
                Request::DisconnectPeer { address, peer, session } => {
                    &&& d.response@ == ResponseView::Unit
                    &&& old(network)@.did_disconnect_peer(
                        final(network)@,
                        address@,
                        peer@,
                        session,
                        emissions(d.emissions@),
                    )
                },
                Request::Read { session, central, peripheral, characteristic } => {
                    &&& final(network)@ == old(network)@
                    &&& emissions(d.emissions@) == Seq::<EmissionView>::empty()
                    &&& d.response@ == match old(network)@.reads(
                        session,
                        central@,
                        peripheral@,
                        characteristic,
                    ) {
                        Ok(bytes) => ResponseView::Bytes(bytes),
                        Err(e) => ResponseView::Failed(e),
                    }
                },
                Request::WriteWithType {
                    session,
                    central,
                    peripheral,
                    characteristic,
                    value,
                    write_type,
                } => {
                    &&& d.response@ is Unit || d.response@ is Failed
                    &&& old(network)@.did_write(
                        final(network)@,
                        session,
                        central@,
                        peripheral@,
                        characteristic,
                        value@,
                        refusal_of(d.response@),
                        emissions(d.emissions@),
                    )
                },
                Request::Subscribe {
                    session,
                    central,
                    peripheral,
                    characteristic,
                    subscription_id,
                } => {
                    &&& d.response@ is Unit || d.response@ is Failed
                    &&& d.forward == if d.response@ is Unit {
                        Some(
                            Forward::Items { peripheral, central, characteristic, subscription_id },
                        )
                    } else {
                        None
                    }
                    &&& if old(network)@.is_current(session, central@, peripheral@) {
                        old(network)@.did_subscribe(
                            final(network)@,
                            session,
                            central@,
                            peripheral@,
                            characteristic,
                            refusal_of(d.response@),
                            emissions(d.emissions@),
                        )
                    } else {
                        &&& d.response@ == ResponseView::Failed(
                            BleErrorView::NotConnected(peripheral@),
                        )
                        &&& final(network)@ == old(network)@
                        &&& emissions(d.emissions@) == Seq::<EmissionView>::empty()
                    }
                },
                Request::Disconnect { session, central, peripheral } => {
                    &&& d.response@ is Unit || d.response@ is Failed
                    &&& old(network)@.did_disconnect(
                        final(network)@,
                        session,
                        central@,
                        peripheral@,
                        refusal_of(d.response@),
                        emissions(d.emissions@),
                    )
                },
            },
    {
        match request {
            Request::RegisterAddress { address } => {
                let ghost before = self.owned_addresses@;
                if !contains_peer(&self.owned_addresses, &address) {
                    self.owned_addresses.push(address.clone());
                    assert(addresses(self.owned_addresses@) =~= addresses(before).push(address@));
                }
                network.register_events_sender(address.clone());
                let mut d = quiet(Response::Unit);
                d.forward = Some(Forward::Events { address });
                d
            },
            Request::Scan { requester, service } => {
                let (peers, armed_failure) = network.scan(&requester, service);
                quiet(Response::ScanSnapshot { peers, armed_failure })
            },
            Request::Connect { central, peer } => {
                let (r, out) = network.connect(&central, &peer);
                let mut d = quiet(
                    match r {
                        Ok(session) => Response::Session(session),
                        Err(e) => Response::Failed(e),
                    },
                );
                d.emissions = out;
                d
            },
            Request::Advertise { address, service } => {
                network.advertise(&address, service);
                quiet(Response::Unit)
            },
            Request::StopAdvertising { address } => {
                let mut d = quiet(Response::Unit);
                d.emissions = network.stop_advertising(&address);
                d
            },
            Request::Notify { address, characteristic, value } => {
                let (r, sent) = network.notify(&address, characteristic, value);
                let mut d = quiet(unit(r));
                d.notifications = sent;
                d
            },
            Request::NotifyPeer { address, peer, session, characteristic, value } => {
                match network.notify_peer(&address, &peer, session, characteristic, value) {
                    Ok(sent) => {
                        let ghost shown = sent@;
                        let mut d = quiet(Response::Unit);
                        d.notifications.push(sent);
                        assert(notifications(d.notifications@) =~= seq![shown]);
                        d
                    },
                    Err(e) => quiet(Response::Failed(e)),
                }
            },
            Request::DisconnectPeer { address, peer, session } => {
                let mut d = quiet(Response::Unit);
                d.emissions = network.disconnect_peer(&address, &peer, session);
                d
            },
            Request::Read { session, central, peripheral, characteristic } => {
                match network.read(session, &central, &peripheral, characteristic) {
                    Ok(bytes) => quiet(Response::Bytes(bytes)),
                    Err(e) => quiet(Response::Failed(e)),
                }
            },
            Request::WriteWithType {
                session,
                central,
                peripheral,
                characteristic,
                value,
                write_type,
            } => {
                let (r, out) = network.write_with_type(
                    session,
                    &central,
                    &peripheral,
                    characteristic,
                    value,
                    write_type,
                );
                let mut d = quiet(unit(r));
                d.emissions = out;
                d
            },
            Request::Subscribe {
                session,
                central,
                peripheral,
                characteristic,
                subscription_id,
            } => {
                // No client can stall a broker's subscriptions, so the two halves of one
                // follow each other at once.
                match network.begin_subscribe(session, &central, &peripheral) {
                    Err(e) => return quiet(Response::Failed(e)),
                    Ok(_) => {},
                }
                let (r, out) = network.subscribe(session, &central, &peripheral, characteristic);
                let subscribed: bool = r.is_ok();
                let mut d = quiet(unit(r));
                d.emissions = out;
                if subscribed {
                    d.forward = Some(
                        Forward::Items { peripheral, central, characteristic, subscription_id },
                    );
                }
                d
            },
            Request::Disconnect { session, central, peripheral } => {
                let (r, out) = network.disconnect(session, &central, &peripheral);
                let mut d = quiet(unit(r));
                d.emissions = out;
                d
            },
        }
    }

    /// The client is gone without a word: everything that it owned is taken down, address
    /// by address, so that the survivors learn of it.
    pub fn handle_disconnect(&self, network: &mut MockNetwork) -> (out: Vec<Vec<Emission>>)
        ensures
            final(network)@ == swept_all(old(network)@, addresses(self.owned_addresses@)),
            out@.len() == self.owned_addresses@.len(),
            forall|i: int|
                #![trigger out@[i]]
                0 <= i < out@.len() ==> swept_all(
                    old(network)@,
                    addresses(self.owned_addresses@).take(i),
                ).did_sweep(
                    swept_all(old(network)@, addresses(self.owned_addresses@).take(i + 1)),
                    self.owned_addresses@[i]@,
                    emissions(out@[i]@),
                ),
    {
        let mut out: Vec<Vec<Emission>> = Vec::new();
        let ghost owned = addresses(self.owned_addresses@);
        let mut i: usize = 0;
        assert(owned.take(0) =~= seq![]);
        while i < self.owned_addresses.len()
            invariant
                i <= self.owned_addresses@.len(),
                owned == addresses(self.owned_addresses@),
                out@.len() == i,
                network@ == swept_all(old(network)@, owned.take(i as int)),
                forall|k: int|
                    #![trigger out@[k]]
                    0 <= k < i ==> swept_all(old(network)@, owned.take(k)).did_sweep(
                        swept_all(old(network)@, owned.take(k + 1)),
                        self.owned_addresses@[k]@,
                        emissions(out@[k]@),
                    ),
            decreases self.owned_addresses.len() - i,
        {
            let told = network.disconnect_all_for(&self.owned_addresses[i]);
            proof {
                let more = owned.take(i + 1);
                assert(more.drop_last() =~= owned.take(i as int));
                assert(more.last() == self.owned_addresses@[i as int]@);
            }
            out.push(told);
            i = i + 1;
        }
        assert(owned.take(i as int) =~= owned);
        out
    }
}

/// The network without any of `gone`.
pub open spec fn swept_all(network: NetworkView, gone: Seq<Seq<char>>) -> NetworkView
    decreases gone.len(),
{
    if gone.len() == 0 {
        network
    } else {
        swept_all(network, gone.drop_last()).swept(gone.last())
    }
}

/// The request in a frame. A client sends nothing else; anything else is skipped.
pub fn requested(frame: Frame) -> (r: Option<Request>)
    ensures
        r == match frame {
            Frame::Req(request) => Some(request),
            _ => None,
        },
{
    match frame {
        Frame::Req(request) => Some(request),
        _ => None,
    }
}

/// The envelope that answers a request, if anybody waits for it.
pub fn answer(correlation_id: u64, response: Response) -> (r: Option<Envelope>)
    ensures
        r == if correlation_id == 0 {
            None
        } else {
            Some(Envelope { correlation_id, frame: Frame::Resp(response) })
        },
{
    if correlation_id == 0 {
        None
    } else {
        Some(Envelope { correlation_id, frame: Frame::Resp(response) })
    }
}

/// The envelope that carries an event of `address` to its client. Events that the
/// forwarder itself missed are passed on as a lag rather than swallowed.
pub fn push_event(address: &PeerAddress, next: Result<GattEvent, u64>) -> (r: Envelope)
    ensures
        r.correlation_id == 0,
        r.frame matches Frame::Push(Push::Event { address: to, event }) && to@ == address@ && event
            == match next {
            Ok(event) => event,
            Err(dropped) => GattEvent::Lagged { dropped },
        },
{
    let event = match next {
        Ok(event) => event,
        Err(dropped) => GattEvent::Lagged { dropped },
    };
    Envelope { correlation_id: 0, frame: Frame::Push(Push::Event { address: address.clone(), event }) }
}

/// The envelope that carries an item of a subscription to its client.
pub fn push_item(subscription_id: u64, item: Result<Vec<u8>, BleError>) -> (r: Envelope)
    ensures
        r == (Envelope {
            correlation_id: 0,
            frame: Frame::Push(Push::NotifyItem { subscription_id, item }),
        }),
{
    Envelope { correlation_id: 0, frame: Frame::Push(Push::NotifyItem { subscription_id, item }) }
}

/// A client's refusal and its success are told apart, and nothing of a refusal is lost on the
/// way: what is put into a response is what is taken out of it.
pub proof fn a_response_says_what_became_of_a_request(e: BleErrorView, session: u64)
    ensures
        unit_response(None) == ResponseView::Unit,
        refusal_of(unit_response(None)) is None,
        refusal_of(unit_response(Some(e))) == Some(e),
        session_of(ResponseView::Session(session)) == Ok::<u64, BleErrorView>(session),
        session_of(ResponseView::Failed(e)) == Err::<u64, BleErrorView>(e),
        refusal_of(ResponseView::Session(session)) is None,
{
}

/// Nothing is left of any address of a client that went away, and nobody else is touched:
/// what others have on the air and the links between them stay.
pub proof fn a_client_that_went_away_leaves_nothing(
    network: NetworkView,
    gone: Seq<Seq<char>>,
    i: int,
    central: Seq<char>,
    peripheral: Seq<char>,
)
    ensures
        ({
            let next = swept_all(network, gone);
            &&& 0 <= i < gone.len() ==> {
                &&& !next.peripherals.contains_key(gone[i])
                &&& !next.live.contains_key((gone[i], peripheral))
            }
            &&& !gone.contains(peripheral) ==> (next.peripherals.contains_key(peripheral)
                <==> network.peripherals.contains_key(peripheral))
            &&& !gone.contains(peripheral) && network.peripherals.contains_key(peripheral)
                ==> next.peripherals[peripheral].values == network.peripherals[peripheral].values
            &&& !gone.contains(central) ==> next.live.get((central, peripheral))
                == network.live.get((central, peripheral))
        }),
    decreases gone.len(),
{
    if gone.len() > 0 {
        let front = gone.drop_last();
        a_client_that_went_away_leaves_nothing(network, front, i, central, peripheral);
        assert(gone[gone.len() - 1] == gone.last());
        if front.contains(peripheral) {
            let k = choose|k: int| 0 <= k < front.len() && front[k] == peripheral;
            assert(gone[k] == peripheral);
        }
        if front.contains(central) {
            let k = choose|k: int| 0 <= k < front.len() && front[k] == central;
            assert(gone[k] == central);
        }
        if 0 <= i < front.len() {
            assert(front[i] == gone[i]);
        }
    }
}

} // verus!
