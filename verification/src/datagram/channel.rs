//! One end of a datagram channel: what it sends, what it makes of what arrives, and
//! when its link is gone.

use vstd::prelude::*;

use crate::backend::{ATT_HEADER_LEN, DEFAULT_ATT_MTU};
use crate::clock::Instant;
use crate::datagram::fragment::{split, FragmentHeader, FRAGMENT_HEADER_LEN, MAX_FRAGMENTS};
#[allow(unused_imports)]
use crate::datagram::fragment::{fragment, fragment_count, fragment_count_covers};
use crate::datagram::reassembly::{Accept, Reassembler};
#[allow(unused_imports)]
use crate::datagram::reassembly::{accept_step, unexpired, AcceptView, PartialView, ReassemblyLimits};
use crate::datagram::DatagramConfig;
use crate::error::BleError;
#[allow(unused_imports)]
use crate::error::BleErrorView;
use crate::models::{CharacteristicUuid, GattEvent, PeerAddress, Role, WriteType};
#[allow(unused_imports)]
use crate::models::GattEventView;
use crate::text::{append_decimal, owned};
#[allow(unused_imports)]
use crate::text::decimal;

verus! {

/// The payload budget of one fragment for a server, which has no connection to ask
/// for a negotiated MTU and so counts on the least that every link supports.
pub const PERIPHERAL_FRAGMENT_BUDGET: usize = 14;

/// The server's budget is what the least MTU leaves behind both headers.
pub proof fn peripheral_budget_fits_the_default_mtu()
    ensures
        PERIPHERAL_FRAGMENT_BUDGET + FRAGMENT_HEADER_LEN + ATT_HEADER_LEN == DEFAULT_ATT_MTU,
{
}

/// The configured ceiling, lowered to what the fragment budget can carry.
pub open spec fn spec_effective_max_message_len(configured: usize, fragment_budget: usize) -> int {
    if configured <= fragment_budget * MAX_FRAGMENTS {
        configured as int
    } else {
        fragment_budget * MAX_FRAGMENTS
    }
}

pub fn effective_max_message_len(configured: usize, fragment_budget: usize) -> (len: usize)
    ensures
        len == spec_effective_max_message_len(configured, fragment_budget),
{
    match fragment_budget.checked_mul(MAX_FRAGMENTS) {
        Some(capacity) => if configured <= capacity {
            configured
        } else {
            capacity
        },
        None => configured,
    }
}

pub open spec fn no_room_error() -> BleErrorView {
    BleErrorView::Gatt(
        "negotiated MTU leaves no room for payload after the "@ + decimal(
            FRAGMENT_HEADER_LEN as nat,
        ) + "-byte fragment header"@,
    )
}

/// The payload budget of one fragment on a connection whose largest write is
/// `max_write_len`, where the header leaves any.
pub fn fragment_budget_of(max_write_len: usize) -> (r: Result<usize, BleError>)
    ensures
        match r {
            Ok(budget) => budget > 0 && budget == max_write_len - FRAGMENT_HEADER_LEN,
            Err(e) => max_write_len <= FRAGMENT_HEADER_LEN && e@ == no_room_error(),
        },
{
    if max_write_len > FRAGMENT_HEADER_LEN {
        return Ok(max_write_len - FRAGMENT_HEADER_LEN);
    }
    let mut text = owned("negotiated MTU leaves no room for payload after the ");
    append_decimal(&mut text, FRAGMENT_HEADER_LEN as u64);
    text.append("-byte fragment header");
    Err(BleError::Gatt(text))
}

/// Whether two ways of naming a connection may mean the same one: a backend that
/// cannot tell connections apart names none, and then the address decides.
pub open spec fn sessions_agree(a: Option<u64>, b: Option<u64>) -> bool {
    a is None || b is None || a == b
}

pub fn same_session(a: Option<u64>, b: Option<u64>) -> (r: bool)
    ensures
        r == sessions_agree(a, b),
{
    match (a, b) {
        (Some(x), Some(y)) => x == y,
        _ => true,
    }
}

/// Whether `event` ends the connection to `peer` that this device dialled. A loss in
/// the other role or of an earlier connection does not; lost events do, since the
/// loss may have been among them.
pub open spec fn spec_ends_link(
    event: GattEventView,
    peer: Seq<char>,
    session: Option<u64>,
) -> bool {
    match event {
        GattEventView::Disconnected { peer: lost, local_role, session: of } => lost == peer
            && local_role == Role::Central && sessions_agree(of, session),
        GattEventView::Lagged { .. } => true,
        _ => false,
    }
}

pub fn ends_link(event: &GattEvent, peer: &PeerAddress, session: Option<u64>) -> (r: bool)
    ensures
        r == spec_ends_link(event@, peer@, session),
{
    match event {
        GattEvent::Disconnected { peer: lost, local_role, session: of } => {
            lost.same(peer) && *local_role == Role::Central && same_session(*of, session)
        },
        GattEvent::Lagged { .. } => true,
        _ => false,
    }
}

/// How a channel's fragments reach its peer.
#[derive(Debug, Clone, Copy, PartialEq, Eq, Structural)]
pub enum Sink {
    /// Written to the remote characteristic.
    Connection { write_type: WriteType },
    /// Notified to the one central that is served.
    Notify,
}

/// What closing a channel asks of the platform.
#[derive(Debug, Clone, Copy, PartialEq, Eq, Structural)]
pub enum CloseAction {
    /// Disconnect the connection that the channel owns.
    Disconnect,
    /// Nothing: the served central owns the link.
    Nothing,
}

/// An ordered, opaque-bytes channel to one peer.
pub struct DatagramChannel {
    peer: PeerAddress,
    session: Option<u64>,
    characteristic: CharacteristicUuid,
    sink: Sink,
    next_msg_id: u16,
    max_message_len: usize,
    fragment_budget: usize,
    reassembler: Reassembler,
    open: bool,
    lost: bool,
}

/// The contents of a `DatagramChannel`.
pub struct ChannelView {
    pub peer: Seq<char>,
    pub session: Option<u64>,
    pub characteristic: CharacteristicUuid,
    pub sink: Sink,
    pub next_msg_id: u16,
    pub max_message_len: usize,
    pub fragment_budget: usize,
    pub limits: ReassemblyLimits,
    pub partial: Map<u16, PartialView>,
    pub open: bool,
    /// Something that arrived was dropped, and the receiver was not told yet.
    pub lost: bool,
}

impl View for DatagramChannel {
    type V = ChannelView;

    closed spec fn view(&self) -> ChannelView {
        ChannelView {
            peer: self.peer@,
            session: self.session,
            characteristic: self.characteristic,
            sink: self.sink,
            next_msg_id: self.next_msg_id,
            max_message_len: self.max_message_len,
            fragment_budget: self.fragment_budget,
            limits: self.reassembler.spec_limits(),
            partial: self.reassembler@,
            open: self.open,
            lost: self.lost,
        }
    }
}

pub open spec fn too_long_error(len: nat, limit: nat) -> BleErrorView {
    BleErrorView::Gatt(
        "message of "@ + decimal(len) + " bytes exceeds the "@ + decimal(limit)
            + "-byte limit for this channel"@,
    )
}

pub open spec fn inbound_overflow_error() -> BleErrorView {
    BleErrorView::Gatt("inbound queue overflowed: at least one message is lost"@)
}

/// A fresh channel as `config` and a fragment budget make it.
pub open spec fn fresh_channel(
    peer: Seq<char>,
    session: Option<u64>,
    config: &DatagramConfig,
    sink: Sink,
    budget: usize,
) -> ChannelView {
    ChannelView {
        peer,
        session,
        characteristic: config.characteristic,
        sink,
        next_msg_id: 0,
        max_message_len: spec_effective_max_message_len(config.max_message_len, budget) as usize,
        fragment_budget: budget,
        limits: config.spec_limits(),
        partial: Map::empty(),
        open: true,
        lost: false,
    }
}

impl ChannelView {
    /// What a fragment that arrived does to the channel, and the message that it
    /// completes, if it does. A buffer too short for a header is a foreign write and
    /// changes nothing.
    pub open spec fn after(self, raw: Seq<u8>, now: Instant) -> (ChannelView, Option<Seq<u8>>) {
        if raw.len() < FRAGMENT_HEADER_LEN {
            (self, None)
        } else {
            let (partial, result) = accept_step(
                self.limits,
                self.partial,
                FragmentHeader::decoded(raw),
                raw.skip(FRAGMENT_HEADER_LEN as int),
                now,
            );
            (
                ChannelView { partial, ..self },
                match result {
                    AcceptView::Complete(message) => Some(message),
                    _ => None,
                },
            )
        }
    }
}

impl DatagramChannel {
    /// The channel can carry what it says it can, and its reassembly is in bounds.
    pub closed spec fn wf(&self) -> bool {
        &&& self.reassembler.wf()
        &&& self.fragment_budget > 0
        &&& self.max_message_len <= self.fragment_budget * MAX_FRAGMENTS
    }

    /// Central role: the channel over a connection to `peer` whose largest write is
    /// `max_write_len`.
    pub fn over_connection(
        peer: PeerAddress,
        session: Option<u64>,
        config: &DatagramConfig,
        max_write_len: usize,
    ) -> (r: Result<DatagramChannel, BleError>)
        ensures
            match r {
                Ok(channel) => {
                    &&& max_write_len > FRAGMENT_HEADER_LEN
                    &&& channel.wf()
                    &&& channel@ == fresh_channel(
                        peer@,
                        session,
                        config,
                        Sink::Connection { write_type: config.write_type },
                        (max_write_len - FRAGMENT_HEADER_LEN) as usize,
                    )
                },
                Err(e) => max_write_len <= FRAGMENT_HEADER_LEN && e@ == no_room_error(),
            },
    {
        match fragment_budget_of(max_write_len) {
            Ok(budget) => Ok(
                DatagramChannel::with_budget(
                    peer,
                    session,
                    config,
                    Sink::Connection { write_type: config.write_type },
                    budget,
                ),
            ),
            Err(e) => Err(e),
        }
    }

    /// Peripheral role: the channel to the one central that is served.
    pub fn to_served_central(
        peer: PeerAddress,
        session: Option<u64>,
        config: &DatagramConfig,
    ) -> (channel: DatagramChannel)
        ensures
            channel.wf(),
            channel@ == fresh_channel(
                peer@,
                session,
                config,
                Sink::Notify,
                PERIPHERAL_FRAGMENT_BUDGET,
            ),
    {
        DatagramChannel::with_budget(
            peer,
            session,
            config,
            Sink::Notify,
            PERIPHERAL_FRAGMENT_BUDGET,
        )
    }

    fn with_budget(
        peer: PeerAddress,
        session: Option<u64>,
        config: &DatagramConfig,
        sink: Sink,
        budget: usize,
    ) -> (channel: DatagramChannel)
        requires
            budget > 0,
        ensures
            channel.wf(),
            channel@ == fresh_channel(peer@, session, config, sink, budget),
    {
        DatagramChannel {
            peer,
            session,
            characteristic: config.characteristic,
            sink,
            next_msg_id: 0,
            max_message_len: effective_max_message_len(config.max_message_len, budget),
            fragment_budget: budget,
            reassembler: Reassembler::new(config.limits()),
            open: true,
            lost: false,
        }
    }

    pub fn peer(&self) -> (r: PeerAddress)
        ensures
            r@ == self@.peer,
    {
        self.peer.clone()
    }

    pub fn session(&self) -> (r: Option<u64>)
        ensures
            r == self@.session,
    {
        self.session
    }

    pub fn characteristic(&self) -> (r: CharacteristicUuid)
        ensures
            r == self@.characteristic,
    {
        self.characteristic
    }

    pub fn sink(&self) -> (r: Sink)
        ensures
            r == self@.sink,
    {
        self.sink
    }

    /// Largest payload that a single `send` accepts on this channel. It may be lower
    /// than the configured limit: a message also has to fit in the fragments that one
    /// message can have.
    pub fn max_message_len(&self) -> (r: usize)
        requires
            self.wf(),
        ensures
            r == self@.max_message_len,
            r <= self@.fragment_budget * MAX_FRAGMENTS,
    {
        self.max_message_len
    }

    /// Payload bytes per fragment on this channel.
    pub fn fragment_budget(&self) -> (r: usize)
        ensures
            r == self@.fragment_budget,
    {
        self.fragment_budget
    }

    /// The fragments that carry `payload`, in the order to transmit them. Every
    /// payload within the channel's own limit can be sent while its link is up; one beyond it
    /// is refused for its size, whether or not the link is.
    pub fn send(&mut self, payload: Vec<u8>) -> (r: Result<Vec<Vec<u8>>, BleError>)
        requires
            old(self).wf(),
        ensures
            final(self).wf(),
            match r {
                Err(e) => {
                    &&& final(self)@ == old(self)@
                    &&& if payload@.len() > old(self)@.max_message_len {
                        e@ == too_long_error(payload@.len(), old(self)@.max_message_len as nat)
                    } else {
                        !old(self)@.open && e@ == BleErrorView::NotConnected(old(self)@.peer)
                    }
                },
                Ok(fragments) => {
                    let budget = old(self)@.fragment_budget as nat;
                    &&& old(self)@.open
                    &&& payload@.len() <= old(self)@.max_message_len
                    &&& final(self)@ == (ChannelView {
                        next_msg_id: if old(self)@.next_msg_id == u16::MAX {
                            0
                        } else {
                            (old(self)@.next_msg_id + 1) as u16
                        },
                        ..old(self)@
                    })
                    &&& fragments@.len() == fragment_count(payload@.len(), budget)
                    &&& forall|i: int|
                        #![trigger fragments@[i]]
                        0 <= i < fragments@.len() ==> fragments@[i]@ == fragment(
                            old(self)@.next_msg_id,
                            payload@,
                            budget,
                            i as nat,
                        )
                },
            },
    {
        if payload.len() > self.max_message_len {
            let mut text = owned("message of ");
            append_decimal(&mut text, payload.len() as u64);
            text.append(" bytes exceeds the ");
            append_decimal(&mut text, self.max_message_len as u64);
            text.append("-byte limit for this channel");
            return Err(BleError::Gatt(text));
        }
        if !self.open {
            return Err(BleError::NotConnected(self.peer.0.clone()));
        }
        let msg_id = self.next_msg_id;
        proof {
            payload_within_the_limit_splits(payload@.len(), self.fragment_budget as nat);
        }
        let fragments = split(msg_id, payload.as_slice(), self.fragment_budget);
        self.next_msg_id = msg_id.wrapping_add(1);
        fragments
    }

    /// Takes a fragment that arrived, and gives the message that it completes. One
    /// that is malformed or breaks a bound is dropped, and the channel stays usable.
    pub fn recv(&mut self, raw: &[u8], now: Instant) -> (r: Option<Vec<u8>>)
        requires
            old(self).wf(),
        ensures
            final(self).wf(),
            ({
                let (next, message) = old(self)@.after(raw@, now);
                &&& final(self)@ == next
                &&& r is Some <==> message is Some
                &&& r matches Some(m) ==> message == Some(m@)
            }),
    {
        match FragmentHeader::parse(raw) {
            None => None,
            Some((header, payload)) => match self.reassembler.accept(header, payload, now) {
                Accept::Complete(message) => Some(message),
                Accept::Pending => None,
                Accept::Rejected(_) => None,
            },
        }
    }

    /// Takes an item of a subscription. A gap that the backend reports reaches the
    /// receiver as an error, and the channel goes on.
    pub fn inbound(&mut self, item: Result<Vec<u8>, BleError>, now: Instant) -> (r: Option<
        Result<Vec<u8>, BleError>,
    >)
        requires
            old(self).wf(),
        ensures
            final(self).wf(),
            match item {
                Err(e) => final(self)@ == old(self)@ && r == Some(Err::<Vec<u8>, BleError>(e)),
                Ok(raw) => {
                    let (next, message) = old(self)@.after(raw@, now);
                    &&& final(self)@ == next
                    &&& match message {
                        Some(m) => r matches Some(Ok(got)) && got@ == m,
                        None => r is None,
                    }
                },
            },
    {
        match item {
            Err(e) => Some(Err(e)),
            Ok(raw) => match self.recv(raw.as_slice(), now) {
                Some(message) => Some(Ok(message)),
                None => None,
            },
        }
    }

    /// A fragment or a message was handed to a queue in front of the receiver, which took it
    /// or was full. The sender's writes were acknowledged before, so that nobody but the
    /// receiver can be told of what is dropped.
    pub fn on_offer(&mut self, taken: bool)
        requires
            old(self).wf(),
        ensures
            final(self).wf(),
            final(self)@ == (ChannelView { lost: old(self)@.lost || !taken, ..old(self)@ }),
    {
        if !taken {
            self.lost = true;
        }
    }

    /// What the receiver is told ahead of what still waits: once, that something was
    /// dropped.
    pub fn report(&mut self) -> (r: Option<BleError>)
        requires
            old(self).wf(),
        ensures
            final(self).wf(),
            final(self)@ == (ChannelView { lost: false, ..old(self)@ }),
            r is Some <==> old(self)@.lost,
            r matches Some(e) ==> e@ == inbound_overflow_error(),
    {
        if self.lost {
            self.lost = false;
            Some(BleError::Gatt(owned("inbound queue overflowed: at least one message is lost")))
        } else {
            None
        }
    }

    /// Drops what has expired, on a channel where nothing arrives.
    pub fn expire(&mut self, now: Instant)
        requires
            old(self).wf(),
        ensures
            final(self).wf(),
            final(self)@ == (ChannelView {
                partial: unexpired(
                    old(self)@.partial,
                    old(self)@.limits.reassembly_timeout,
                    now,
                ),
                ..old(self)@
            }),
    {
        self.reassembler.expire(now);
    }

    /// The link is gone: nothing can be sent any more.
    pub fn link_lost(&mut self)
        requires
            old(self).wf(),
        ensures
            final(self).wf(),
            final(self)@ == (ChannelView { open: false, ..old(self)@ }),
    {
        self.open = false;
    }

    /// What closing the channel takes. A central owns its connection and disconnects
    /// it; a served central's link is not the server's to end.
    pub fn close(&self) -> (r: CloseAction)
        ensures
            r == if self@.sink is Notify {
                CloseAction::Nothing
            } else {
                CloseAction::Disconnect
            },
    {
        match self.sink {
            Sink::Connection { .. } => CloseAction::Disconnect,
            Sink::Notify => CloseAction::Nothing,
        }
    }
}

/// A payload within what `MAX_FRAGMENTS` fragments can carry never needs more of
/// them: whatever limit a channel reports, it can send.
pub proof fn payload_within_the_limit_splits(len: nat, budget: nat)
    requires
        budget > 0,
        len <= budget * MAX_FRAGMENTS,
    ensures
        fragment_count(len, budget) <= MAX_FRAGMENTS,
{
    fragment_count_covers(len, budget);
    if len > 0 {
        let count = fragment_count(len, budget) as int;
        let b = budget as int;
        assert(count <= MAX_FRAGMENTS) by (nonlinear_arith)
            requires
                (count - 1) * b < len,
                len <= b * MAX_FRAGMENTS,
                b > 0,
        ;
    }
}

/// A loss that belongs to another connection leaves this one up: another peer's,
/// another session's, or one in the other role.
pub proof fn a_foreign_loss_does_not_end_the_link(
    lost: Seq<char>,
    local_role: Role,
    of: u64,
    peer: Seq<char>,
    session: u64,
)
    requires
        lost != peer || local_role != Role::Central || of != session,
    ensures
        !spec_ends_link(
            GattEventView::Disconnected { peer: lost, local_role, session: Some(of) },
            peer,
            Some(session),
        ),
{
}

/// A fresh channel's limit is the largest length that is within the configured maximum and
/// can be split: a payload of any length is within it exactly if both hold.
pub proof fn a_channel_takes_all_that_is_configured_and_can_be_split(
    peer: Seq<char>,
    session: Option<u64>,
    config: &DatagramConfig,
    sink: Sink,
    budget: usize,
    len: nat,
)
    requires
        budget > 0,
    ensures
        len <= fresh_channel(peer, session, config, sink, budget).max_message_len <==> {
            &&& len <= config.max_message_len
            &&& fragment_count(len, budget as nat) <= MAX_FRAGMENTS
        },
{
    crate::datagram::fragment::a_message_takes_the_fewest_fragments(
        len,
        budget as nat,
        MAX_FRAGMENTS as nat,
    );
    assert(MAX_FRAGMENTS * budget == budget * MAX_FRAGMENTS) by (nonlinear_arith);
}

/// A fresh channel speaks to the peer, the connection and the characteristic that it was
/// made for, in fragments that fit the connection's writes; it is up, and starts with
/// message zero, nothing in flight and nothing lost. It bounds reassembly as configured.
pub proof fn a_fresh_channel_is_made_as_asked(
    peer: Seq<char>,
    session: Option<u64>,
    config: &DatagramConfig,
    sink: Sink,
    budget: usize,
)
    ensures
        ({
            let channel = fresh_channel(peer, session, config, sink, budget);
            &&& channel.peer == peer
            &&& channel.session == session
            &&& channel.characteristic == config.characteristic
            &&& channel.sink == sink
            &&& channel.fragment_budget == budget
            &&& channel.next_msg_id == 0
            &&& channel.open && !channel.lost
            &&& forall|id: u16| !(#[trigger] channel.partial.contains_key(id))
            &&& channel.limits.max_message_len == config.max_message_len
            &&& channel.limits.reassembly_timeout == config.reassembly_timeout
            &&& channel.limits.max_concurrent_reassemblies == config.max_concurrent_reassemblies
        }),
{
}

/// A dialled link ends with the loss of its own connection, and with lost events, among
/// which that loss may have been. Where either side cannot tell connections apart, the
/// address decides. Nothing else ends it.
pub proof fn a_link_ends_with_its_own_loss(
    peer: Seq<char>,
    session: Option<u64>,
    dropped: u64,
    event: GattEventView,
)
    ensures
        spec_ends_link(
            GattEventView::Disconnected { peer, local_role: Role::Central, session },
            peer,
            session,
        ),
        spec_ends_link(
            GattEventView::Disconnected { peer, local_role: Role::Central, session: None },
            peer,
            session,
        ),
        spec_ends_link(
            GattEventView::Disconnected { peer, local_role: Role::Central, session },
            peer,
            None,
        ),
        spec_ends_link(GattEventView::Lagged { dropped }, peer, session),
        event !is Disconnected && event !is Lagged ==> !spec_ends_link(event, peer, session),
{
}

/// Two named connections agree only if they are the same one, and one without a name agrees
/// with any.
pub proof fn sessions_are_told_apart_by_name(a: u64, b: u64, any: Option<u64>)
    ensures
        sessions_agree(Some(a), Some(b)) <==> a == b,
        sessions_agree(None, any) && sessions_agree(any, None),
{
}

/// What arrives touches only what is in flight: a channel keeps its peer, its limits, its
/// next id and whether it is up. A write too short for a header changes nothing at all.
pub proof fn an_arrival_touches_only_what_is_in_flight(
    channel: ChannelView,
    raw: Seq<u8>,
    now: Instant,
)
    ensures
        ({
            let (next, message) = channel.after(raw, now);
            &&& next.peer == channel.peer
            &&& next.session == channel.session
            &&& next.characteristic == channel.characteristic
            &&& next.sink == channel.sink
            &&& next.next_msg_id == channel.next_msg_id
            &&& next.max_message_len == channel.max_message_len
            &&& next.fragment_budget == channel.fragment_budget
            &&& next.limits == channel.limits
            &&& next.open == channel.open
            &&& next.lost == channel.lost
            &&& raw.len() < 6 ==> next.partial == channel.partial && message is None
        }),
{
}

/// What a sender and a receiver are told: how long the message is and how long it may be,
/// how much the header takes, and that something was lost.
pub proof fn a_channel_says_what_is_wrong(len: nat, limit: nat)
    ensures
        too_long_error(len, limit) == BleErrorView::Gatt(
            "message of "@ + decimal(len) + " bytes exceeds the "@ + decimal(limit)
                + "-byte limit for this channel"@,
        ),
        no_room_error() == BleErrorView::Gatt(
            "negotiated MTU leaves no room for payload after the "@ + decimal(6)
                + "-byte fragment header"@,
        ),
        inbound_overflow_error() == BleErrorView::Gatt(
            "inbound queue overflowed: at least one message is lost"@,
        ),
{
}

} // verus!
