//! The driver of all links: what each command, event and tick does to the tracked peers,
//! and what it asks for.
//!
//! A turn of the driver takes one input, dials whoever may be dialled now, and publishes
//! the statuses that have changed.

use vstd::prelude::*;

use crate::assoc::AssocMap;
#[allow(unused_imports)]
use crate::assoc::{among, among_step, count_of, counted, Key};
use crate::backend::link_state::{CentralEvent, CentralLink, RadioEvent, RadioState, Session};
#[allow(unused_imports)]
use crate::backend::link_state::{radio_effects, radio_next};
use crate::clock::Instant;
use crate::error::BleError;
#[allow(unused_imports)]
use crate::error::BleErrorView;
use crate::models::{GattEvent, PeerAddress, RadioStatus, Role};
#[allow(unused_imports)]
use crate::models::{addresses, GattEventView};
use crate::peer_link::peer::Peer;
use crate::peer_link::{LinkId, PeerLinkConfig, PeerLinkEvent, PeerStatus};
#[allow(unused_imports)]
use crate::peer_link::PeerLinkEventView;
use crate::text::{comes_before, owned};
#[allow(unused_imports)]
use crate::text::{text_before, text_order_is_transitive, texts_are_ordered};

verus! {

/// Something that the driver asks for.
pub enum LinkAction {
    /// Tell the consumer.
    Emit(PeerLinkEvent),
    /// Dial a peer, and report the outcome.
    Dial { peer: PeerAddress, session: Session },
    /// Take the link to a peer down, which disconnects it.
    DropLink { peer: PeerAddress },
    /// Drop a channel that is not kept, which disconnects it.
    DropChannel { peer: PeerAddress },
}

pub enum LinkActionView {
    Emit(PeerLinkEventView),
    Dial { peer: Seq<char>, session: Session },
    DropLink { peer: Seq<char> },
    DropChannel { peer: Seq<char> },
}

impl View for LinkAction {
    type V = LinkActionView;

    open spec fn view(&self) -> LinkActionView {
        match self {
            LinkAction::Emit(event) => LinkActionView::Emit(event@),
            LinkAction::Dial { peer, session } => LinkActionView::Dial {
                peer: peer@,
                session: *session,
            },
            LinkAction::DropLink { peer } => LinkActionView::DropLink { peer: peer@ },
            LinkAction::DropChannel { peer } => LinkActionView::DropChannel { peer: peer@ },
        }
    }
}

pub open spec fn actions(out: Seq<LinkAction>) -> Seq<LinkActionView> {
    out.map_values(|a: LinkAction| a@)
}

/// All links that are kept.
pub struct PeerLink {
    config: PeerLinkConfig,
    /// Whether there is an adapter at all.
    available: bool,
    radio: RadioState,
    radio_status: RadioStatus,
    peers: AssocMap<PeerAddress, Peer>,
    status: AssocMap<PeerAddress, PeerStatus>,
}

/// The contents of a `PeerLink`.
#[verifier::ext_equal]
pub struct PeerLinkView {
    pub config: PeerLinkConfig,
    pub available: bool,
    pub radio: RadioState,
    /// The radio's usability as last reported.
    pub radio_status: RadioStatus,
    pub peers: Map<Seq<char>, Peer>,
    /// The statuses as last published.
    pub status: Map<Seq<char>, PeerStatus>,
}

impl View for PeerLink {
    type V = PeerLinkView;

    closed spec fn view(&self) -> PeerLinkView {
        PeerLinkView {
            config: self.config,
            available: self.available,
            radio: self.radio,
            radio_status: self.radio_status,
            peers: self.peers@,
            status: self.status@,
        }
    }
}

pub open spec fn status_event(peer: Seq<char>, status: PeerStatus) -> LinkActionView {
    LinkActionView::Emit(PeerLinkEventView::Status { peer, status })
}

pub open spec fn down_event(peer: Seq<char>) -> LinkActionView {
    LinkActionView::Emit(PeerLinkEventView::Down { peer })
}

/// The radio's event behind a reported usability.
pub open spec fn radio_event(status: RadioStatus) -> RadioEvent {
    match status {
        RadioStatus::On => RadioEvent::PoweredOn,
        RadioStatus::Off => RadioEvent::PoweredOff,
        RadioStatus::Unsupported => RadioEvent::NoAdapter,
    }
}

/// What a dial came back with: the channel's largest message, or the error.
pub type DialOutcome = Result<usize, BleError>;

/// Every link that goes down with the radio, in the order of `order`.
pub open spec fn all_down(order: Seq<Seq<char>>) -> Seq<LinkActionView>
    decreases order.len(),
{
    if order.len() == 0 {
        seq![]
    } else {
        all_down(order.drop_last()).push(LinkActionView::DropLink { peer: order.last() }).push(
            down_event(order.last()),
        )
    }
}

/// A map whose values are what `f` makes of another's.
pub open spec fn mapped(peers: Map<Seq<char>, Peer>, f: spec_fn(Peer) -> Peer) -> Map<
    Seq<char>,
    Peer,
> {
    peers.map_values(f)
}

impl PeerLinkView {
    /// How many links stand.
    pub open spec fn links(self) -> nat {
        count_of(self.peers, |p: Peer| p.link)
    }

    /// How many of the links that may exist at once are taken: those that stand and those
    /// being dialled.
    pub open spec fn in_use(self) -> nat {
        count_of(self.peers, |p: Peer| p.spec_occupies())
    }

    /// Whether as many links stand as may. A dial is no link yet: a peer that waits behind
    /// one is queued once it has come up.
    pub open spec fn full(self) -> bool {
        self.links() >= self.config.max_links.0
    }

    /// What holds between any two inputs: each peer is consistent, and no more links are
    /// taken than may be.
    pub open spec fn wf(self) -> bool {
        &&& self.peers.dom().finite()
        &&& forall|k: Seq<char>| #[trigger] self.peers.contains_key(k) ==> self.peers[k].wf()
        &&& self.in_use() <= self.config.max_links.0
    }

    pub open spec fn with_peer(self, peer: Seq<char>, p: Peer) -> PeerLinkView {
        PeerLinkView { peers: self.peers.insert(peer, p), ..self }
    }

    /// The view once `status` is what was last published of `peer`.
    pub open spec fn published(self, peer: Seq<char>, status: PeerStatus) -> PeerLinkView {
        PeerLinkView {
            status: if status == PeerStatus::Untracked {
                self.status.remove(peer)
            } else {
                self.status.insert(peer, status)
            },
            ..self
        }
    }

    /// Whether `status` is news of `peer`.
    pub open spec fn is_news(self, peer: Seq<char>, status: PeerStatus) -> bool {
        if status == PeerStatus::Untracked {
            self.status.contains_key(peer)
        } else {
            !(self.status.contains_key(peer) && self.status[peer] == status)
        }
    }

    pub open spec fn news(self, peer: Seq<char>, status: PeerStatus) -> Seq<LinkActionView> {
        if self.is_news(peer, status) {
            seq![status_event(peer, status)]
        } else {
            seq![]
        }
    }

    pub open spec fn status_now(self, peer: Seq<char>) -> PeerStatus {
        self.peers[peer].spec_status(self.radio, self.full())
    }

    /// The view once `peer` is tracked, before its status is published.
    pub open spec fn joined(self, peer: Seq<char>, dials: bool, now: Instant) -> PeerLinkView {
        if self.peers.contains_key(peer) {
            self
        } else {
            self.with_peer(peer, Peer::spec_fresh(dials, now))
        }
    }

    pub open spec fn did_track(
        self,
        next: PeerLinkView,
        peer: Seq<char>,
        dials: bool,
        now: Instant,
        out: Seq<LinkActionView>,
    ) -> bool {
        if self.available {
            let joined = self.joined(peer, dials, now);
            let status = joined.status_now(peer);
            next == joined.published(peer, status) && out == self.news(peer, status)
        } else {
            &&& next == self.published(peer, PeerStatus::Unavailable)
            &&& out == self.news(peer, PeerStatus::Unavailable)
        }
    }

    pub open spec fn did_untrack(
        self,
        next: PeerLinkView,
        peer: Seq<char>,
        out: Seq<LinkActionView>,
    ) -> bool {
        if self.available {
            &&& next == PeerLinkView {
                peers: self.peers.remove(peer),
                ..self.published(peer, PeerStatus::Untracked)
            }
            &&& out == (if self.peers.contains_key(peer) && self.peers[peer].link {
                seq![LinkActionView::DropLink { peer }, down_event(peer)]
            } else {
                seq![]
            }) + self.news(peer, PeerStatus::Untracked)
        } else {
            next == self && out == Seq::<LinkActionView>::empty()
        }
    }

    pub open spec fn retrying(self, peer: Seq<char>, now: Instant) -> PeerLinkView {
        if self.peers.contains_key(peer) {
            self.with_peer(peer, self.peers[peer].spec_retried(now))
        } else {
            self
        }
    }

    /// Whether `order` lists the peers whose links stand, each once.
    pub open spec fn lists_links(self, order: Seq<Seq<char>>) -> bool {
        &&& order.no_duplicates()
        &&& forall|k: Seq<char>| #[trigger]
            order.contains(k) <==> self.peers.contains_key(k) && self.peers[k].link
    }

    /// The peers once the radio has changed: what stops being usable takes every link
    /// down, what is usable lets them be dialled again.
    pub open spec fn radio_peers(self, status: RadioStatus, now: Instant) -> Map<Seq<char>, Peer> {
        let event = radio_event(status);
        let lost = if radio_effects(self.radio, event).len() > 0 {
            mapped(self.peers, |p: Peer| p.spec_radio_lost(now))
        } else {
            self.peers
        };
        if radio_next(self.radio, event) == RadioState::On {
            mapped(lost, |p: Peer| p.spec_radio_back(now))
        } else {
            lost
        }
    }

    pub open spec fn did_change_radio(
        self,
        next: PeerLinkView,
        status: RadioStatus,
        now: Instant,
        out: Seq<LinkActionView>,
    ) -> bool {
        let event = radio_event(status);
        let told = LinkActionView::Emit(PeerLinkEventView::RadioChanged { status });
        &&& next == PeerLinkView {
            radio: radio_next(self.radio, event),
            radio_status: status,
            peers: self.radio_peers(status, now),
            ..self
        }
        &&& if radio_effects(self.radio, event).len() > 0 {
            exists|order: Seq<Seq<char>>| #[trigger]
                self.lists_links(order) && out == seq![told] + all_down(order)
        } else {
            out == seq![told]
        }
    }

    pub open spec fn did_hear(
        self,
        next: PeerLinkView,
        event: GattEventView,
        now: Instant,
        out: Seq<LinkActionView>,
    ) -> bool {
        match event {
            GattEventView::RadioChanged { status } => self.did_change_radio(next, status, now, out),
            GattEventView::Disconnected { peer, local_role: Role::Central, .. } => {
                &&& out == Seq::<LinkActionView>::empty()
                &&& next == if self.peers.contains_key(peer) && !self.peers[peer].link {
                    self.with_peer(
                        peer,
                        Peer {
                            central: self.peers[peer].central.step(
                                CentralEvent::LinkDropped,
                                now,
                            ).0,
                            ..self.peers[peer]
                        },
                    )
                } else {
                    self
                }
            },
            _ => next == self && out == Seq::<LinkActionView>::empty(),
        }
    }

    /// A dial came back. A channel is kept only by a peer that is still being dialled: one
    /// that was untracked, timed out or lost its radio meanwhile lets it go.
    pub open spec fn did_dial(
        self,
        next: PeerLinkView,
        peer: Seq<char>,
        outcome: DialOutcome,
        now: Instant,
        out: Seq<LinkActionView>,
    ) -> bool {
        match outcome {
            Ok(max_message_len) => if self.peers.contains_key(peer)
                && self.peers[peer].central is Dialing {
                &&& next == self.with_peer(peer, self.peers[peer].spec_connected(now))
                &&& out == seq![
                    LinkActionView::Emit(PeerLinkEventView::Up { peer, max_message_len }),
                ]
            } else {
                next == self && out == seq![LinkActionView::DropChannel { peer }]
            },
            Err(_) => {
                &&& out == Seq::<LinkActionView>::empty()
                &&& next == if self.peers.contains_key(peer) {
                    self.with_peer(
                        peer,
                        self.peers[peer].spec_failed(&self.config.retry_budget, now),
                    )
                } else {
                    self
                }
            },
        }
    }

    /// Whether an inbound link of `peer` is taken in: where this side accepts any, for a
    /// tracked peer without a link, and within the limit. The peer's own dial gives its
    /// place to it.
    pub open spec fn takes_in(self, peer: Seq<char>) -> bool {
        &&& self.radio == RadioState::On
        &&& self.config.role.spec_accepts()
        &&& self.peers.contains_key(peer)
        &&& !self.peers[peer].link
        &&& self.peers[peer].spec_occupies() || self.in_use() < self.config.max_links.0
    }

    pub open spec fn did_accept(
        self,
        next: PeerLinkView,
        peer: Seq<char>,
        max_message_len: usize,
        now: Instant,
        out: Seq<LinkActionView>,
    ) -> bool {
        if self.takes_in(peer) {
            &&& next == self.with_peer(peer, self.peers[peer].spec_accepted(now))
            &&& out == seq![
                LinkActionView::Emit(PeerLinkEventView::Up { peer, max_message_len }),
            ]
        } else {
            next == self && out == seq![LinkActionView::DropChannel { peer }]
        }
    }

    pub open spec fn did_lose(
        self,
        next: PeerLinkView,
        peer: Seq<char>,
        now: Instant,
        out: Seq<LinkActionView>,
    ) -> bool {
        if self.peers.contains_key(peer) && self.peers[peer].link {
            &&& next == self.with_peer(peer, self.peers[peer].spec_gone(now))
            &&& out == seq![down_event(peer)]
        } else {
            next == self && out == Seq::<LinkActionView>::empty()
        }
    }

    pub open spec fn ticked(self, now: Instant) -> PeerLinkView {
        PeerLinkView {
            peers: mapped(self.peers, |p: Peer| p.spec_ticked(&self.config.retry_budget, now)),
            ..self
        }
    }

    /// How many dials may start.
    pub open spec fn free(self) -> int {
        if self.config.max_links.0 >= self.in_use() {
            self.config.max_links.0 - self.in_use()
        } else {
            0
        }
    }

    pub open spec fn may_dial(self, peer: Seq<char>, now: Instant) -> bool {
        self.peers.contains_key(peer) && self.peers[peer].spec_eligible(now)
    }

    /// Dials started: of the peers that may be dialled now, as many as there are free
    /// links, the ones whose addresses come first.
    pub open spec fn did_pump(
        self,
        next: PeerLinkView,
        now: Instant,
        seed: Session,
        dialled: Seq<Seq<char>>,
        out: Seq<LinkActionView>,
    ) -> bool {
        if self.radio != RadioState::On {
            next == self && out == Seq::<LinkActionView>::empty() && dialled == Seq::<
                Seq<char>,
            >::empty()
        } else {
            &&& dialled.len() <= self.free()
            &&& forall|i: int, j: int|
                0 <= i < j < dialled.len() ==> text_before(
                    #[trigger] dialled[i],
                    #[trigger] dialled[j],
                )
            &&& forall|i: int|
                0 <= i < dialled.len() ==> self.may_dial(#[trigger] dialled[i], now)
            &&& forall|k: Seq<char>| #[trigger]
                self.may_dial(k, now) && !dialled.contains(k) ==> {
                    &&& dialled.len() == self.free()
                    &&& forall|i: int| 0 <= i < dialled.len() ==> text_before(#[trigger] dialled[i], k)
                }
            &&& out.len() == dialled.len()
            &&& forall|i: int|
                #![trigger out[i]]
                0 <= i < out.len() ==> out[i] == (LinkActionView::Dial {
                    peer: dialled[i],
                    session: nth_session(seed, i),
                })
            &&& next.peers.dom() == self.peers.dom()
            &&& forall|i: int|
                #![trigger dialled[i]]
                0 <= i < dialled.len() ==> next.peers[dialled[i]]
                    == self.peers[dialled[i]].spec_dialling(nth_session(seed, i), now)
            &&& forall|k: Seq<char>| #[trigger]
                self.peers.contains_key(k) && !dialled.contains(k) ==> next.peers[k]
                    == self.peers[k]
            &&& next == PeerLinkView { peers: next.peers, ..self }
        }
    }

    /// Statuses published: every tracked peer's status is up to date, and each one that
    /// changed was told once, in an order that is open.
    pub open spec fn did_refresh(self, next: PeerLinkView, out: Seq<LinkActionView>) -> bool {
        &&& next == PeerLinkView { status: next.status, ..self }
        &&& next.status.dom() == self.status.dom().union(self.peers.dom())
        &&& forall|k: Seq<char>| #[trigger]
            next.status.contains_key(k) ==> next.status[k] == if self.peers.contains_key(k) {
                self.status_now(k)
            } else {
                self.status[k]
            }
        &&& forall|i: int|
            #![trigger out[i]]
            0 <= i < out.len() ==> {
                &&& out[i] matches LinkActionView::Emit(PeerLinkEventView::Status { peer, status })
                &&& self.peers.contains_key(peer)
                &&& status == self.status_now(peer)
                &&& self.is_news(peer, status)
            }
        &&& out.no_duplicates()
        &&& forall|k: Seq<char>| #[trigger]
            self.peers.contains_key(k) && self.is_news(k, self.status_now(k)) ==> out.contains(
                status_event(k, self.status_now(k)),
            )
    }
}

/// The session of the `i`-th dial behind `seed`.
pub open spec fn nth_session(seed: Session, i: int) -> Session {
    ((seed + 1 + i) % 0x1_0000_0000_0000_0000) as u64
}

// ---------------------------------------------------------------------------
// Counting
// ---------------------------------------------------------------------------

/// A map that holds no new values of a kind holds no more of them.
proof fn count_does_not_grow(
    before: Map<Seq<char>, Peer>,
    after: Map<Seq<char>, Peer>,
    p: spec_fn(Peer) -> bool,
)
    requires
        before.dom().finite(),
        forall|k: Seq<char>| #[trigger]
            after.contains_key(k) && p(after[k]) ==> before.contains_key(k) && p(before[k]),
    ensures
        count_of(after, p) <= count_of(before, p),
        counted(after, p).finite(),
{
    let a = counted(after, p);
    let b = counted(before, p);
    assert(a.subset_of(b)) by {
        assert forall|k: Seq<char>| a.contains(k) implies b.contains(k) by {
            assert(after.contains_key(k));
        }
    }
    vstd::set_lib::lemma_len_subset(a, b);
}

/// One peer more satisfies `p`.
proof fn count_grows_by_one(
    before: Map<Seq<char>, Peer>,
    key: Seq<char>,
    value: Peer,
    p: spec_fn(Peer) -> bool,
)
    requires
        before.dom().finite(),
        before.contains_key(key),
        !p(before[key]),
        p(value),
    ensures
        count_of(before.insert(key, value), p) == count_of(before, p) + 1,
{
    assert(counted(before.insert(key, value), p) =~= counted(before, p).insert(key));
}

/// The addresses of a list, each once and in order.
fn sorted(keys: Vec<PeerAddress>) -> (r: Vec<PeerAddress>)
    requires
        forall|i: int, j: int|
            0 <= i < j < keys@.len() ==> (#[trigger] keys@[i]).content() != (
            #[trigger] keys@[j]).content(),
    ensures
        forall|i: int, j: int|
            0 <= i < j < r@.len() ==> text_before((#[trigger] r@[i])@, (#[trigger] r@[j])@),
        forall|k: Seq<char>| #[trigger]
            addresses(r@).contains(k) <==> among(keys@, keys@.len() as int, k),
{
    let mut r: Vec<PeerAddress> = Vec::new();
    let mut i: usize = 0;
    while i < keys.len()
        invariant
            i <= keys@.len(),
            forall|a: int, b: int|
                0 <= a < b < keys@.len() ==> (#[trigger] keys@[a]).content() != (
                #[trigger] keys@[b]).content(),
            forall|a: int, b: int|
                0 <= a < b < r@.len() ==> text_before((#[trigger] r@[a])@, (#[trigger] r@[b])@),
            forall|k: Seq<char>| #[trigger]
                addresses(r@).contains(k) <==> among(keys@, i as int, k),
        decreases keys.len() - i,
    {
        let key = keys[i].clone();
        let ghost before = r@;
        let mut at: usize = 0;
        while at < r.len() && comes_before(r[at].0.as_str(), key.0.as_str())
            invariant
                at <= r@.len(),
                r@ == before,
                forall|a: int| 0 <= a < at ==> text_before((#[trigger] r@[a])@, key@),
            decreases r.len() - at,
        {
            at = at + 1;
        }
        proof {
            among_step(keys@, i as int);
            assert forall|a: int| 0 <= a < before.len() implies (#[trigger] before[a])@ != key@ by {
                assert(addresses(before)[a] == before[a]@);
                assert(addresses(before).contains(before[a]@));
                let j = choose|j: int|
                    0 <= j < i && (#[trigger] keys@[j]).content() == before[a]@;
                assert(keys@[j].content() != keys@[i as int].content());
            }
            assert forall|a: int| at <= a < before.len() implies text_before(
                key@,
                (#[trigger] before[a])@,
            ) by {
                texts_are_ordered(before[at as int]@, key@);
                assert(before[at as int]@ != key@);
                assert(!text_before(before[at as int]@, key@));
                if a > at {
                    assert(text_before(before[at as int]@, before[a]@));
                    text_order_is_transitive(key@, before[at as int]@, before[a]@);
                }
            }
        }
        r.insert(at, key);
        proof {
            assert forall|a: int, b: int| 0 <= a < b < r@.len() implies text_before(
                (#[trigger] r@[a])@,
                (#[trigger] r@[b])@,
            ) by {
                let x = if a < at { a } else { a - 1 };
                let y = if b < at { b } else { b - 1 };
                if a == at {
                    assert(r@[b] == before[y]);
                } else if b == at {
                    assert(r@[a] == before[x]);
                } else {
                    assert(r@[a] == before[x] && r@[b] == before[y]);
                }
            }
            assert forall|k: Seq<char>| #[trigger]
                addresses(r@).contains(k) <==> addresses(before).contains(k) || k == key@ by {
                if addresses(before).contains(k) {
                    let x = choose|x: int| 0 <= x < before.len() && addresses(before)[x] == k;
                    let a = if x < at { x } else { x + 1 };
                    assert(r@[a] == before[x]);
                    assert(addresses(r@)[a] == k);
                }
                if k == key@ {
                    assert(addresses(r@)[at as int] == k);
                }
                if addresses(r@).contains(k) && k != key@ {
                    let a = choose|a: int| 0 <= a < r@.len() && addresses(r@)[a] == k;
                    let x = if a < at { a } else { a - 1 };
                    assert(r@[a] == before[x]);
                    assert(addresses(before)[x] == k);
                }
            }
        }
        i = i + 1;
    }
    r
}

// ---------------------------------------------------------------------------
// The driver
// ---------------------------------------------------------------------------

impl PeerLink {
    fn start(config: PeerLinkConfig, available: bool, radio: RadioState, status: RadioStatus) -> (r:
        (PeerLink, LinkAction))
        ensures
            r.0@ == (PeerLinkView {
                config,
                available,
                radio,
                radio_status: status,
                peers: Map::empty(),
                status: Map::empty(),
            }),
            r.0@.wf(),
            r.1@ == LinkActionView::Emit(PeerLinkEventView::RadioChanged { status }),
    {
        let link = PeerLink {
            config,
            available,
            radio,
            radio_status: status,
            peers: AssocMap::new(),
            status: AssocMap::new(),
        };
        assert(counted(link@.peers, |p: Peer| p.spec_occupies()) =~= Set::empty());
        (link, LinkAction::Emit(PeerLinkEvent::RadioChanged { status }))
    }

    /// A driver over a backend that is up.
    pub fn with_backend(config: PeerLinkConfig) -> (r: (PeerLink, LinkAction))
        ensures
            r.0@ == (PeerLinkView {
                config,
                available: true,
                radio: RadioState::On,
                radio_status: RadioStatus::On,
                peers: Map::empty(),
                status: Map::empty(),
            }),
            r.0@.wf(),
            r.1@ == LinkActionView::Emit(
                PeerLinkEventView::RadioChanged { status: RadioStatus::On },
            ),
    {
        PeerLink::start(config, true, RadioState::On, RadioStatus::On)
    }

    /// A driver on a device without an adapter: whatever it tracks is unavailable.
    pub fn without_adapter(config: PeerLinkConfig) -> (r: (PeerLink, LinkAction))
        ensures
            r.0@ == (PeerLinkView {
                config,
                available: false,
                radio: RadioState::Unsupported,
                radio_status: RadioStatus::Unsupported,
                peers: Map::empty(),
                status: Map::empty(),
            }),
            r.0@.wf(),
            r.1@ == LinkActionView::Emit(
                PeerLinkEventView::RadioChanged { status: RadioStatus::Unsupported },
            ),
    {
        PeerLink::start(config, false, RadioState::Unsupported, RadioStatus::Unsupported)
    }

    /// A peer's status as last published.
    pub fn status(&self, peer: &PeerAddress) -> (r: PeerStatus)
        ensures
            r == if self@.status.contains_key(peer@) {
                self@.status[peer@]
            } else {
                PeerStatus::Untracked
            },
    {
        match self.status.get(peer) {
            Some(status) => *status,
            None => PeerStatus::Untracked,
        }
    }

    /// The radio's usability as last reported.
    pub fn radio(&self) -> (r: RadioStatus)
        ensures
            r == self@.radio_status,
    {
        self.radio_status
    }

    /// Whether a scan can be made at all.
    pub fn discover(&self) -> (r: Result<(), BleError>)
        ensures
            r is Ok <==> self@.available,
            r matches Err(e) ==> e@ == BleErrorView::AdapterUnavailable("no BLE adapter"@),
    {
        if self.available {
            Ok(())
        } else {
            Err(BleError::AdapterUnavailable(owned("no BLE adapter")))
        }
    }

    fn publish_status(&mut self, out: &mut Vec<LinkAction>, peer: &PeerAddress, status: PeerStatus)
        ensures
            final(self)@ == old(self)@.published(peer@, status),
            actions(final(out)@) == actions(old(out)@) + old(self)@.news(peer@, status),
    {
        let changed: bool = if status == PeerStatus::Untracked {
            self.status.remove(peer).is_some()
        } else {
            let same: bool = match self.status.get(peer) {
                Some(known) => *known == status,
                None => false,
            };
            self.status.insert(peer.clone(), status);
            !same
        };
        assert(self@ =~= old(self)@.published(peer@, status));
        if changed {
            let ghost before = out@;
            let action = LinkAction::Emit(PeerLinkEvent::Status { peer: peer.clone(), status });
            let ghost shown = action@;
            out.push(action);
            assert(actions(out@) =~= actions(before) + seq![shown]);
        } else {
            assert(actions(out@) =~= actions(out@) + Seq::<LinkActionView>::empty());
        }
    }

    fn count_links(&self) -> (n: usize)
        ensures
            n == self@.links(),
            self@.peers.dom().finite(),
    {
        let f = |p: &Peer| -> (b: bool)
            ensures
                b == p.link,
        {
            p.link
        };
        self.peers.count_where(f, Ghost(|p: Peer| p.link))
    }

    fn count_in_use(&self) -> (n: usize)
        ensures
            n == self@.in_use(),
            self@.peers.dom().finite(),
    {
        let f = |p: &Peer| -> (b: bool)
            ensures
                b == p.spec_occupies(),
        {
            p.occupies()
        };
        self.peers.count_where(f, Ghost(|p: Peer| p.spec_occupies()))
    }

    fn none() -> (out: Vec<LinkAction>)
        ensures
            actions(out@) == Seq::<LinkActionView>::empty(),
    {
        let out: Vec<LinkAction> = Vec::new();
        assert(actions(out@) =~= Seq::<LinkActionView>::empty());
        out
    }

    fn only(action: LinkAction) -> (out: Vec<LinkAction>)
        ensures
            actions(out@) == seq![action@],
    {
        let ghost shown = action@;
        let mut out: Vec<LinkAction> = Vec::new();
        out.push(action);
        assert(actions(out@) =~= seq![shown]);
        out
    }

    fn say(out: &mut Vec<LinkAction>, action: LinkAction)
        ensures
            actions(final(out)@) == actions(old(out)@).push(action@),
    {
        let ghost before = out@;
        let ghost shown = action@;
        out.push(action);
        assert(actions(out@) =~= actions(before).push(shown));
    }

    /// Replaces one tracked peer.
    fn put(&mut self, peer: &PeerAddress, p: Peer)
        requires
            old(self)@.wf(),
            p.wf(),
            p.spec_occupies() ==> old(self)@.peers.contains_key(peer@)
                && old(self)@.peers[peer@].spec_occupies(),
        ensures
            final(self)@ == old(self)@.with_peer(peer@, p),
            final(self)@.wf(),
    {
        self.peers.insert(peer.clone(), p);
        assert(self@ =~= old(self)@.with_peer(peer@, p));
        proof {
            count_does_not_grow(
                old(self)@.peers,
                self@.peers,
                |q: Peer| q.spec_occupies(),
            );
        }
    }

    /// Keeps a link to `peer` alive from now on.
    pub fn track(&mut self, peer: PeerAddress, peer_id: LinkId, now: Instant) -> (out: Vec<
        LinkAction,
    >)
        requires
            old(self)@.wf(),
        ensures
            final(self)@.wf(),
            old(self)@.did_track(
                final(self)@,
                peer@,
                old(self)@.config.role.spec_dials(peer_id.0@),
                now,
                actions(out@),
            ),
    {
        let mut out = PeerLink::none();
        if !self.available {
            self.publish_status(&mut out, &peer, PeerStatus::Unavailable);
            assert(actions(out@) =~= old(self)@.news(peer@, PeerStatus::Unavailable));
            return out;
        }
        let dials = self.config.role.dials(&peer_id);
        if !self.peers.contains(&peer) {
            self.put(&peer, Peer::fresh(dials, now));
        }
        let full = self.count_links() >= self.config.max_links.0;
        match self.peers.get(&peer) {
            Some(p) => {
                let status = p.project(self.radio, full);
                self.publish_status(&mut out, &peer, status);
                assert(actions(out@) =~= old(self)@.news(peer@, status));
            },
            None => {},
        }
        out
    }

    /// Lets go of a peer: its link comes down, and nothing is kept of it.
    pub fn untrack(&mut self, peer: &PeerAddress) -> (out: Vec<LinkAction>)
        requires
            old(self)@.wf(),
        ensures
            final(self)@.wf(),
            old(self)@.did_untrack(final(self)@, peer@, actions(out@)),
    {
        let mut out = PeerLink::none();
        if !self.available {
            return out;
        }
        match self.peers.remove(peer) {
            Some(p) => {
                if p.link {
                    PeerLink::say(&mut out, LinkAction::DropLink { peer: peer.clone() });
                    PeerLink::say(
                        &mut out,
                        LinkAction::Emit(PeerLinkEvent::Down { peer: peer.clone() }),
                    );
                    assert(actions(out@) =~= seq![
                        LinkActionView::DropLink { peer: peer@ },
                        down_event(peer@),
                    ]);
                }
            },
            None => {},
        }
        self.publish_status(&mut out, peer, PeerStatus::Untracked);
        proof {
            assert(self@ =~= PeerLinkView {
                peers: old(self)@.peers.remove(peer@),
                ..old(self)@.published(peer@, PeerStatus::Untracked)
            });
            count_does_not_grow(old(self)@.peers, self@.peers, |q: Peer| q.spec_occupies());
        }
        out
    }

    /// Gives a peer a fresh budget, whether or not it gave up.
    pub fn retry(&mut self, peer: &PeerAddress, now: Instant)
        requires
            old(self)@.wf(),
        ensures
            final(self)@.wf(),
            final(self)@ == old(self)@.retrying(peer@, now),
    {
        match self.peers.get(peer) {
            Some(p) => {
                let retried = p.retried(now);
                self.put(peer, retried);
            },
            None => {},
        }
    }

    /// The peers whose links stand, each once.
    fn linked(&self) -> (r: Vec<PeerAddress>)
        ensures
            self@.lists_links(addresses(r@)),
    {
        let keys = self.peers.keys();
        let mut r: Vec<PeerAddress> = Vec::new();
        let mut i: usize = 0;
        assert(addresses(r@) =~= Seq::<Seq<char>>::empty());
        while i < keys.len()
            invariant
                i <= keys@.len(),
                forall|a: int, b: int|
                    0 <= a < b < keys@.len() ==> (#[trigger] keys@[a]).content() != (
                    #[trigger] keys@[b]).content(),
                forall|a: int|
                    0 <= a < keys@.len() ==> self@.peers.contains_key(
                        (#[trigger] keys@[a]).content(),
                    ),
                addresses(r@).no_duplicates(),
                forall|k: Seq<char>| #[trigger]
                    addresses(r@).contains(k) <==> among(keys@, i as int, k) && self@.peers[k].link,
            decreases keys.len() - i,
        {
            let key = &keys[i];
            let ghost before = addresses(r@);
            proof {
                among_step(keys@, i as int);
                if among(keys@, i as int, key@) {
                    let j = choose|j: int| 0 <= j < i && (#[trigger] keys@[j]).content() == key@;
                    assert(keys@[j].content() != keys@[i as int].content());
                }
            }
            match self.peers.get(key) {
                Some(p) => {
                    if p.link {
                        r.push(key.clone());
                        let ghost after = addresses(r@);
                        assert(after =~= before.push(key@));
                        assert(!before.contains(key@));
                        assert forall|k: Seq<char>| #[trigger]
                            after.contains(k) <==> before.contains(k) || k == key@ by {
                            if before.contains(k) {
                                let x = choose|x: int| 0 <= x < before.len() && before[x] == k;
                                assert(after[x] == k);
                            }
                            if k == key@ {
                                assert(after[before.len() as int] == k);
                            }
                        }
                    }
                },
                None => {},
            }
            i = i + 1;
        }
        proof {
            assert forall|k: Seq<char>| #[trigger]
                addresses(r@).contains(k) <==> self@.peers.contains_key(k)
                    && self@.peers[k].link by {
                if among(keys@, i as int, k) {
                    let j = choose|j: int| 0 <= j < i && (#[trigger] keys@[j]).content() == k;
                    assert(self@.peers.contains_key(keys@[j].content()));
                }
                if self@.peers.contains_key(k) {
                    assert(among(keys@, i as int, k));
                }
            }
        }
        r
    }

    /// Takes a lifecycle event of the backend. Losing the radio takes every link down and
    /// forgets every failure; its return lets every peer be dialled again.
    pub fn on_backend_event(&mut self, event: &GattEvent, now: Instant) -> (out: Vec<LinkAction>)
        requires
            old(self)@.wf(),
        ensures
            final(self)@.wf(),
            old(self)@.did_hear(final(self)@, event@, now, actions(out@)),
    {
        match event {
            GattEvent::RadioChanged { status } => self.on_radio(*status, now),
            GattEvent::Disconnected { peer, local_role, .. } => {
                if *local_role == Role::Central {
                    match self.peers.get(peer) {
                        Some(p) => {
                            if !p.link {
                                let mut q = *p;
                                let (next, _) = p.central.apply(CentralEvent::LinkDropped, now);
                                q.central = next;
                                self.put(peer, q);
                            }
                        },
                        None => {},
                    }
                }
                PeerLink::none()
            },
            _ => PeerLink::none(),
        }
    }

    fn on_radio(&mut self, status: RadioStatus, now: Instant) -> (out: Vec<LinkAction>)
        requires
            old(self)@.wf(),
        ensures
            final(self)@.wf(),
            old(self)@.did_change_radio(final(self)@, status, now, actions(out@)),
    {
        let event = match status {
            RadioStatus::On => RadioEvent::PoweredOn,
            RadioStatus::Off => RadioEvent::PoweredOff,
            RadioStatus::Unsupported => RadioEvent::NoAdapter,
        };
        let (next, effects) = self.radio.apply(event, now);
        self.radio = next;
        self.radio_status = status;
        let mut out = PeerLink::only(LinkAction::Emit(PeerLinkEvent::RadioChanged { status }));
        let ghost told = actions(out@);
        let ghost before = self@.peers;
        if effects.len() > 0 {
            let linked = self.linked();
            let ghost order = addresses(linked@);
            let mut i: usize = 0;
            assert(order.take(0) =~= seq![]);
            assert(told + all_down(order.take(0)) =~= told);
            while i < linked.len()
                invariant
                    i <= linked@.len(),
                    order == addresses(linked@),
                    actions(out@) == told + all_down(order.take(i as int)),
                decreases linked.len() - i,
            {
                PeerLink::say(&mut out, LinkAction::DropLink { peer: linked[i].clone() });
                PeerLink::say(
                    &mut out,
                    LinkAction::Emit(PeerLinkEvent::Down { peer: linked[i].clone() }),
                );
                proof {
                    let more = order.take(i + 1);
                    assert(more.drop_last() =~= order.take(i as int));
                    assert(more.last() == linked@[i as int]@);
                    assert(actions(out@) =~= told + all_down(more));
                }
                i = i + 1;
            }
            assert(order.take(i as int) =~= order);
            assert(old(self)@.lists_links(order));
            let f = |p: &Peer| -> (r: Peer)
                ensures
                    r == p.spec_radio_lost(now),
            {
                p.radio_lost(now)
            };
            self.peers.update(f);
            assert(self.peers@ =~= mapped(before, |p: Peer| p.spec_radio_lost(now)));
        }
        let ghost lost = self@.peers;
        if self.radio.usable() {
            let f = |p: &Peer| -> (r: Peer)
                ensures
                    r == p.spec_radio_back(now),
            {
                p.radio_back(now)
            };
            self.peers.update(f);
            assert(self.peers@ =~= mapped(lost, |p: Peer| p.spec_radio_back(now)));
        }
        proof {
            assert(self@ =~= PeerLinkView {
                radio: next,
                radio_status: status,
                peers: old(self)@.radio_peers(status, now),
                ..old(self)@
            });
            assert(self@.peers.dom() =~= old(self)@.peers.dom());
            assert forall|k: Seq<char>| #[trigger]
                self@.peers.contains_key(k) implies self@.peers[k].wf() && (
            self@.peers[k].spec_occupies() ==> old(self)@.peers[k].spec_occupies()) by {
                assert(old(self)@.peers.contains_key(k));
            }
            count_does_not_grow(old(self)@.peers, self@.peers, |q: Peer| q.spec_occupies());
        }
        out
    }

    /// Takes the outcome of a dial.
    pub fn on_dial_result(&mut self, peer: &PeerAddress, outcome: DialOutcome, now: Instant) -> (out:
        Vec<LinkAction>)
        requires
            old(self)@.wf(),
        ensures
            final(self)@.wf(),
            old(self)@.did_dial(final(self)@, peer@, outcome, now, actions(out@)),
    {
        match outcome {
            Ok(max_message_len) => {
                let up: Option<Peer> = match self.peers.get(peer) {
                    Some(p) => match p.central {
                        CentralLink::Dialing { .. } => Some(p.connected(now)),
                        _ => None,
                    },
                    None => None,
                };
                match up {
                    Some(p) => {
                        self.put(peer, p);
                        PeerLink::only(
                            LinkAction::Emit(
                                PeerLinkEvent::Up { peer: peer.clone(), max_message_len },
                            ),
                        )
                    },
                    None => PeerLink::only(LinkAction::DropChannel { peer: peer.clone() }),
                }
            },
            Err(_) => {
                match self.peers.get(peer) {
                    Some(p) => {
                        let failed = p.failed(&self.config.retry_budget, now);
                        self.put(peer, failed);
                    },
                    None => {},
                }
                PeerLink::none()
            },
        }
    }

    /// A channel of a central was accepted, whose largest message is `max_message_len`.
    pub fn on_accepted(&mut self, peer: &PeerAddress, max_message_len: usize, now: Instant) -> (out:
        Vec<LinkAction>)
        requires
            old(self)@.wf(),
        ensures
            final(self)@.wf(),
            old(self)@.did_accept(final(self)@, peer@, max_message_len, now, actions(out@)),
    {
        let taken: Option<Peer> = match self.peers.get(peer) {
            Some(p) => if self.radio.usable() && self.config.role.accepts() && !p.link && (
            p.occupies() || self.count_in_use() < self.config.max_links.0) {
                Some(p.accepted(now))
            } else {
                None
            },
            None => None,
        };
        match taken {
            Some(p) => {
                let ghost before = self@;
                self.peers.insert(peer.clone(), p);
                proof {
                    let busy = |q: Peer| q.spec_occupies();
                    assert(self@ =~= before.with_peer(peer@, p));
                    if before.peers[peer@].spec_occupies() {
                        count_does_not_grow(before.peers, self@.peers, busy);
                    } else {
                        count_grows_by_one(before.peers, peer@, p, busy);
                    }
                }
                PeerLink::only(
                    LinkAction::Emit(PeerLinkEvent::Up { peer: peer.clone(), max_message_len }),
                )
            },
            None => PeerLink::only(LinkAction::DropChannel { peer: peer.clone() }),
        }
    }

    /// A link that stood has ended on its own.
    pub fn on_link_gone(&mut self, peer: &PeerAddress, now: Instant) -> (out: Vec<LinkAction>)
        requires
            old(self)@.wf(),
        ensures
            final(self)@.wf(),
            old(self)@.did_lose(final(self)@, peer@, now, actions(out@)),
    {
        let gone: Option<Peer> = match self.peers.get(peer) {
            Some(p) => if p.link {
                Some(p.gone(now))
            } else {
                None
            },
            None => None,
        };
        match gone {
            Some(p) => {
                self.put(peer, p);
                PeerLink::only(LinkAction::Emit(PeerLinkEvent::Down { peer: peer.clone() }))
            },
            None => PeerLink::none(),
        }
    }

    /// Time passed.
    pub fn on_tick(&mut self, now: Instant)
        requires
            old(self)@.wf(),
        ensures
            final(self)@.wf(),
            final(self)@ == old(self)@.ticked(now),
    {
        let budget = &self.config.retry_budget;
        let f = |p: &Peer| -> (r: Peer)
            ensures
                r == p.spec_ticked(budget, now),
        {
            p.ticked(budget, now)
        };
        self.peers.update(f);
        proof {
            assert(self.peers@ =~= old(self)@.ticked(now).peers);
            assert(self@ =~= old(self)@.ticked(now));
            assert forall|k: Seq<char>| #[trigger]
                self@.peers.contains_key(k) implies self@.peers[k].wf() && (
            self@.peers[k].spec_occupies() ==> old(self)@.peers[k].spec_occupies()) by {
                assert(old(self)@.peers.contains_key(k));
            }
            count_does_not_grow(old(self)@.peers, self@.peers, |q: Peer| q.spec_occupies());
        }
    }
}

/// What the driver's next turn is about.
pub enum Input {
    Track { peer: PeerAddress, peer_id: LinkId },
    Untrack { peer: PeerAddress },
    Retry { peer: PeerAddress },
    Backend(GattEvent),
    Dialled { peer: PeerAddress, outcome: DialOutcome },
    Accepted { peer: PeerAddress, max_message_len: usize },
    LinkGone { peer: PeerAddress },
    Tick,
}

impl PeerLinkView {
    pub open spec fn did_take(
        self,
        next: PeerLinkView,
        input: Input,
        now: Instant,
        out: Seq<LinkActionView>,
    ) -> bool {
        match input {
            Input::Track { peer, peer_id } => self.did_track(
                next,
                peer@,
                self.config.role.spec_dials(peer_id.0@),
                now,
                out,
            ),
            Input::Untrack { peer } => self.did_untrack(next, peer@, out),
            Input::Retry { peer } => next == self.retrying(peer@, now) && out == Seq::<
                LinkActionView,
            >::empty(),
            Input::Backend(event) => self.did_hear(next, event@, now, out),
            Input::Dialled { peer, outcome } => self.did_dial(next, peer@, outcome, now, out),
            Input::Accepted { peer, max_message_len } => self.did_accept(
                next,
                peer@,
                max_message_len,
                now,
                out,
            ),
            Input::LinkGone { peer } => self.did_lose(next, peer@, now, out),
            Input::Tick => next == self.ticked(now) && out == Seq::<LinkActionView>::empty(),
        }
    }

    /// A whole turn: the input, then the dials, then the statuses.
    pub open spec fn did_turn(
        self,
        next: PeerLinkView,
        input: Input,
        now: Instant,
        seed: Session,
        out: Seq<LinkActionView>,
    ) -> bool {
        exists|
            taken: PeerLinkView,
            pumped: PeerLinkView,
            dialled: Seq<Seq<char>>,
            first: Seq<LinkActionView>,
            dials: Seq<LinkActionView>,
            news: Seq<LinkActionView>,
        |
            {
                &&& #[trigger] self.did_take(taken, input, now, first)
                &&& #[trigger] taken.did_pump(pumped, now, seed, dialled, dials)
                &&& #[trigger] pumped.did_refresh(next, news)
                &&& out == first + dials + news
            }
    }
}

impl PeerLink {
    /// Starts the dials that may start now. Sessions count up from `seed`.
    pub fn pump_dials(&mut self, now: Instant, seed: Session) -> (out: Vec<LinkAction>)
        requires
            old(self)@.wf(),
        ensures
            final(self)@.wf(),
            exists|dialled: Seq<Seq<char>>| #[trigger]
                old(self)@.did_pump(final(self)@, now, seed, dialled, actions(out@)),
    {
        let mut out = PeerLink::none();
        if !self.radio.usable() {
            assert(old(self)@.did_pump(self@, now, seed, Seq::<Seq<char>>::empty(), actions(out@)));
            return out;
        }
        let in_use = self.count_in_use();
        let mut budget: usize = self.config.max_links.0.saturating_sub(in_use);
        let candidates = sorted(self.peers.keys());
        let ghost start = self@;
        let ghost mut dialled: Seq<Seq<char>> = seq![];
        let mut session: Session = seed;
        let mut i: usize = 0;
        proof {
            assert forall|k: Seq<char>| #[trigger]
                addresses(candidates@).contains(k) implies start.peers.contains_key(k) by {}
        }
        while i < candidates.len()
            invariant
                i <= candidates@.len(),
                start == old(self)@,
                start.wf(),
                start.radio == RadioState::On,
                forall|a: int, b: int|
                    0 <= a < b < candidates@.len() ==> text_before(
                        (#[trigger] candidates@[a])@,
                        (#[trigger] candidates@[b])@,
                    ),
                forall|k: Seq<char>| #[trigger]
                    start.peers.contains_key(k) ==> addresses(candidates@).contains(k),
                dialled.len() + budget == start.free(),
                session == (seed + dialled.len()) % 0x1_0000_0000_0000_0000,
                forall|a: int, b: int|
                    0 <= a < b < dialled.len() ==> text_before(
                        #[trigger] dialled[a],
                        #[trigger] dialled[b],
                    ),
                forall|a: int, b: int|
                    0 <= a < dialled.len() && i <= b < candidates@.len() ==> text_before(
                        #[trigger] dialled[a],
                        (#[trigger] candidates@[b])@,
                    ),
                forall|a: int|
                    0 <= a < dialled.len() ==> start.may_dial(#[trigger] dialled[a], now),
                forall|b: int|
                    #![trigger candidates@[b]]
                    0 <= b < i && start.may_dial(candidates@[b]@, now) && !dialled.contains(
                        candidates@[b]@,
                    ) ==> budget == 0 && forall|a: int|
                        0 <= a < dialled.len() ==> text_before(
                            #[trigger] dialled[a],
                            candidates@[b]@,
                        ),
                actions(out@).len() == dialled.len(),
                forall|a: int|
                    #![trigger actions(out@)[a]]
                    0 <= a < dialled.len() ==> actions(out@)[a] == (LinkActionView::Dial {
                        peer: dialled[a],
                        session: nth_session(seed, a),
                    }),
                self@ == (PeerLinkView { peers: self@.peers, ..start }),
                self@.peers.dom() == start.peers.dom(),
                forall|a: int|
                    #![trigger dialled[a]]
                    0 <= a < dialled.len() ==> self@.peers[dialled[a]]
                        == start.peers[dialled[a]].spec_dialling(nth_session(seed, a), now),
                forall|k: Seq<char>| #[trigger]
                    start.peers.contains_key(k) && !dialled.contains(k) ==> self@.peers[k]
                        == start.peers[k],
                self@.in_use() == start.in_use() + dialled.len(),
                self@.wf(),
            decreases candidates.len() - i,
        {
            let peer = &candidates[i];
            let ghost peer_text = peer@;
            let ghost before = self@;
            proof {
                assert(!dialled.contains(peer_text)) by {
                    if dialled.contains(peer_text) {
                        let a = choose|a: int| 0 <= a < dialled.len() && dialled[a] == peer_text;
                        assert(text_before(dialled[a], candidates@[i as int]@));
                        texts_are_ordered(peer_text, peer_text);
                    }
                }
            }
            match self.peers.get(peer) {
                None => {},
                Some(p) => {
                    let p: Peer = *p;
                    if p.eligible(now) && budget > 0 {
                        budget = budget - 1;
                        session = session.wrapping_add(1);
                        let q = p.dialling(session, now);
                        self.peers.insert(peer.clone(), q);
                        PeerLink::say(&mut out, LinkAction::Dial { peer: peer.clone(), session });
                        proof {
                            let n = dialled.len() as int;
                            let more = dialled.push(peer_text);
                            assert(session == nth_session(seed, n));
                            assert(self@.peers =~= before.peers.insert(peer_text, q));
                            count_grows_by_one(
                                before.peers,
                                peer_text,
                                q,
                                |r: Peer| r.spec_occupies(),
                            );
                            assert(forall|k: Seq<char>| #[trigger]
                                more.contains(k) <==> dialled.contains(k) || k == peer_text) by {
                                assert forall|k: Seq<char>| #[trigger]
                                    more.contains(k) <==> dialled.contains(k) || k
                                        == peer_text by {
                                    if dialled.contains(k) {
                                        let a = choose|a: int|
                                            0 <= a < dialled.len() && dialled[a] == k;
                                        assert(more[a] == k);
                                    }
                                    if k == peer_text {
                                        assert(more[n] == k);
                                    }
                                }
                            }
                            assert forall|a: int|
                                #![trigger more[a]]
                                0 <= a < more.len() implies self@.peers[more[a]]
                                == start.peers[more[a]].spec_dialling(
                                nth_session(seed, a),
                                now,
                            ) by {
                                if a < n {
                                    assert(dialled[a] == more[a]);
                                    assert(dialled.contains(dialled[a]));
                                }
                            }
                            dialled = more;
                        }
                    }
                },
            }
            i = i + 1;
        }
        proof {
            assert forall|k: Seq<char>| #[trigger]
                start.may_dial(k, now) && !dialled.contains(k) implies {
                &&& dialled.len() == start.free()
                &&& forall|a: int| 0 <= a < dialled.len() ==> text_before(#[trigger] dialled[a], k)
            } by {
                assert(addresses(candidates@).contains(k));
                let b = choose|b: int|
                    0 <= b < candidates@.len() && addresses(candidates@)[b] == k;
                assert(candidates@[b]@ == k);
            }
            assert(old(self)@.did_pump(self@, now, seed, dialled, actions(out@)));
        }
        out
    }

    /// Publishes every status that has changed.
    pub fn refresh_all_status(&mut self) -> (out: Vec<LinkAction>)
        requires
            old(self)@.wf(),
        ensures
            final(self)@.wf(),
            old(self)@.did_refresh(final(self)@, actions(out@)),
    {
        let full = self.count_links() >= self.config.max_links.0;
        let keys = self.peers.keys();
        let mut out = PeerLink::none();
        let ghost start = self@;
        let mut i: usize = 0;
        while i < keys.len()
            invariant
                i <= keys@.len(),
                start == old(self)@,
                start.wf(),
                full == start.full(),
                forall|a: int, b: int|
                    0 <= a < b < keys@.len() ==> (#[trigger] keys@[a]).content() != (
                    #[trigger] keys@[b]).content(),
                forall|a: int|
                    0 <= a < keys@.len() ==> start.peers.contains_key(
                        (#[trigger] keys@[a]).content(),
                    ),
                self@ == (PeerLinkView { status: self@.status, ..start }),
                forall|k: Seq<char>| #[trigger]
                    self@.status.contains_key(k) <==> start.status.contains_key(k) || among(
                        keys@,
                        i as int,
                        k,
                    ),
                forall|k: Seq<char>| #[trigger]
                    self@.status.contains_key(k) ==> self@.status[k] == if among(
                        keys@,
                        i as int,
                        k,
                    ) {
                        start.status_now(k)
                    } else {
                        start.status[k]
                    },
                forall|n: int|
                    #![trigger actions(out@)[n]]
                    0 <= n < actions(out@).len() ==> {
                        &&& actions(out@)[n] matches LinkActionView::Emit(
                            PeerLinkEventView::Status { peer, status },
                        )
                        &&& among(keys@, i as int, peer)
                        &&& status == start.status_now(peer)
                        &&& start.is_news(peer, status)
                    },
                actions(out@).no_duplicates(),
                forall|k: Seq<char>| #[trigger]
                    among(keys@, i as int, k) && start.is_news(k, start.status_now(k))
                        ==> actions(out@).contains(status_event(k, start.status_now(k))),
            decreases keys.len() - i,
        {
            let key = &keys[i];
            let ghost before = actions(out@);
            proof {
                among_step(keys@, i as int);
                if among(keys@, i as int, key@) {
                    let j = choose|j: int| 0 <= j < i && (#[trigger] keys@[j]).content() == key@;
                    assert(keys@[j].content() != keys@[i as int].content());
                }
                assert(start.peers.contains_key(keys@[i as int].content()));
            }
            match self.peers.get(key) {
                None => {},
                Some(p) => {
                    let status = p.project(self.radio, full);
                    let ghost was = self@;
                    self.publish_status(&mut out, key, status);
                    proof {
                        assert(status == start.status_now(key@));
                        assert(was.is_news(key@, status) == start.is_news(key@, status));
                        let after = actions(out@);
                        let event = status_event(key@, status);
                        assert(!before.contains(event)) by {
                            if before.contains(event) {
                                let n = choose|n: int| 0 <= n < before.len() && before[n] == event;
                                assert(before[n] == event);
                            }
                        }
                        if start.is_news(key@, status) {
                            assert(after =~= before.push(event));
                            assert(after[before.len() as int] == event);
                        } else {
                            assert(after =~= before);
                        }
                        assert forall|x: LinkActionView| #[trigger]
                            before.contains(x) implies after.contains(x) by {
                            let n = choose|n: int| 0 <= n < before.len() && before[n] == x;
                            assert(after[n] == x);
                        }
                        assert forall|n: int| #![trigger after[n]] 0 <= n < after.len() implies {
                            &&& after[n] matches LinkActionView::Emit(
                                PeerLinkEventView::Status { peer, status },
                            )
                            &&& among(keys@, i + 1, peer)
                            &&& status == start.status_now(peer)
                            &&& start.is_news(peer, status)
                        } by {
                            if n < before.len() {
                                assert(after[n] == before[n]);
                            }
                        }
                    }
                },
            }
            i = i + 1;
        }
        proof {
            assert forall|k: Seq<char>| among(keys@, i as int, k) == start.peers.contains_key(
                k,
            ) by {
                if among(keys@, i as int, k) {
                    let j = choose|j: int| 0 <= j < i && (#[trigger] keys@[j]).content() == k;
                    assert(start.peers.contains_key(keys@[j].content()));
                }
            }
            assert(self@.status.dom() =~= start.status.dom().union(start.peers.dom()));
        }
        out
    }

    /// One turn of the driver.
    pub fn run(&mut self, input: Input, now: Instant, seed: Session) -> (out: Vec<LinkAction>)
        requires
            old(self)@.wf(),
        ensures
            final(self)@.wf(),
            old(self)@.did_turn(final(self)@, input, now, seed, actions(out@)),
    {
        let mut out = match input {
            Input::Track { peer, peer_id } => self.track(peer, peer_id, now),
            Input::Untrack { peer } => self.untrack(&peer),
            Input::Retry { peer } => {
                self.retry(&peer, now);
                PeerLink::none()
            },
            Input::Backend(event) => self.on_backend_event(&event, now),
            Input::Dialled { peer, outcome } => self.on_dial_result(&peer, outcome, now),
            Input::Accepted { peer, max_message_len } => self.on_accepted(
                &peer,
                max_message_len,
                now,
            ),
            Input::LinkGone { peer } => self.on_link_gone(&peer, now),
            Input::Tick => {
                self.on_tick(now);
                PeerLink::none()
            },
        };
        let ghost taken = self@;
        let ghost first = actions(out@);
        assert(old(self)@.did_take(taken, input, now, first));
        let mut dials = self.pump_dials(now, seed);
        let ghost pumped = self@;
        let ghost started = actions(dials@);
        let ghost dialled = choose|dialled: Seq<Seq<char>>| #[trigger]
            taken.did_pump(pumped, now, seed, dialled, started);
        let mut news = self.refresh_all_status();
        let ghost told = actions(news@);
        let ghost (a, b, c) = (out@, dials@, news@);
        out.append(&mut dials);
        out.append(&mut news);
        proof {
            assert(out@ =~= a + b + c);
            assert(actions(out@) =~= first + started + told);
        }
        out
    }

    /// Ends the driver: every link that stands comes down.
    pub fn shut_down(&mut self) -> (out: Vec<LinkAction>)
        ensures
            exists|order: Seq<Seq<char>>| #[trigger]
                old(self)@.lists_links(order) && actions(out@) == order.map_values(
                    |peer: Seq<char>| LinkActionView::DropLink { peer },
                ),
            final(self)@ == (PeerLinkView { peers: Map::empty(), ..old(self)@ }),
    {
        let linked = self.linked();
        let ghost order = addresses(linked@);
        let mut out = PeerLink::none();
        let mut i: usize = 0;
        assert(order.take(0) =~= seq![]);
        while i < linked.len()
            invariant
                i <= linked@.len(),
                order == addresses(linked@),
                actions(out@) == order.take(i as int).map_values(
                    |peer: Seq<char>| LinkActionView::DropLink { peer },
                ),
            decreases linked.len() - i,
        {
            PeerLink::say(&mut out, LinkAction::DropLink { peer: linked[i].clone() });
            i = i + 1;
            assert(actions(out@) =~= order.take(i as int).map_values(
                |peer: Seq<char>| LinkActionView::DropLink { peer },
            ));
        }
        assert(order.take(i as int) =~= order);
        assert(old(self)@.lists_links(order));
        self.peers = AssocMap::new();
        out
    }
}

} // verus!
