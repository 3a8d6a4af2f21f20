//! What a node knows of the network, and the snapshots it hands to its tasks.

use vstd::arithmetic::logarithm::{lemma_log0, lemma_log_is_ordered, lemma_log_nonnegative, lemma_log_pow, lemma_log_s, log};
use vstd::arithmetic::power2::{lemma2_to64, lemma_pow2, pow2};
use vstd::prelude::*;

use crate::peer::{PeerConnectInfo, PeerId, PeerInfo, TTL};
use crate::peers::{as_map, distinct_keys, filed, has_key, unfiled, Entry, Peers};

verus! {

/// The size that a network is taken to have.
pub const INITIAL_NETWORK_SIZE: u32 = 4;

/// How many passive peers are kept per member of the network.
pub const PEER_VIEW_SIZE_CONSTANT: usize = 2;

/// The fewest hops that a message is given.
pub const MIN_TTL: TTL = 3;

/// The logarithm of a network's size to base two, rounded down; of no size it is 0.
pub open spec fn size_log2(size: u32) -> nat {
    if size == 0 {
        0
    } else {
        log(2, size as int) as nat
    }
}

/// The hops that a message is given in a network of some size.
pub open spec fn ttl_for(size: u32) -> nat {
    if size_log2(size) < MIN_TTL {
        MIN_TTL as nat
    } else {
        size_log2(size)
    }
}

/// The value of a [`NetworkView`].
pub struct ViewState {
    /// The assumed size of the network.
    pub size: u32,
    /// The peers that gossip is forwarded to.
    pub active: Seq<Entry>,
    /// The peers kept in reserve.
    pub passive: Seq<Entry>,
}

impl ViewState {
    /// In each view no id occurs twice.
    pub open spec fn well_formed(self) -> bool {
        distinct_keys(self.active) && distinct_keys(self.passive)
    }

    /// Whether a peer is known, in either view.
    pub open spec fn knows(self, id: Seq<char>) -> bool {
        has_key(self.active, id) || has_key(self.passive, id)
    }

    /// The view with `info` filed under `id` among the active peers.
    pub open spec fn with_active(self, id: Seq<char>, info: PeerInfo) -> ViewState {
        ViewState { active: filed(self.active, id, info), ..self }
    }

    /// The view with `info` filed under `id` among the passive peers.
    pub open spec fn with_passive(self, id: Seq<char>, info: PeerInfo) -> ViewState {
        ViewState { passive: filed(self.passive, id, info), ..self }
    }

    /// The view without the active peer `id`.
    pub open spec fn without_active(self, id: Seq<char>) -> ViewState {
        ViewState { active: unfiled(self.active, id), ..self }
    }

    /// What a snapshot of the view holds.
    pub open spec fn snapshot(self) -> SnapshotState {
        SnapshotState {
            size: self.size as nat,
            active: self.active,
            passive: self.passive,
            ttl: ttl_for(self.size),
        }
    }
}

/// The value of an [`ImmutableNetworkView`].
pub struct SnapshotState {
    pub size: nat,
    pub active: Seq<Entry>,
    pub passive: Seq<Entry>,
    pub ttl: nat,
}

/// The logarithm of `n` to base two, rounded down, and 0 for 0.
fn log2_floor(n: u32) -> (exponent: u8)
    ensures
        exponent == size_log2(n),
        exponent <= 32,
{
    let mut rest: u32 = n;
    let mut exponent: u8 = 0;
    proof {
        lemma_log2_bound(n);
        if n > 0 {
            lemma_log_nonnegative(2, n as int);
        }
    }
    while rest >= 2
        invariant
            n > 0 ==> rest > 0,
            n == 0 ==> rest == 0 && exponent == 0,
            n > 0 ==> log(2, n as int) == exponent + log(2, rest as int),
            n > 0 ==> log(2, n as int) <= 32,
        decreases rest,
    {
        proof {
            lemma_log_s(2, rest as int);
            lemma_log_nonnegative(2, rest as int / 2);
        }
        rest = rest / 2;
        exponent = exponent + 1;
    }
    proof {
        if n > 0 {
            lemma_log0(2, rest as int);
        }
    }
    exponent
}

/// A size has a logarithm of at most 32.
proof fn lemma_log2_bound(n: u32)
    ensures
        n > 0 ==> log(2, n as int) <= 32,
{
    if n > 0 {
        lemma2_to64();
        lemma_pow2(32);
        lemma_log_pow(2, 32);
        lemma_log_is_ordered(2, n as int, pow2(32) as int);
    }
}

/// The hops that a message is given in a network of some size.
pub fn ttl_of_size(size: u32) -> (ttl: TTL)
    ensures
        ttl == ttl_for(size),
{
    let calculated: TTL = log2_floor(size);
    if calculated < MIN_TTL {
        MIN_TTL
    } else {
        calculated
    }
}

/// What a node knows of the network: the peers it forwards gossip to and the
/// peers it keeps in reserve.
#[derive(Debug)]
pub struct NetworkView {
    assumed_network_size: u32,
    active_view: Peers,
    passive_view: Peers,
}

impl View for NetworkView {
    type V = ViewState;

    closed spec fn view(&self) -> ViewState {
        ViewState {
            size: self.assumed_network_size,
            active: self.active_view.entries(),
            passive: self.passive_view.entries(),
        }
    }
}

impl NetworkView {
    /// The passive capacity fits a machine word, and in each view no id occurs twice.
    #[verifier::type_invariant]
    pub open spec fn valid(self) -> bool {
        self@.size <= usize::MAX / PEER_VIEW_SIZE_CONSTANT && self@.well_formed()
    }

    /// A view of a network in which no peer is known.
    pub fn new() -> (view: Self)
        ensures
            view@ == (ViewState {
                size: INITIAL_NETWORK_SIZE,
                active: Seq::empty(),
                passive: Seq::empty(),
            }),
            view@.well_formed(),
    {
        NetworkView {
            assumed_network_size: INITIAL_NETWORK_SIZE,
            active_view: Peers::new(),
            passive_view: Peers::new(),
        }
    }

    /// The peers that gossip is forwarded to.
    pub fn active_view(&self) -> (peers: &Peers)
        ensures
            peers.entries() == self@.active,
            self@.well_formed(),
    {
        proof {
            use_type_invariant(self);
        }
        &self.active_view
    }

    /// The peers kept in reserve.
    pub fn passive_view(&self) -> (peers: &Peers)
        ensures
            peers.entries() == self@.passive,
            self@.well_formed(),
    {
        proof {
            use_type_invariant(self);
        }
        &self.passive_view
    }

    /// The size that the network is taken to have.
    pub fn assumed_network_size(&self) -> (size: usize)
        ensures
            size == self@.size,
    {
        self.assumed_network_size as usize
    }

    /// Takes the peer filed under `peer_id` out of the active view.
    pub fn remove_active(&mut self, peer_id: &PeerId) -> (removed: Option<PeerConnectInfo>)
        ensures
            final(self)@ == old(self)@.without_active(peer_id@),
            final(self)@.well_formed(),
            match removed {
                Some(peer) => has_key(old(self)@.active, peer_id@) && peer@ == as_map(
                    old(self)@.active,
                )[peer_id@],
                None => !has_key(old(self)@.active, peer_id@),
            },
    {
        proof {
            use_type_invariant(&*self);
        }
        let mut active = Peers::new();
        std::mem::swap(&mut active, &mut self.active_view);
        let removed = active.remove(peer_id);
        proof {
            use_type_invariant(&active);
        }
        self.active_view = active;
        removed
    }

    /// How many active peers a network of the assumed size calls for.
    pub fn active_peer_capacity(&self) -> (capacity: usize)
        ensures
            capacity == size_log2(self@.size),
    {
        log2_floor(self.assumed_network_size) as usize
    }

    /// How many passive peers a network of the assumed size calls for.
    pub fn passive_peer_capacity(&self) -> (capacity: usize)
        ensures
            capacity == self@.size * PEER_VIEW_SIZE_CONSTANT,
    {
        proof {
            use_type_invariant(self);
        }
        self.assumed_network_size as usize * PEER_VIEW_SIZE_CONSTANT
    }

    /// The hops that a message is given in a network of the assumed size.
    pub fn ttl_for_network_size(&self) -> (ttl: TTL)
        ensures
            ttl == ttl_for(self@.size),
    {
        ttl_of_size(self.assumed_network_size)
    }

    /// Files a peer that neither view knows among the active ones.
    pub fn insert_active(&mut self, peer_id: PeerId, peer_socket: PeerConnectInfo) -> (inserted:
        Result<(), ()>)
        ensures
            final(self)@.well_formed(),
            inserted is Err <==> old(self)@.knows(peer_id@),
            inserted is Err ==> final(self)@ == old(self)@,
            inserted is Ok ==> final(self)@ == old(self)@.with_active(peer_id@, peer_socket@),
    {
        proof {
            use_type_invariant(&*self);
        }
        if self.passive_view.contains_key(&peer_id) || self.active_view.contains_key(&peer_id) {
            return Err(());
        }
        let _ = self.replace_active(peer_id, peer_socket);
        Ok(())
    }

    /// Files a peer that neither view knows among the passive ones.
    pub fn insert_passive(&mut self, peer_id: PeerId, peer_socket: PeerConnectInfo) -> (inserted:
        Result<(), ()>)
        ensures
            final(self)@.well_formed(),
            inserted is Err <==> old(self)@.knows(peer_id@),
            inserted is Err ==> final(self)@ == old(self)@,
            inserted is Ok ==> final(self)@ == old(self)@.with_passive(peer_id@, peer_socket@),
    {
        proof {
            use_type_invariant(&*self);
        }
        if self.active_view.contains_key(&peer_id) || self.passive_view.contains_key(&peer_id) {
            return Err(());
        }
        let mut passive = Peers::new();
        std::mem::swap(&mut passive, &mut self.passive_view);
        let _ = passive.insert(peer_id, peer_socket);
        proof {
            use_type_invariant(&passive);
        }
        self.passive_view = passive;
        Ok(())
    }

    /// Files a peer among the active ones whether or not it is known, and hands
    /// back the active peer that was filed under the same id.
    pub fn replace_active(&mut self, peer_id: PeerId, peer_socket: PeerConnectInfo) -> (replaced:
        Option<PeerConnectInfo>)
        ensures
            final(self)@ == old(self)@.with_active(peer_id@, peer_socket@),
            final(self)@.well_formed(),
            match replaced {
                Some(peer) => has_key(old(self)@.active, peer_id@) && peer@ == as_map(
                    old(self)@.active,
                )[peer_id@],
                None => !has_key(old(self)@.active, peer_id@),
            },
    {
        proof {
            use_type_invariant(&*self);
        }
        let mut active = Peers::new();
        std::mem::swap(&mut active, &mut self.active_view);
        let replaced = active.insert(peer_id, peer_socket);
        proof {
            use_type_invariant(&active);
        }
        self.active_view = active;
        replaced
    }
}

impl Clone for NetworkView {
    fn clone(&self) -> (copy: Self)
        ensures
            copy@ == self@,
    {
        proof {
            use_type_invariant(self);
        }
        NetworkView {
            assumed_network_size: self.assumed_network_size,
            active_view: self.active_view.clone(),
            passive_view: self.passive_view.clone(),
        }
    }
}

/// A network view at one moment.
#[derive(Debug)]
pub struct ImmutableNetworkView {
    pub assumed_network_size: usize,
    pub active_view: Peers,
    pub passive_view: Peers,
    pub ttl: TTL,
}

impl View for ImmutableNetworkView {
    type V = SnapshotState;

    open spec fn view(&self) -> SnapshotState {
        SnapshotState {
            size: self.assumed_network_size as nat,
            active: self.active_view.entries(),
            passive: self.passive_view.entries(),
            ttl: self.ttl as nat,
        }
    }
}

impl ImmutableNetworkView {
    /// The snapshot of a network in which no peer is known.
    pub fn default() -> (snapshot: Self)
        ensures
            snapshot@ == (SnapshotState {
                size: INITIAL_NETWORK_SIZE as nat,
                active: Seq::empty(),
                passive: Seq::empty(),
                ttl: MIN_TTL as nat,
            }),
    {
        Self {
            assumed_network_size: INITIAL_NETWORK_SIZE as usize,
            active_view: Peers::new(),
            passive_view: Peers::new(),
            ttl: MIN_TTL,
        }
    }
}

impl Clone for ImmutableNetworkView {
    fn clone(&self) -> (copy: Self)
        ensures
            copy@ == self@,
    {
        ImmutableNetworkView {
            assumed_network_size: self.assumed_network_size,
            active_view: self.active_view.clone(),
            passive_view: self.passive_view.clone(),
            ttl: self.ttl,
        }
    }
}

impl From<NetworkView> for ImmutableNetworkView {
    fn from(network_view: NetworkView) -> (snapshot: Self)
        ensures
            snapshot@ == network_view@.snapshot(),
    {
        let ttl: TTL = network_view.ttl_for_network_size();
        Self {
            assumed_network_size: network_view.assumed_network_size as usize,
            active_view: network_view.active_view,
            passive_view: network_view.passive_view,
            ttl,
        }
    }
}

impl vstd::std_specs::convert::FromSpecImpl<NetworkView> for ImmutableNetworkView {
    open spec fn obeys_from_spec() -> bool {
        true
    }

    closed spec fn from_spec(network_view: NetworkView) -> Self {
        ImmutableNetworkView {
            assumed_network_size: network_view.assumed_network_size as usize,
            active_view: network_view.active_view,
            passive_view: network_view.passive_view,
            ttl: ttl_for(network_view@.size) as TTL,
        }
    }
}

} // verus!
