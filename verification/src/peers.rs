//! A map from peer ids to peers that is walked in the order of insertion.

use vstd::prelude::*;

use crate::peer::{infos, PeerConnectInfo, PeerId, PeerInfo};

verus! {

/// The value of one entry: an id and the peer filed under it.
pub type Entry = (Seq<char>, PeerInfo);

/// Whether some entry is filed under `id`.
pub open spec fn has_key(entries: Seq<Entry>, id: Seq<char>) -> bool {
    exists|i: int| 0 <= i < entries.len() && #[trigger] entries[i].0 == id
}

/// Where the entry filed under `id` stands.
pub open spec fn position(entries: Seq<Entry>, id: Seq<char>) -> int
    recommends
        has_key(entries, id),
{
    choose|i: int| 0 <= i < entries.len() && #[trigger] entries[i].0 == id
}

/// No two entries are filed under the same id.
pub open spec fn distinct_keys(entries: Seq<Entry>) -> bool {
    forall|i: int, j: int|
        0 <= i < j < entries.len() ==> #[trigger] entries[i].0 != #[trigger] entries[j].0
}

/// Files `info` under `id`: in place of the entry that is there, else at the end.
pub open spec fn filed(entries: Seq<Entry>, id: Seq<char>, info: PeerInfo) -> Seq<Entry> {
    if has_key(entries, id) {
        entries.update(position(entries, id), (id, info))
    } else {
        entries.push((id, info))
    }
}

/// Takes out the entry filed under `id`, where there is one.
pub open spec fn unfiled(entries: Seq<Entry>, id: Seq<char>) -> Seq<Entry> {
    if has_key(entries, id) {
        entries.remove(position(entries, id))
    } else {
        entries
    }
}

/// The map that a list of entries stands for.
pub open spec fn as_map(entries: Seq<Entry>) -> Map<Seq<char>, PeerInfo> {
    Map::new(
        |id: Seq<char>| has_key(entries, id),
        |id: Seq<char>| entries[position(entries, id)].1,
    )
}

/// The peers of a list of entries, in order.
pub open spec fn values(entries: Seq<Entry>) -> Seq<PeerInfo> {
    entries.map_values(|entry: Entry| entry.1)
}

/// At distinct ids a lookup finds the one entry there is.
pub proof fn lemma_position(entries: Seq<Entry>, i: int)
    requires
        distinct_keys(entries),
        0 <= i < entries.len(),
    ensures
        has_key(entries, entries[i].0),
        position(entries, entries[i].0) == i,
{
    let p = position(entries, entries[i].0);
    assert(0 <= p < entries.len() && entries[p].0 == entries[i].0);
}

/// Filing keeps ids distinct and is insertion on the map.
pub proof fn lemma_filed(entries: Seq<Entry>, id: Seq<char>, info: PeerInfo)
    requires
        distinct_keys(entries),
    ensures
        distinct_keys(filed(entries, id, info)),
        as_map(filed(entries, id, info)) == as_map(entries).insert(id, info),
{
    let after = filed(entries, id, info);
    let p = if has_key(entries, id) { position(entries, id) } else { entries.len() as int };
    assert(after[p].0 == id && after[p].1 == info);
    assert(distinct_keys(after));
    assert forall|k: Seq<char>| has_key(after, k) == (has_key(entries, k) || k == id) by {
        if has_key(entries, k) {
            let i = position(entries, k);
            assert(after[i].0 == k);
        }
        if has_key(after, k) && k != id {
            let i = position(after, k);
            assert(entries[i].0 == k);
        }
    }
    assert forall|k: Seq<char>| has_key(after, k) implies after[position(after, k)].1 == (if k
        == id {
        info
    } else {
        entries[position(entries, k)].1
    }) by {
        if k == id {
            lemma_position(after, p);
        } else {
            let i = position(entries, k);
            assert(after[i].0 == k);
            lemma_position(after, i);
        }
    }
    assert(as_map(after) =~= as_map(entries).insert(id, info));
}

/// Taking out keeps ids distinct and is removal on the map.
pub proof fn lemma_unfiled(entries: Seq<Entry>, id: Seq<char>)
    requires
        distinct_keys(entries),
    ensures
        distinct_keys(unfiled(entries, id)),
        as_map(unfiled(entries, id)) == as_map(entries).remove(id),
{
    let after = unfiled(entries, id);
    let p = if has_key(entries, id) { position(entries, id) } else { entries.len() as int };
    assert forall|i: int| 0 <= i < after.len() implies #[trigger] after[i] == entries[if i < p {
        i
    } else {
        i + 1
    }] && after[i].0 != id by {
        if i >= p {
            assert(entries[i + 1].0 != entries[p].0);
        }
    }
    assert(distinct_keys(after));
    assert forall|k: Seq<char>| has_key(after, k) == (has_key(entries, k) && k != id) by {
        if has_key(entries, k) && k != id {
            let i = position(entries, k);
            assert(after[if i < p { i } else { i - 1 }].0 == k);
        }
        if has_key(after, k) {
            let i = position(after, k);
            assert(entries[if i < p { i } else { i + 1 }].0 == k);
        }
    }
    assert forall|k: Seq<char>| has_key(after, k) implies after[position(after, k)]
        == entries[position(entries, k)] by {
        let i = position(entries, k);
        let j = if i < p { i } else { i - 1 };
        assert(after[j].0 == k);
        lemma_position(after, j);
    }
    assert(as_map(after) =~= as_map(entries).remove(id));
}

/// With distinct ids the map holds as many peers as there are entries.
pub proof fn lemma_size(entries: Seq<Entry>)
    requires
        distinct_keys(entries),
    ensures
        as_map(entries).dom().finite(),
        as_map(entries).len() == entries.len(),
    decreases entries.len(),
{
    if entries.len() == 0 {
        assert(as_map(entries) =~= Map::empty());
    } else {
        let front = entries.drop_last();
        let (id, info) = entries.last();
        assert(!has_key(front, id)) by {
            if has_key(front, id) {
                let i = position(front, id);
                assert(entries[i].0 == entries[entries.len() - 1].0);
            }
        }
        assert(entries =~= filed(front, id, info));
        lemma_filed(front, id, info);
        lemma_size(front);
    }
}

/// Peers by id.
#[derive(Debug)]
pub struct Peers {
    entries: Vec<(PeerId, PeerConnectInfo)>,
}

impl View for Peers {
    type V = Map<Seq<char>, PeerInfo>;

    open spec fn view(&self) -> Map<Seq<char>, PeerInfo> {
        as_map(self.entries())
    }
}

impl Peers {
    /// The entries in the order in which they are walked.
    pub closed spec fn entries(self) -> Seq<Entry> {
        self.entries@.map_values(|entry: (PeerId, PeerConnectInfo)| (entry.0@, entry.1@))
    }

    /// No two peers are filed under the same id.
    #[verifier::type_invariant]
    pub open spec fn ids_distinct(self) -> bool {
        distinct_keys(self.entries())
    }

    /// No peers.
    pub fn new() -> (peers: Self)
        ensures
            peers.entries() == Seq::<Entry>::empty(),
            peers@ == Map::<Seq<char>, PeerInfo>::empty(),
    {
        let peers = Peers { entries: Vec::new() };
        assert(peers.entries() =~= Seq::<Entry>::empty());
        assert(peers@ =~= Map::empty());
        peers
    }

    /// How many peers there are.
    pub fn len(&self) -> (count: usize)
        ensures
            count == self.entries().len(),
            count == self@.len(),
    {
        proof {
            use_type_invariant(self);
            lemma_size(self.entries());
        }
        self.entries.len()
    }

    /// The index of the entry filed under `id`.
    fn find(&self, id: &PeerId) -> (found: Option<usize>)
        ensures
            match found {
                Some(i) => has_key(self.entries(), id@) && i == position(self.entries(), id@) && i
                    < self.entries@.len(),
                None => !has_key(self.entries(), id@),
            },
    {
        proof {
            use_type_invariant(self);
        }
        let ghost model = self.entries();
        for i in 0..self.entries.len()
            invariant
                model == self.entries(),
                distinct_keys(model),
                model.len() == self.entries@.len(),
                forall|j: int| 0 <= j < i ==> #[trigger] model[j].0 != id@,
        {
            assert(model[i as int].0 == self.entries@[i as int].0@);
            if self.entries[i].0.eq(id) {
                proof {
                    lemma_position(model, i as int);
                }
                return Some(i);
            }
        }
        None
    }

    /// Whether a peer is filed under `id`.
    pub fn contains_key(&self, id: &PeerId) -> (found: bool)
        ensures
            found == self@.contains_key(id@),
            found == has_key(self.entries(), id@),
    {
        self.find(id).is_some()
    }

    /// The peer filed under `id`.
    pub fn get(&self, id: &PeerId) -> (found: Option<&PeerConnectInfo>)
        ensures
            match found {
                Some(peer) => self@.contains_key(id@) && peer@ == self@[id@],
                None => !self@.contains_key(id@),
            },
    {
        match self.find(id) {
            Some(i) => Some(&self.entries[i].1),
            None => None,
        }
    }

    /// Files `peer` under `id` and hands back the peer that was there.
    pub fn insert(&mut self, id: PeerId, peer: PeerConnectInfo) -> (replaced: Option<
        PeerConnectInfo,
    >)
        ensures
            final(self)@ == old(self)@.insert(id@, peer@),
            final(self).entries() == filed(old(self).entries(), id@, peer@),
            match replaced {
                Some(before) => old(self)@.contains_key(id@) && before@ == old(self)@[id@],
                None => !old(self)@.contains_key(id@),
            },
    {
        proof {
            use_type_invariant(&*self);
            lemma_filed(self.entries(), id@, peer@);
        }
        let found = self.find(&id);
        let ghost before = self.entries();
        let mut entries: Vec<(PeerId, PeerConnectInfo)> = Vec::new();
        std::mem::swap(&mut entries, &mut self.entries);
        match found {
            Some(i) => {
                let mut entry = (id, peer);
                let ghost (k, v) = (entry.0@, entry.1@);
                std::mem::swap(&mut entries[i], &mut entry);
                assert(Peers { entries }.entries() =~= filed(before, k, v));
                self.entries = entries;
                Some(entry.1)
            },
            None => {
                let ghost (k, v) = (id@, peer@);
                entries.push((id, peer));
                assert(Peers { entries }.entries() =~= filed(before, k, v));
                self.entries = entries;
                None
            },
        }
    }

    /// Takes out and hands back the peer filed under `id`.
    pub fn remove(&mut self, id: &PeerId) -> (removed: Option<PeerConnectInfo>)
        ensures
            final(self)@ == old(self)@.remove(id@),
            final(self).entries() == unfiled(old(self).entries(), id@),
            match removed {
                Some(peer) => old(self)@.contains_key(id@) && peer@ == old(self)@[id@],
                None => !old(self)@.contains_key(id@),
            },
    {
        proof {
            use_type_invariant(&*self);
            lemma_unfiled(self.entries(), id@);
        }
        match self.find(id) {
            Some(i) => {
                let ghost before = self.entries();
                let mut entries: Vec<(PeerId, PeerConnectInfo)> = Vec::new();
                std::mem::swap(&mut entries, &mut self.entries);
                let entry = entries.remove(i);
                assert(Peers { entries }.entries() =~= unfiled(before, id@));
                self.entries = entries;
                Some(entry.1)
            },
            None => {
                assert(self@ =~= self@.remove(id@));
                None
            },
        }
    }

    /// The id of the `i`th entry.
    pub fn id_at(&self, i: usize) -> (id: &PeerId)
        requires
            i < self.entries().len(),
        ensures
            id@ == self.entries()[i as int].0,
    {
        &self.entries[i].0
    }

    /// The peer of the `i`th entry.
    pub fn peer_at(&self, i: usize) -> (peer: &PeerConnectInfo)
        requires
            i < self.entries().len(),
        ensures
            peer@ == self.entries()[i as int].1,
    {
        &self.entries[i].1
    }

    /// Copies of all peers, in order.
    pub fn values(&self) -> (peers: Vec<PeerConnectInfo>)
        ensures
            infos(peers@) == values(self.entries()),
    {
        let mut peers: Vec<PeerConnectInfo> = Vec::new();
        let count: usize = self.entries.len();
        for i in 0..count
            invariant
                count == self.entries().len(),
                infos(peers@) =~= values(self.entries()).take(i as int),
        {
            let ghost before = peers@;
            peers.push(self.peer_at(i).clone());
            assert(infos(peers@) =~= infos(before).push(self.entries()[i as int].1));
        }
        peers
    }
}

impl Clone for Peers {
    fn clone(&self) -> (copy: Self)
        ensures
            copy.entries() == self.entries(),
            copy@ == self@,
    {
        proof {
            use_type_invariant(self);
        }
        let mut entries: Vec<(PeerId, PeerConnectInfo)> = Vec::new();
        for i in 0..self.entries.len()
            invariant
                entries@.len() == i,
                forall|j: int| 0 <= j < i ==> #[trigger] entries@[j] == self.entries@[j],
        {
            entries.push((self.entries[i].0.clone(), self.entries[i].1.clone()));
        }
        assert(Peers { entries }.entries() =~= self.entries());
        Peers { entries }
    }
}

} // verus!
