//! Peers in random order.

use rand::rngs::OsRng;
use rand::seq::SliceRandom;
use rand::thread_rng;
use vstd::prelude::*;

use crate::peer::{infos, PeerConnectInfo, PeerInfo};

verus! {

/// Whether two lists hold the same peers, each as often, in some order.
pub open spec fn reordered(order: Seq<PeerInfo>, peers: Seq<PeerInfo>) -> bool {
    order.to_multiset() == peers.to_multiset()
}

/// Calls `SliceRandom::shuffle` of `rand` with the operating system's random
/// numbers. It is trusted to reorder the list: the list holds the same peers
/// afterwards, each as often as before. Which order results rests on chance.
#[verifier::external_body]
fn shuffle_by_os(peers: &mut Vec<PeerConnectInfo>)
    ensures
        final(peers)@.to_multiset() == old(peers)@.to_multiset(),
{
    peers.shuffle(&mut OsRng);
}

/// Calls `SliceRandom::shuffle` of `rand` with the thread's own generator. It is
/// trusted to reorder the list: the list holds the same peers afterwards, each
/// as often as before. Which order results rests on chance.
#[verifier::external_body]
fn shuffle_by_thread(peers: &mut Vec<PeerConnectInfo>)
    ensures
        final(peers)@.to_multiset() == old(peers)@.to_multiset(),
{
    peers.shuffle(&mut thread_rng());
}

/// What holds the same elements holds the same images of them.
proof fn lemma_same_images<A, B>(s: Seq<A>, t: Seq<A>, f: spec_fn(A) -> B)
    requires
        s.to_multiset() == t.to_multiset(),
    ensures
        s.map_values(f).to_multiset() == t.map_values(f).to_multiset(),
    decreases s.len(),
{
    broadcast use vstd::seq_lib::group_to_multiset_ensures;

    assert(s.len() == s.to_multiset().len() == t.to_multiset().len() == t.len());
    if s.len() == 0 {
        assert(s =~= t);
    } else {
        let x = s.last();
        assert(s.contains(x));
        assert(s.to_multiset().count(x) > 0);
        assert(t.contains(x));
        let j = choose|j: int| 0 <= j < t.len() && t[j] == x;
        let s1 = s.remove(s.len() - 1);
        let t1 = t.remove(j);
        assert(s1.to_multiset() =~= s.to_multiset().remove(x));
        assert(t1.to_multiset() =~= t.to_multiset().remove(x));
        lemma_same_images(s1, t1, f);
        let (fs, ft) = (s.map_values(f), t.map_values(f));
        assert(fs.remove(s.len() - 1) =~= s1.map_values(f));
        assert(ft.remove(j) =~= t1.map_values(f));
        assert(fs.contains(fs[s.len() - 1]));
        assert(ft.contains(ft[j]));
        assert(fs.to_multiset() =~= fs.remove(s.len() - 1).to_multiset().insert(f(x)));
        assert(ft.to_multiset() =~= ft.remove(j).to_multiset().insert(f(x)));
    }
}

/// The peers in an order drawn from the operating system's random numbers.
pub fn shuffled_by_os(peers: Vec<PeerConnectInfo>) -> (order: Vec<PeerConnectInfo>)
    ensures
        reordered(infos(order@), infos(peers@)),
        order@.len() == peers@.len(),
{
    broadcast use vstd::seq_lib::group_to_multiset_ensures;

    let mut order = peers;
    shuffle_by_os(&mut order);
    proof {
        lemma_same_images(order@, peers@, |peer: PeerConnectInfo| peer@);
        assert(order@.to_multiset().len() == peers@.to_multiset().len());
    }
    order
}

/// The peers in an order drawn from the thread's own generator.
pub fn shuffled_by_thread(peers: Vec<PeerConnectInfo>) -> (order: Vec<PeerConnectInfo>)
    ensures
        reordered(infos(order@), infos(peers@)),
        order@.len() == peers@.len(),
{
    broadcast use vstd::seq_lib::group_to_multiset_ensures;

    let mut order = peers;
    shuffle_by_thread(&mut order);
    proof {
        lemma_same_images(order@, peers@, |peer: PeerConnectInfo| peer@);
        assert(order@.to_multiset().len() == peers@.to_multiset().len());
    }
    order
}

} // verus!
