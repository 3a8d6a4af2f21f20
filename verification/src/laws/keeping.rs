//! What is kept of the network: the peers, the view of them, and the tasks that
//! hold it, told from what went in and what came out.

use vstd::arithmetic::power2::{lemma2_to64, lemma_pow2_strictly_increases, pow2};
use vstd::prelude::*;

use crate::controller::{Broadcast, NetworkViewController, PeriodicShuffleController};
use crate::laws::law_log2_brackets_size;
use crate::message::{Event, NetworkViewEvent};
use crate::network_view::{size_log2, ttl_for, ttl_of_size, ImmutableNetworkView, NetworkView, ViewState};
use crate::peer::{infos, PeerConnectInfo, PeerId, PeerInfo, TTL};
use crate::peers::{as_map, distinct_keys, filed, has_key, lemma_filed, lemma_position, position, unfiled, Entry, Peers};

verus! {

// ---- Entries ----

/// The map of some entries has exactly the ids that they are filed under, and
/// finds at each of them the peer that is filed there.
pub proof fn law_map_of_entries(entries: Seq<Entry>)
    requires
        forall|i: int, j: int|
            0 <= i < j < entries.len() ==> #[trigger] entries[i].0 != #[trigger] entries[j].0,
    ensures
        forall|id: Seq<char>|
            as_map(entries).contains_key(id) <==> exists|i: int|
                0 <= i < entries.len() && #[trigger] entries[i].0 == id,
        forall|i: int|
            0 <= i < entries.len() ==> as_map(entries)[(#[trigger] entries[i]).0] == entries[i].1,
{
    assert forall|i: int| 0 <= i < entries.len() implies as_map(entries)[(
    #[trigger] entries[i]).0] == entries[i].1 by {
        lemma_position(entries, i);
    }
}

/// Filing a peer puts it in the place of the one filed under its id, or else at
/// the end, and leaves all others where they were.
proof fn lemma_places_filed(entries: Seq<Entry>, id: Seq<char>, info: PeerInfo)
    requires
        distinct_keys(entries),
    ensures
        !has_key(entries, id) ==> filed(entries, id, info) == entries.push((id, info)),
        has_key(entries, id) ==> filed(entries, id, info).len() == entries.len(),
        forall|i: int|
            0 <= i < entries.len() ==> #[trigger] filed(entries, id, info)[i] == (if entries[i].0
                == id {
                (id, info)
            } else {
                entries[i]
            }),
{
    assert forall|i: int| 0 <= i < entries.len() implies #[trigger] filed(entries, id, info)[i]
        == (if entries[i].0 == id {
        (id, info)
    } else {
        entries[i]
    }) by {
        if entries[i].0 == id {
            lemma_position(entries, i);
        }
        if has_key(entries, id) {
            let p = position(entries, id);
            assert(entries[p].0 == id);
        }
    }
}

/// Peers start out empty.
pub proof fn law_peers_start_empty(peers: Peers)
    requires
        call_ensures(Peers::new, (), peers),
    ensures
        peers.entries().len() == 0,
{
}

/// Filing a peer puts it in the place of the one filed under the same id, which
/// is handed back, or else at the end; all others stay where they were.
pub proof fn law_peers_insert(
    peers: &mut Peers,
    id: PeerId,
    peer: PeerConnectInfo,
    replaced: Option<PeerConnectInfo>,
)
    requires
        distinct_keys(old(peers).entries()),
        call_ensures(Peers::insert, (peers, id, peer), replaced),
    ensures
        forall|i: int|
            0 <= i < old(peers).entries().len() ==> #[trigger] final(peers).entries()[i] == (if old(peers).entries()[i].0 == id@ {
                (id@, peer@)
            } else {
                old(peers).entries()[i]
            }),
        replaced is Some <==> exists|i: int|
            0 <= i < old(peers).entries().len() && #[trigger] old(peers).entries()[i].0 == id@,
        forall|i: int|
            0 <= i < old(peers).entries().len() && (#[trigger] old(peers).entries()[i]).0 == id@
                ==> (replaced matches Some(before) && before@ == old(peers).entries()[i].1),
        replaced is Some ==> final(peers).entries().len() == old(peers).entries().len(),
        replaced is None ==> final(peers).entries() == old(peers).entries().push((id@, peer@)),
{
    let before = old(peers).entries();
    lemma_places_filed(before, id@, peer@);
    law_map_of_entries(before);
}

/// Taking out a peer takes out the one filed under its id, which is handed back,
/// and leaves all others in their order.
pub proof fn law_peers_remove(peers: &mut Peers, id: PeerId, removed: Option<PeerConnectInfo>)
    requires
        distinct_keys(old(peers).entries()),
        call_ensures(Peers::remove, (peers, &id), removed),
    ensures
        removed is Some <==> exists|i: int|
            0 <= i < old(peers).entries().len() && #[trigger] old(peers).entries()[i].0 == id@,
        forall|i: int|
            0 <= i < old(peers).entries().len() && (#[trigger] old(peers).entries()[i]).0 == id@
                ==> {
                &&& removed matches Some(before) && before@ == old(peers).entries()[i].1
                &&& final(peers).entries() == old(peers).entries().remove(i)
            },
        removed is None ==> final(peers).entries() == old(peers).entries(),
{
    let before = old(peers).entries();
    law_map_of_entries(before);
    assert forall|i: int|
        0 <= i < before.len() && (#[trigger] before[i]).0 == id@ implies unfiled(before, id@)
        == before.remove(i) by {
        lemma_position(before, i);
    }
}

/// A lookup finds the peer that is filed under an id, if one is.
pub proof fn law_peers_lookup(
    peers: &Peers,
    id: PeerId,
    found: Option<&PeerConnectInfo>,
    contained: bool,
    count: usize,
)
    requires
        distinct_keys(peers.entries()),
        call_ensures(Peers::get, (peers, &id), found),
        call_ensures(Peers::contains_key, (peers, &id), contained),
        call_ensures(Peers::len, (peers,), count),
    ensures
        contained <==> exists|i: int|
            0 <= i < peers.entries().len() && #[trigger] peers.entries()[i].0 == id@,
        found is Some <==> contained,
        forall|i: int|
            0 <= i < peers.entries().len() && (#[trigger] peers.entries()[i]).0 == id@
                ==> (found matches Some(peer) && peer@ == peers.entries()[i].1),
        count == peers.entries().len(),
{
    law_map_of_entries(peers.entries());
}

/// The peers are listed, and named one by one, in the order of their entries.
pub proof fn law_peers_are_listed_in_order(
    peers: &Peers,
    listed: Vec<PeerConnectInfo>,
    i: usize,
    id: &PeerId,
    peer: &PeerConnectInfo,
)
    requires
        i < peers.entries().len(),
        call_ensures(Peers::values, (peers,), listed),
        call_ensures(Peers::id_at, (peers, i), id),
        call_ensures(Peers::peer_at, (peers, i), peer),
    ensures
        listed@.len() == peers.entries().len(),
        listed@[i as int]@ == peers.entries()[i as int].1,
        id@ == peers.entries()[i as int].0,
        peer@ == peers.entries()[i as int].1,
{
    assert(infos(listed@).len() == listed@.len());
    assert(infos(listed@)[i as int] == listed@[i as int]@);
}

// ---- The network view ----

/// In a well-formed view no id occurs twice on one side, and that is all.
pub proof fn law_well_formed_views(view: ViewState)
    ensures
        view.well_formed() <==> {
            &&& forall|i: int, j: int|
                0 <= i < j < view.active.len() ==> #[trigger] view.active[i].0
                    != #[trigger] view.active[j].0
            &&& forall|i: int, j: int|
                0 <= i < j < view.passive.len() ==> #[trigger] view.passive[i].0
                    != #[trigger] view.passive[j].0
        },
{
}

/// A view knows the peers that are filed on one of its sides, and no others.
pub proof fn law_known_peers(view: ViewState, id: Seq<char>)
    ensures
        view.knows(id) <==> {
            ||| exists|i: int| 0 <= i < view.active.len() && #[trigger] view.active[i].0 == id
            ||| exists|i: int| 0 <= i < view.passive.len() && #[trigger] view.passive[i].0 == id
        },
{
}

/// A new view is of a network of four and knows no peer.
pub proof fn law_new_view(view: NetworkView, size: usize)
    requires
        call_ensures(NetworkView::new, (), view),
        call_ensures(NetworkView::assumed_network_size, (&view,), size),
    ensures
        size == 4,
        view@.size == 4,
        view@.active.len() == 0,
        view@.passive.len() == 0,
{
}

/// Inserting an active peer is refused where the peer is known on either side,
/// and changes nothing then; else it adds the peer to the active ones, and
/// nothing else changes.
pub proof fn law_insert_active(
    view: &mut NetworkView,
    id: PeerId,
    peer: PeerConnectInfo,
    inserted: Result<(), ()>,
)
    requires
        call_ensures(NetworkView::insert_active, (view, id, peer), inserted),
    ensures
        final(view)@.well_formed(),
        inserted is Err <==> {
            ||| exists|i: int|
                0 <= i < old(view)@.active.len() && #[trigger] old(view)@.active[i].0 == id@
            ||| exists|i: int|
                0 <= i < old(view)@.passive.len() && #[trigger] old(view)@.passive[i].0 == id@
        },
        inserted is Err ==> final(view)@ == old(view)@,
        inserted is Ok ==> final(view)@.active == old(view)@.active.push((id@, peer@)),
        final(view)@.passive == old(view)@.passive,
        final(view)@.size == old(view)@.size,
{
}

/// Inserting a passive peer is refused where the peer is known on either side,
/// and changes nothing then; else it adds the peer to the passive ones, and
/// nothing else changes.
pub proof fn law_insert_passive(
    view: &mut NetworkView,
    id: PeerId,
    peer: PeerConnectInfo,
    inserted: Result<(), ()>,
)
    requires
        call_ensures(NetworkView::insert_passive, (view, id, peer), inserted),
    ensures
        final(view)@.well_formed(),
        inserted is Err <==> {
            ||| exists|i: int|
                0 <= i < old(view)@.active.len() && #[trigger] old(view)@.active[i].0 == id@
            ||| exists|i: int|
                0 <= i < old(view)@.passive.len() && #[trigger] old(view)@.passive[i].0 == id@
        },
        inserted is Err ==> final(view)@ == old(view)@,
        inserted is Ok ==> final(view)@.passive == old(view)@.passive.push((id@, peer@)),
        final(view)@.active == old(view)@.active,
        final(view)@.size == old(view)@.size,
{
}

/// Replacing an active peer puts it in the place of the active one with its id,
/// which is handed back, or else adds it; passive peers do not matter, and
/// nothing else changes.
pub proof fn law_replace_active(
    view: &mut NetworkView,
    id: PeerId,
    peer: PeerConnectInfo,
    replaced: Option<PeerConnectInfo>,
)
    requires
        old(view)@.well_formed(),
        call_ensures(NetworkView::replace_active, (view, id, peer), replaced),
    ensures
        final(view)@.well_formed(),
        forall|i: int|
            0 <= i < old(view)@.active.len() ==> #[trigger] final(view)@.active[i] == (if old(view)@.active[i].0 == id@ {
                (id@, peer@)
            } else {
                old(view)@.active[i]
            }),
        replaced is Some <==> exists|i: int|
            0 <= i < old(view)@.active.len() && #[trigger] old(view)@.active[i].0 == id@,
        forall|i: int|
            0 <= i < old(view)@.active.len() && (#[trigger] old(view)@.active[i]).0 == id@
                ==> (replaced matches Some(before) && before@ == old(view)@.active[i].1),
        replaced is Some ==> final(view)@.active.len() == old(view)@.active.len(),
        replaced is None ==> final(view)@.active == old(view)@.active.push((id@, peer@)),
        final(view)@.passive == old(view)@.passive,
        final(view)@.size == old(view)@.size,
{
    lemma_places_filed(old(view)@.active, id@, peer@);
    law_map_of_entries(old(view)@.active);
}

/// Removing an active peer takes out the one with the id, which is handed back,
/// and nothing else changes.
pub proof fn law_remove_active(view: &mut NetworkView, id: PeerId, removed: Option<PeerConnectInfo>)
    requires
        old(view)@.well_formed(),
        call_ensures(NetworkView::remove_active, (view, &id), removed),
    ensures
        final(view)@.well_formed(),
        removed is Some <==> exists|i: int|
            0 <= i < old(view)@.active.len() && #[trigger] old(view)@.active[i].0 == id@,
        forall|i: int|
            0 <= i < old(view)@.active.len() && (#[trigger] old(view)@.active[i]).0 == id@ ==> {
                &&& removed matches Some(before) && before@ == old(view)@.active[i].1
                &&& final(view)@.active == old(view)@.active.remove(i)
            },
        removed is None ==> final(view)@.active == old(view)@.active,
        final(view)@.passive == old(view)@.passive,
        final(view)@.size == old(view)@.size,
{
    let before = old(view)@.active;
    law_map_of_entries(before);
    assert forall|i: int|
        0 <= i < before.len() && (#[trigger] before[i]).0 == id@ implies unfiled(before, id@)
        == before.remove(i) by {
        lemma_position(before, i);
    }
}

/// Powers of two that bracket a number have one exponent.
proof fn lemma_one_exponent(size: u32, low: nat, high: nat)
    requires
        pow2(low) <= size < pow2(low + 1),
        pow2(high) <= size < pow2(high + 1),
    ensures
        low == high,
{
    if low < high {
        if low + 1 < high {
            lemma_pow2_strictly_increases(low + 1, high);
        }
    } else if high < low {
        if high + 1 < low {
            lemma_pow2_strictly_increases(high + 1, low);
        }
    }
}

/// Messages are given three hops in a network of fewer than sixteen, and in one of
/// eight or more as many as the exponent of the largest power of two in its size.
pub proof fn law_hops_of_a_size(size: u32, ttl: TTL)
    requires
        ttl == ttl_for(size) || call_ensures(ttl_of_size, (size,), ttl),
    ensures
        size < 16 ==> ttl == 3,
        size >= 8 ==> pow2(ttl as nat) <= size < pow2(ttl as nat + 1),
{
    lemma2_to64();
    if size > 0 {
        law_log2_brackets_size(size);
        if size >= 8 && size < 16 {
            lemma_one_exponent(size, size_log2(size), 3);
        }
        if size < 8 && size_log2(size) >= 3 {
            if size_log2(size) > 3 {
                lemma_pow2_strictly_increases(3, size_log2(size));
            }
        }
        if size >= 16 && size_log2(size) < 3 {
            if size_log2(size) + 1 < 4 {
                lemma_pow2_strictly_increases(size_log2(size) + 1, 4);
            }
        }
    }
}

/// A view calls for two passive peers per member of the network, for as many
/// active ones as the exponent of the largest power of two in its size, and for
/// none in an empty one; and it names the hops of its size.
pub proof fn law_capacities(
    view: NetworkView,
    size: usize,
    active: usize,
    passive: usize,
    ttl: TTL,
)
    requires
        call_ensures(NetworkView::assumed_network_size, (&view,), size),
        call_ensures(NetworkView::active_peer_capacity, (&view,), active),
        call_ensures(NetworkView::passive_peer_capacity, (&view,), passive),
        call_ensures(NetworkView::ttl_for_network_size, (&view,), ttl),
    ensures
        size == view@.size,
        passive == 2 * size,
        size == 0 ==> active == 0,
        size > 0 ==> pow2(active as nat) <= size < pow2(active as nat + 1),
        size < 16 ==> ttl == 3,
        size >= 8 ==> pow2(ttl as nat) <= size < pow2(ttl as nat + 1),
{
    law_hops_of_a_size(view@.size, ttl);
    if size > 0 {
        law_log2_brackets_size(view@.size);
    }
}

/// Copies of peers, views and snapshots hold what was copied.
pub proof fn law_copies_hold_the_same(
    peers: Peers,
    peers_copy: Peers,
    view: NetworkView,
    view_copy: NetworkView,
    snapshot: ImmutableNetworkView,
    snapshot_copy: ImmutableNetworkView,
)
    requires
        call_ensures(<Peers as Clone>::clone, (&peers,), peers_copy),
        call_ensures(<NetworkView as Clone>::clone, (&view,), view_copy),
        call_ensures(<ImmutableNetworkView as Clone>::clone, (&snapshot,), snapshot_copy),
    ensures
        peers_copy.entries() == peers.entries(),
        view_copy@.size == view@.size,
        view_copy@.active == view@.active,
        view_copy@.passive == view@.passive,
        snapshot_copy.assumed_network_size == snapshot.assumed_network_size,
        snapshot_copy.active_view.entries() == snapshot.active_view.entries(),
        snapshot_copy.passive_view.entries() == snapshot.passive_view.entries(),
        snapshot_copy.ttl == snapshot.ttl,
{
    let (copied, shown) = (snapshot_copy@, snapshot@);
    assert(copied.size == snapshot_copy.assumed_network_size && shown.size
        == snapshot.assumed_network_size);
    assert(copied.active == snapshot_copy.active_view.entries() && shown.active
        == snapshot.active_view.entries());
    assert(copied.passive == snapshot_copy.passive_view.entries() && shown.passive
        == snapshot.passive_view.entries());
    assert(copied.ttl == snapshot_copy.ttl && shown.ttl == snapshot.ttl);
}

/// The sides of a view are what it shows of itself.
pub proof fn law_view_shows_its_sides(view: NetworkView, active: &Peers, passive: &Peers)
    requires
        call_ensures(NetworkView::active_view, (&view,), active),
        call_ensures(NetworkView::passive_view, (&view,), passive),
    ensures
        active.entries() == view@.active,
        passive.entries() == view@.passive,
{
}

/// A snapshot shows what the view holds, and the hops of its size.
pub proof fn law_snapshot_shows_the_view(view: NetworkView, snapshot: ImmutableNetworkView)
    requires
        call_ensures(
            <ImmutableNetworkView as From<NetworkView>>::from,
            (view,),
            snapshot,
        ),
    ensures
        snapshot.active_view.entries() == view@.active,
        snapshot.passive_view.entries() == view@.passive,
        snapshot.assumed_network_size == view@.size,
        view@.size < 16 ==> snapshot.ttl == 3,
        view@.size >= 8 ==> pow2(snapshot.ttl as nat) <= view@.size < pow2(
            snapshot.ttl as nat + 1,
        ),
{
    assert(snapshot@ == view@.snapshot());
    law_hops_of_a_size(view@.size, snapshot.ttl);
}

/// The default snapshot shows no peer, a network of four and three hops.
pub proof fn law_default_snapshot(snapshot: ImmutableNetworkView)
    requires
        call_ensures(ImmutableNetworkView::default, (), snapshot),
    ensures
        snapshot.active_view.entries().len() == 0,
        snapshot.passive_view.entries().len() == 0,
        snapshot.assumed_network_size == 4,
        snapshot.ttl == 3,
{
    let shown = snapshot@;
    assert(shown.active == snapshot.active_view.entries());
    assert(shown.passive == snapshot.passive_view.entries());
}

// ---- The tasks ----

/// A controller starts without peers and without an event.
pub proof fn law_controller_starts_empty(controller: NetworkViewController)
    requires
        call_ensures(NetworkViewController::new, (), controller),
    ensures
        controller@.view.size == 4,
        controller@.view.active.len() == 0,
        controller@.view.passive.len() == 0,
        controller@.event is None,
{
}

/// The view that a controller shows is the one it keeps.
pub proof fn law_controller_shows_its_view(controller: NetworkViewController, view: &NetworkView)
    requires
        call_ensures(NetworkViewController::network_view, (&controller,), view),
    ensures
        view@.size == controller@.view.size,
        view@.active == controller@.view.active,
        view@.passive == controller@.view.passive,
        controller@.view.well_formed(),
{
}

/// The event that comes at a tick is kept for the next ones; where none comes the
/// last one is. Without any event a tick changes nothing and hands out nothing.
pub proof fn law_tick_keeps_the_latest_event(
    controller: &mut NetworkViewController,
    received: Option<NetworkViewEvent>,
    broadcast: Broadcast,
)
    requires
        call_ensures(NetworkViewController::tick, (controller, received), broadcast),
    ensures
        received matches Some(event) ==> final(controller)@.event == Some(event@),
        received is None ==> final(controller)@.event == old(controller)@.event,
        received is None && old(controller)@.event is None ==> {
            &&& final(controller)@ == old(controller)@
            &&& broadcast.to_shuffle is None
            &&& broadcast.to_handler is None
        },
{
}

/// A tick processes the event that comes, or else the last one.
///
/// Adding a passive peer leaves the active ones as they are; a peer that is not
/// known joins the passive ones, and one that is known changes nothing. Adding an
/// active peer leaves the passive ones as they are, and puts it in the place of
/// the active one with its id or else at the end. No other event changes the
/// view, and none its size.
pub proof fn law_tick_files_peers(
    controller: &mut NetworkViewController,
    received: Option<NetworkViewEvent>,
    event: Event,
    broadcast: Broadcast,
)
    requires
        old(controller)@.view.well_formed(),
        received matches Some(came) ==> event == came@,
        received is None ==> old(controller)@.event == Some(event),
        call_ensures(NetworkViewController::tick, (controller, received), broadcast),
    ensures
        final(controller)@.view.well_formed(),
        final(controller)@.view.size == old(controller)@.view.size,
        event matches Event::AddPassivePeer(info) ==> {
            let known = {
                ||| exists|i: int|
                    0 <= i < old(controller)@.view.active.len() && #[trigger] old(controller)@.view.active[i].0 == info.peer_id
                ||| exists|i: int|
                    0 <= i < old(controller)@.view.passive.len() && #[trigger] old(controller)@.view.passive[i].0 == info.peer_id
            };
            &&& final(controller)@.view.active == old(controller)@.view.active
            &&& known ==> final(controller)@.view.passive == old(controller)@.view.passive
            &&& !known ==> final(controller)@.view.passive == old(controller)@.view.passive.push(
                (info.peer_id, info),
            )
            &&& !known ==> as_map(final(controller)@.view.passive) == as_map(
                old(controller)@.view.passive,
            ).insert(info.peer_id, info)
        },
        event matches Event::AddActivePeer(info) ==> {
            let active = exists|i: int|
                0 <= i < old(controller)@.view.active.len() && #[trigger] old(controller)@.view.active[i].0 == info.peer_id;
            &&& final(controller)@.view.passive == old(controller)@.view.passive
            &&& as_map(final(controller)@.view.active) == as_map(
                old(controller)@.view.active,
            ).insert(info.peer_id, info)
            &&& forall|i: int|
                0 <= i < old(controller)@.view.active.len() ==> #[trigger] final(controller)@.view.active[i] == (if old(controller)@.view.active[i].0 == info.peer_id {
                    (info.peer_id, info)
                } else {
                    old(controller)@.view.active[i]
                })
            &&& active ==> final(controller)@.view.active.len() == old(controller)@.view.active.len()
            &&& !active ==> final(controller)@.view.active == old(controller)@.view.active.push(
                (info.peer_id, info),
            )
        },
        event is UnreachablePeer || event is RemoveActivePeer ==> final(controller)@.view == old(controller)@.view,
{
    let view = old(controller)@.view;
    match event {
        Event::AddPassivePeer(info) => {
            lemma_filed(view.passive, info.peer_id, info);
        },
        Event::AddActivePeer(info) => {
            lemma_filed(view.active, info.peer_id, info);
            lemma_places_filed(view.active, info.peer_id, info);
        },
        _ => {},
    }
}

/// The handler gets a snapshot at a tick exactly where an active peer is added
/// that was active already; the shuffle gets one there too, and where a passive
/// peer is added that was not known. A snapshot shows the view as it is after the
/// tick, and the hops of its size.
pub proof fn law_tick_hands_out_snapshots(
    controller: &mut NetworkViewController,
    received: Option<NetworkViewEvent>,
    event: Event,
    broadcast: Broadcast,
)
    requires
        received matches Some(came) ==> event == came@,
        received is None ==> old(controller)@.event == Some(event),
        call_ensures(NetworkViewController::tick, (controller, received), broadcast),
    ensures
        broadcast.to_handler is Some <==> {
            &&& event matches Event::AddActivePeer(info)
            &&& exists|i: int|
                0 <= i < old(controller)@.view.active.len() && #[trigger] old(controller)@.view.active[i].0 == info.peer_id
        },
        broadcast.to_shuffle is Some <==> {
            ||| broadcast.to_handler is Some
            ||| {
                &&& event matches Event::AddPassivePeer(info)
                &&& forall|i: int|
                    0 <= i < old(controller)@.view.active.len() ==> #[trigger] old(controller)@.view.active[i].0 != info.peer_id
                &&& forall|i: int|
                    0 <= i < old(controller)@.view.passive.len() ==> #[trigger] old(controller)@.view.passive[i].0 != info.peer_id
            }
        },
        forall|view: ImmutableNetworkView|
            broadcast.to_handler == Some(view) || broadcast.to_shuffle == Some(view) ==> {
                &&& (#[trigger] view.active_view.entries()) == final(controller)@.view.active
                &&& view.passive_view.entries() == final(controller)@.view.passive
                &&& view.assumed_network_size == final(controller)@.view.size
                &&& final(controller)@.view.size < 16 ==> view.ttl == 3
                &&& final(controller)@.view.size >= 8 ==> pow2(view.ttl as nat) <= final(controller)@.view.size < pow2(view.ttl as nat + 1)
            },
{
    let after = final(controller)@.view;
    assert forall|view: ImmutableNetworkView|
        broadcast.to_handler == Some(view) || broadcast.to_shuffle == Some(view) implies {
        &&& (#[trigger] view.active_view.entries()) == after.active
        &&& view.passive_view.entries() == after.passive
        &&& view.assumed_network_size == after.size
        &&& after.size < 16 ==> view.ttl == 3
        &&& after.size >= 8 ==> pow2(view.ttl as nat) <= after.size < pow2(view.ttl as nat + 1)
    } by {
        assert(view@ == after.snapshot());
        law_hops_of_a_size(after.size, view.ttl);
    }
}

/// The shuffle starts without a snapshot, draws from the one that comes at a tick,
/// and where none comes from the one before; it has none until one came.
pub proof fn law_shuffle_draws_from_the_latest_snapshot(
    fresh: PeriodicShuffleController,
    controller: &mut PeriodicShuffleController,
    received: Option<ImmutableNetworkView>,
    view: Option<&ImmutableNetworkView>,
)
    requires
        call_ensures(PeriodicShuffleController::new, (), fresh),
        call_ensures(PeriodicShuffleController::tick, (controller, received), view),
    ensures
        fresh@ is None,
        received matches Some(came) ==> final(controller)@ == Some(came@),
        received is None ==> final(controller)@ == old(controller)@,
        view is Some <==> final(controller)@ is Some,
        view matches Some(shown) ==> final(controller)@ == Some(shown@),
{
}

} // verus!
