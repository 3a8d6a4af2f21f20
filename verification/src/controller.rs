//! The tasks that run beside the message handler: one keeps the network view,
//! one shuffles peers from time to time.

use vstd::prelude::*;

use crate::message::{Event, NetworkViewEvent};
use crate::network_view::{ImmutableNetworkView, NetworkView, SnapshotState, ViewState, INITIAL_NETWORK_SIZE};
use crate::peers::has_key;

verus! {

/// How long the tasks sleep between two ticks.
pub const TICK_MILLIS: u64 = 10000;

/// The view after an event. Only events that add a peer change it: an active
/// peer is filed whether or not it is known, a passive one only if it is not.
pub open spec fn view_after(view: ViewState, event: Event) -> ViewState {
    match event {
        Event::AddActivePeer(info) => view.with_active(info.peer_id, info),
        Event::AddPassivePeer(info) => if view.knows(info.peer_id) {
            view
        } else {
            view.with_passive(info.peer_id, info)
        },
        Event::UnreachablePeer(_) => view,
        Event::RemoveActivePeer => view,
    }
}

/// The events after which the handler gets a snapshot: those that file an
/// active peer again.
pub open spec fn tells_handler(view: ViewState, event: Event) -> bool {
    event matches Event::AddActivePeer(info) && has_key(view.active, info.peer_id)
}

/// The events after which the shuffle gets a snapshot: those that file an active
/// peer again, and those that file a new passive one.
pub open spec fn tells_shuffle(view: ViewState, event: Event) -> bool {
    match event {
        Event::AddPassivePeer(info) => !view.knows(info.peer_id),
        _ => tells_handler(view, event),
    }
}

/// The value of an event that may be there.
pub open spec fn event_value(event: Option<NetworkViewEvent>) -> Option<Event> {
    match event {
        Some(event) => Some(event@),
        None => None,
    }
}

/// The value of a snapshot that may be there.
pub open spec fn snapshot_value(view: Option<ImmutableNetworkView>) -> Option<SnapshotState> {
    match view {
        Some(view) => Some(view@),
        None => None,
    }
}

/// What came last, where nothing new came.
pub open spec fn latest<T>(received: Option<T>, before: Option<T>) -> Option<T> {
    if received is Some {
        received
    } else {
        before
    }
}

/// The value of a [`NetworkViewController`].
pub struct ControllerState {
    pub view: ViewState,
    /// The event that came last; it is processed anew at every tick.
    pub event: Option<Event>,
}

impl ControllerState {
    /// The state after a tick at which `received` came.
    pub open spec fn after(self, received: Option<Event>) -> ControllerState {
        let event = latest(received, self.event);
        ControllerState {
            view: match event {
                Some(event) => view_after(self.view, event),
                None => self.view,
            },
            event,
        }
    }

    /// The snapshot that the shuffle gets at that tick.
    pub open spec fn for_shuffle(self, received: Option<Event>) -> Option<SnapshotState> {
        match latest(received, self.event) {
            Some(event) if tells_shuffle(self.view, event) => Some(
                self.after(received).view.snapshot(),
            ),
            _ => None,
        }
    }

    /// The snapshot that the handler gets at that tick.
    pub open spec fn for_handler(self, received: Option<Event>) -> Option<SnapshotState> {
        match latest(received, self.event) {
            Some(event) if tells_handler(self.view, event) => Some(
                self.after(received).view.snapshot(),
            ),
            _ => None,
        }
    }
}

/// The snapshots that are handed out at a tick.
#[derive(Debug)]
pub struct Broadcast {
    pub to_shuffle: Option<ImmutableNetworkView>,
    pub to_handler: Option<ImmutableNetworkView>,
}

/// Keeps the network view.
#[derive(Debug)]
pub struct NetworkViewController {
    network_view: NetworkView,
    latest_event: Option<NetworkViewEvent>,
}

impl View for NetworkViewController {
    type V = ControllerState;

    closed spec fn view(&self) -> ControllerState {
        ControllerState { view: self.network_view@, event: event_value(self.latest_event) }
    }
}

impl NetworkViewController {
    /// A controller that knows no peer.
    pub fn new() -> (controller: Self)
        ensures
            controller@ == (ControllerState {
                view: ViewState {
                    size: INITIAL_NETWORK_SIZE,
                    active: Seq::empty(),
                    passive: Seq::empty(),
                },
                event: None,
            }),
    {
        NetworkViewController { network_view: NetworkView::new(), latest_event: None }
    }

    /// The view that is kept.
    pub fn network_view(&self) -> (view: &NetworkView)
        ensures
            view@ == self@.view,
            self@.view.well_formed(),
    {
        proof {
            use_type_invariant(&self.network_view);
        }
        &self.network_view
    }

    /// Processes the event that was received, or else the one that came last.
    pub fn tick(&mut self, received: Option<NetworkViewEvent>) -> (broadcast: Broadcast)
        ensures
            final(self)@ == old(self)@.after(event_value(received)),
            final(self)@.view.well_formed(),
            snapshot_value(broadcast.to_shuffle) == old(self)@.for_shuffle(event_value(received)),
            snapshot_value(broadcast.to_handler) == old(self)@.for_handler(event_value(received)),
    {
        if let Some(event) = received {
            self.latest_event = Some(event);
        }
        let mut broadcast = Broadcast { to_shuffle: None, to_handler: None };
        match &self.latest_event {
            Some(NetworkViewEvent::AddActivePeer(peer_connect_info)) => {
                let inserted = self.network_view.replace_active(
                    peer_connect_info.peer_id.clone(),
                    peer_connect_info.clone(),
                );
                if inserted.is_some() {
                    broadcast.to_shuffle =
                    Some(ImmutableNetworkView::from(self.network_view.clone()));
                    broadcast.to_handler =
                    Some(ImmutableNetworkView::from(self.network_view.clone()));
                }
            },
            Some(NetworkViewEvent::AddPassivePeer(peer_connect_info)) => {
                let inserted = self.network_view.insert_passive(
                    peer_connect_info.peer_id.clone(),
                    peer_connect_info.clone(),
                );
                if inserted.is_ok() {
                    broadcast.to_shuffle =
                    Some(ImmutableNetworkView::from(self.network_view.clone()));
                }
            },
            Some(NetworkViewEvent::UnreachablePeer(_)) => {},
            Some(NetworkViewEvent::RemoveActivePeer) => {},
            None => {},
        }
        proof {
            use_type_invariant(&self.network_view);
        }
        broadcast
    }
}

/// Keeps the snapshot that shuffles draw from.
#[derive(Debug)]
pub struct PeriodicShuffleController {
    latest_view: Option<ImmutableNetworkView>,
}

impl View for PeriodicShuffleController {
    type V = Option<SnapshotState>;

    closed spec fn view(&self) -> Option<SnapshotState> {
        snapshot_value(self.latest_view)
    }
}

impl PeriodicShuffleController {
    /// A controller that has seen no snapshot.
    pub fn new() -> (controller: Self)
        ensures
            controller@ is None,
    {
        PeriodicShuffleController { latest_view: None }
    }

    /// Takes over the snapshot that was received, if any, and hands out the one
    /// to shuffle from. Until one has come, there is nothing to shuffle.
    pub fn tick(&mut self, received: Option<ImmutableNetworkView>) -> (view: Option<
        &ImmutableNetworkView,
    >)
        ensures
            final(self)@ == latest(snapshot_value(received), old(self)@),
            match view {
                Some(view) => final(self)@ == Some(view@),
                None => final(self)@ is None,
            },
    {
        if received.is_some() {
            self.latest_view = received;
        }
        self.latest_view.as_ref()
    }
}

} // verus!
