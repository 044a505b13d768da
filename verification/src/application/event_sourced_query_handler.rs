use crate::fold::{replay, replays_to};
use crate::{EventMeta, Tag, ViewTrait};
use std::marker::PhantomData;
use std::sync::Arc;
use vstd::prelude::*;

verus! {

/// An event query: an event type together with tags that the events must carry.
#[derive(Debug, Clone)]
pub struct QueryTuple {
    /// The event type to match (e.g. `"RestaurantCreatedEvent"`).
    pub event_type: String,
    /// Tags that the events must carry.
    pub tags: Vec<Tag>,
}

/// Query handler that computes a view's state on the fly from the event store.
///
/// Holds a view and an event loader, shared through `Arc`. Handling a query loads the events
/// that match it and replays them through the view; nothing is persisted.
#[verifier::reject_recursive_types(E)]
#[verifier::reject_recursive_types(S)]
#[verifier::reject_recursive_types(V)]
#[verifier::reject_recursive_types(L)]
pub struct EventSourcedQueryHandler<E, S, V, L> where E: EventMeta, V: ViewTrait<S, S, E> {
    view: Arc<V>,
    event_loader: Arc<L>,
    _phantom: PhantomData<(E, S)>,
}

impl<E, S, V, L> EventSourcedQueryHandler<E, S, V, L> where E: EventMeta, V: ViewTrait<S, S, E> {
    /// The view that the handler replays events through.
    pub closed spec fn view_of(&self) -> V {
        *self.view
    }

    /// The loader that the handler loads events with.
    pub closed spec fn event_loader_of(&self) -> L {
        *self.event_loader
    }

    /// Creates a new handler from a view and an event loader.
    pub fn new(view: Arc<V>, event_loader: Arc<L>) -> (handler: Self)
        ensures
            handler.view_of() == *view,
            handler.event_loader_of() == *event_loader,
    {
        EventSourcedQueryHandler { view, event_loader, _phantom: PhantomData }
    }

    /// The view that the handler replays events through.
    pub fn view(&self) -> (view: &V)
        ensures
            *view == self.view_of(),
    {
        &*self.view
    }

    /// The loader that the handler loads events with.
    pub fn event_loader(&self) -> (event_loader: &L)
        ensures
            *event_loader == self.event_loader_of(),
    {
        &*self.event_loader
    }

    /// The state that the view reaches from its initial state by the loaded events, evolving
    /// by one event after another.
    pub fn state_from_events(&self, events: &[E]) -> (state: S)
        requires
            self.view_of().view_defined(),
        ensures
            replays_to(self.view_of(), events@, state),
    {
        replay(&*self.view, events)
    }
}

} // verus!
