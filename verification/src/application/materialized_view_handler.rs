use crate::{EventMeta, ViewTrait};
use std::marker::PhantomData;
use std::sync::Arc;
use vstd::prelude::*;

verus! {

/// Event handler for materialized views.
///
/// Holds a view and a view repository, shared through `Arc`. Handling an event runs the
/// repository's execute pattern with the view: fetch the view's state, evolve it by the event,
/// save it.
#[verifier::reject_recursive_types(E)]
#[verifier::reject_recursive_types(S)]
#[verifier::reject_recursive_types(V)]
#[verifier::reject_recursive_types(R)]
pub struct MaterializedViewHandler<E, S, V, R> where E: EventMeta, V: ViewTrait<S, S, E> {
    view: Arc<V>,
    repository: Arc<R>,
    _phantom: PhantomData<(E, S)>,
}

impl<E, S, V, R> MaterializedViewHandler<E, S, V, R> where E: EventMeta, V: ViewTrait<S, S, E> {
    /// The view that the handler evolves.
    pub closed spec fn view_of(&self) -> V {
        *self.view
    }

    /// The repository that the handler fetches from and saves to.
    pub closed spec fn repository_of(&self) -> R {
        *self.repository
    }

    /// Creates a new handler from a view and a repository.
    pub fn new(view: Arc<V>, repository: Arc<R>) -> (handler: Self)
        ensures
            handler.view_of() == *view,
            handler.repository_of() == *repository,
    {
        MaterializedViewHandler { view, repository, _phantom: PhantomData }
    }

    /// The view that the handler evolves.
    pub fn view(&self) -> (view: &V)
        ensures
            *view == self.view_of(),
    {
        &*self.view
    }

    /// The repository that the handler fetches from and saves to.
    pub fn repository(&self) -> (repository: &R)
        ensures
            *repository == self.repository_of(),
    {
        &*self.repository
    }
}

} // verus!
