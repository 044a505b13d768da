use crate::{EventComputationTrait, EventMeta, IdempotencyKey};
use std::marker::PhantomData;
use std::sync::Arc;
use vstd::prelude::*;

verus! {

/// Command handler for event-sourced aggregates.
///
/// Holds a decider and an event repository, shared through `Arc`. Handling a command runs the
/// repository's execute pattern with the decider: fetch the stream's events, compute the new
/// events, save them.
#[verifier::reject_recursive_types(C)]
#[verifier::reject_recursive_types(Ei)]
#[verifier::reject_recursive_types(Eo)]
#[verifier::reject_recursive_types(D)]
#[verifier::reject_recursive_types(R)]
pub struct EventSourcedCommandHandler<C, Ei, Eo, D, R> where
    C: IdempotencyKey,
    Ei: EventMeta,
    Eo: EventMeta,
    D: EventComputationTrait<C, Ei, Eo>,
 {
    decider: Arc<D>,
    repository: Arc<R>,
    _phantom: PhantomData<(C, Ei, Eo)>,
}

impl<C, Ei, Eo, D, R> EventSourcedCommandHandler<C, Ei, Eo, D, R> where
    C: IdempotencyKey,
    Ei: EventMeta,
    Eo: EventMeta,
    D: EventComputationTrait<C, Ei, Eo>,
 {
    /// The decider that the handler computes with.
    pub closed spec fn decider_of(&self) -> D {
        *self.decider
    }

    /// The repository that the handler fetches from and saves to.
    pub closed spec fn repository_of(&self) -> R {
        *self.repository
    }

    /// Creates a new handler from a decider and a repository.
    pub fn new(decider: Arc<D>, repository: Arc<R>) -> (handler: Self)
        ensures
            handler.decider_of() == *decider,
            handler.repository_of() == *repository,
    {
        EventSourcedCommandHandler { decider, repository, _phantom: PhantomData }
    }

    /// The decider that the handler computes with.
    pub fn decider(&self) -> (decider: &D)
        ensures
            *decider == self.decider_of(),
    {
        &*self.decider
    }

    /// The repository that the handler fetches from and saves to.
    pub fn repository(&self) -> (repository: &R)
        ensures
            *repository == self.repository_of(),
    {
        &*self.repository
    }
}

} // verus!
