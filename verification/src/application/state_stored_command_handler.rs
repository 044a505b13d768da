use crate::{IdempotencyKey, StateComputationTrait};
use std::marker::PhantomData;
use std::sync::Arc;
use vstd::prelude::*;

verus! {

/// Command handler for state-stored systems.
///
/// Holds a decider and a state repository, shared through `Arc`. Handling a command runs the
/// repository's execute pattern with the decider: fetch the current state, compute the new
/// state, save it.
#[verifier::reject_recursive_types(C)]
#[verifier::reject_recursive_types(S)]
#[verifier::reject_recursive_types(D)]
#[verifier::reject_recursive_types(R)]
pub struct StateStoredCommandHandler<C, S, D, R> where
    C: IdempotencyKey,
    D: StateComputationTrait<C, S>,
 {
    decider: Arc<D>,
    repository: Arc<R>,
    _phantom: PhantomData<(C, S)>,
}

impl<C, S, D, R> StateStoredCommandHandler<C, S, D, R> where
    C: IdempotencyKey,
    D: StateComputationTrait<C, S>,
 {
    /// The decider that the handler computes with.
    pub closed spec fn decider_of(&self) -> D {
        *self.decider
    }

    /// The repository that the handler fetches from and saves to.
    pub closed spec fn repository_of(&self) -> R {
        *self.repository
    }

    /// Creates a new handler from a decider and a repository.
    pub fn new(decider: Arc<D>, repository: Arc<R>) -> (handler: Self)
        ensures
            handler.decider_of() == *decider,
            handler.repository_of() == *repository,
    {
        StateStoredCommandHandler { decider, repository, _phantom: PhantomData }
    }

    /// The decider that the handler computes with.
    pub fn decider(&self) -> (decider: &D)
        ensures
            *decider == self.decider_of(),
    {
        &*self.decider
    }

    /// The repository that the handler fetches from and saves to.
    pub fn repository(&self) -> (repository: &R)
        ensures
            *repository == self.repository_of(),
    {
        &*self.repository
    }
}

} // verus!
