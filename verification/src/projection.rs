use crate::fold::{
    evolve_total, evolves_pairwise, evolves_through_map, folds_to, lemma_folds_to_mapped, lemma_folds_to_pairwise,
    undoes,
};
use crate::ViewTrait;
use std::marker::PhantomData;
use std::sync::Arc;
use vstd::prelude::*;

verus! {

/// # `Projection` — Pure state evolution
///
/// - `evolve` applies a single **event** to a **state**
/// - `initial_state` produces the initial state
/// - No decision-making, no command handling
///
/// Implements `ViewTrait<S, S, E>` only. Composing projections shares the user's functions
/// through `Arc`, so a composed projection is `Send + Sync` whenever its functions are.
#[verifier::reject_recursive_types(S)]
#[verifier::reject_recursive_types(E)]
pub struct Projection<S, E, EvolveFn, InitFn> where EvolveFn: Fn(&S, &E) -> S, InitFn: Fn() -> S {
    /// Evolution function: `(state, event) -> new_state`
    pub evolve: EvolveFn,
    /// Initial state factory
    pub initial_state: InitFn,
    /// Marks the state and event types.
    pub _marker: PhantomData<(S, E)>,
}

impl<S, E, EvolveFn, InitFn> Projection<S, E, EvolveFn, InitFn> where
    EvolveFn: Fn(&S, &E) -> S,
    InitFn: Fn() -> S,
 {
    /// Both functions can be called on every input.
    pub open spec fn total(&self) -> bool {
        &&& evolve_total(self.evolve)
        &&& call_requires(self.initial_state, ())
    }

    /// `state` is a state that replaying `events` from an initial state can give.
    pub open spec fn reaches(&self, events: Seq<E>, state: S) -> bool {
        exists|s0: S| #[trigger] call_ensures(self.initial_state, (), s0) && folds_to(self.evolve, s0, events, state)
    }

    /// Through `ViewTrait`, the projection evolves and starts with its own stored functions, on
    /// exactly the state and event it is given.
    pub proof fn lemma_trait_calls_use_the_stored_functions(self)
        ensures
            forall|state: S, event: E, next: S|
                #[trigger] self.evolves_to(state, event, next) <==> call_ensures(self.evolve, (&state, &event), next),
            forall|state: S| #[trigger] self.is_initial(state) <==> call_ensures(self.initial_state, (), state),
    {
    }

    /// Creates a new `Projection`.
    pub fn new(evolve: EvolveFn, initial_state: InitFn) -> (projection: Self)
        ensures
            projection.evolve == evolve,
            projection.initial_state == initial_state,
    {
        Projection { evolve, initial_state, _marker: PhantomData }
    }

    /// Maps the internal state type `S` to a new state type `S2`.
    ///
    /// `f1` reads an `S` out of an `S2` before evolving; `f2` turns the evolved (and the
    /// initial) `S` back into an `S2`.
    ///
    /// Where `f1` undoes `f2`, replaying events through the mapped projection reaches the image
    /// of a state that the projection itself reaches.
    pub fn map_state<S2, F1, F2>(self, f1: F1, f2: F2) -> (mapped: Projection<
        S2,
        E,
        impl Fn(&S2, &E) -> S2,
        impl Fn() -> S2,
    >) where F1: Fn(&S2) -> S, F2: Fn(&S) -> S2
        requires
            self.total(),
            forall|s2: S2| #[trigger] call_requires(f1, (&s2,)),
            forall|s: S| #[trigger] call_requires(f2, (&s,)),
        ensures
            mapped.total(),
            forall|s2: S2, e: E, out: S2|
                #[trigger] call_ensures(mapped.evolve, (&s2, &e), out) ==> exists|s: S, next: S|
                    call_ensures(f1, (&s2,), s) && call_ensures(self.evolve, (&s, &e), next)
                        && call_ensures(f2, (&next,), out),
            forall|out: S2|
                #[trigger] call_ensures(mapped.initial_state, (), out) ==> exists|s: S|
                    call_ensures(self.initial_state, (), s) && call_ensures(f2, (&s,), out),
            undoes(f1, f2) ==> forall|history: Seq<E>, state: S2|
                #[trigger] mapped.reaches(history, state) ==> exists|s: S|
                    self.reaches(history, s) && #[trigger] call_ensures(f2, (&s,), state),
    {
        let gf1: Ghost<F1> = Ghost(f1);
        let gf2: Ghost<F2> = Ghost(f2);
        let f2 = Arc::new(f2);
        let f2_evolve = f2.clone();
        let f2_init = f2.clone();
        let ghost original = self;
        let Projection { evolve: self_evolve, initial_state: self_init, .. } = self;
        let ge: Ghost<EvolveFn> = Ghost(self_evolve);
        let gi: Ghost<InitFn> = Ghost(self_init);
        let evolve = move |s2: &S2, e: &E| -> (out: S2)
            ensures
                exists|s: S, next: S|
                    call_ensures(gf1@, (s2,), s) && call_ensures(ge@, (&s, e), next) && call_ensures(
                        gf2@,
                        (&next,),
                        out,
                    ),
        {
            let s = f1(s2);
            let next = self_evolve(&s, e);
            (*f2_evolve)(&next)
        };
        let initial_state = move || -> (out: S2)
            ensures
                exists|s: S| call_ensures(gi@, (), s) && call_ensures(gf2@, (&s,), out),
        {
            let s = self_init();
            (*f2_init)(&s)
        };
        let mapped = Projection { evolve, initial_state, _marker: PhantomData };
        proof {
            if undoes(gf1@, gf2@) {
                assert(evolves_through_map(mapped.evolve, original.evolve, gf1@, gf2@));
                assert forall|history: Seq<E>, state: S2| #[trigger] mapped.reaches(history, state) implies exists|s: S|
                    original.reaches(history, s) && #[trigger] call_ensures(gf2@, (&s,), state) by {
                    let t0 = choose|t0: S2|
                        #[trigger] call_ensures(mapped.initial_state, (), t0) && folds_to(mapped.evolve, t0, history, state);
                    let s0 = choose|s0: S| call_ensures(original.initial_state, (), s0) && call_ensures(gf2@, (&s0,), t0);
                    lemma_folds_to_mapped(mapped.evolve, original.evolve, gf1@, gf2@, s0, t0, history, state);
                    let s = choose|end: S| folds_to(original.evolve, s0, history, end) && #[trigger] call_ensures(gf2@, (&end,), state);
                    assert(original.reaches(history, s));
                }
            }
        }
        mapped
    }

    /// Maps the event type `E` to a new event type `E2`: each `E2` is turned into the `E` that
    /// the projection evolves on.
    pub fn map_event<E2, F>(self, f: F) -> (mapped: Projection<S, E2, impl Fn(&S, &E2) -> S, InitFn>) where
        F: Fn(&E2) -> E,

        requires
            self.total(),
            forall|e2: E2| #[trigger] call_requires(f, (&e2,)),
        ensures
            mapped.total(),
            mapped.initial_state == self.initial_state,
            forall|s: S, e2: E2, out: S|
                #[trigger] call_ensures(mapped.evolve, (&s, &e2), out) ==> exists|e: E|
                    call_ensures(f, (&e2,), e) && call_ensures(self.evolve, (&s, &e), out),
    {
        let gf: Ghost<F> = Ghost(f);
        let Projection { evolve: self_evolve, initial_state, .. } = self;
        let ge: Ghost<EvolveFn> = Ghost(self_evolve);
        let evolve = move |s: &S, e2: &E2| -> (out: S)
            ensures
                exists|e: E| call_ensures(gf@, (e2,), e) && call_ensures(ge@, (s, &e), out),
        {
            let e = f(e2);
            self_evolve(s, &e)
        };
        Projection { evolve, initial_state, _marker: PhantomData }
    }

    /// Merges two projections into one.
    ///
    /// Unlike `combine` on deciders, `merge` keeps the **same event type `E`**: both
    /// projections evolve on every event, each on its half of the state: replaying events
    /// through the merged projection reaches, in each half, a state that that projection
    /// reaches by replaying the same events.
    pub fn merge<S2, EvolveFn2, InitFn2>(self, other: Projection<S2, E, EvolveFn2, InitFn2>) -> (merged: Projection<
        (S, S2),
        E,
        impl Fn(&(S, S2), &E) -> (S, S2),
        impl Fn() -> (S, S2),
    >) where EvolveFn2: Fn(&S2, &E) -> S2, InitFn2: Fn() -> S2
        requires
            self.total(),
            other.total(),
        ensures
            merged.total(),
            forall|s: (S, S2), e: E, out: (S, S2)|
                #[trigger] call_ensures(merged.evolve, (&s, &e), out) ==> call_ensures(
                    self.evolve,
                    (&s.0, &e),
                    out.0,
                ) && call_ensures(other.evolve, (&s.1, &e), out.1),
            forall|out: (S, S2)|
                #[trigger] call_ensures(merged.initial_state, (), out) ==> call_ensures(
                    self.initial_state,
                    (),
                    out.0,
                ) && call_ensures(other.initial_state, (), out.1),
            forall|events: Seq<E>, state: (S, S2)|
                #[trigger] merged.reaches(events, state) ==> self.reaches(events, state.0) && other.reaches(
                    events,
                    state.1,
                ),
    {
        let ghost first = self;
        let ghost second = other;
        let Projection { evolve: evolve1, initial_state: init1, .. } = self;
        let Projection { evolve: evolve2, initial_state: init2, .. } = other;
        let ge1: Ghost<EvolveFn> = Ghost(evolve1);
        let ge2: Ghost<EvolveFn2> = Ghost(evolve2);
        let gi1: Ghost<InitFn> = Ghost(init1);
        let gi2: Ghost<InitFn2> = Ghost(init2);
        let evolve = move |s: &(S, S2), e: &E| -> (out: (S, S2))
            ensures
                call_ensures(ge1@, (&s.0, e), out.0) && call_ensures(ge2@, (&s.1, e), out.1),
        { (evolve1(&s.0, e), evolve2(&s.1, e)) };
        let initial_state = move || -> (out: (S, S2))
            ensures
                call_ensures(gi1@, (), out.0) && call_ensures(gi2@, (), out.1),
        { (init1(), init2()) };
        let merged = Projection::new(evolve, initial_state);
        proof {
            assert(evolves_pairwise(merged.evolve, first.evolve, second.evolve));
            assert forall|events: Seq<E>, state: (S, S2)| #[trigger] merged.reaches(events, state) implies first.reaches(
                events,
                state.0,
            ) && second.reaches(events, state.1) by {
                let s0 = choose|s0: (S, S2)|
                    #[trigger] call_ensures(merged.initial_state, (), s0) && folds_to(merged.evolve, s0, events, state);
                lemma_folds_to_pairwise(merged.evolve, first.evolve, second.evolve, s0, events, state);
            }
        }
        merged
    }
}

impl<S, E, EvolveFn, InitFn> ViewTrait<S, S, E> for Projection<S, E, EvolveFn, InitFn> where
    EvolveFn: Fn(&S, &E) -> S,
    InitFn: Fn() -> S,
 {
    open spec fn view_defined(&self) -> bool {
        self.total()
    }

    open spec fn evolves_to(&self, state: S, event: E, next: S) -> bool {
        call_ensures(self.evolve, (&state, &event), next)
    }

    open spec fn is_initial(&self, state: S) -> bool {
        call_ensures(self.initial_state, (), state)
    }

    fn evolve(&self, state: &S, event: &E) -> (next: S) {
        (self.evolve)(state, event)
    }

    fn initial_state(&self) -> (state: S) {
        (self.initial_state)()
    }
}

} // verus!
