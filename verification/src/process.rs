use crate::fold::{
    evolve_deterministic, evolve_total, fold_events, folds_to, lemma_folds_to_append,
    lemma_folds_to_deterministic,
};
use crate::{DeciderTrait, EventComputationTrait, ProcessTrait, StateComputationTrait, ViewTrait};
use std::marker::PhantomData;
use vstd::prelude::*;

verus! {

/// # `Process` — Reactive business logic with ToDo list semantics
///
/// - `decide` transforms an **action result** and current **state** into **events**
/// - `evolve` applies a single **event** to a **state**
/// - `initial_state` produces the initial state
/// - `react` generates **actions** in response to **events** (reactive behavior)
/// - `pending` generates **actions** based on current **state** (proactive behavior)
///
/// Like `AggregateDecider`, its events can be folded back into its state, so it supports both
/// the event-sourced and the state-stored computation model.
#[verifier::reject_recursive_types(AR)]
#[verifier::reject_recursive_types(S)]
#[verifier::reject_recursive_types(E)]
#[verifier::reject_recursive_types(A)]
#[verifier::reject_recursive_types(ResultError)]
pub struct Process<
    AR,
    S,
    E,
    A,
    DecideFn,
    EvolveFn,
    InitFn,
    ReactFn,
    PendingFn,
    ResultError = std::convert::Infallible,
> where
    DecideFn: Fn(&AR, &S) -> Result<Vec<E>, ResultError>,
    EvolveFn: Fn(&S, &E) -> S,
    InitFn: Fn() -> S,
    ReactFn: Fn(&S, &E) -> Vec<A>,
    PendingFn: Fn(&S) -> Vec<A>,
 {
    /// Decision function: `(action_result, state) -> events`
    pub decide: DecideFn,
    /// Evolution function: `(state, event) -> new_state`
    pub evolve: EvolveFn,
    /// Initial state factory
    pub initial_state: InitFn,
    /// Reactive function: `(state, event) -> actions`
    pub react: ReactFn,
    /// Pending actions function: `(state) -> actions`
    pub pending: PendingFn,
    /// Marks the action result, state, event and action types.
    pub _marker: PhantomData<(AR, S, E, A)>,
}

impl<AR, S, E, A, DecideFn, EvolveFn, InitFn, ReactFn, PendingFn, ResultError> Process<
    AR,
    S,
    E,
    A,
    DecideFn,
    EvolveFn,
    InitFn,
    ReactFn,
    PendingFn,
    ResultError,
> where
    DecideFn: Fn(&AR, &S) -> Result<Vec<E>, ResultError>,
    EvolveFn: Fn(&S, &E) -> S,
    InitFn: Fn() -> S,
    ReactFn: Fn(&S, &E) -> Vec<A>,
    PendingFn: Fn(&S) -> Vec<A>,
 {
    /// The five functions can be called on every input.
    pub open spec fn total(&self) -> bool {
        &&& forall|c: AR, s: S| #[trigger] call_requires(self.decide, (&c, &s))
        &&& evolve_total(self.evolve)
        &&& call_requires(self.initial_state, ())
        &&& forall|s: S, e: E| #[trigger] call_requires(self.react, (&s, &e))
        &&& forall|s: S| #[trigger] call_requires(self.pending, (&s,))
    }

    /// `decide`, `evolve` and `initial_state` each give one result on each input.
    pub open spec fn deterministic(&self) -> bool {
        &&& forall|c: AR, s: S, r1: Result<Vec<E>, ResultError>, r2: Result<Vec<E>, ResultError>|
            #[trigger] call_ensures(self.decide, (&c, &s), r1) && #[trigger] call_ensures(
                self.decide,
                (&c, &s),
                r2,
            ) ==> r1 == r2
        &&& evolve_deterministic(self.evolve)
        &&& forall|s1: S, s2: S|
            #[trigger] call_ensures(self.initial_state, (), s1) && #[trigger] call_ensures(
                self.initial_state,
                (),
                s2,
            ) ==> s1 == s2
    }

    /// `state` is a state that replaying `events` from an initial state can give.
    pub open spec fn reaches(&self, events: Seq<E>, state: S) -> bool {
        exists|s0: S| #[trigger] call_ensures(self.initial_state, (), s0) && folds_to(self.evolve, s0, events, state)
    }

    /// `result` is what the state-stored model can answer to `command` in state `base`:
    /// the decided events folded into `base`, or the decision's error.
    pub open spec fn applies_decision(&self, base: S, command: AR, result: Result<S, ResultError>) -> bool {
        match result {
            Ok(next) => exists|events: Vec<E>|
                #[trigger] call_ensures(self.decide, (&command, &base), Ok::<Vec<E>, ResultError>(events))
                    && folds_to(self.evolve, base, events@, next),
            Err(e) => call_ensures(self.decide, (&command, &base), Err::<Vec<E>, ResultError>(e)),
        }
    }

    /// Through the traits, the process evolves, starts, decides, reacts and lists its ToDo with its own stored
    /// functions, on exactly the state, event and action result it is given; `react` and `pending`
    /// answer exactly what the stored functions list, in their order.
    pub proof fn lemma_trait_calls_use_the_stored_functions(self)
        ensures
            forall|state: S, event: E, next: S|
                #[trigger] self.evolves_to(state, event, next) <==> call_ensures(self.evolve, (&state, &event), next),
            forall|state: S| #[trigger] self.is_initial(state) <==> call_ensures(self.initial_state, (), state),
            forall|command: AR, state: S, result: Result<Vec<E>, ResultError>|
                #[trigger] self.decides_to(command, state, result) <==> call_ensures(
                    self.decide,
                    (&command, &state),
                    result,
                ),
            forall|state: S, event: E, actions: Vec<A>|
                #[trigger] self.reacts_with(state, event, actions) <==> call_ensures(
                    self.react,
                    (&state, &event),
                    actions,
                ),
            forall|state: S, actions: Vec<A>|
                #[trigger] self.pending_in(state, actions) <==> call_ensures(self.pending, (&state,), actions),
    {
    }

    /// The event-sourced model decides the command, with the stored `decide`, in a state that
    /// folding the stored `evolve` over the history from an initial state gives; the
    /// state-stored model decides it in the stored state (an initial one when none is stored)
    /// and folds the decided events into that state, or answers the decision's error.
    pub proof fn lemma_computations_use_the_stored_functions(self)
        ensures
            forall|history: Seq<E>, command: AR, result: Result<Vec<E>, ResultError>|
                #[trigger] self.computes_events(history, command, result) <==> exists|start: S, state: S|
                    #[trigger] call_ensures(self.initial_state, (), start) && folds_to(self.evolve, start, history, state)
                        && #[trigger] call_ensures(self.decide, (&command, &state), result),
            forall|stored: S, command: AR, next: S|
                #[trigger] self.computes_state(Some(stored), command, Ok::<S, ResultError>(next)) <==> exists|
                    events: Vec<E>,
                |
                    #[trigger] call_ensures(self.decide, (&command, &stored), Ok::<Vec<E>, ResultError>(events))
                        && folds_to(self.evolve, stored, events@, next),
            forall|stored: S, command: AR, err: ResultError|
                #[trigger] self.computes_state(Some(stored), command, Err::<S, ResultError>(err)) <==> call_ensures(
                    self.decide,
                    (&command, &stored),
                    Err::<Vec<E>, ResultError>(err),
                ),
            forall|command: AR, result: Result<S, ResultError>|
                #[trigger] self.computes_state(None, command, result) <==> exists|start: S|
                    #[trigger] call_ensures(self.initial_state, (), start) && self.computes_state(
                        Some(start),
                        command,
                        result,
                    ),
    {
        assert forall|history: Seq<E>, command: AR, result: Result<Vec<E>, ResultError>|
            #[trigger] self.computes_events(history, command, result) implies exists|start: S, state: S|
                #[trigger] call_ensures(self.initial_state, (), start) && folds_to(self.evolve, start, history, state)
                    && #[trigger] call_ensures(self.decide, (&command, &state), result) by {
            let state = choose|state: S| self.reaches(history, state) && #[trigger] call_ensures(self.decide, (&command, &state), result);
            let start = choose|s0: S| #[trigger] call_ensures(self.initial_state, (), s0) && folds_to(self.evolve, s0, history, state);
        }
        assert forall|command: AR, result: Result<S, ResultError>|
            #[trigger] self.computes_state(None, command, result) implies exists|start: S|
                #[trigger] call_ensures(self.initial_state, (), start) && self.computes_state(Some(start), command, result) by {
            let base = choose|base: S| #[trigger] self.stored_or_initial(None, base) && self.applies_decision(base, command, result);
            assert(self.stored_or_initial(Some(base), base));
        }
        assert forall|command: AR, result: Result<S, ResultError>|
            (exists|start: S| #[trigger] call_ensures(self.initial_state, (), start) && self.computes_state(Some(start), command, result))
            implies #[trigger] self.computes_state(None, command, result) by {
            let start = choose|start: S| #[trigger] call_ensures(self.initial_state, (), start) && self.computes_state(Some(start), command, result);
            let base = choose|base: S| #[trigger] self.stored_or_initial(Some(start), base) && self.applies_decision(base, command, result);
            assert(self.stored_or_initial(None, base));
        }
        assert forall|stored: S, command: AR, result: Result<S, ResultError>|
            #[trigger] self.computes_state(Some(stored), command, result) <==> self.applies_decision(stored, command, result) by {
            if self.applies_decision(stored, command, result) {
                assert(self.stored_or_initial(Some(stored), stored));
            }
        }
    }

    /// `base` is the stored state, or a possible initial state when nothing is stored.
    pub open spec fn stored_or_initial(&self, current: Option<S>, base: S) -> bool {
        match current {
            Some(s) => base == s,
            None => call_ensures(self.initial_state, (), base),
        }
    }

    /// Creates a new `Process`.
    pub fn new(
        decide: DecideFn,
        evolve: EvolveFn,
        initial_state: InitFn,
        react: ReactFn,
        pending: PendingFn,
    ) -> (process: Self)
        ensures
            process.decide == decide,
            process.evolve == evolve,
            process.initial_state == initial_state,
            process.react == react,
            process.pending == pending,
    {
        Process { decide, evolve, initial_state, react, pending, _marker: PhantomData }
    }

    /// Replaying a history and then the events that the event-sourced model decides on it gives a
    /// state that the state-stored model can compute from the replayed state: both computation
    /// models agree.
    pub proof fn lemma_state_stored_agrees_with_event_sourced(
        self,
        history: Seq<E>,
        state: S,
        command: AR,
        result: Result<S, ResultError>,
    )
        requires
            self.reaches(history, state),
            self.applies_decision(state, command, result),
        ensures
            match result {
                Ok(next) => exists|events: Vec<E>|
                    self.computes_events(history, command, Ok::<Vec<E>, ResultError>(events))
                        && #[trigger] self.reaches(history + events@, next),
                Err(err) => self.computes_events(history, command, Err::<Vec<E>, ResultError>(err)),
            },
    {
        let s0 = choose|s0: S| #[trigger] call_ensures(self.initial_state, (), s0) && folds_to(self.evolve, s0, history, state);
        match result {
            Ok(next) => {
                let events = choose|events: Vec<E>|
                    #[trigger] call_ensures(self.decide, (&command, &state), Ok::<Vec<E>, ResultError>(events))
                        && folds_to(self.evolve, state, events@, next);
                lemma_folds_to_append(self.evolve, s0, history, state, events@, next);
                assert(self.reaches(history + events@, next));
                assert(self.computes_events(history, command, Ok::<Vec<E>, ResultError>(events)));
            },
            Err(err) => {},
        }
    }

    /// With deterministic functions, the event-sourced model gives one answer per history and
    /// command.
    pub proof fn lemma_compute_new_events_deterministic(
        self,
        history: Seq<E>,
        command: AR,
        r1: Result<Vec<E>, ResultError>,
        r2: Result<Vec<E>, ResultError>,
    )
        requires
            self.deterministic(),
            self.computes_events(history, command, r1),
            self.computes_events(history, command, r2),
        ensures
            r1 == r2,
    {
        let s1 = choose|s: S| self.reaches(history, s) && #[trigger] call_ensures(self.decide, (&command, &s), r1);
        let s2 = choose|s: S| self.reaches(history, s) && #[trigger] call_ensures(self.decide, (&command, &s), r2);
        let a0 = choose|s0: S| #[trigger] call_ensures(self.initial_state, (), s0) && folds_to(self.evolve, s0, history, s1);
        let b0 = choose|s0: S| #[trigger] call_ensures(self.initial_state, (), s0) && folds_to(self.evolve, s0, history, s2);
        lemma_folds_to_deterministic(self.evolve, a0, history, s1, s2);
    }

    /// With deterministic functions, the state-stored model gives one answer per stored state and
    /// command: the same state and command always produce the same new state.
    pub proof fn lemma_compute_new_state_deterministic(
        self,
        current: Option<S>,
        command: AR,
        r1: Result<S, ResultError>,
        r2: Result<S, ResultError>,
    )
        requires
            self.deterministic(),
            self.computes_state(current, command, r1),
            self.computes_state(current, command, r2),
        ensures
            r1 == r2,
    {
        let b1 = choose|base: S| #[trigger] self.stored_or_initial(current, base) && self.applies_decision(base, command, r1);
        let b2 = choose|base: S| #[trigger] self.stored_or_initial(current, base) && self.applies_decision(base, command, r2);
        assert(b1 == b2);
        match (r1, r2) {
            (Ok(n1), Ok(n2)) => {
                let ev1 = choose|events: Vec<E>|
                    #[trigger] call_ensures(self.decide, (&command, &b1), Ok::<Vec<E>, ResultError>(events))
                        && folds_to(self.evolve, b1, events@, n1);
                let ev2 = choose|events: Vec<E>|
                    #[trigger] call_ensures(self.decide, (&command, &b1), Ok::<Vec<E>, ResultError>(events))
                        && folds_to(self.evolve, b1, events@, n2);
                assert(ev1 == ev2);
                lemma_folds_to_deterministic(self.evolve, b1, ev1@, n1, n2);
            },
            (Ok(n1), Err(e2)) => {
                let ev1 = choose|events: Vec<E>|
                    #[trigger] call_ensures(self.decide, (&command, &b1), Ok::<Vec<E>, ResultError>(events))
                        && folds_to(self.evolve, b1, events@, n1);
                assert(call_ensures(self.decide, (&command, &b1), Err::<Vec<E>, ResultError>(e2)));
            },
            (Err(e1), Ok(n2)) => {
                let ev2 = choose|events: Vec<E>|
                    #[trigger] call_ensures(self.decide, (&command, &b1), Ok::<Vec<E>, ResultError>(events))
                        && folds_to(self.evolve, b1, events@, n2);
                assert(call_ensures(self.decide, (&command, &b1), Err::<Vec<E>, ResultError>(e1)));
            },
            (Err(e1), Err(e2)) => {
                assert(call_ensures(self.decide, (&command, &b1), Err::<Vec<E>, ResultError>(e1)));
                assert(call_ensures(self.decide, (&command, &b1), Err::<Vec<E>, ResultError>(e2)));
            },
        }
    }
}

impl<AR, S, E, A, DecideFn, EvolveFn, InitFn, ReactFn, PendingFn, ResultError> ViewTrait<S, S, E> for Process<
    AR,
    S,
    E,
    A,
    DecideFn,
    EvolveFn,
    InitFn,
    ReactFn,
    PendingFn,
    ResultError,
> where
    DecideFn: Fn(&AR, &S) -> Result<Vec<E>, ResultError>,
    EvolveFn: Fn(&S, &E) -> S,
    InitFn: Fn() -> S,
    ReactFn: Fn(&S, &E) -> Vec<A>,
    PendingFn: Fn(&S) -> Vec<A>,
 {
    open spec fn view_defined(&self) -> bool {
        self.total()
    }

    open spec fn evolves_to(&self, state: S, event: E, next: S) -> bool {
        call_ensures(self.evolve, (&state, &event), next)
    }

    open spec fn is_initial(&self, state: S) -> bool {
        call_ensures(self.initial_state, (), state)
    }

    fn evolve(&self, state: &S, event: &E) -> (next: S) {
        (self.evolve)(state, event)
    }

    fn initial_state(&self) -> (state: S) {
        (self.initial_state)()
    }
}

impl<AR, S, E, A, DecideFn, EvolveFn, InitFn, ReactFn, PendingFn, ResultError> DeciderTrait<AR, S, S, E, E> for Process<
    AR,
    S,
    E,
    A,
    DecideFn,
    EvolveFn,
    InitFn,
    ReactFn,
    PendingFn,
    ResultError,
> where
    DecideFn: Fn(&AR, &S) -> Result<Vec<E>, ResultError>,
    EvolveFn: Fn(&S, &E) -> S,
    InitFn: Fn() -> S,
    ReactFn: Fn(&S, &E) -> Vec<A>,
    PendingFn: Fn(&S) -> Vec<A>,
 {
    type Events = Vec<E>;

    type Error = ResultError;

    open spec fn decides_to(&self, command: AR, state: S, result: Result<Vec<E>, ResultError>) -> bool {
        call_ensures(self.decide, (&command, &state), result)
    }

    fn decide(&self, command: &AR, state: &S) -> (result: Result<Vec<E>, ResultError>) {
        (self.decide)(command, state)
    }
}

impl<AR, S, E, A, DecideFn, EvolveFn, InitFn, ReactFn, PendingFn, ResultError> EventComputationTrait<AR, E, E> for Process<
    AR,
    S,
    E,
    A,
    DecideFn,
    EvolveFn,
    InitFn,
    ReactFn,
    PendingFn,
    ResultError,
> where
    DecideFn: Fn(&AR, &S) -> Result<Vec<E>, ResultError>,
    EvolveFn: Fn(&S, &E) -> S,
    InitFn: Fn() -> S,
    ReactFn: Fn(&S, &E) -> Vec<A>,
    PendingFn: Fn(&S) -> Vec<A>,
 {
    type Events = Vec<E>;

    type Error = ResultError;

    open spec fn events_computable(&self) -> bool {
        self.total()
    }

    /// The command is decided against a state that replaying `current_events` from an
    /// initial state gives.
    open spec fn computes_events(&self, current_events: Seq<E>, command: AR, result: Result<Vec<E>, ResultError>) -> bool {
        exists|state: S| self.reaches(current_events, state) && #[trigger] call_ensures(self.decide, (&command, &state), result)
    }

    fn compute_new_events(&self, current_events: &[E], command: &AR) -> (result: Result<Vec<E>, ResultError>) {
        let s0 = (self.initial_state)();
        let state = fold_events(s0, current_events, &self.evolve);
        let result = (self.decide)(command, &state);
        assert(self.reaches(current_events@, state));
        result
    }
}

impl<AR, S, E, A, DecideFn, EvolveFn, InitFn, ReactFn, PendingFn, ResultError> StateComputationTrait<AR, S> for Process<
    AR,
    S,
    E,
    A,
    DecideFn,
    EvolveFn,
    InitFn,
    ReactFn,
    PendingFn,
    ResultError,
> where
    DecideFn: Fn(&AR, &S) -> Result<Vec<E>, ResultError>,
    EvolveFn: Fn(&S, &E) -> S,
    InitFn: Fn() -> S,
    ReactFn: Fn(&S, &E) -> Vec<A>,
    PendingFn: Fn(&S) -> Vec<A>,
 {
    type Error = ResultError;

    open spec fn state_computable(&self) -> bool {
        self.total()
    }

    /// The command is decided against the stored state (an initial state when none is stored),
    /// and the decided events are folded into that state.
    open spec fn computes_state(&self, current_state: Option<S>, command: AR, result: Result<S, ResultError>) -> bool {
        exists|base: S| #[trigger] self.stored_or_initial(current_state, base) && self.applies_decision(base, command, result)
    }

    fn compute_new_state(&self, current_state: Option<S>, command: &AR) -> (result: Result<S, ResultError>) {
        let base_state = match current_state {
            Some(s) => s,
            None => (self.initial_state)(),
        };
        let ghost base = base_state;
        match (self.decide)(command, &base_state) {
            Ok(events) => {
                let next = fold_events(base_state, events.as_slice(), &self.evolve);
                assert(self.applies_decision(base, *command, Ok::<S, ResultError>(next)));
                assert(self.stored_or_initial(current_state, base));
                Ok(next)
            },
            Err(err) => {
                assert(self.stored_or_initial(current_state, base));
                Err(err)
            },
        }
    }
}

impl<AR, S, E, A, DecideFn, EvolveFn, InitFn, ReactFn, PendingFn, ResultError> ProcessTrait<AR, S, S, E, E, A> for Process<
    AR,
    S,
    E,
    A,
    DecideFn,
    EvolveFn,
    InitFn,
    ReactFn,
    PendingFn,
    ResultError,
> where
    DecideFn: Fn(&AR, &S) -> Result<Vec<E>, ResultError>,
    EvolveFn: Fn(&S, &E) -> S,
    InitFn: Fn() -> S,
    ReactFn: Fn(&S, &E) -> Vec<A>,
    PendingFn: Fn(&S) -> Vec<A>,
 {
    type Actions = Vec<A>;

    open spec fn reacts_with(&self, state: S, event: E, actions: Vec<A>) -> bool {
        call_ensures(self.react, (&state, &event), actions)
    }

    open spec fn pending_in(&self, state: S, actions: Vec<A>) -> bool {
        call_ensures(self.pending, (&state,), actions)
    }

    fn react(&self, state: &S, event: &E) -> (actions: Vec<A>) {
        (self.react)(state, event)
    }

    fn pending(&self, state: &S) -> (actions: Vec<A>) {
        (self.pending)(state)
    }
}

} // verus!
