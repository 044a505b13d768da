use crate::events::{map_each, maps_each, tag_all_first, tag_all_second};
use crate::fold::{
    evolve_deterministic, evolve_total, evolves_in_parts, evolves_through_map, fold_events, folds_to,
    lemma_folds_to_append, lemma_folds_to_deterministic, lemma_folds_to_mapped, lemma_folds_to_parts,
    lemma_folds_to_split, undoes,
};
use crate::{
    clone_exact, firsts, result_seq, seconds, tag_first, tag_second, DeciderTrait, EventComputationTrait, StateComputationTrait,
    Sum, ViewTrait,
};
use std::marker::PhantomData;
use std::sync::Arc;
use vstd::prelude::*;

verus! {

/// # `AggregateDecider` — Traditional Aggregate Pattern
///
/// Input events = output events = `E`: the events the decider produces can be folded back into
/// its own state, so it supports both the event-sourced and the state-stored computation model.
///
/// - `decide`: `(command, state) -> events`
/// - `evolve`: `(state, event) -> new state`
/// - `initial_state`: `() -> state`
///
/// Composing deciders shares the user's functions through `Arc`, so a composed decider is
/// `Send + Sync` whenever the functions it was built from are.
#[verifier::reject_recursive_types(C)]
#[verifier::reject_recursive_types(S)]
#[verifier::reject_recursive_types(E)]
#[verifier::reject_recursive_types(ResultError)]
pub struct AggregateDecider<C, S, E, DecideFn, EvolveFn, InitFn, ResultError = std::convert::Infallible> where
    DecideFn: Fn(&C, &S) -> Result<Vec<E>, ResultError>,
    EvolveFn: Fn(&S, &E) -> S,
    InitFn: Fn() -> S,
 {
    /// Decision function: `(command, state) -> events`
    pub decide: DecideFn,
    /// Evolution function: `(state, event) -> new_state`
    pub evolve: EvolveFn,
    /// Initial state factory
    pub initial_state: InitFn,
    /// Marks the command, state and event types.
    pub _marker: PhantomData<(C, S, E)>,
}

impl<C, S, E, DecideFn, EvolveFn, InitFn, ResultError> AggregateDecider<
    C,
    S,
    E,
    DecideFn,
    EvolveFn,
    InitFn,
    ResultError,
> where
    DecideFn: Fn(&C, &S) -> Result<Vec<E>, ResultError>,
    EvolveFn: Fn(&S, &E) -> S,
    InitFn: Fn() -> S,
 {
    /// The three functions can be called on every input.
    pub open spec fn total(&self) -> bool {
        &&& forall|c: C, s: S| #[trigger] call_requires(self.decide, (&c, &s))
        &&& evolve_total(self.evolve)
        &&& call_requires(self.initial_state, ())
    }

    /// Each of the three functions gives one result on each input.
    pub open spec fn deterministic(&self) -> bool {
        &&& forall|c: C, s: S, r1: Result<Vec<E>, ResultError>, r2: Result<Vec<E>, ResultError>|
            #[trigger] call_ensures(self.decide, (&c, &s), r1) && #[trigger] call_ensures(
                self.decide,
                (&c, &s),
                r2,
            ) ==> r1 == r2
        &&& evolve_deterministic(self.evolve)
        &&& forall|s1: S, s2: S|
            #[trigger] call_ensures(self.initial_state, (), s1) && #[trigger] call_ensures(
                self.initial_state,
                (),
                s2,
            ) ==> s1 == s2
    }

    /// `state` is a state that replaying `events` from an initial state can give.
    pub open spec fn reaches(&self, events: Seq<E>, state: S) -> bool {
        exists|s0: S| #[trigger] call_ensures(self.initial_state, (), s0) && folds_to(self.evolve, s0, events, state)
    }

    /// `result` is a possible answer to `command` after the events `history`: the decision in a
    /// state that replaying `history` from an initial state gives.
    pub open spec fn decides_after(&self, history: Seq<E>, command: C, result: Result<Vec<E>, ResultError>) -> bool {
        exists|state: S| self.reaches(history, state) && #[trigger] call_ensures(self.decide, (&command, &state), result)
    }

    /// `result` is what the state-stored model can answer to `command` in state `base`:
    /// the decided events folded into `base`, or the decision's error.
    pub open spec fn applies_decision(&self, base: S, command: C, result: Result<S, ResultError>) -> bool {
        match result {
            Ok(next) => exists|events: Vec<E>|
                #[trigger] call_ensures(self.decide, (&command, &base), Ok::<Vec<E>, ResultError>(events))
                    && folds_to(self.evolve, base, events@, next),
            Err(e) => call_ensures(self.decide, (&command, &base), Err::<Vec<E>, ResultError>(e)),
        }
    }

    /// Creates a new `AggregateDecider`.
    pub fn new(decide: DecideFn, evolve: EvolveFn, initial_state: InitFn) -> (decider: Self)
        ensures
            decider.decide == decide,
            decider.evolve == evolve,
            decider.initial_state == initial_state,
    {
        AggregateDecider { decide, evolve, initial_state, _marker: PhantomData }
    }

    /// Maps the internal state type `S` to a new state type `S2`.
    ///
    /// `f1` reads an `S` out of an `S2` before deciding and evolving; `f2` turns the evolved
    /// (and the initial) `S` back into an `S2`.
    ///
    /// Where `f1` undoes `f2`, the mapped decider replays a history to the image of a state that
    /// the decider itself replays it to, and answers every command after a history as the
    /// decider does.
    pub fn map_state<S2, F1, F2>(self, f1: F1, f2: F2) -> (mapped: AggregateDecider<
        C,
        S2,
        E,
        impl Fn(&C, &S2) -> Result<Vec<E>, ResultError>,
        impl Fn(&S2, &E) -> S2,
        impl Fn() -> S2,
        ResultError,
    >) where F1: Fn(&S2) -> S, F2: Fn(&S) -> S2
        requires
            self.total(),
            forall|s2: S2| #[trigger] call_requires(f1, (&s2,)),
            forall|s: S| #[trigger] call_requires(f2, (&s,)),
        ensures
            mapped.total(),
            forall|c: C, s2: S2, out: Result<Vec<E>, ResultError>|
                #[trigger] call_ensures(mapped.decide, (&c, &s2), out) ==> exists|s: S|
                    call_ensures(f1, (&s2,), s) && call_ensures(self.decide, (&c, &s), out),
            forall|s2: S2, e: E, out: S2|
                #[trigger] call_ensures(mapped.evolve, (&s2, &e), out) ==> exists|s: S, next: S|
                    call_ensures(f1, (&s2,), s) && call_ensures(self.evolve, (&s, &e), next)
                        && call_ensures(f2, (&next,), out),
            forall|out: S2|
                #[trigger] call_ensures(mapped.initial_state, (), out) ==> exists|s: S|
                    call_ensures(self.initial_state, (), s) && call_ensures(f2, (&s,), out),
            undoes(f1, f2) ==> forall|history: Seq<E>, state: S2|
                #[trigger] mapped.reaches(history, state) ==> exists|s: S|
                    self.reaches(history, s) && #[trigger] call_ensures(f2, (&s,), state),
            undoes(f1, f2) ==> forall|history: Seq<E>, c: C, out: Result<Vec<E>, ResultError>|
                #[trigger] mapped.decides_after(history, c, out) ==> self.decides_after(history, c, out),
    {
        let gf1: Ghost<F1> = Ghost(f1);
        let gf2: Ghost<F2> = Ghost(f2);
        let f1 = Arc::new(f1);
        let f2 = Arc::new(f2);
        let f1_decide = f1.clone();
        let f1_evolve = f1.clone();
        let f2_evolve = f2.clone();
        let f2_init = f2.clone();
        let ghost original = self;
        let AggregateDecider { decide: self_decide, evolve: self_evolve, initial_state: self_init, .. } = self;
        let gd: Ghost<DecideFn> = Ghost(self_decide);
        let ge: Ghost<EvolveFn> = Ghost(self_evolve);
        let gi: Ghost<InitFn> = Ghost(self_init);
        let decide = move |c: &C, s2: &S2| -> (out: Result<Vec<E>, ResultError>)
            ensures
                exists|s: S| call_ensures(gf1@, (s2,), s) && call_ensures(gd@, (c, &s), out),
        {
            let s = (*f1_decide)(s2);
            self_decide(c, &s)
        };
        let evolve = move |s2: &S2, e: &E| -> (out: S2)
            ensures
                exists|s: S, next: S|
                    call_ensures(gf1@, (s2,), s) && call_ensures(ge@, (&s, e), next) && call_ensures(
                        gf2@,
                        (&next,),
                        out,
                    ),
        {
            let s = (*f1_evolve)(s2);
            let next = self_evolve(&s, e);
            (*f2_evolve)(&next)
        };
        let initial_state = move || -> (out: S2)
            ensures
                exists|s: S| call_ensures(gi@, (), s) && call_ensures(gf2@, (&s,), out),
        {
            let s = self_init();
            (*f2_init)(&s)
        };
        let mapped = AggregateDecider { decide, evolve, initial_state, _marker: PhantomData };
        proof {
            if undoes(gf1@, gf2@) {
                assert(evolves_through_map(mapped.evolve, original.evolve, gf1@, gf2@));
                assert forall|history: Seq<E>, state: S2| #[trigger] mapped.reaches(history, state) implies exists|s: S|
                    original.reaches(history, s) && #[trigger] call_ensures(gf2@, (&s,), state) by {
                    let t0 = choose|t0: S2|
                        #[trigger] call_ensures(mapped.initial_state, (), t0) && folds_to(mapped.evolve, t0, history, state);
                    let s0 = choose|s0: S| call_ensures(original.initial_state, (), s0) && call_ensures(gf2@, (&s0,), t0);
                    lemma_folds_to_mapped(mapped.evolve, original.evolve, gf1@, gf2@, s0, t0, history, state);
                    let s = choose|end: S| folds_to(original.evolve, s0, history, end) && #[trigger] call_ensures(gf2@, (&end,), state);
                    assert(original.reaches(history, s));
                }
                assert forall|history: Seq<E>, c: C, out: Result<Vec<E>, ResultError>| #[trigger] mapped.decides_after(
                    history,
                    c,
                    out,
                ) implies original.decides_after(history, c, out) by {
                    let t = choose|t: S2| mapped.reaches(history, t) && #[trigger] call_ensures(mapped.decide, (&c, &t), out);
                    let s = choose|s: S| original.reaches(history, s) && #[trigger] call_ensures(gf2@, (&s,), t);
                    let s1 = choose|s1: S| call_ensures(gf1@, (&t,), s1) && call_ensures(original.decide, (&c, &s1), out);
                    assert(s1 == s);
                }
            }
        }
        mapped
    }

    /// Maps the command type `C` to a new command type `C2`.
    pub fn map_command<C2, F>(self, f: F) -> (mapped: AggregateDecider<
        C2,
        S,
        E,
        impl Fn(&C2, &S) -> Result<Vec<E>, ResultError>,
        EvolveFn,
        InitFn,
        ResultError,
    >) where F: Fn(&C2) -> C
        requires
            self.total(),
            forall|c2: C2| #[trigger] call_requires(f, (&c2,)),
        ensures
            mapped.total(),
            mapped.evolve == self.evolve,
            mapped.initial_state == self.initial_state,
            forall|c2: C2, s: S, out: Result<Vec<E>, ResultError>|
                #[trigger] call_ensures(mapped.decide, (&c2, &s), out) ==> exists|c: C|
                    call_ensures(f, (&c2,), c) && call_ensures(self.decide, (&c, &s), out),
    {
        let gf: Ghost<F> = Ghost(f);
        let f = Arc::new(f);
        let AggregateDecider { decide: self_decide, evolve, initial_state, .. } = self;
        let gd: Ghost<DecideFn> = Ghost(self_decide);
        let decide = move |c2: &C2, s: &S| -> (out: Result<Vec<E>, ResultError>)
            ensures
                exists|c: C| call_ensures(gf@, (c2,), c) && call_ensures(gd@, (&c, s), out),
        {
            let c = (*f)(c2);
            self_decide(&c, s)
        };
        AggregateDecider { decide, evolve, initial_state, _marker: PhantomData }
    }

    /// Maps the event type `E` to a new event type `E2`.
    ///
    /// `f1` turns an `E2` into the `E` that the decider evolves on; `f2` turns each decided `E`
    /// into an `E2`.
    pub fn map_event<E2, F1, F2>(self, f1: F1, f2: F2) -> (mapped: AggregateDecider<
        C,
        S,
        E2,
        impl Fn(&C, &S) -> Result<Vec<E2>, ResultError>,
        impl Fn(&S, &E2) -> S,
        InitFn,
        ResultError,
    >) where F1: Fn(&E2) -> E, F2: Fn(&E) -> E2
        requires
            self.total(),
            forall|e2: E2| #[trigger] call_requires(f1, (&e2,)),
            forall|e: E| #[trigger] call_requires(f2, (&e,)),
        ensures
            mapped.total(),
            mapped.initial_state == self.initial_state,
            forall|c: C, s: S, out: Result<Vec<E2>, ResultError>|
                #[trigger] call_ensures(mapped.decide, (&c, &s), out) ==> match out {
                    Ok(events2) => exists|events: Vec<E>|
                        call_ensures(self.decide, (&c, &s), Ok::<Vec<E>, ResultError>(events))
                            && maps_each(f2, events@, events2@),
                    Err(err) => call_ensures(self.decide, (&c, &s), Err::<Vec<E>, ResultError>(err)),
                },
            forall|s: S, e2: E2, out: S|
                #[trigger] call_ensures(mapped.evolve, (&s, &e2), out) ==> exists|e: E|
                    call_ensures(f1, (&e2,), e) && call_ensures(self.evolve, (&s, &e), out),
    {
        let gf1: Ghost<F1> = Ghost(f1);
        let gf2: Ghost<F2> = Ghost(f2);
        let AggregateDecider { decide: self_decide, evolve: self_evolve, initial_state, .. } = self;
        let gd: Ghost<DecideFn> = Ghost(self_decide);
        let ge: Ghost<EvolveFn> = Ghost(self_evolve);
        let decide = move |c: &C, s: &S| -> (out: Result<Vec<E2>, ResultError>)
            ensures
                match out {
                    Ok(events2) => exists|events: Vec<E>|
                        call_ensures(gd@, (c, s), Ok::<Vec<E>, ResultError>(events)) && maps_each(
                            gf2@,
                            events@,
                            events2@,
                        ),
                    Err(err) => call_ensures(gd@, (c, s), Err::<Vec<E>, ResultError>(err)),
                },
        {
            match self_decide(c, s) {
                Ok(events) => Ok(map_each(&f2, events)),
                Err(err) => Err(err),
            }
        };
        let evolve = move |s: &S, e2: &E2| -> (out: S)
            ensures
                exists|e: E| call_ensures(gf1@, (e2,), e) && call_ensures(ge@, (s, &e), out),
        {
            let e = f1(e2);
            self_evolve(s, &e)
        };
        AggregateDecider { decide, evolve, initial_state, _marker: PhantomData }
    }

    /// Maps the error type `ResultError` to a new error type `ResultError2`.
    pub fn map_error<ResultError2, F>(self, f: F) -> (mapped: AggregateDecider<
        C,
        S,
        E,
        impl Fn(&C, &S) -> Result<Vec<E>, ResultError2>,
        EvolveFn,
        InitFn,
        ResultError2,
    >) where F: Fn(ResultError) -> ResultError2
        requires
            self.total(),
            forall|err: ResultError| #[trigger] call_requires(f, (err,)),
        ensures
            mapped.total(),
            mapped.evolve == self.evolve,
            mapped.initial_state == self.initial_state,
            forall|c: C, s: S, out: Result<Vec<E>, ResultError2>|
                #[trigger] call_ensures(mapped.decide, (&c, &s), out) ==> match out {
                    Ok(events) => call_ensures(self.decide, (&c, &s), Ok::<Vec<E>, ResultError>(events)),
                    Err(err2) => exists|err: ResultError|
                        call_ensures(self.decide, (&c, &s), Err::<Vec<E>, ResultError>(err))
                            && call_ensures(f, (err,), err2),
                },
    {
        let gf: Ghost<F> = Ghost(f);
        let AggregateDecider { decide: self_decide, evolve, initial_state, .. } = self;
        let gd: Ghost<DecideFn> = Ghost(self_decide);
        let decide = move |c: &C, s: &S| -> (out: Result<Vec<E>, ResultError2>)
            ensures
                match out {
                    Ok(events) => call_ensures(gd@, (c, s), Ok::<Vec<E>, ResultError>(events)),
                    Err(err2) => exists|err: ResultError|
                        call_ensures(gd@, (c, s), Err::<Vec<E>, ResultError>(err)) && call_ensures(
                            gf@,
                            (err,),
                            err2,
                        ),
                },
        {
            match self_decide(c, s) {
                Ok(events) => Ok(events),
                Err(err) => Err(f(err)),
            }
        };
        AggregateDecider { decide, evolve, initial_state, _marker: PhantomData }
    }

    /// Combines two deciders into one bigger decider.
    ///
    /// Commands and events are `Sum`s (each belongs to one of the two deciders), the state is
    /// the pair of both states. Evolving by an event of one decider leaves the other half of
    /// the state as it was (a clone of it).
    ///
    /// Where cloning the states copies them, each decider keeps its own behaviour inside the
    /// combination: replaying a mixed history reaches, in each half, a state that the decider
    /// reaches by replaying its own events, and a command addressed to one decider is answered
    /// as that decider answers it after its own events, tagged.
    pub fn combine<C2, S2, E2, DecideFn2, EvolveFn2, InitFn2, ResultError2>(
        self,
        other: AggregateDecider<C2, S2, E2, DecideFn2, EvolveFn2, InitFn2, ResultError2>,
    ) -> (combined: AggregateDecider<
        Sum<C, C2>,
        (S, S2),
        Sum<E, E2>,
        impl Fn(&Sum<C, C2>, &(S, S2)) -> Result<Vec<Sum<E, E2>>, Sum<ResultError, ResultError2>>,
        impl Fn(&(S, S2), &Sum<E, E2>) -> (S, S2),
        impl Fn() -> (S, S2),
        Sum<ResultError, ResultError2>,
    >) where
        S: Clone,
        S2: Clone,
        DecideFn2: Fn(&C2, &S2) -> Result<Vec<E2>, ResultError2>,
        EvolveFn2: Fn(&S2, &E2) -> S2,
        InitFn2: Fn() -> S2,

        requires
            self.total(),
            other.total(),
        ensures
            combined.total(),
            forall|c: Sum<C, C2>, s: (S, S2), out: Result<Vec<Sum<E, E2>>, Sum<ResultError, ResultError2>>|
                #[trigger] call_ensures(combined.decide, (&c, &s), out) ==> match c {
                    Sum::First(c1) => exists|r: Result<Vec<E>, ResultError>|
                        call_ensures(self.decide, (&c1, &s.0), r) && result_seq(out) == tag_first::<
                            E,
                            E2,
                            ResultError,
                            ResultError2,
                        >(r),
                    Sum::Second(c2) => exists|r: Result<Vec<E2>, ResultError2>|
                        call_ensures(other.decide, (&c2, &s.1), r) && result_seq(out) == tag_second::<
                            E,
                            E2,
                            ResultError,
                            ResultError2,
                        >(r),
                },
            forall|s: (S, S2), e: Sum<E, E2>, out: (S, S2)|
                #[trigger] call_ensures(combined.evolve, (&s, &e), out) ==> match e {
                    Sum::First(e1) => call_ensures(self.evolve, (&s.0, &e1), out.0) && cloned(s.1, out.1),
                    Sum::Second(e2) => call_ensures(other.evolve, (&s.1, &e2), out.1) && cloned(s.0, out.0),
                },
            forall|out: (S, S2)|
                #[trigger] call_ensures(combined.initial_state, (), out) ==> call_ensures(
                    self.initial_state,
                    (),
                    out.0,
                ) && call_ensures(other.initial_state, (), out.1),
            clone_exact::<S>() && clone_exact::<S2>() ==> forall|history: Seq<Sum<E, E2>>, state: (S, S2)|
                #[trigger] combined.reaches(history, state) ==> self.reaches(firsts(history), state.0)
                    && other.reaches(seconds(history), state.1),
            clone_exact::<S>() && clone_exact::<S2>() ==> forall|
                history: Seq<Sum<E, E2>>,
                c: Sum<C, C2>,
                out: Result<Vec<Sum<E, E2>>, Sum<ResultError, ResultError2>>,
            |
                #[trigger] combined.decides_after(history, c, out) ==> match c {
                    Sum::First(c1) => exists|r: Result<Vec<E>, ResultError>|
                        self.decides_after(firsts(history), c1, r) && result_seq(out) == tag_first::<
                            E,
                            E2,
                            ResultError,
                            ResultError2,
                        >(r),
                    Sum::Second(c2) => exists|r: Result<Vec<E2>, ResultError2>|
                        other.decides_after(seconds(history), c2, r) && result_seq(out) == tag_second::<
                            E,
                            E2,
                            ResultError,
                            ResultError2,
                        >(r),
                },
    {
        let ghost first = self;
        let ghost second = other;
        let AggregateDecider { decide: decide1, evolve: evolve1, initial_state: init1, .. } = self;
        let AggregateDecider { decide: decide2, evolve: evolve2, initial_state: init2, .. } = other;
        let gd1: Ghost<DecideFn> = Ghost(decide1);
        let gd2: Ghost<DecideFn2> = Ghost(decide2);
        let ge1: Ghost<EvolveFn> = Ghost(evolve1);
        let ge2: Ghost<EvolveFn2> = Ghost(evolve2);
        let gi1: Ghost<InitFn> = Ghost(init1);
        let gi2: Ghost<InitFn2> = Ghost(init2);
        let decide = move |c: &Sum<C, C2>, s: &(S, S2)| -> (out: Result<
            Vec<Sum<E, E2>>,
            Sum<ResultError, ResultError2>,
        >)
            ensures
                match c {
                    Sum::First(c1) => exists|r: Result<Vec<E>, ResultError>|
                        call_ensures(gd1@, (c1, &s.0), r) && result_seq(out) == tag_first::<
                            E,
                            E2,
                            ResultError,
                            ResultError2,
                        >(r),
                    Sum::Second(c2) => exists|r: Result<Vec<E2>, ResultError2>|
                        call_ensures(gd2@, (c2, &s.1), r) && result_seq(out) == tag_second::<
                            E,
                            E2,
                            ResultError,
                            ResultError2,
                        >(r),
                },
        {
            match c {
                Sum::First(c1) => {
                    let r = decide1(c1, &s.0);
                    let ghost gr = r;
                    let out = match r {
                        Ok(events) => Ok(tag_all_first(events)),
                        Err(err) => Err(Sum::First(err)),
                    };
                    assert(result_seq(out) == tag_first::<E, E2, ResultError, ResultError2>(gr));
                    out
                },
                Sum::Second(c2) => {
                    let r = decide2(c2, &s.1);
                    let ghost gr = r;
                    let out = match r {
                        Ok(events) => Ok(tag_all_second(events)),
                        Err(err) => Err(Sum::Second(err)),
                    };
                    assert(result_seq(out) == tag_second::<E, E2, ResultError, ResultError2>(gr));
                    out
                },
            }
        };
        let evolve = move |s: &(S, S2), e: &Sum<E, E2>| -> (out: (S, S2))
            ensures
                match e {
                    Sum::First(e1) => call_ensures(ge1@, (&s.0, e1), out.0) && cloned(s.1, out.1),
                    Sum::Second(e2) => call_ensures(ge2@, (&s.1, e2), out.1) && cloned(s.0, out.0),
                },
        {
            match e {
                Sum::First(e1) => (evolve1(&s.0, e1), s.1.clone()),
                Sum::Second(e2) => (s.0.clone(), evolve2(&s.1, e2)),
            }
        };
        let initial_state = move || -> (out: (S, S2))
            ensures
                call_ensures(gi1@, (), out.0) && call_ensures(gi2@, (), out.1),
        { (init1(), init2()) };
        let combined = AggregateDecider::new(decide, evolve, initial_state);
        proof {
            if clone_exact::<S>() && clone_exact::<S2>() {
                assert(evolves_in_parts(combined.evolve, first.evolve, second.evolve));
                assert forall|history: Seq<Sum<E, E2>>, state: (S, S2)| #[trigger]
                    combined.reaches(history, state) implies first.reaches(firsts(history), state.0)
                    && second.reaches(seconds(history), state.1) by {
                    let s0 = choose|s0: (S, S2)|
                        #[trigger] call_ensures(combined.initial_state, (), s0) && folds_to(combined.evolve, s0, history, state);
                    lemma_folds_to_parts(combined.evolve, first.evolve, second.evolve, s0, history, state);
                }
                assert forall|
                    history: Seq<Sum<E, E2>>,
                    c: Sum<C, C2>,
                    out: Result<Vec<Sum<E, E2>>, Sum<ResultError, ResultError2>>,
                | #[trigger] combined.decides_after(history, c, out) implies match c {
                    Sum::First(c1) => exists|r: Result<Vec<E>, ResultError>|
                        first.decides_after(firsts(history), c1, r) && result_seq(out) == tag_first::<
                            E,
                            E2,
                            ResultError,
                            ResultError2,
                        >(r),
                    Sum::Second(c2) => exists|r: Result<Vec<E2>, ResultError2>|
                        second.decides_after(seconds(history), c2, r) && result_seq(out) == tag_second::<
                            E,
                            E2,
                            ResultError,
                            ResultError2,
                        >(r),
                } by {
                    let state = choose|state: (S, S2)|
                        combined.reaches(history, state) && #[trigger] call_ensures(combined.decide, (&c, &state), out);
                    assert(first.reaches(firsts(history), state.0) && second.reaches(seconds(history), state.1));
                    match c {
                        Sum::First(c1) => {
                            let r = choose|r: Result<Vec<E>, ResultError>|
                                call_ensures(first.decide, (&c1, &state.0), r) && result_seq(out) == tag_first::<
                                    E,
                                    E2,
                                    ResultError,
                                    ResultError2,
                                >(r);
                            assert(first.decides_after(firsts(history), c1, r));
                        },
                        Sum::Second(c2) => {
                            let r = choose|r: Result<Vec<E2>, ResultError2>|
                                call_ensures(second.decide, (&c2, &state.1), r) && result_seq(out) == tag_second::<
                                    E,
                                    E2,
                                    ResultError,
                                    ResultError2,
                                >(r);
                            assert(second.decides_after(seconds(history), c2, r));
                        },
                    }
                }
            }
        }
        combined
    }

    /// Replaying a history and then the events that the event-sourced model decides on it gives a
    /// state that the state-stored model can compute from the replayed state: both computation
    /// models agree.
    pub proof fn lemma_state_stored_agrees_with_event_sourced(
        self,
        history: Seq<E>,
        state: S,
        command: C,
        result: Result<S, ResultError>,
    )
        requires
            self.reaches(history, state),
            self.applies_decision(state, command, result),
        ensures
            match result {
                Ok(next) => exists|events: Vec<E>|
                    self.computes_events(history, command, Ok::<Vec<E>, ResultError>(events))
                        && #[trigger] self.reaches(history + events@, next),
                Err(err) => self.computes_events(history, command, Err::<Vec<E>, ResultError>(err)),
            },
    {
        let s0 = choose|s0: S| #[trigger] call_ensures(self.initial_state, (), s0) && folds_to(self.evolve, s0, history, state);
        match result {
            Ok(next) => {
                let events = choose|events: Vec<E>|
                    #[trigger] call_ensures(self.decide, (&command, &state), Ok::<Vec<E>, ResultError>(events))
                        && folds_to(self.evolve, state, events@, next);
                lemma_folds_to_append(self.evolve, s0, history, state, events@, next);
                assert(self.reaches(history + events@, next));
                assert(self.computes_events(history, command, Ok::<Vec<E>, ResultError>(events)));
            },
            Err(err) => {},
        }
    }

    /// With deterministic functions, the event-sourced model gives one answer per history and
    /// command.
    pub proof fn lemma_compute_new_events_deterministic(
        self,
        history: Seq<E>,
        command: C,
        r1: Result<Vec<E>, ResultError>,
        r2: Result<Vec<E>, ResultError>,
    )
        requires
            self.deterministic(),
            self.computes_events(history, command, r1),
            self.computes_events(history, command, r2),
        ensures
            r1 == r2,
    {
        let s1 = choose|s: S| self.reaches(history, s) && #[trigger] call_ensures(self.decide, (&command, &s), r1);
        let s2 = choose|s: S| self.reaches(history, s) && #[trigger] call_ensures(self.decide, (&command, &s), r2);
        let a0 = choose|s0: S| #[trigger] call_ensures(self.initial_state, (), s0) && folds_to(self.evolve, s0, history, s1);
        let b0 = choose|s0: S| #[trigger] call_ensures(self.initial_state, (), s0) && folds_to(self.evolve, s0, history, s2);
        lemma_folds_to_deterministic(self.evolve, a0, history, s1, s2);
    }

    /// With deterministic functions, the state-stored model gives one answer per stored state and
    /// command: the same state and command always produce the same new state.
    pub proof fn lemma_compute_new_state_deterministic(
        self,
        current: Option<S>,
        command: C,
        r1: Result<S, ResultError>,
        r2: Result<S, ResultError>,
    )
        requires
            self.deterministic(),
            self.computes_state(current, command, r1),
            self.computes_state(current, command, r2),
        ensures
            r1 == r2,
    {
        let b1 = choose|base: S| #[trigger] self.stored_or_initial(current, base) && self.applies_decision(base, command, r1);
        let b2 = choose|base: S| #[trigger] self.stored_or_initial(current, base) && self.applies_decision(base, command, r2);
        assert(b1 == b2);
        match (r1, r2) {
            (Ok(n1), Ok(n2)) => {
                let ev1 = choose|events: Vec<E>|
                    #[trigger] call_ensures(self.decide, (&command, &b1), Ok::<Vec<E>, ResultError>(events))
                        && folds_to(self.evolve, b1, events@, n1);
                let ev2 = choose|events: Vec<E>|
                    #[trigger] call_ensures(self.decide, (&command, &b1), Ok::<Vec<E>, ResultError>(events))
                        && folds_to(self.evolve, b1, events@, n2);
                assert(ev1 == ev2);
                lemma_folds_to_deterministic(self.evolve, b1, ev1@, n1, n2);
            },
            (Ok(n1), Err(e2)) => {
                let ev1 = choose|events: Vec<E>|
                    #[trigger] call_ensures(self.decide, (&command, &b1), Ok::<Vec<E>, ResultError>(events))
                        && folds_to(self.evolve, b1, events@, n1);
                assert(call_ensures(self.decide, (&command, &b1), Err::<Vec<E>, ResultError>(e2)));
            },
            (Err(e1), Ok(n2)) => {
                let ev2 = choose|events: Vec<E>|
                    #[trigger] call_ensures(self.decide, (&command, &b1), Ok::<Vec<E>, ResultError>(events))
                        && folds_to(self.evolve, b1, events@, n2);
                assert(call_ensures(self.decide, (&command, &b1), Err::<Vec<E>, ResultError>(e1)));
            },
            (Err(e1), Err(e2)) => {
                assert(call_ensures(self.decide, (&command, &b1), Err::<Vec<E>, ResultError>(e1)));
                assert(call_ensures(self.decide, (&command, &b1), Err::<Vec<E>, ResultError>(e2)));
            },
        }
    }

    /// Through the traits, the decider evolves, starts and decides with its own stored
    /// functions, on exactly the state, event and command it is given.
    pub proof fn lemma_trait_calls_use_the_stored_functions(self)
        ensures
            forall|state: S, event: E, next: S|
                #[trigger] self.evolves_to(state, event, next) <==> call_ensures(self.evolve, (&state, &event), next),
            forall|state: S| #[trigger] self.is_initial(state) <==> call_ensures(self.initial_state, (), state),
            forall|command: C, state: S, result: Result<Vec<E>, ResultError>|
                #[trigger] self.decides_to(command, state, result) <==> call_ensures(
                    self.decide,
                    (&command, &state),
                    result,
                ),
    {
    }

    /// The event-sourced model decides the command, with the stored `decide`, in a state that
    /// folding the stored `evolve` over the history from an initial state gives; the
    /// state-stored model decides it in the stored state (an initial one when none is stored)
    /// and folds the decided events into that state, or answers the decision's error.
    pub proof fn lemma_computations_use_the_stored_functions(self)
        ensures
            forall|history: Seq<E>, command: C, result: Result<Vec<E>, ResultError>|
                #[trigger] self.computes_events(history, command, result) <==> exists|start: S, state: S|
                    #[trigger] call_ensures(self.initial_state, (), start) && folds_to(self.evolve, start, history, state)
                        && #[trigger] call_ensures(self.decide, (&command, &state), result),
            forall|stored: S, command: C, next: S|
                #[trigger] self.computes_state(Some(stored), command, Ok::<S, ResultError>(next)) <==> exists|
                    events: Vec<E>,
                |
                    #[trigger] call_ensures(self.decide, (&command, &stored), Ok::<Vec<E>, ResultError>(events))
                        && folds_to(self.evolve, stored, events@, next),
            forall|stored: S, command: C, err: ResultError|
                #[trigger] self.computes_state(Some(stored), command, Err::<S, ResultError>(err)) <==> call_ensures(
                    self.decide,
                    (&command, &stored),
                    Err::<Vec<E>, ResultError>(err),
                ),
            forall|command: C, result: Result<S, ResultError>|
                #[trigger] self.computes_state(None, command, result) <==> exists|start: S|
                    #[trigger] call_ensures(self.initial_state, (), start) && self.computes_state(
                        Some(start),
                        command,
                        result,
                    ),
    {
        assert forall|history: Seq<E>, command: C, result: Result<Vec<E>, ResultError>|
            #[trigger] self.computes_events(history, command, result) implies exists|start: S, state: S|
                #[trigger] call_ensures(self.initial_state, (), start) && folds_to(self.evolve, start, history, state)
                    && #[trigger] call_ensures(self.decide, (&command, &state), result) by {
            let state = choose|state: S| self.reaches(history, state) && #[trigger] call_ensures(self.decide, (&command, &state), result);
            let start = choose|s0: S| #[trigger] call_ensures(self.initial_state, (), s0) && folds_to(self.evolve, s0, history, state);
        }
        assert forall|command: C, result: Result<S, ResultError>|
            #[trigger] self.computes_state(None, command, result) implies exists|start: S|
                #[trigger] call_ensures(self.initial_state, (), start) && self.computes_state(Some(start), command, result) by {
            let base = choose|base: S| #[trigger] self.stored_or_initial(None, base) && self.applies_decision(base, command, result);
            assert(self.stored_or_initial(Some(base), base));
        }
        assert forall|command: C, result: Result<S, ResultError>|
            (exists|start: S| #[trigger] call_ensures(self.initial_state, (), start) && self.computes_state(Some(start), command, result))
            implies #[trigger] self.computes_state(None, command, result) by {
            let start = choose|start: S| #[trigger] call_ensures(self.initial_state, (), start) && self.computes_state(Some(start), command, result);
            let base = choose|base: S| #[trigger] self.stored_or_initial(Some(start), base) && self.applies_decision(base, command, result);
            assert(self.stored_or_initial(None, base));
        }
        assert forall|stored: S, command: C, result: Result<S, ResultError>|
            #[trigger] self.computes_state(Some(stored), command, result) <==> self.applies_decision(stored, command, result) by {
            if self.applies_decision(stored, command, result) {
                assert(self.stored_or_initial(Some(stored), stored));
            }
        }
    }

    /// `base` is the stored state, or a possible initial state when nothing is stored.
    pub open spec fn stored_or_initial(&self, current: Option<S>, base: S) -> bool {
        match current {
            Some(s) => base == s,
            None => call_ensures(self.initial_state, (), base),
        }
    }
}

impl<C, S, E, DecideFn, EvolveFn, InitFn, ResultError> ViewTrait<S, S, E> for AggregateDecider<
    C,
    S,
    E,
    DecideFn,
    EvolveFn,
    InitFn,
    ResultError,
> where
    DecideFn: Fn(&C, &S) -> Result<Vec<E>, ResultError>,
    EvolveFn: Fn(&S, &E) -> S,
    InitFn: Fn() -> S,
 {
    open spec fn view_defined(&self) -> bool {
        self.total()
    }

    open spec fn evolves_to(&self, state: S, event: E, next: S) -> bool {
        call_ensures(self.evolve, (&state, &event), next)
    }

    open spec fn is_initial(&self, state: S) -> bool {
        call_ensures(self.initial_state, (), state)
    }

    fn evolve(&self, state: &S, event: &E) -> (next: S) {
        (self.evolve)(state, event)
    }

    fn initial_state(&self) -> (state: S) {
        (self.initial_state)()
    }
}

impl<C, S, E, DecideFn, EvolveFn, InitFn, ResultError> DeciderTrait<C, S, S, E, E> for AggregateDecider<
    C,
    S,
    E,
    DecideFn,
    EvolveFn,
    InitFn,
    ResultError,
> where
    DecideFn: Fn(&C, &S) -> Result<Vec<E>, ResultError>,
    EvolveFn: Fn(&S, &E) -> S,
    InitFn: Fn() -> S,
 {
    type Events = Vec<E>;

    type Error = ResultError;

    open spec fn decides_to(&self, command: C, state: S, result: Result<Vec<E>, ResultError>) -> bool {
        call_ensures(self.decide, (&command, &state), result)
    }

    fn decide(&self, command: &C, state: &S) -> (result: Result<Vec<E>, ResultError>) {
        (self.decide)(command, state)
    }
}

impl<C, S, E, DecideFn, EvolveFn, InitFn, ResultError> EventComputationTrait<C, E, E> for AggregateDecider<
    C,
    S,
    E,
    DecideFn,
    EvolveFn,
    InitFn,
    ResultError,
> where
    DecideFn: Fn(&C, &S) -> Result<Vec<E>, ResultError>,
    EvolveFn: Fn(&S, &E) -> S,
    InitFn: Fn() -> S,
 {
    type Events = Vec<E>;

    type Error = ResultError;

    open spec fn events_computable(&self) -> bool {
        self.total()
    }

    /// The command is decided against a state that replaying `current_events` from an
    /// initial state gives.
    open spec fn computes_events(&self, current_events: Seq<E>, command: C, result: Result<Vec<E>, ResultError>) -> bool {
        self.decides_after(current_events, command, result)
    }

    fn compute_new_events(&self, current_events: &[E], command: &C) -> (result: Result<Vec<E>, ResultError>) {
        let s0 = (self.initial_state)();
        let state = fold_events(s0, current_events, &self.evolve);
        let result = (self.decide)(command, &state);
        assert(self.reaches(current_events@, state));
        result
    }
}

impl<C, S, E, DecideFn, EvolveFn, InitFn, ResultError> StateComputationTrait<C, S> for AggregateDecider<
    C,
    S,
    E,
    DecideFn,
    EvolveFn,
    InitFn,
    ResultError,
> where
    DecideFn: Fn(&C, &S) -> Result<Vec<E>, ResultError>,
    EvolveFn: Fn(&S, &E) -> S,
    InitFn: Fn() -> S,
 {
    type Error = ResultError;

    open spec fn state_computable(&self) -> bool {
        self.total()
    }

    /// The command is decided against the stored state (an initial state when none is stored),
    /// and the decided events are folded into that state.
    open spec fn computes_state(&self, current_state: Option<S>, command: C, result: Result<S, ResultError>) -> bool {
        exists|base: S| #[trigger] self.stored_or_initial(current_state, base) && self.applies_decision(base, command, result)
    }

    fn compute_new_state(&self, current_state: Option<S>, command: &C) -> (result: Result<S, ResultError>) {
        let base_state = match current_state {
            Some(s) => s,
            None => (self.initial_state)(),
        };
        let ghost base = base_state;
        match (self.decide)(command, &base_state) {
            Ok(events) => {
                let next = fold_events(base_state, events.as_slice(), &self.evolve);
                assert(self.applies_decision(base, *command, Ok::<S, ResultError>(next)));
                assert(self.stored_or_initial(current_state, base));
                Ok(next)
            },
            Err(err) => {
                assert(self.stored_or_initial(current_state, base));
                Err(err)
            },
        }
    }
}

} // verus!
