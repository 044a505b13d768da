use crate::events::{map_each, maps_each, tag_all_first, tag_all_second};
use crate::fold::{
    evolve_deterministic, evolve_total, evolves_in_parts, evolves_through_map, fold_events, folds_to,
    lemma_folds_to_deterministic, lemma_folds_to_mapped, lemma_folds_to_parts, undoes,
};
use crate::{
    clone_exact, firsts, result_seq, seconds, tag_first, tag_second, DeciderTrait, EventComputationTrait, Sum,
    ViewTrait,
};
use std::marker::PhantomData;
use std::sync::Arc;
use vstd::prelude::*;

verus! {

/// # `DCBDecider` — Dynamic Consistency Boundary Pattern
///
/// Input events (`Ei`) may differ from output events (`Eo`): events from one context drive the
/// state, decisions produce events for another. It supports the event-sourced computation
/// model only: output events cannot be fed back into `evolve`, which expects input events.
///
/// Composing deciders shares the user's functions through `Arc`, so a composed decider is
/// `Send + Sync` whenever the functions it was built from are.
#[verifier::reject_recursive_types(C)]
#[verifier::reject_recursive_types(S)]
#[verifier::reject_recursive_types(Ei)]
#[verifier::reject_recursive_types(Eo)]
#[verifier::reject_recursive_types(ResultError)]
pub struct DCBDecider<C, S, Ei, Eo, DecideFn, EvolveFn, InitFn, ResultError = std::convert::Infallible> where
    DecideFn: Fn(&C, &S) -> Result<Vec<Eo>, ResultError>,
    EvolveFn: Fn(&S, &Ei) -> S,
    InitFn: Fn() -> S,
 {
    /// Decision function: `(command, state) -> events`
    pub decide: DecideFn,
    /// Evolution function: `(state, event) -> new_state`
    pub evolve: EvolveFn,
    /// Initial state factory
    pub initial_state: InitFn,
    /// Marks the command, state and event types.
    pub _marker: PhantomData<(C, S, Ei, Eo)>,
}

impl<C, S, Ei, Eo, DecideFn, EvolveFn, InitFn, ResultError> DCBDecider<
    C,
    S,
    Ei,
    Eo,
    DecideFn,
    EvolveFn,
    InitFn,
    ResultError,
> where
    DecideFn: Fn(&C, &S) -> Result<Vec<Eo>, ResultError>,
    EvolveFn: Fn(&S, &Ei) -> S,
    InitFn: Fn() -> S,
 {
    /// The three functions can be called on every input.
    pub open spec fn total(&self) -> bool {
        &&& forall|c: C, s: S| #[trigger] call_requires(self.decide, (&c, &s))
        &&& evolve_total(self.evolve)
        &&& call_requires(self.initial_state, ())
    }

    /// Each of the three functions gives one result on each input.
    pub open spec fn deterministic(&self) -> bool {
        &&& forall|c: C, s: S, r1: Result<Vec<Eo>, ResultError>, r2: Result<Vec<Eo>, ResultError>|
            #[trigger] call_ensures(self.decide, (&c, &s), r1) && #[trigger] call_ensures(
                self.decide,
                (&c, &s),
                r2,
            ) ==> r1 == r2
        &&& evolve_deterministic(self.evolve)
        &&& forall|s1: S, s2: S|
            #[trigger] call_ensures(self.initial_state, (), s1) && #[trigger] call_ensures(
                self.initial_state,
                (),
                s2,
            ) ==> s1 == s2
    }

    /// `state` is a state that replaying the input `events` from an initial state can give.
    pub open spec fn reaches(&self, events: Seq<Ei>, state: S) -> bool {
        exists|s0: S| #[trigger] call_ensures(self.initial_state, (), s0) && folds_to(self.evolve, s0, events, state)
    }

    /// Through the traits, the decider evolves, starts and decides with its own stored
    /// functions, on exactly the state, event and command it is given.
    pub proof fn lemma_trait_calls_use_the_stored_functions(self)
        ensures
            forall|state: S, event: Ei, next: S|
                #[trigger] self.evolves_to(state, event, next) <==> call_ensures(self.evolve, (&state, &event), next),
            forall|state: S| #[trigger] self.is_initial(state) <==> call_ensures(self.initial_state, (), state),
            forall|command: C, state: S, result: Result<Vec<Eo>, ResultError>|
                #[trigger] self.decides_to(command, state, result) <==> call_ensures(
                    self.decide,
                    (&command, &state),
                    result,
                ),
    {
    }

    /// The event-sourced model decides the command, with the stored `decide`, in a state that
    /// folding the stored `evolve` over the input history from an initial state gives.
    pub proof fn lemma_computation_uses_the_stored_functions(self)
        ensures
            forall|history: Seq<Ei>, command: C, result: Result<Vec<Eo>, ResultError>|
                #[trigger] self.computes_events(history, command, result) <==> exists|start: S, state: S|
                    #[trigger] call_ensures(self.initial_state, (), start) && folds_to(self.evolve, start, history, state)
                        && #[trigger] call_ensures(self.decide, (&command, &state), result),
    {
        assert forall|history: Seq<Ei>, command: C, result: Result<Vec<Eo>, ResultError>|
            #[trigger] self.computes_events(history, command, result) implies exists|start: S, state: S|
                #[trigger] call_ensures(self.initial_state, (), start) && folds_to(self.evolve, start, history, state)
                    && #[trigger] call_ensures(self.decide, (&command, &state), result) by {
            let state = choose|state: S| self.reaches(history, state) && #[trigger] call_ensures(self.decide, (&command, &state), result);
            let start = choose|s0: S| #[trigger] call_ensures(self.initial_state, (), s0) && folds_to(self.evolve, s0, history, state);
        }
    }

    /// `result` is a possible answer to `command` after the input events `history`: the
    /// decision in a state that replaying `history` from an initial state gives.
    pub open spec fn decides_after(&self, history: Seq<Ei>, command: C, result: Result<Vec<Eo>, ResultError>) -> bool {
        exists|state: S| self.reaches(history, state) && #[trigger] call_ensures(self.decide, (&command, &state), result)
    }

    /// Creates a new `DCBDecider`.
    pub fn new(decide: DecideFn, evolve: EvolveFn, initial_state: InitFn) -> (decider: Self)
        ensures
            decider.decide == decide,
            decider.evolve == evolve,
            decider.initial_state == initial_state,
    {
        DCBDecider { decide, evolve, initial_state, _marker: PhantomData }
    }

    /// Maps the internal state type `S` to a new state type `S2`.
    ///
    /// `f1` reads an `S` out of an `S2` before deciding and evolving; `f2` turns the evolved
    /// (and the initial) `S` back into an `S2`.
    ///
    /// Where `f1` undoes `f2`, the mapped decider replays input events to the image of a state
    /// that the decider itself replays them to, and answers every command after a history as
    /// the decider does.
    pub fn map_state<S2, F1, F2>(self, f1: F1, f2: F2) -> (mapped: DCBDecider<
        C,
        S2,
        Ei,
        Eo,
        impl Fn(&C, &S2) -> Result<Vec<Eo>, ResultError>,
        impl Fn(&S2, &Ei) -> S2,
        impl Fn() -> S2,
        ResultError,
    >) where F1: Fn(&S2) -> S, F2: Fn(&S) -> S2
        requires
            self.total(),
            forall|s2: S2| #[trigger] call_requires(f1, (&s2,)),
            forall|s: S| #[trigger] call_requires(f2, (&s,)),
        ensures
            mapped.total(),
            forall|c: C, s2: S2, out: Result<Vec<Eo>, ResultError>|
                #[trigger] call_ensures(mapped.decide, (&c, &s2), out) ==> exists|s: S|
                    call_ensures(f1, (&s2,), s) && call_ensures(self.decide, (&c, &s), out),
            forall|s2: S2, e: Ei, out: S2|
                #[trigger] call_ensures(mapped.evolve, (&s2, &e), out) ==> exists|s: S, next: S|
                    call_ensures(f1, (&s2,), s) && call_ensures(self.evolve, (&s, &e), next)
                        && call_ensures(f2, (&next,), out),
            forall|out: S2|
                #[trigger] call_ensures(mapped.initial_state, (), out) ==> exists|s: S|
                    call_ensures(self.initial_state, (), s) && call_ensures(f2, (&s,), out),
            undoes(f1, f2) ==> forall|history: Seq<Ei>, state: S2|
                #[trigger] mapped.reaches(history, state) ==> exists|s: S|
                    self.reaches(history, s) && #[trigger] call_ensures(f2, (&s,), state),
            undoes(f1, f2) ==> forall|history: Seq<Ei>, c: C, out: Result<Vec<Eo>, ResultError>|
                #[trigger] mapped.decides_after(history, c, out) ==> self.decides_after(history, c, out),
    {
        let gf1: Ghost<F1> = Ghost(f1);
        let gf2: Ghost<F2> = Ghost(f2);
        let f1 = Arc::new(f1);
        let f2 = Arc::new(f2);
        let f1_decide = f1.clone();
        let f1_evolve = f1.clone();
        let f2_evolve = f2.clone();
        let f2_init = f2.clone();
        let ghost original = self;
        let DCBDecider { decide: self_decide, evolve: self_evolve, initial_state: self_init, .. } = self;
        let gd: Ghost<DecideFn> = Ghost(self_decide);
        let ge: Ghost<EvolveFn> = Ghost(self_evolve);
        let gi: Ghost<InitFn> = Ghost(self_init);
        let decide = move |c: &C, s2: &S2| -> (out: Result<Vec<Eo>, ResultError>)
            ensures
                exists|s: S| call_ensures(gf1@, (s2,), s) && call_ensures(gd@, (c, &s), out),
        {
            let s = (*f1_decide)(s2);
            self_decide(c, &s)
        };
        let evolve = move |s2: &S2, e: &Ei| -> (out: S2)
            ensures
                exists|s: S, next: S|
                    call_ensures(gf1@, (s2,), s) && call_ensures(ge@, (&s, e), next) && call_ensures(
                        gf2@,
                        (&next,),
                        out,
                    ),
        {
            let s = (*f1_evolve)(s2);
            let next = self_evolve(&s, e);
            (*f2_evolve)(&next)
        };
        let initial_state = move || -> (out: S2)
            ensures
                exists|s: S| call_ensures(gi@, (), s) && call_ensures(gf2@, (&s,), out),
        {
            let s = self_init();
            (*f2_init)(&s)
        };
        let mapped = DCBDecider { decide, evolve, initial_state, _marker: PhantomData };
        proof {
            if undoes(gf1@, gf2@) {
                assert(evolves_through_map(mapped.evolve, original.evolve, gf1@, gf2@));
                assert forall|history: Seq<Ei>, state: S2| #[trigger] mapped.reaches(history, state) implies exists|s: S|
                    original.reaches(history, s) && #[trigger] call_ensures(gf2@, (&s,), state) by {
                    let t0 = choose|t0: S2|
                        #[trigger] call_ensures(mapped.initial_state, (), t0) && folds_to(mapped.evolve, t0, history, state);
                    let s0 = choose|s0: S| call_ensures(original.initial_state, (), s0) && call_ensures(gf2@, (&s0,), t0);
                    lemma_folds_to_mapped(mapped.evolve, original.evolve, gf1@, gf2@, s0, t0, history, state);
                    let s = choose|end: S| folds_to(original.evolve, s0, history, end) && #[trigger] call_ensures(gf2@, (&end,), state);
                    assert(original.reaches(history, s));
                }
                assert forall|history: Seq<Ei>, c: C, out: Result<Vec<Eo>, ResultError>| #[trigger] mapped.decides_after(
                    history,
                    c,
                    out,
                ) implies original.decides_after(history, c, out) by {
                    let t = choose|t: S2| mapped.reaches(history, t) && #[trigger] call_ensures(mapped.decide, (&c, &t), out);
                    let s = choose|s: S| original.reaches(history, s) && #[trigger] call_ensures(gf2@, (&s,), t);
                    let s1 = choose|s1: S| call_ensures(gf1@, (&t,), s1) && call_ensures(original.decide, (&c, &s1), out);
                    assert(s1 == s);
                }
            }
        }
        mapped
    }

    /// Maps the command type `C` to a new command type `C2`.
    pub fn map_command<C2, F>(self, f: F) -> (mapped: DCBDecider<
        C2,
        S,
        Ei,
        Eo,
        impl Fn(&C2, &S) -> Result<Vec<Eo>, ResultError>,
        EvolveFn,
        InitFn,
        ResultError,
    >) where F: Fn(&C2) -> C
        requires
            self.total(),
            forall|c2: C2| #[trigger] call_requires(f, (&c2,)),
        ensures
            mapped.total(),
            mapped.evolve == self.evolve,
            mapped.initial_state == self.initial_state,
            forall|c2: C2, s: S, out: Result<Vec<Eo>, ResultError>|
                #[trigger] call_ensures(mapped.decide, (&c2, &s), out) ==> exists|c: C|
                    call_ensures(f, (&c2,), c) && call_ensures(self.decide, (&c, &s), out),
    {
        let gf: Ghost<F> = Ghost(f);
        let f = Arc::new(f);
        let DCBDecider { decide: self_decide, evolve, initial_state, .. } = self;
        let gd: Ghost<DecideFn> = Ghost(self_decide);
        let decide = move |c2: &C2, s: &S| -> (out: Result<Vec<Eo>, ResultError>)
            ensures
                exists|c: C| call_ensures(gf@, (c2,), c) && call_ensures(gd@, (&c, s), out),
        {
            let c = (*f)(c2);
            self_decide(&c, s)
        };
        DCBDecider { decide, evolve, initial_state, _marker: PhantomData }
    }

    /// Maps the input event type `Ei` to a new input event type `Ei2`.
    pub fn map_input_event<Ei2, F>(self, f: F) -> (mapped: DCBDecider<
        C,
        S,
        Ei2,
        Eo,
        DecideFn,
        impl Fn(&S, &Ei2) -> S,
        InitFn,
        ResultError,
    >) where F: Fn(&Ei2) -> Ei
        requires
            self.total(),
            forall|e2: Ei2| #[trigger] call_requires(f, (&e2,)),
        ensures
            mapped.total(),
            mapped.decide == self.decide,
            mapped.initial_state == self.initial_state,
            forall|s: S, e2: Ei2, out: S|
                #[trigger] call_ensures(mapped.evolve, (&s, &e2), out) ==> exists|e: Ei|
                    call_ensures(f, (&e2,), e) && call_ensures(self.evolve, (&s, &e), out),
    {
        let gf: Ghost<F> = Ghost(f);
        let f = Arc::new(f);
        let DCBDecider { decide, evolve: self_evolve, initial_state, .. } = self;
        let ge: Ghost<EvolveFn> = Ghost(self_evolve);
        let evolve = move |s: &S, e2: &Ei2| -> (out: S)
            ensures
                exists|e: Ei| call_ensures(gf@, (e2,), e) && call_ensures(ge@, (s, &e), out),
        {
            let e = (*f)(e2);
            self_evolve(s, &e)
        };
        DCBDecider { decide, evolve, initial_state, _marker: PhantomData }
    }

    /// Maps the output event type `Eo` to a new output event type `Eo2`: each decided event is
    /// turned into an `Eo2`, in order.
    pub fn map_output_event<Eo2, F>(self, f: F) -> (mapped: DCBDecider<
        C,
        S,
        Ei,
        Eo2,
        impl Fn(&C, &S) -> Result<Vec<Eo2>, ResultError>,
        EvolveFn,
        InitFn,
        ResultError,
    >) where F: Fn(&Eo) -> Eo2
        requires
            self.total(),
            forall|e: Eo| #[trigger] call_requires(f, (&e,)),
        ensures
            mapped.total(),
            mapped.evolve == self.evolve,
            mapped.initial_state == self.initial_state,
            forall|c: C, s: S, out: Result<Vec<Eo2>, ResultError>|
                #[trigger] call_ensures(mapped.decide, (&c, &s), out) ==> match out {
                    Ok(events2) => exists|events: Vec<Eo>|
                        call_ensures(self.decide, (&c, &s), Ok::<Vec<Eo>, ResultError>(events))
                            && maps_each(f, events@, events2@),
                    Err(err) => call_ensures(self.decide, (&c, &s), Err::<Vec<Eo>, ResultError>(err)),
                },
    {
        let gf: Ghost<F> = Ghost(f);
        let DCBDecider { decide: self_decide, evolve, initial_state, .. } = self;
        let gd: Ghost<DecideFn> = Ghost(self_decide);
        let decide = move |c: &C, s: &S| -> (out: Result<Vec<Eo2>, ResultError>)
            ensures
                match out {
                    Ok(events2) => exists|events: Vec<Eo>|
                        call_ensures(gd@, (c, s), Ok::<Vec<Eo>, ResultError>(events)) && maps_each(
                            gf@,
                            events@,
                            events2@,
                        ),
                    Err(err) => call_ensures(gd@, (c, s), Err::<Vec<Eo>, ResultError>(err)),
                },
        {
            match self_decide(c, s) {
                Ok(events) => Ok(map_each(&f, events)),
                Err(err) => Err(err),
            }
        };
        DCBDecider { decide, evolve, initial_state, _marker: PhantomData }
    }

    /// Maps the error type `ResultError` to a new error type `ResultError2`.
    pub fn map_error<ResultError2, F>(self, f: F) -> (mapped: DCBDecider<
        C,
        S,
        Ei,
        Eo,
        impl Fn(&C, &S) -> Result<Vec<Eo>, ResultError2>,
        EvolveFn,
        InitFn,
        ResultError2,
    >) where F: Fn(ResultError) -> ResultError2
        requires
            self.total(),
            forall|err: ResultError| #[trigger] call_requires(f, (err,)),
        ensures
            mapped.total(),
            mapped.evolve == self.evolve,
            mapped.initial_state == self.initial_state,
            forall|c: C, s: S, out: Result<Vec<Eo>, ResultError2>|
                #[trigger] call_ensures(mapped.decide, (&c, &s), out) ==> match out {
                    Ok(events) => call_ensures(self.decide, (&c, &s), Ok::<Vec<Eo>, ResultError>(events)),
                    Err(err2) => exists|err: ResultError|
                        call_ensures(self.decide, (&c, &s), Err::<Vec<Eo>, ResultError>(err))
                            && call_ensures(f, (err,), err2),
                },
    {
        let gf: Ghost<F> = Ghost(f);
        let DCBDecider { decide: self_decide, evolve, initial_state, .. } = self;
        let gd: Ghost<DecideFn> = Ghost(self_decide);
        let decide = move |c: &C, s: &S| -> (out: Result<Vec<Eo>, ResultError2>)
            ensures
                match out {
                    Ok(events) => call_ensures(gd@, (c, s), Ok::<Vec<Eo>, ResultError>(events)),
                    Err(err2) => exists|err: ResultError|
                        call_ensures(gd@, (c, s), Err::<Vec<Eo>, ResultError>(err)) && call_ensures(
                            gf@,
                            (err,),
                            err2,
                        ),
                },
        {
            match self_decide(c, s) {
                Ok(events) => Ok(events),
                Err(err) => Err(f(err)),
            }
        };
        DCBDecider { decide, evolve, initial_state, _marker: PhantomData }
    }

    /// Combines two DCB deciders into one bigger decider.
    ///
    /// Commands, input events and output events are `Sum`s (each belongs to one of the two
    /// deciders), the state is the pair of both states. Evolving by an event of one decider
    /// leaves the other half of the state as it was (a clone of it).
    ///
    /// Where cloning the states copies them, each decider keeps its own behaviour inside the
    /// combination: replaying a mixed history reaches, in each half, a state that the decider
    /// reaches by replaying its own input events, and a command addressed to one decider is
    /// answered as that decider answers it after its own input events, tagged.
    pub fn combine<C2, S2, Ei2, Eo2, DecideFn2, EvolveFn2, InitFn2, ResultError2>(
        self,
        other: DCBDecider<C2, S2, Ei2, Eo2, DecideFn2, EvolveFn2, InitFn2, ResultError2>,
    ) -> (combined: DCBDecider<
        Sum<C, C2>,
        (S, S2),
        Sum<Ei, Ei2>,
        Sum<Eo, Eo2>,
        impl Fn(&Sum<C, C2>, &(S, S2)) -> Result<Vec<Sum<Eo, Eo2>>, Sum<ResultError, ResultError2>>,
        impl Fn(&(S, S2), &Sum<Ei, Ei2>) -> (S, S2),
        impl Fn() -> (S, S2),
        Sum<ResultError, ResultError2>,
    >) where
        S: Clone,
        S2: Clone,
        DecideFn2: Fn(&C2, &S2) -> Result<Vec<Eo2>, ResultError2>,
        EvolveFn2: Fn(&S2, &Ei2) -> S2,
        InitFn2: Fn() -> S2,

        requires
            self.total(),
            other.total(),
        ensures
            combined.total(),
            forall|c: Sum<C, C2>, s: (S, S2), out: Result<Vec<Sum<Eo, Eo2>>, Sum<ResultError, ResultError2>>|
                #[trigger] call_ensures(combined.decide, (&c, &s), out) ==> match c {
                    Sum::First(c1) => exists|r: Result<Vec<Eo>, ResultError>|
                        call_ensures(self.decide, (&c1, &s.0), r) && result_seq(out) == tag_first::<
                            Eo,
                            Eo2,
                            ResultError,
                            ResultError2,
                        >(r),
                    Sum::Second(c2) => exists|r: Result<Vec<Eo2>, ResultError2>|
                        call_ensures(other.decide, (&c2, &s.1), r) && result_seq(out) == tag_second::<
                            Eo,
                            Eo2,
                            ResultError,
                            ResultError2,
                        >(r),
                },
            forall|s: (S, S2), e: Sum<Ei, Ei2>, out: (S, S2)|
                #[trigger] call_ensures(combined.evolve, (&s, &e), out) ==> match e {
                    Sum::First(e1) => call_ensures(self.evolve, (&s.0, &e1), out.0) && cloned(s.1, out.1),
                    Sum::Second(e2) => call_ensures(other.evolve, (&s.1, &e2), out.1) && cloned(s.0, out.0),
                },
            forall|out: (S, S2)|
                #[trigger] call_ensures(combined.initial_state, (), out) ==> call_ensures(
                    self.initial_state,
                    (),
                    out.0,
                ) && call_ensures(other.initial_state, (), out.1),
            clone_exact::<S>() && clone_exact::<S2>() ==> forall|history: Seq<Sum<Ei, Ei2>>, state: (S, S2)|
                #[trigger] combined.reaches(history, state) ==> self.reaches(firsts(history), state.0)
                    && other.reaches(seconds(history), state.1),
            clone_exact::<S>() && clone_exact::<S2>() ==> forall|
                history: Seq<Sum<Ei, Ei2>>,
                c: Sum<C, C2>,
                out: Result<Vec<Sum<Eo, Eo2>>, Sum<ResultError, ResultError2>>,
            |
                #[trigger] combined.decides_after(history, c, out) ==> match c {
                    Sum::First(c1) => exists|r: Result<Vec<Eo>, ResultError>|
                        self.decides_after(firsts(history), c1, r) && result_seq(out) == tag_first::<
                            Eo,
                            Eo2,
                            ResultError,
                            ResultError2,
                        >(r),
                    Sum::Second(c2) => exists|r: Result<Vec<Eo2>, ResultError2>|
                        other.decides_after(seconds(history), c2, r) && result_seq(out) == tag_second::<
                            Eo,
                            Eo2,
                            ResultError,
                            ResultError2,
                        >(r),
                },
    {
        let ghost first = self;
        let ghost second = other;
        let DCBDecider { decide: decide1, evolve: evolve1, initial_state: init1, .. } = self;
        let DCBDecider { decide: decide2, evolve: evolve2, initial_state: init2, .. } = other;
        let gd1: Ghost<DecideFn> = Ghost(decide1);
        let gd2: Ghost<DecideFn2> = Ghost(decide2);
        let ge1: Ghost<EvolveFn> = Ghost(evolve1);
        let ge2: Ghost<EvolveFn2> = Ghost(evolve2);
        let gi1: Ghost<InitFn> = Ghost(init1);
        let gi2: Ghost<InitFn2> = Ghost(init2);
        let decide = move |c: &Sum<C, C2>, s: &(S, S2)| -> (out: Result<
            Vec<Sum<Eo, Eo2>>,
            Sum<ResultError, ResultError2>,
        >)
            ensures
                match c {
                    Sum::First(c1) => exists|r: Result<Vec<Eo>, ResultError>|
                        call_ensures(gd1@, (c1, &s.0), r) && result_seq(out) == tag_first::<
                            Eo,
                            Eo2,
                            ResultError,
                            ResultError2,
                        >(r),
                    Sum::Second(c2) => exists|r: Result<Vec<Eo2>, ResultError2>|
                        call_ensures(gd2@, (c2, &s.1), r) && result_seq(out) == tag_second::<
                            Eo,
                            Eo2,
                            ResultError,
                            ResultError2,
                        >(r),
                },
        {
            match c {
                Sum::First(c1) => {
                    let r = decide1(c1, &s.0);
                    let ghost gr = r;
                    let out = match r {
                        Ok(events) => Ok(tag_all_first(events)),
                        Err(err) => Err(Sum::First(err)),
                    };
                    assert(result_seq(out) == tag_first::<Eo, Eo2, ResultError, ResultError2>(gr));
                    out
                },
                Sum::Second(c2) => {
                    let r = decide2(c2, &s.1);
                    let ghost gr = r;
                    let out = match r {
                        Ok(events) => Ok(tag_all_second(events)),
                        Err(err) => Err(Sum::Second(err)),
                    };
                    assert(result_seq(out) == tag_second::<Eo, Eo2, ResultError, ResultError2>(gr));
                    out
                },
            }
        };
        let evolve = move |s: &(S, S2), e: &Sum<Ei, Ei2>| -> (out: (S, S2))
            ensures
                match e {
                    Sum::First(e1) => call_ensures(ge1@, (&s.0, e1), out.0) && cloned(s.1, out.1),
                    Sum::Second(e2) => call_ensures(ge2@, (&s.1, e2), out.1) && cloned(s.0, out.0),
                },
        {
            match e {
                Sum::First(e1) => (evolve1(&s.0, e1), s.1.clone()),
                Sum::Second(e2) => (s.0.clone(), evolve2(&s.1, e2)),
            }
        };
        let initial_state = move || -> (out: (S, S2))
            ensures
                call_ensures(gi1@, (), out.0) && call_ensures(gi2@, (), out.1),
        { (init1(), init2()) };
        let combined = DCBDecider::new(decide, evolve, initial_state);
        proof {
            if clone_exact::<S>() && clone_exact::<S2>() {
                assert(evolves_in_parts(combined.evolve, first.evolve, second.evolve));
                assert forall|history: Seq<Sum<Ei, Ei2>>, state: (S, S2)| #[trigger]
                    combined.reaches(history, state) implies first.reaches(firsts(history), state.0)
                    && second.reaches(seconds(history), state.1) by {
                    let s0 = choose|s0: (S, S2)|
                        #[trigger] call_ensures(combined.initial_state, (), s0) && folds_to(combined.evolve, s0, history, state);
                    lemma_folds_to_parts(combined.evolve, first.evolve, second.evolve, s0, history, state);
                }
                assert forall|
                    history: Seq<Sum<Ei, Ei2>>,
                    c: Sum<C, C2>,
                    out: Result<Vec<Sum<Eo, Eo2>>, Sum<ResultError, ResultError2>>,
                | #[trigger] combined.decides_after(history, c, out) implies match c {
                    Sum::First(c1) => exists|r: Result<Vec<Eo>, ResultError>|
                        first.decides_after(firsts(history), c1, r) && result_seq(out) == tag_first::<
                            Eo,
                            Eo2,
                            ResultError,
                            ResultError2,
                        >(r),
                    Sum::Second(c2) => exists|r: Result<Vec<Eo2>, ResultError2>|
                        second.decides_after(seconds(history), c2, r) && result_seq(out) == tag_second::<
                            Eo,
                            Eo2,
                            ResultError,
                            ResultError2,
                        >(r),
                } by {
                    let state = choose|state: (S, S2)|
                        combined.reaches(history, state) && #[trigger] call_ensures(combined.decide, (&c, &state), out);
                    assert(first.reaches(firsts(history), state.0) && second.reaches(seconds(history), state.1));
                    match c {
                        Sum::First(c1) => {
                            let r = choose|r: Result<Vec<Eo>, ResultError>|
                                call_ensures(first.decide, (&c1, &state.0), r) && result_seq(out) == tag_first::<
                                    Eo,
                                    Eo2,
                                    ResultError,
                                    ResultError2,
                                >(r);
                            assert(first.decides_after(firsts(history), c1, r));
                        },
                        Sum::Second(c2) => {
                            let r = choose|r: Result<Vec<Eo2>, ResultError2>|
                                call_ensures(second.decide, (&c2, &state.1), r) && result_seq(out) == tag_second::<
                                    Eo,
                                    Eo2,
                                    ResultError,
                                    ResultError2,
                                >(r);
                            assert(second.decides_after(seconds(history), c2, r));
                        },
                    }
                }
            }
        }
        combined
    }

    /// With deterministic functions, the event-sourced model gives one answer per input
    /// history and command.
    pub proof fn lemma_compute_new_events_deterministic(
        self,
        history: Seq<Ei>,
        command: C,
        r1: Result<Vec<Eo>, ResultError>,
        r2: Result<Vec<Eo>, ResultError>,
    )
        requires
            self.deterministic(),
            self.computes_events(history, command, r1),
            self.computes_events(history, command, r2),
        ensures
            r1 == r2,
    {
        let s1 = choose|s: S| self.reaches(history, s) && #[trigger] call_ensures(self.decide, (&command, &s), r1);
        let s2 = choose|s: S| self.reaches(history, s) && #[trigger] call_ensures(self.decide, (&command, &s), r2);
        let a0 = choose|s0: S| #[trigger] call_ensures(self.initial_state, (), s0) && folds_to(self.evolve, s0, history, s1);
        let b0 = choose|s0: S| #[trigger] call_ensures(self.initial_state, (), s0) && folds_to(self.evolve, s0, history, s2);
        lemma_folds_to_deterministic(self.evolve, a0, history, s1, s2);
    }
}

impl<C, S, Ei, Eo, DecideFn, EvolveFn, InitFn, ResultError> ViewTrait<S, S, Ei> for DCBDecider<
    C,
    S,
    Ei,
    Eo,
    DecideFn,
    EvolveFn,
    InitFn,
    ResultError,
> where
    DecideFn: Fn(&C, &S) -> Result<Vec<Eo>, ResultError>,
    EvolveFn: Fn(&S, &Ei) -> S,
    InitFn: Fn() -> S,
 {
    open spec fn view_defined(&self) -> bool {
        self.total()
    }

    open spec fn evolves_to(&self, state: S, event: Ei, next: S) -> bool {
        call_ensures(self.evolve, (&state, &event), next)
    }

    open spec fn is_initial(&self, state: S) -> bool {
        call_ensures(self.initial_state, (), state)
    }

    fn evolve(&self, state: &S, event: &Ei) -> (next: S) {
        (self.evolve)(state, event)
    }

    fn initial_state(&self) -> (state: S) {
        (self.initial_state)()
    }
}

impl<C, S, Ei, Eo, DecideFn, EvolveFn, InitFn, ResultError> DeciderTrait<C, S, S, Ei, Eo> for DCBDecider<
    C,
    S,
    Ei,
    Eo,
    DecideFn,
    EvolveFn,
    InitFn,
    ResultError,
> where
    DecideFn: Fn(&C, &S) -> Result<Vec<Eo>, ResultError>,
    EvolveFn: Fn(&S, &Ei) -> S,
    InitFn: Fn() -> S,
 {
    type Events = Vec<Eo>;

    type Error = ResultError;

    open spec fn decides_to(&self, command: C, state: S, result: Result<Vec<Eo>, ResultError>) -> bool {
        call_ensures(self.decide, (&command, &state), result)
    }

    fn decide(&self, command: &C, state: &S) -> (result: Result<Vec<Eo>, ResultError>) {
        (self.decide)(command, state)
    }
}

impl<C, S, Ei, Eo, DecideFn, EvolveFn, InitFn, ResultError> EventComputationTrait<C, Ei, Eo> for DCBDecider<
    C,
    S,
    Ei,
    Eo,
    DecideFn,
    EvolveFn,
    InitFn,
    ResultError,
> where
    DecideFn: Fn(&C, &S) -> Result<Vec<Eo>, ResultError>,
    EvolveFn: Fn(&S, &Ei) -> S,
    InitFn: Fn() -> S,
 {
    type Events = Vec<Eo>;

    type Error = ResultError;

    open spec fn events_computable(&self) -> bool {
        self.total()
    }

    /// The command is decided against a state that replaying the input events from an
    /// initial state gives.
    open spec fn computes_events(&self, current_events: Seq<Ei>, command: C, result: Result<Vec<Eo>, ResultError>) -> bool {
        self.decides_after(current_events, command, result)
    }

    fn compute_new_events(&self, current_events: &[Ei], command: &C) -> (result: Result<Vec<Eo>, ResultError>) {
        let s0 = (self.initial_state)();
        let state = fold_events(s0, current_events, &self.evolve);
        let result = (self.decide)(command, &state);
        assert(self.reaches(current_events@, state));
        result
    }
}

} // verus!
