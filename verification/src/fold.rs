//! Folding an `evolve` function over a sequence of events.
//!
//! Every component rebuilds state by applying `evolve` to the events one after another. Since
//! `evolve` is a closure, one run is described by the sequence of states it passes through.
use crate::{clone_exact, firsts, seconds, Sum, ViewTrait};
use vstd::prelude::*;

verus! {

/// `states` is one run of `evolve` over `events`, starting at `start`: `states[i + 1]` is a
/// possible result of evolving `states[i]` by `events[i]`.
pub open spec fn evolves_through<S, E, F: Fn(&S, &E) -> S>(
    evolve: F,
    start: S,
    events: Seq<E>,
    states: Seq<S>,
) -> bool {
    &&& states.len() == events.len() + 1
    &&& states[0] == start
    &&& forall|i: int|
        0 <= i < events.len() ==> #[trigger] call_ensures(
            evolve,
            (&states[i], &events[i]),
            states[i + 1],
        )
}

/// `end` is a possible result of folding `evolve` over `events`, starting at `start`.
pub open spec fn folds_to<S, E, F: Fn(&S, &E) -> S>(evolve: F, start: S, events: Seq<E>, end: S) -> bool {
    exists|states: Seq<S>| #[trigger] evolves_through(evolve, start, events, states) && states.last() == end
}

/// `evolve` can be called on every state and event.
pub open spec fn evolve_total<S, E, F: Fn(&S, &E) -> S>(evolve: F) -> bool {
    forall|s: S, e: E| #[trigger] call_requires(evolve, (&s, &e))
}

/// `evolve` gives one result on each state and event.
pub open spec fn evolve_deterministic<S, E, F: Fn(&S, &E) -> S>(evolve: F) -> bool {
    forall|s: S, e: E, r1: S, r2: S|
        #[trigger] call_ensures(evolve, (&s, &e), r1) && #[trigger] call_ensures(evolve, (&s, &e), r2)
            ==> r1 == r2
}

/// Folding over no events leaves the state as it is.
pub proof fn lemma_folds_to_empty<S, E, F: Fn(&S, &E) -> S>(evolve: F, start: S)
    ensures
        folds_to(evolve, start, Seq::<E>::empty(), start),
{
    let states = seq![start];
    assert(evolves_through(evolve, start, Seq::<E>::empty(), states));
}

/// Folding over no events gives nothing but the start state.
pub proof fn lemma_folds_to_empty_only<S, E, F: Fn(&S, &E) -> S>(evolve: F, start: S, end: S)
    requires
        folds_to(evolve, start, Seq::<E>::empty(), end),
    ensures
        end == start,
{
    let states = choose|states: Seq<S>| #[trigger] evolves_through(evolve, start, Seq::<E>::empty(), states) && states.last() == end;
}

/// Folding over one event is evolving by it.
pub proof fn lemma_folds_to_single<S, E, F: Fn(&S, &E) -> S>(evolve: F, start: S, event: E, end: S)
    ensures
        folds_to(evolve, start, seq![event], end) <==> call_ensures(evolve, (&start, &event), end),
{
    if call_ensures(evolve, (&start, &event), end) {
        let states = seq![start, end];
        assert(evolves_through(evolve, start, seq![event], states));
    }
    if folds_to(evolve, start, seq![event], end) {
        let states = choose|states: Seq<S>| #[trigger] evolves_through(evolve, start, seq![event], states) && states.last() == end;
        assert(call_ensures(evolve, (&states[0], &seq![event][0]), states[1]));
    }
}

/// A run over `a` followed by a run over `b` is a run over `a + b`.
pub proof fn lemma_folds_to_append<S, E, F: Fn(&S, &E) -> S>(
    evolve: F,
    start: S,
    a: Seq<E>,
    mid: S,
    b: Seq<E>,
    end: S,
)
    requires
        folds_to(evolve, start, a, mid),
        folds_to(evolve, mid, b, end),
    ensures
        folds_to(evolve, start, a + b, end),
{
    let sa = choose|states: Seq<S>| #[trigger] evolves_through(evolve, start, a, states) && states.last() == mid;
    let sb = choose|states: Seq<S>| #[trigger] evolves_through(evolve, mid, b, states) && states.last() == end;
    let states = sa + sb.drop_first();
    let events = a + b;
    assert forall|i: int| 0 <= i < events.len() implies #[trigger] call_ensures(
        evolve,
        (&states[i], &events[i]),
        states[i + 1],
    ) by {
        if i < a.len() {
            assert(call_ensures(evolve, (&sa[i], &a[i]), sa[i + 1]));
        } else {
            let j = i - a.len();
            assert(call_ensures(evolve, (&sb[j], &b[j]), sb[j + 1]));
        }
    }
    assert(evolves_through(evolve, start, events, states));
}

/// A run over `a + b` passes through a state after `a` from which the rest is a run over `b`.
pub proof fn lemma_folds_to_split<S, E, F: Fn(&S, &E) -> S>(evolve: F, start: S, a: Seq<E>, b: Seq<E>, end: S)
    requires
        folds_to(evolve, start, a + b, end),
    ensures
        exists|mid: S| folds_to(evolve, start, a, mid) && folds_to(evolve, mid, b, end),
{
    let events = a + b;
    let states = choose|states: Seq<S>| #[trigger] evolves_through(evolve, start, events, states) && states.last() == end;
    let sa = states.take(a.len() + 1int);
    let sb = states.skip(a.len() as int);
    assert forall|i: int| 0 <= i < a.len() implies #[trigger] call_ensures(evolve, (&sa[i], &a[i]), sa[i + 1]) by {
        assert(events[i] == a[i]);
        assert(call_ensures(evolve, (&states[i], &events[i]), states[i + 1]));
    }
    assert(evolves_through(evolve, start, a, sa));
    assert forall|j: int| 0 <= j < b.len() implies #[trigger] call_ensures(evolve, (&sb[j], &b[j]), sb[j + 1]) by {
        let i = j + a.len();
        assert(events[i] == b[j]);
        assert(call_ensures(evolve, (&states[i], &events[i]), states[i + 1]));
    }
    assert(evolves_through(evolve, sa.last(), b, sb));
    assert(folds_to(evolve, start, a, sa.last()));
    assert(folds_to(evolve, sa.last(), b, end));
}

/// With a deterministic `evolve`, two runs over the same events from the same state agree.
pub proof fn lemma_folds_to_deterministic<S, E, F: Fn(&S, &E) -> S>(
    evolve: F,
    start: S,
    events: Seq<E>,
    end1: S,
    end2: S,
)
    requires
        evolve_deterministic(evolve),
        folds_to(evolve, start, events, end1),
        folds_to(evolve, start, events, end2),
    ensures
        end1 == end2,
{
    let s1 = choose|states: Seq<S>| #[trigger] evolves_through(evolve, start, events, states) && states.last() == end1;
    let s2 = choose|states: Seq<S>| #[trigger] evolves_through(evolve, start, events, states) && states.last() == end2;
    lemma_runs_agree(evolve, start, events, s1, s2, events.len() as int);
}

/// Two runs of a deterministic `evolve` over the same events agree on their first `k + 1` states.
proof fn lemma_runs_agree<S, E, F: Fn(&S, &E) -> S>(
    evolve: F,
    start: S,
    events: Seq<E>,
    s1: Seq<S>,
    s2: Seq<S>,
    k: int,
)
    requires
        evolve_deterministic(evolve),
        evolves_through(evolve, start, events, s1),
        evolves_through(evolve, start, events, s2),
        0 <= k <= events.len(),
    ensures
        s1[k] == s2[k],
    decreases k,
{
    if k > 0 {
        lemma_runs_agree(evolve, start, events, s1, s2, k - 1);
        let j = k - 1;
        assert(call_ensures(evolve, (&s1[j], &events[j]), s1[j + 1]));
        assert(call_ensures(evolve, (&s2[j], &events[j]), s2[j + 1]));
    }
}

/// `f1` undoes `f2`: reading back a state that `f2` turned into an `S2` gives the state itself.
pub open spec fn undoes<S, S2, F1: Fn(&S2) -> S, F2: Fn(&S) -> S2>(f1: F1, f2: F2) -> bool {
    forall|s: S, t: S2, back: S|
        #[trigger] call_ensures(f2, (&s,), t) && #[trigger] call_ensures(f1, (&t,), back) ==> back == s
}

/// `mapped` evolves an `S2` by reading an `S` out of it with `f1`, evolving that by `evolve`,
/// and turning the result back into an `S2` with `f2`.
pub open spec fn evolves_through_map<S, S2, E, G, F, F1, F2>(mapped: G, evolve: F, f1: F1, f2: F2) -> bool where
    G: Fn(&S2, &E) -> S2,
    F: Fn(&S, &E) -> S,
    F1: Fn(&S2) -> S,
    F2: Fn(&S) -> S2,
 {
    forall|s2: S2, e: E, out: S2|
        #[trigger] call_ensures(mapped, (&s2, &e), out) ==> exists|s: S, next: S|
            call_ensures(f1, (&s2,), s) && call_ensures(evolve, (&s, &e), next) && call_ensures(f2, (&next,), out)
}

/// When `f1` undoes `f2`, a run of a mapped `evolve` from the image of a state is the image of a
/// run of `evolve` from that state.
pub proof fn lemma_folds_to_mapped<S, S2, E, G, F, F1, F2>(
    mapped: G,
    evolve: F,
    f1: F1,
    f2: F2,
    start: S,
    start2: S2,
    events: Seq<E>,
    end2: S2,
) where
    G: Fn(&S2, &E) -> S2,
    F: Fn(&S, &E) -> S,
    F1: Fn(&S2) -> S,
    F2: Fn(&S) -> S2,

    requires
        evolves_through_map(mapped, evolve, f1, f2),
        undoes(f1, f2),
        call_ensures(f2, (&start,), start2),
        folds_to(mapped, start2, events, end2),
    ensures
        exists|end: S| folds_to(evolve, start, events, end) && #[trigger] call_ensures(f2, (&end,), end2),
    decreases events.len(),
{
    if events.len() == 0 {
        assert(events == Seq::<E>::empty());
        lemma_folds_to_empty_only(mapped, start2, end2);
        lemma_folds_to_empty(evolve, start);
        assert(folds_to(evolve, start, events, start) && call_ensures(f2, (&start,), end2));
    } else {
        let init = events.drop_last();
        let last = events.last();
        assert(events == init + seq![last]);
        lemma_folds_to_split(mapped, start2, init, seq![last], end2);
        let mid2 = choose|mid2: S2| folds_to(mapped, start2, init, mid2) && folds_to(mapped, mid2, seq![last], end2);
        lemma_folds_to_mapped(mapped, evolve, f1, f2, start, start2, init, mid2);
        let mid = choose|mid: S| folds_to(evolve, start, init, mid) && #[trigger] call_ensures(f2, (&mid,), mid2);
        lemma_folds_to_single(mapped, mid2, last, end2);
        let (s, next) = choose|s: S, next: S|
            call_ensures(f1, (&mid2,), s) && call_ensures(evolve, (&s, &last), next) && call_ensures(
                f2,
                (&next,),
                end2,
            );
        assert(s == mid);
        lemma_folds_to_single(evolve, mid, last, next);
        lemma_folds_to_append(evolve, start, init, mid, seq![last], next);
        assert(folds_to(evolve, start, events, next) && call_ensures(f2, (&next,), end2));
    }
}

/// `evolve` works on a pair of states and on `Sum` events: an event of the first kind evolves
/// the first half by `first`, an event of the second kind the second half by `second`, and the
/// other half is cloned.
pub open spec fn evolves_in_parts<S, S2, E, E2, F, F1, F2>(evolve: F, first: F1, second: F2) -> bool where
    S: Clone,
    S2: Clone,
    F: Fn(&(S, S2), &Sum<E, E2>) -> (S, S2),
    F1: Fn(&S, &E) -> S,
    F2: Fn(&S2, &E2) -> S2,
 {
    forall|s: (S, S2), e: Sum<E, E2>, out: (S, S2)|
        #[trigger] call_ensures(evolve, (&s, &e), out) ==> match e {
            Sum::First(e1) => call_ensures(first, (&s.0, &e1), out.0) && cloned(s.1, out.1),
            Sum::Second(e2) => call_ensures(second, (&s.1, &e2), out.1) && cloned(s.0, out.0),
        }
}

/// A run of an `evolve` that works in parts is, on each half of the state, a run of that
/// half's function over that half's events.
pub proof fn lemma_folds_to_parts<S, S2, E, E2, F, F1, F2>(
    evolve: F,
    first: F1,
    second: F2,
    start: (S, S2),
    events: Seq<Sum<E, E2>>,
    end: (S, S2),
) where
    S: Clone,
    S2: Clone,
    F: Fn(&(S, S2), &Sum<E, E2>) -> (S, S2),
    F1: Fn(&S, &E) -> S,
    F2: Fn(&S2, &E2) -> S2,

    requires
        evolves_in_parts(evolve, first, second),
        clone_exact::<S>(),
        clone_exact::<S2>(),
        folds_to(evolve, start, events, end),
    ensures
        folds_to(first, start.0, firsts(events), end.0),
        folds_to(second, start.1, seconds(events), end.1),
    decreases events.len(),
{
    if events.len() == 0 {
        assert(events == Seq::<Sum<E, E2>>::empty());
        lemma_folds_to_empty_only(evolve, start, end);
        lemma_folds_to_empty::<S, E, F1>(first, start.0);
        lemma_folds_to_empty::<S2, E2, F2>(second, start.1);
    } else {
        let init = events.drop_last();
        let last = events.last();
        assert(events == init + seq![last]);
        lemma_folds_to_split(evolve, start, init, seq![last], end);
        let mid = choose|mid: (S, S2)| folds_to(evolve, start, init, mid) && folds_to(evolve, mid, seq![last], end);
        lemma_folds_to_parts(evolve, first, second, start, init, mid);
        lemma_folds_to_single(evolve, mid, last, end);
        match last {
            Sum::First(e1) => {
                assert(cloned(mid.1, end.1));
                lemma_folds_to_single(first, mid.0, e1, end.0);
                lemma_folds_to_append(first, start.0, firsts(init), mid.0, seq![e1], end.0);
                assert(firsts(events) == firsts(init) + seq![e1]);
                assert(seconds(events) == seconds(init));
            },
            Sum::Second(e2) => {
                assert(cloned(mid.0, end.0));
                lemma_folds_to_single(second, mid.1, e2, end.1);
                lemma_folds_to_append(second, start.1, seconds(init), mid.1, seq![e2], end.1);
                assert(seconds(events) == seconds(init) + seq![e2]);
                assert(firsts(events) == firsts(init));
            },
        }
    }
}

/// `evolve` works on a pair of states: every event evolves the first half by `first` and the
/// second half by `second`.
pub open spec fn evolves_pairwise<S, S2, E, F, F1, F2>(evolve: F, first: F1, second: F2) -> bool where
    F: Fn(&(S, S2), &E) -> (S, S2),
    F1: Fn(&S, &E) -> S,
    F2: Fn(&S2, &E) -> S2,
 {
    forall|s: (S, S2), e: E, out: (S, S2)|
        #[trigger] call_ensures(evolve, (&s, &e), out) ==> call_ensures(first, (&s.0, &e), out.0)
            && call_ensures(second, (&s.1, &e), out.1)
}

/// A run of a pairwise `evolve` is, on each half of the state, a run of that half's function
/// over all the events.
pub proof fn lemma_folds_to_pairwise<S, S2, E, F, F1, F2>(
    evolve: F,
    first: F1,
    second: F2,
    start: (S, S2),
    events: Seq<E>,
    end: (S, S2),
) where
    F: Fn(&(S, S2), &E) -> (S, S2),
    F1: Fn(&S, &E) -> S,
    F2: Fn(&S2, &E) -> S2,

    requires
        evolves_pairwise(evolve, first, second),
        folds_to(evolve, start, events, end),
    ensures
        folds_to(first, start.0, events, end.0),
        folds_to(second, start.1, events, end.1),
{
    let states = choose|states: Seq<(S, S2)>| #[trigger] evolves_through(evolve, start, events, states) && states.last() == end;
    let s1 = states.map_values(|p: (S, S2)| p.0);
    let s2 = states.map_values(|p: (S, S2)| p.1);
    assert forall|i: int| 0 <= i < events.len() implies #[trigger] call_ensures(first, (&s1[i], &events[i]), s1[i + 1]) by {
        assert(call_ensures(evolve, (&states[i], &events[i]), states[i + 1]));
    }
    assert forall|i: int| 0 <= i < events.len() implies #[trigger] call_ensures(second, (&s2[i], &events[i]), s2[i + 1]) by {
        assert(call_ensures(evolve, (&states[i], &events[i]), states[i + 1]));
    }
    assert(evolves_through(first, start.0, events, s1));
    assert(evolves_through(second, start.1, events, s2));
}

/// Folds `evolve` over `events`, starting at `state`.
pub(crate) fn fold_events<S, E, F: Fn(&S, &E) -> S>(state: S, events: &[E], evolve: &F) -> (end: S)
    requires
        evolve_total(*evolve),
    ensures
        folds_to(*evolve, state, events@, end),
{
    let ghost start = state;
    let mut state = state;
    let ghost mut states: Seq<S> = seq![state];
    let mut i: usize = 0;
    while i < events.len()
        invariant
            evolve_total(*evolve),
            0 <= i <= events.len(),
            evolves_through(*evolve, start, events@.take(i as int), states),
            states.last() == state,
        decreases events.len() - i,
    {
        let next = evolve(&state, &events[i]);
        proof {
            states = states.push(next);
            assert forall|j: int| 0 <= j < events@.take(i + 1).len() implies #[trigger] call_ensures(
                *evolve,
                (&states[j], &events@.take(i + 1)[j]),
                states[j + 1],
            ) by {
                if j < i {
                    assert(events@.take(i + 1)[j] == events@.take(i as int)[j]);
                }
            }
        }
        state = next;
        i = i + 1;
    }
    assert(events@.take(events.len() as int) =~= events@);
    state
}

/// `end` is a state that a view can reach by replaying `events` from one of its initial
/// states, evolving by one event after another.
pub open spec fn replays_to<S, E, V: ViewTrait<S, S, E>>(view: V, events: Seq<E>, end: S) -> bool {
    exists|states: Seq<S>|
        #[trigger] states.len() == events.len() + 1 && view.is_initial(states[0]) && states.last() == end
            && forall|i: int| 0 <= i < events.len() ==> #[trigger] view.evolves_to(states[i], events[i], states[i + 1])
}

/// A view gives one initial state, and one result for each state and event.
pub open spec fn view_deterministic<S, E, V: ViewTrait<S, S, E>>(view: V) -> bool {
    &&& forall|s1: S, s2: S| #[trigger] view.is_initial(s1) && #[trigger] view.is_initial(s2) ==> s1 == s2
    &&& forall|s: S, e: E, n1: S, n2: S|
        #[trigger] view.evolves_to(s, e, n1) && #[trigger] view.evolves_to(s, e, n2) ==> n1 == n2
}

/// Evolving a replayed state by one more event is replaying the longer history: a view kept up
/// to date event by event (a materialized view) holds a state that replaying all its events
/// gives.
pub proof fn lemma_replays_to_push<S, E, V: ViewTrait<S, S, E>>(view: V, events: Seq<E>, state: S, event: E, next: S)
    requires
        replays_to(view, events, state),
        view.evolves_to(state, event, next),
    ensures
        replays_to(view, events.push(event), next),
{
    let states = choose|states: Seq<S>|
        #[trigger] states.len() == events.len() + 1 && view.is_initial(states[0]) && states.last() == state
            && forall|i: int| 0 <= i < events.len() ==> #[trigger] view.evolves_to(states[i], events[i], states[i + 1]);
    let longer = states.push(next);
    let pushed = events.push(event);
    assert forall|i: int| 0 <= i < pushed.len() implies #[trigger] view.evolves_to(longer[i], pushed[i], longer[i + 1]) by {
        if i < events.len() {
            assert(view.evolves_to(states[i], events[i], states[i + 1]));
        }
    }
    assert(longer.len() == pushed.len() + 1);
}

/// Replaying no events gives exactly the view's initial states.
pub proof fn lemma_replays_to_empty<S, E, V: ViewTrait<S, S, E>>(view: V, state: S)
    ensures
        replays_to(view, Seq::<E>::empty(), state) <==> view.is_initial(state),
{
    if view.is_initial(state) {
        let states = seq![state];
        assert(states.len() == Seq::<E>::empty().len() + 1);
    }
}

/// A replay of a history followed by one more event passes through a replay of the history,
/// from which the last event evolves to the end state.
pub proof fn lemma_replays_to_last<S, E, V: ViewTrait<S, S, E>>(view: V, events: Seq<E>, event: E, next: S)
    requires
        replays_to(view, events.push(event), next),
    ensures
        exists|state: S| replays_to(view, events, state) && #[trigger] view.evolves_to(state, event, next),
{
    let pushed = events.push(event);
    let states = choose|states: Seq<S>|
        #[trigger] states.len() == pushed.len() + 1 && view.is_initial(states[0]) && states.last() == next
            && forall|i: int| 0 <= i < pushed.len() ==> #[trigger] view.evolves_to(states[i], pushed[i], states[i + 1]);
    let shorter = states.drop_last();
    assert forall|i: int| 0 <= i < events.len() implies #[trigger] view.evolves_to(shorter[i], events[i], shorter[i + 1]) by {
        assert(view.evolves_to(states[i], pushed[i], states[i + 1]));
    }
    assert(shorter.len() == events.len() + 1);
    assert(replays_to(view, events, shorter.last()));
    let k = events.len() as int;
    assert(view.evolves_to(states[k], pushed[k], states[k + 1]));
    assert(view.evolves_to(shorter.last(), event, next));
}

/// With a deterministic view, replaying the same events always gives the same state.
pub proof fn lemma_replays_to_deterministic<S, E, V: ViewTrait<S, S, E>>(view: V, events: Seq<E>, end1: S, end2: S)
    requires
        view_deterministic(view),
        replays_to(view, events, end1),
        replays_to(view, events, end2),
    ensures
        end1 == end2,
{
    let s1 = choose|states: Seq<S>|
        #[trigger] states.len() == events.len() + 1 && view.is_initial(states[0]) && states.last() == end1
            && forall|i: int| 0 <= i < events.len() ==> #[trigger] view.evolves_to(states[i], events[i], states[i + 1]);
    let s2 = choose|states: Seq<S>|
        #[trigger] states.len() == events.len() + 1 && view.is_initial(states[0]) && states.last() == end2
            && forall|i: int| 0 <= i < events.len() ==> #[trigger] view.evolves_to(states[i], events[i], states[i + 1]);
    assert forall|k: int| 0 <= k <= events.len() implies s1[k] == s2[k] by {
        lemma_replay_runs_agree(view, events, s1, s2, k);
    }
}

/// Two runs of a deterministic view over the same events agree on their first `k + 1` states.
proof fn lemma_replay_runs_agree<S, E, V: ViewTrait<S, S, E>>(view: V, events: Seq<E>, s1: Seq<S>, s2: Seq<S>, k: int)
    requires
        view_deterministic(view),
        s1.len() == events.len() + 1,
        s2.len() == events.len() + 1,
        view.is_initial(s1[0]),
        view.is_initial(s2[0]),
        forall|i: int| 0 <= i < events.len() ==> #[trigger] view.evolves_to(s1[i], events[i], s1[i + 1]),
        forall|i: int| 0 <= i < events.len() ==> #[trigger] view.evolves_to(s2[i], events[i], s2[i + 1]),
        0 <= k <= events.len(),
    ensures
        s1[k] == s2[k],
    decreases k,
{
    if k > 0 {
        lemma_replay_runs_agree(view, events, s1, s2, k - 1);
        let j = k - 1;
        assert(view.evolves_to(s1[j], events[j], s1[j + 1]));
        assert(view.evolves_to(s2[j], events[j], s2[j + 1]));
    }
}

/// Replays `events` through a view: its initial state, evolved by each event in turn.
pub fn replay<S, E, V: ViewTrait<S, S, E>>(view: &V, events: &[E]) -> (end: S)
    requires
        view.view_defined(),
    ensures
        replays_to(*view, events@, end),
{
    let mut state = view.initial_state();
    let ghost mut states: Seq<S> = seq![state];
    let mut i: usize = 0;
    while i < events.len()
        invariant
            view.view_defined(),
            0 <= i <= events.len(),
            states.len() == i + 1,
            view.is_initial(states[0]),
            states.last() == state,
            forall|j: int| 0 <= j < i ==> #[trigger] view.evolves_to(states[j], events@[j], states[j + 1]),
        decreases events.len() - i,
    {
        let next = view.evolve(&state, &events[i]);
        proof {
            states = states.push(next);
        }
        state = next;
        i = i + 1;
    }
    assert(states.len() == events@.len() + 1);
    state
}

} // verus!
