//! # Decider
//!
//! A pure, type-safe, event-driven decision engine.
//!
//! The library provides four components, each a bundle of plain functions:
//!
//! - [`Projection`]: pure state evolution (`evolve`, `initial_state`);
//! - [`AggregateDecider`]: a traditional aggregate, whose input and output events share one type;
//! - [`DCBDecider`]: a dynamic consistency boundary decider, whose output events may differ
//!   from the events it evolves on;
//! - [`Process`]: a decider that also keeps a ToDo list of actions (`react`, `pending`).
//!
//! Two computation models are formalised by traits: the event-sourced model
//! ([`EventComputationTrait`]), where state is rebuilt by folding `evolve` over the recorded
//! events, and the state-stored model ([`StateComputationTrait`]), where the stored state is
//! updated directly by folding the newly decided events into it.
//!
//! Every component stores the user's functions as closures. A closure may in principle return
//! different results on the same input, so the contracts speak relationally: a result is one that
//! the stored functions can produce on the arguments that the component hands them
//! (`call_ensures`). Where the user's functions are deterministic, as the traits ask, these
//! relations pin every result down; the laws in each module state this.

mod application;
mod decider;
mod events;
mod dynamic_decider;
pub mod fold;
mod process;
mod projection;
pub mod specification;
mod workflow;

pub use application::{
    EventSourcedCommandHandler, EventSourcedQueryHandler, MaterializedViewHandler, QueryTuple,
    StateStoredCommandHandler,
};
pub use decider::AggregateDecider;
pub use dynamic_decider::DCBDecider;
pub use projection::Projection;
pub use process::Process;
pub use workflow::{create_workflow_process, TaskStatus, Workflow, WorkflowEvent, WorkflowState};

use vstd::prelude::*;
use vstd::std_specs::convert::IntoSpec;

verus! {

/// Generic sum type representing a value that is either `First(A)` or `Second(B)`.
///
/// Used by `combine` to merge the command and event types of two deciders: a command (or an
/// event) belongs either to the first or to the second decider, while their states are kept
/// side by side in a tuple.
#[derive(Debug, Clone, PartialEq)]
pub enum Sum<A, B> {
    /// First variant
    First(A),
    /// Second variant
    Second(B),
}

/// The `First` items of a sequence of `Sum`s, in order.
pub open spec fn firsts<A, B>(items: Seq<Sum<A, B>>) -> Seq<A>
    decreases items.len(),
{
    if items.len() == 0 {
        Seq::empty()
    } else {
        match items.last() {
            Sum::First(a) => firsts(items.drop_last()).push(a),
            Sum::Second(_) => firsts(items.drop_last()),
        }
    }
}

/// The `Second` items of a sequence of `Sum`s, in order.
pub open spec fn seconds<A, B>(items: Seq<Sum<A, B>>) -> Seq<B>
    decreases items.len(),
{
    if items.len() == 0 {
        Seq::empty()
    } else {
        match items.last() {
            Sum::First(_) => seconds(items.drop_last()),
            Sum::Second(b) => seconds(items.drop_last()).push(b),
        }
    }
}

/// Cloning a `T` gives a value equal to the original (as it does for integers, strings and
/// other types whose `clone` copies).
pub open spec fn clone_exact<T: Clone>() -> bool {
    forall|a: T, b: T| #[trigger] cloned(a, b) ==> a == b
}

/// The events of a result, as a sequence, with the error left as it is.
pub open spec fn result_seq<T, R>(r: Result<Vec<T>, R>) -> Result<Seq<T>, R> {
    match r {
        Ok(v) => Ok(v@),
        Err(e) => Err(e),
    }
}

/// What the combination of two components answers for an input addressed to the first one,
/// given that component's own answer `r`: every event and the error are tagged `First`.
pub open spec fn tag_first<E, E2, R, R2>(r: Result<Vec<E>, R>) -> Result<Seq<Sum<E, E2>>, Sum<R, R2>> {
    match r {
        Ok(v) => Ok(v@.map_values(|e: E| Sum::<E, E2>::First(e))),
        Err(e) => Err(Sum::<R, R2>::First(e)),
    }
}

/// As [`tag_first`], for an input addressed to the second component.
pub open spec fn tag_second<E, E2, R, R2>(r: Result<Vec<E2>, R2>) -> Result<Seq<Sum<E, E2>>, Sum<R, R2>> {
    match r {
        Ok(v) => Ok(v@.map_values(|e: E2| Sum::<E, E2>::Second(e))),
        Err(e) => Err(Sum::<R, R2>::Second(e)),
    }
}

/// Tagging keeps the decision's shape: each event of an accepted decision becomes, at the same
/// position, that event tagged `First`; a refusal becomes the same error tagged `First`.
pub proof fn lemma_tag_first_keeps_positions<E, E2, R, R2>(r: Result<Vec<E>, R>)
    ensures
        match r {
            Ok(events) => tag_first::<E, E2, R, R2>(r) matches Ok(tagged) && tagged.len() == events@.len()
                && forall|i: int| 0 <= i < events@.len() ==> #[trigger] tagged[i] == Sum::<E, E2>::First(events@[i]),
            Err(err) => tag_first::<E, E2, R, R2>(r) == Err::<Seq<Sum<E, E2>>, Sum<R, R2>>(Sum::First(err)),
        },
{
}

/// As [`lemma_tag_first_keeps_positions`], for the second component and `Second`.
pub proof fn lemma_tag_second_keeps_positions<E, E2, R, R2>(r: Result<Vec<E2>, R2>)
    ensures
        match r {
            Ok(events) => tag_second::<E, E2, R, R2>(r) matches Ok(tagged) && tagged.len() == events@.len()
                && forall|i: int| 0 <= i < events@.len() ==> #[trigger] tagged[i] == Sum::<E, E2>::Second(events@[i]),
            Err(err) => tag_second::<E, E2, R, R2>(r) == Err::<Seq<Sum<E, E2>>, Sum<R, R2>>(Sum::Second(err)),
        },
{
}

/// A combined answer tagged from a component's answer is that answer, event by event in the same
/// order, each event wrapped in `First` (an error wrapped likewise).
pub proof fn lemma_first_answer_in_order<E, E2, R, R2>(
    out: Result<Vec<Sum<E, E2>>, Sum<R, R2>>,
    r: Result<Vec<E>, R>,
)
    requires
        result_seq(out) == tag_first::<E, E2, R, R2>(r),
    ensures
        match r {
            Ok(events) => out matches Ok(tagged) && tagged@.len() == events@.len() && forall|i: int|
                0 <= i < events@.len() ==> #[trigger] tagged@[i] == Sum::<E, E2>::First(events@[i]),
            Err(err) => out == Err::<Vec<Sum<E, E2>>, Sum<R, R2>>(Sum::First(err)),
        },
{
    lemma_tag_first_keeps_positions::<E, E2, R, R2>(r);
}

/// As [`lemma_first_answer_in_order`], for an answer of the second component.
pub proof fn lemma_second_answer_in_order<E, E2, R, R2>(
    out: Result<Vec<Sum<E, E2>>, Sum<R, R2>>,
    r: Result<Vec<E2>, R2>,
)
    requires
        result_seq(out) == tag_second::<E, E2, R, R2>(r),
    ensures
        match r {
            Ok(events) => out matches Ok(tagged) && tagged@.len() == events@.len() && forall|i: int|
                0 <= i < events@.len() ==> #[trigger] tagged@[i] == Sum::<E, E2>::Second(events@[i]),
            Err(err) => out == Err::<Vec<Sum<E, E2>>, Sum<R, R2>>(Sum::Second(err)),
        },
{
    lemma_tag_second_keeps_positions::<E, E2, R, R2>(r);
}

/// Core trait defining the essential view behavior: state evolution.
///
/// - `Si` — input state, `So` — output state, `Ei` — input event.
///
/// `evolve` and `initial_state` should be pure and deterministic.
///
/// An implementation describes its behaviour through three spec functions: `view_defined`
/// (its functions can be called on every input), `evolves_to` (the possible results of
/// `evolve`) and `is_initial` (the possible results of `initial_state`).
pub trait ViewTrait<Si, So, Ei> {
    /// `evolve` and `initial_state` can be called on every input.
    spec fn view_defined(&self) -> bool;

    /// `next` is a possible result of evolving `state` by `event`.
    spec fn evolves_to(&self, state: Si, event: Ei, next: So) -> bool;

    /// `state` is a possible initial state.
    spec fn is_initial(&self, state: Si) -> bool;

    /// Evolve input state by applying a single input event.
    fn evolve(&self, state: &Si, event: &Ei) -> (next: So)
        requires
            self.view_defined(),
        ensures
            self.evolves_to(*state, *event, next),
    ;

    /// Get the initial input state.
    fn initial_state(&self) -> (state: Si)
        requires
            self.view_defined(),
        ensures
            self.is_initial(state),
    ;
}

/// Core trait defining the essential behavior of a Decider: a view that also decides.
///
/// - `C` — command, `Si`/`So` — input/output state, `Ei`/`Eo` — input/output events.
///
/// `decide` should be pure and deterministic.
pub trait DeciderTrait<C, Si, So, Ei, Eo>: ViewTrait<Si, So, Ei> {
    /// The collection of newly produced events of type `Eo`.
    type Events;

    /// The error type returned by the `decide` operation.
    type Error;

    /// `result` is a possible answer of `decide` to `command` in `state`.
    spec fn decides_to(&self, command: C, state: Si, result: Result<Self::Events, Self::Error>) -> bool;

    /// Apply business logic to generate output events from command and input state.
    fn decide(&self, command: &C, state: &Si) -> (result: Result<Self::Events, Self::Error>)
        requires
            self.view_defined(),
        ensures
            self.decides_to(*command, *state, result),
    ;
}

/// Formalizes the **event-sourced computation model**: state is rebuilt from the recorded
/// events, then the command is decided against it.
pub trait EventComputationTrait<C, Ei, Eo> {
    /// The collection of newly produced events of type `Eo`.
    type Events;

    /// The error type returned by the computation.
    type Error;

    /// `compute_new_events` can be called on every input.
    spec fn events_computable(&self) -> bool;

    /// `result` is a possible answer to `command` after the events `current_events`.
    spec fn computes_events(&self, current_events: Seq<Ei>, command: C, result: Result<Self::Events, Self::Error>) -> bool;

    /// Computes new domain events from command and event history.
    fn compute_new_events(&self, current_events: &[Ei], command: &C) -> (result: Result<Self::Events, Self::Error>)
        requires
            self.events_computable(),
        ensures
            self.computes_events(current_events@, *command, result),
    ;
}

/// Formalizes the **state-stored computation model**: the stored state is updated directly.
///
/// `None` stands for a state that was never stored: the initial state is used in its place.
pub trait StateComputationTrait<C, S> {
    /// The error type returned by the computation.
    type Error;

    /// `compute_new_state` can be called on every input.
    spec fn state_computable(&self) -> bool;

    /// `result` is a possible answer to `command` given the stored state `current_state`.
    spec fn computes_state(&self, current_state: Option<S>, command: C, result: Result<S, Self::Error>) -> bool;

    /// Computes new state from current state and command.
    fn compute_new_state(&self, current_state: Option<S>, command: &C) -> (result: Result<S, Self::Error>)
        requires
            self.state_computable(),
        ensures
            self.computes_state(current_state, *command, result),
    ;
}

/// Core trait of a Process with ToDo list semantics: a decider whose commands are action
/// results, and which lists actions.
///
/// `pending(state)` is the complete ToDo list of a state; `react(state, event)` the part of it
/// that is relevant to the event, which should be a subset of `pending(state)`. Both lists come
/// from the implementation; [`todo_consistent`] states that subset relation.
pub trait ProcessTrait<AR, Si, So, Ei, Eo, A>: DeciderTrait<AR, Si, So, Ei, Eo> {
    /// The collection of actions of type `A`.
    type Actions;

    /// `actions` is a possible answer of `react` to `event` in `state`.
    spec fn reacts_with(&self, state: Si, event: Ei, actions: Self::Actions) -> bool;

    /// `actions` is a possible answer of `pending` in `state`.
    spec fn pending_in(&self, state: Si, actions: Self::Actions) -> bool;

    /// Generate actions in response to state and event (reactive behavior).
    fn react(&self, state: &Si, event: &Ei) -> (actions: Self::Actions)
        requires
            self.view_defined(),
        ensures
            self.reacts_with(*state, *event, actions),
    ;

    /// Generate all available actions for the current state (proactive behavior).
    fn pending(&self, state: &Si) -> (actions: Self::Actions)
        requires
            self.view_defined(),
        ensures
            self.pending_in(*state, actions),
    ;
}

/// A process keeps its ToDo semantics: every action that `react` can list for a state and an
/// event is among the actions that `pending` can list for that state.
pub open spec fn todo_consistent<AR, Si, So, Ei, Eo, A, P>(process: P) -> bool where
    P: ProcessTrait<AR, Si, So, Ei, Eo, A, Actions = Vec<A>>,
 {
    forall|state: Si, event: Ei, reacted: Vec<A>, pending: Vec<A>|
        #[trigger] process.reacts_with(state, event, reacted) && #[trigger] process.pending_in(state, pending)
            ==> forall|a: A| #[trigger] reacted@.contains(a) ==> pending@.contains(a)
}

/// A single `key:value` tag attached to an event, used for secondary indexing.
#[derive(Debug, Clone, PartialEq, Eq, Hash)]
pub struct Tag {
    /// The tag's key (e.g. `"restaurantId"`).
    pub key: String,
    /// The tag's value (e.g. `"123"`).
    pub value: String,
}

impl Tag {
    /// Creates a new tag from a key and value.
    pub fn new<K: Into<String>, V: Into<String>>(key: K, value: V) -> (tag: Self)
        ensures
            K::obeys_into_spec() ==> tag.key == key.into_spec(),
            V::obeys_into_spec() ==> tag.value == value.into_spec(),
    {
        Tag { key: key.into(), value: value.into() }
    }

    /// Creates a tag from a key and a value that are already strings; the tag holds exactly
    /// them. (`new` takes anything that converts into a `String`.)
    pub fn from_parts(key: String, value: String) -> (tag: Self)
        ensures
            tag.key == key,
            tag.value == value,
    {
        Tag { key, value }
    }

    /// The canonical `"key:value"` wire format that repositories index on.
    pub fn to_string(&self) -> (text: String)
        ensures
            text@ == self.key@ + ":"@ + self.value@,
    {
        let text = self.key.clone().concat(":").concat(self.value.as_str());
        proof {
            reveal_strlit(":");
        }
        text
    }
}

/// Trait for events that carry metadata for indexing and querying.
pub trait EventMeta {
    /// Returns the event type identifier (e.g., `"RestaurantCreatedEvent"`).
    fn event_type(&self) -> &str;

    /// Returns tags extracted from the event's fields.
    fn tags(&self) -> Vec<Tag>;
}

/// Implemented by commands that carry an idempotency key.
pub trait IdempotencyKey {
    /// Returns the idempotency key for this command.
    fn idempotency_key(&self) -> &str;
}

} // verus!
