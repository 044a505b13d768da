//! ## A test specification DSL for deciders, projections, and processes in the given-when-then format.
//!
//! - `AggregateDeciderTestSpecification` - traditional aggregates, event-sourced or state-stored
//! - `DCBDeciderTestSpecification` - dynamic consistency boundary deciders
//! - `ProjectionTestSpecification` - pure state evolution from event streams
//! - `ProcessTestSpecification` - reactive processes with ToDo list semantics
//!
//! Each specification records what was given (events or a state), what happens (a command or
//! an action result) and the component under test. Its outcome functions compute what the
//! component answers, so that a test can compare it with what it expects; a specification that
//! lacks an input answers which one ([`SpecificationError`]).
use crate::fold::{lemma_replays_to_deterministic, replay, replays_to, view_deterministic};
use crate::{todo_consistent, EventComputationTrait, ProcessTrait, StateComputationTrait, ViewTrait};
use vstd::prelude::*;

verus! {

/// An input that a specification needs and was not given.
#[derive(Debug, Clone, PartialEq)]
pub enum SpecificationError {
    /// The component under test was not given (`for_decider`, `for_projection`, `for_process`).
    MissingComponent,
    /// The command or action result was not given (`when`).
    MissingCommand,
    /// There is no event to react to (`given` was empty).
    MissingEvents,
}

// ########################################################
// ######### AggregateDecider Specification DSL ###########
// ########################################################

/// A test specification DSL for `AggregateDecider` in the `given-when-then` format.
///
/// - **Event-sourced**: `given()` provides the event history, `new_events_outcome()` the new events
/// - **State-stored**: `given_state()` provides the current state, `new_state_outcome()` the new state
#[verifier::reject_recursive_types(Command)]
#[verifier::reject_recursive_types(State)]
#[verifier::reject_recursive_types(Event)]
#[verifier::reject_recursive_types(Error)]
#[verifier::reject_recursive_types(D)]
pub struct AggregateDeciderTestSpecification<'a, Command, State, Event, Error, D> where
    Event: PartialEq + std::fmt::Debug,
    Error: PartialEq + std::fmt::Debug,
    D: EventComputationTrait<Command, Event, Event, Events = Vec<Event>, Error = Error> + StateComputationTrait<
        Command,
        State,
        Error = Error,
    >,
 {
    events: Vec<Event>,
    state: Option<State>,
    command: Option<Command>,
    decider: Option<&'a D>,
}

impl<'a, Command, State, Event, Error, D> AggregateDeciderTestSpecification<'a, Command, State, Event, Error, D> where
    Event: PartialEq + std::fmt::Debug,
    Error: PartialEq + std::fmt::Debug,
    D: EventComputationTrait<Command, Event, Event, Events = Vec<Event>, Error = Error> + StateComputationTrait<
        Command,
        State,
        Error = Error,
    >,
 {
    /// The given events.
    pub closed spec fn given_events(&self) -> Seq<Event> {
        self.events@
    }

    /// The given state.
    pub closed spec fn given_state_of(&self) -> Option<State> {
        self.state
    }

    /// The command, once given.
    pub closed spec fn given_command(&self) -> Option<Command> {
        self.command
    }

    /// The decider under test, once given.
    pub closed spec fn given_decider(&self) -> Option<&'a D> {
        self.decider
    }
}

impl<'a, Command, State, Event, Error, D> Default for AggregateDeciderTestSpecification<'a, Command, State, Event, Error, D> where
    Event: PartialEq + std::fmt::Debug,
    Error: PartialEq + std::fmt::Debug,
    D: EventComputationTrait<Command, Event, Event, Events = Vec<Event>, Error = Error> + StateComputationTrait<
        Command,
        State,
        Error = Error,
    >,
 {
    fn default() -> (spec: Self)
        ensures
            spec.given_events() == Seq::<Event>::empty(),
            spec.given_state_of() is None,
            spec.given_command() is None,
            spec.given_decider() is None,
    {
        AggregateDeciderTestSpecification { events: Vec::new(), state: None, command: None, decider: None }
    }
}

impl<'a, Command, State, Event, Error, D> AggregateDeciderTestSpecification<'a, Command, State, Event, Error, D> where
    Command: std::fmt::Debug,
    Event: PartialEq + std::fmt::Debug + Clone,
    State: PartialEq + std::fmt::Debug,
    Error: PartialEq + std::fmt::Debug,
    D: EventComputationTrait<Command, Event, Event, Events = Vec<Event>, Error = Error> + StateComputationTrait<
        Command,
        State,
        Error = Error,
    >,
 {
    /// Specify the decider you want to test
    pub fn for_decider(self, decider: &'a D) -> (spec: Self)
        ensures
            spec.given_decider() == Some(decider),
            spec.given_events() == self.given_events(),
            spec.given_state_of() == self.given_state_of(),
            spec.given_command() == self.given_command(),
    {
        let mut spec = self;
        spec.decider = Some(decider);
        spec
    }

    /// Given preconditions / previous events (for event-sourced testing)
    pub fn given(self, events: Vec<Event>) -> (spec: Self)
        ensures
            spec.given_events() == events@,
            spec.given_decider() == self.given_decider(),
            spec.given_state_of() == self.given_state_of(),
            spec.given_command() == self.given_command(),
    {
        let mut spec = self;
        spec.events = events;
        spec
    }

    /// Given preconditions / previous state (for state-stored testing)
    pub fn given_state(self, state: Option<State>) -> (spec: Self)
        ensures
            spec.given_state_of() == state,
            spec.given_events() == self.given_events(),
            spec.given_decider() == self.given_decider(),
            spec.given_command() == self.given_command(),
    {
        let mut spec = self;
        spec.state = state;
        spec
    }

    /// When action/command is executed
    pub fn when(self, command: Command) -> (spec: Self)
        ensures
            spec.given_command() == Some(command),
            spec.given_events() == self.given_events(),
            spec.given_state_of() == self.given_state_of(),
            spec.given_decider() == self.given_decider(),
    {
        let mut spec = self;
        spec.command = Some(command);
        spec
    }

    /// The command, once given.
    pub fn command(&self) -> (command: &Option<Command>)
        ensures
            *command == self.given_command(),
    {
        &self.command
    }

    /// What the decider answers to the command after the given events (event-sourced).
    pub fn new_events_outcome(&self) -> (outcome: Result<Result<Vec<Event>, Error>, SpecificationError>)
        requires
            self.given_decider() matches Some(d) ==> d.events_computable(),
        ensures
            match outcome {
                Err(SpecificationError::MissingComponent) => self.given_decider() is None,
                Err(SpecificationError::MissingCommand) => self.given_decider() is Some && self.given_command() is None,
                Err(SpecificationError::MissingEvents) => false,
                Ok(result) => self.given_decider() matches Some(d) && self.given_command() matches Some(c)
                    && d.computes_events(self.given_events(), c, result),
            },
    {
        match self.decider {
            None => Err(SpecificationError::MissingComponent),
            Some(decider) => match &self.command {
                None => Err(SpecificationError::MissingCommand),
                Some(command) => Ok(decider.compute_new_events(self.events.as_slice(), command)),
            },
        }
    }

    /// What the decider answers to the command in the given state (state-stored).
    pub fn new_state_outcome(self) -> (outcome: Result<Result<State, Error>, SpecificationError>)
        requires
            self.given_decider() matches Some(d) ==> d.state_computable(),
        ensures
            match outcome {
                Err(SpecificationError::MissingComponent) => self.given_decider() is None,
                Err(SpecificationError::MissingCommand) => self.given_decider() is Some && self.given_command() is None,
                Err(SpecificationError::MissingEvents) => false,
                Ok(result) => self.given_decider() matches Some(d) && self.given_command() matches Some(c)
                    && d.computes_state(self.given_state_of(), c, result),
            },
    {
        match self.decider {
            None => Err(SpecificationError::MissingComponent),
            Some(decider) => match self.command {
                None => Err(SpecificationError::MissingCommand),
                Some(command) => Ok(decider.compute_new_state(self.state, &command)),
            },
        }
    }
}

// ########################################################
// ########### DCBDecider Specification DSL ###############
// ########################################################

/// A test specification DSL for `DCBDecider` in the `given-when-then` format: input events of
/// one type are given, output events of another are expected.
#[verifier::reject_recursive_types(Command)]
#[verifier::reject_recursive_types(State)]
#[verifier::reject_recursive_types(Ei)]
#[verifier::reject_recursive_types(Eo)]
#[verifier::reject_recursive_types(Error)]
#[verifier::reject_recursive_types(D)]
pub struct DCBDeciderTestSpecification<'a, Command, State, Ei, Eo, Error, D> where
    Ei: PartialEq + std::fmt::Debug,
    Eo: PartialEq + std::fmt::Debug,
    Error: PartialEq + std::fmt::Debug,
    D: EventComputationTrait<Command, Ei, Eo, Events = Vec<Eo>, Error = Error>,
 {
    events: Vec<Ei>,
    command: Option<Command>,
    decider: Option<&'a D>,
    _phantom: std::marker::PhantomData<(State, Eo, Error)>,
}

impl<'a, Command, State, Ei, Eo, Error, D> DCBDeciderTestSpecification<'a, Command, State, Ei, Eo, Error, D> where
    Ei: PartialEq + std::fmt::Debug,
    Eo: PartialEq + std::fmt::Debug,
    Error: PartialEq + std::fmt::Debug,
    D: EventComputationTrait<Command, Ei, Eo, Events = Vec<Eo>, Error = Error>,
 {
    /// The given input events.
    pub closed spec fn given_events(&self) -> Seq<Ei> {
        self.events@
    }

    /// The command, once given.
    pub closed spec fn given_command(&self) -> Option<Command> {
        self.command
    }

    /// The decider under test, once given.
    pub closed spec fn given_decider(&self) -> Option<&'a D> {
        self.decider
    }
}

impl<'a, Command, State, Ei, Eo, Error, D> Default for DCBDeciderTestSpecification<'a, Command, State, Ei, Eo, Error, D> where
    Ei: PartialEq + std::fmt::Debug,
    Eo: PartialEq + std::fmt::Debug,
    Error: PartialEq + std::fmt::Debug,
    D: EventComputationTrait<Command, Ei, Eo, Events = Vec<Eo>, Error = Error>,
 {
    fn default() -> (spec: Self)
        ensures
            spec.given_events() == Seq::<Ei>::empty(),
            spec.given_command() is None,
            spec.given_decider() is None,
    {
        DCBDeciderTestSpecification {
            events: Vec::new(),
            command: None,
            decider: None,
            _phantom: std::marker::PhantomData,
        }
    }
}

impl<'a, Command, State, Ei, Eo, Error, D> DCBDeciderTestSpecification<'a, Command, State, Ei, Eo, Error, D> where
    Command: std::fmt::Debug,
    Ei: PartialEq + std::fmt::Debug + Clone,
    Eo: PartialEq + std::fmt::Debug,
    State: PartialEq + std::fmt::Debug,
    Error: PartialEq + std::fmt::Debug,
    D: EventComputationTrait<Command, Ei, Eo, Events = Vec<Eo>, Error = Error>,
 {
    /// Specify the DCB decider you want to test
    pub fn for_decider(self, decider: &'a D) -> (spec: Self)
        ensures
            spec.given_decider() == Some(decider),
            spec.given_events() == self.given_events(),
            spec.given_command() == self.given_command(),
    {
        let mut spec = self;
        spec.decider = Some(decider);
        spec
    }

    /// Given preconditions / previous input events
    pub fn given(self, events: Vec<Ei>) -> (spec: Self)
        ensures
            spec.given_events() == events@,
            spec.given_decider() == self.given_decider(),
            spec.given_command() == self.given_command(),
    {
        let mut spec = self;
        spec.events = events;
        spec
    }

    /// When action/command is executed
    pub fn when(self, command: Command) -> (spec: Self)
        ensures
            spec.given_command() == Some(command),
            spec.given_events() == self.given_events(),
            spec.given_decider() == self.given_decider(),
    {
        let mut spec = self;
        spec.command = Some(command);
        spec
    }

    /// The command, once given.
    pub fn command(&self) -> (command: &Option<Command>)
        ensures
            *command == self.given_command(),
    {
        &self.command
    }

    /// What the decider answers to the command after the given input events.
    pub fn new_events_outcome(&self) -> (outcome: Result<Result<Vec<Eo>, Error>, SpecificationError>)
        requires
            self.given_decider() matches Some(d) ==> d.events_computable(),
        ensures
            match outcome {
                Err(SpecificationError::MissingComponent) => self.given_decider() is None,
                Err(SpecificationError::MissingCommand) => self.given_decider() is Some && self.given_command() is None,
                Err(SpecificationError::MissingEvents) => false,
                Ok(result) => self.given_decider() matches Some(d) && self.given_command() matches Some(c)
                    && d.computes_events(self.given_events(), c, result),
            },
    {
        match self.decider {
            None => Err(SpecificationError::MissingComponent),
            Some(decider) => match &self.command {
                None => Err(SpecificationError::MissingCommand),
                Some(command) => Ok(decider.compute_new_events(self.events.as_slice(), command)),
            },
        }
    }
}

// ########################################################
// ############ Projection Specification DSL ##############
// ########################################################

/// A test specification DSL for `Projection` in the `given-then` format: the given events are
/// replayed from the initial state.
#[verifier::reject_recursive_types(State)]
#[verifier::reject_recursive_types(Event)]
#[verifier::reject_recursive_types(P)]
pub struct ProjectionTestSpecification<'a, State, Event, P> where
    State: PartialEq + std::fmt::Debug,
    P: ViewTrait<State, State, Event>,
 {
    events: Vec<Event>,
    projection: Option<&'a P>,
    _phantom: std::marker::PhantomData<State>,
}

impl<'a, State, Event, P> ProjectionTestSpecification<'a, State, Event, P> where
    State: PartialEq + std::fmt::Debug,
    P: ViewTrait<State, State, Event>,
 {
    /// The given events.
    pub closed spec fn given_events(&self) -> Seq<Event> {
        self.events@
    }

    /// The projection under test, once given.
    pub closed spec fn given_projection(&self) -> Option<&'a P> {
        self.projection
    }
}

impl<'a, State, Event, P> Default for ProjectionTestSpecification<'a, State, Event, P> where
    State: PartialEq + std::fmt::Debug,
    P: ViewTrait<State, State, Event>,
 {
    fn default() -> (spec: Self)
        ensures
            spec.given_events() == Seq::<Event>::empty(),
            spec.given_projection() is None,
    {
        ProjectionTestSpecification { events: Vec::new(), projection: None, _phantom: std::marker::PhantomData }
    }
}

impl<'a, State, Event, P> ProjectionTestSpecification<'a, State, Event, P> where
    State: PartialEq + std::fmt::Debug,
    Event: std::fmt::Debug,
    P: ViewTrait<State, State, Event>,
 {
    /// Specify the projection you want to test
    pub fn for_projection(self, projection: &'a P) -> (spec: Self)
        ensures
            spec.given_projection() == Some(projection),
            spec.given_events() == self.given_events(),
    {
        let mut spec = self;
        spec.projection = Some(projection);
        spec
    }

    /// Given preconditions / events
    pub fn given(self, events: Vec<Event>) -> (spec: Self)
        ensures
            spec.given_events() == events@,
            spec.given_projection() == self.given_projection(),
    {
        let mut spec = self;
        spec.events = events;
        spec
    }

    /// The given events.
    pub fn events(&self) -> (events: &[Event])
        ensures
            events@ == self.given_events(),
    {
        self.events.as_slice()
    }

    /// The state that the projection reaches by replaying the given events from its initial
    /// state.
    pub fn state_outcome(&self) -> (outcome: Result<State, SpecificationError>)
        requires
            self.given_projection() matches Some(p) ==> p.view_defined(),
        ensures
            match outcome {
                Err(err) => err == SpecificationError::MissingComponent && self.given_projection() is None,
                Ok(state) => self.given_projection() matches Some(p) && replays_to(*p, self.given_events(), state),
            },
    {
        match self.projection {
            None => Err(SpecificationError::MissingComponent),
            Some(projection) => Ok(replay(projection, self.events.as_slice())),
        }
    }
}

// ########################################################
// ############# Process Specification DSL ################
// ########################################################

/// A test specification DSL for `Process` in the `given-when-then` format, with outcomes for
/// the reactive behavior:
/// - `react_outcome()` - the actions generated in response to the last given event
/// - `pending_outcome()` - all available actions in the state the given events lead to
#[verifier::reject_recursive_types(ActionResult)]
#[verifier::reject_recursive_types(State)]
#[verifier::reject_recursive_types(Event)]
#[verifier::reject_recursive_types(Action)]
#[verifier::reject_recursive_types(Error)]
#[verifier::reject_recursive_types(P)]
pub struct ProcessTestSpecification<'a, ActionResult, State, Event, Action, Error, P> where
    Event: PartialEq + std::fmt::Debug,
    Action: PartialEq + std::fmt::Debug,
    Error: PartialEq + std::fmt::Debug,
    P: ProcessTrait<
        ActionResult,
        State,
        State,
        Event,
        Event,
        Action,
        Events = Vec<Event>,
        Error = Error,
        Actions = Vec<Action>,
    > + EventComputationTrait<ActionResult, Event, Event, Events = Vec<Event>, Error = Error> + StateComputationTrait<
        ActionResult,
        State,
        Error = Error,
    >,
 {
    events: Vec<Event>,
    state: Option<State>,
    action_result: Option<ActionResult>,
    process: Option<&'a P>,
    _phantom: std::marker::PhantomData<Action>,
}

impl<'a, ActionResult, State, Event, Action, Error, P> ProcessTestSpecification<'a, ActionResult, State, Event, Action, Error, P> where
    Event: PartialEq + std::fmt::Debug,
    Action: PartialEq + std::fmt::Debug,
    Error: PartialEq + std::fmt::Debug,
    P: ProcessTrait<
        ActionResult,
        State,
        State,
        Event,
        Event,
        Action,
        Events = Vec<Event>,
        Error = Error,
        Actions = Vec<Action>,
    > + EventComputationTrait<ActionResult, Event, Event, Events = Vec<Event>, Error = Error> + StateComputationTrait<
        ActionResult,
        State,
        Error = Error,
    >,
 {
    /// The given events.
    pub closed spec fn given_events(&self) -> Seq<Event> {
        self.events@
    }

    /// The given state.
    pub closed spec fn given_state_of(&self) -> Option<State> {
        self.state
    }

    /// The action result, once given.
    pub closed spec fn given_action_result(&self) -> Option<ActionResult> {
        self.action_result
    }

    /// The process under test, once given.
    pub closed spec fn given_process(&self) -> Option<&'a P> {
        self.process
    }
}

impl<'a, ActionResult, State, Event, Action, Error, P> Default for ProcessTestSpecification<'a, ActionResult, State, Event, Action, Error, P> where
    Event: PartialEq + std::fmt::Debug,
    Action: PartialEq + std::fmt::Debug,
    Error: PartialEq + std::fmt::Debug,
    P: ProcessTrait<
        ActionResult,
        State,
        State,
        Event,
        Event,
        Action,
        Events = Vec<Event>,
        Error = Error,
        Actions = Vec<Action>,
    > + EventComputationTrait<ActionResult, Event, Event, Events = Vec<Event>, Error = Error> + StateComputationTrait<
        ActionResult,
        State,
        Error = Error,
    >,
 {
    fn default() -> (spec: Self)
        ensures
            spec.given_events() == Seq::<Event>::empty(),
            spec.given_state_of() is None,
            spec.given_action_result() is None,
            spec.given_process() is None,
    {
        ProcessTestSpecification {
            events: Vec::new(),
            state: None,
            action_result: None,
            process: None,
            _phantom: std::marker::PhantomData,
        }
    }
}

impl<'a, ActionResult, State, Event, Action, Error, P> ProcessTestSpecification<'a, ActionResult, State, Event, Action, Error, P> where
    ActionResult: std::fmt::Debug,
    Event: PartialEq + std::fmt::Debug + Clone,
    Action: PartialEq + std::fmt::Debug,
    State: PartialEq + std::fmt::Debug + Clone,
    Error: PartialEq + std::fmt::Debug,
    P: ProcessTrait<
        ActionResult,
        State,
        State,
        Event,
        Event,
        Action,
        Events = Vec<Event>,
        Error = Error,
        Actions = Vec<Action>,
    > + EventComputationTrait<ActionResult, Event, Event, Events = Vec<Event>, Error = Error> + StateComputationTrait<
        ActionResult,
        State,
        Error = Error,
    >,
 {
    /// Specify the process you want to test
    pub fn for_process(self, process: &'a P) -> (spec: Self)
        ensures
            spec.given_process() == Some(process),
            spec.given_events() == self.given_events(),
            spec.given_state_of() == self.given_state_of(),
            spec.given_action_result() == self.given_action_result(),
    {
        let mut spec = self;
        spec.process = Some(process);
        spec
    }

    /// Given preconditions / previous events (for event-sourced testing)
    pub fn given(self, events: Vec<Event>) -> (spec: Self)
        ensures
            spec.given_events() == events@,
            spec.given_process() == self.given_process(),
            spec.given_state_of() == self.given_state_of(),
            spec.given_action_result() == self.given_action_result(),
    {
        let mut spec = self;
        spec.events = events;
        spec
    }

    /// Given preconditions / previous state (for state-stored testing)
    pub fn given_state(self, state: Option<State>) -> (spec: Self)
        ensures
            spec.given_state_of() == state,
            spec.given_events() == self.given_events(),
            spec.given_process() == self.given_process(),
            spec.given_action_result() == self.given_action_result(),
    {
        let mut spec = self;
        spec.state = state;
        spec
    }

    /// When action result is received
    pub fn when(self, action_result: ActionResult) -> (spec: Self)
        ensures
            spec.given_action_result() == Some(action_result),
            spec.given_events() == self.given_events(),
            spec.given_state_of() == self.given_state_of(),
            spec.given_process() == self.given_process(),
    {
        let mut spec = self;
        spec.action_result = Some(action_result);
        spec
    }

    /// The action result, once given.
    pub fn action_result(&self) -> (action_result: &Option<ActionResult>)
        ensures
            *action_result == self.given_action_result(),
    {
        &self.action_result
    }

    /// The given events.
    pub fn events(&self) -> (events: &[Event])
        ensures
            events@ == self.given_events(),
    {
        self.events.as_slice()
    }

    /// What the process answers to the action result after the given events (event-sourced).
    pub fn new_events_outcome(&self) -> (outcome: Result<Result<Vec<Event>, Error>, SpecificationError>)
        requires
            self.given_process() matches Some(p) ==> p.events_computable(),
        ensures
            match outcome {
                Err(SpecificationError::MissingComponent) => self.given_process() is None,
                Err(SpecificationError::MissingCommand) => self.given_process() is Some && self.given_action_result() is None,
                Err(SpecificationError::MissingEvents) => false,
                Ok(result) => self.given_process() matches Some(p) && self.given_action_result() matches Some(r)
                    && p.computes_events(self.given_events(), r, result),
            },
    {
        match self.process {
            None => Err(SpecificationError::MissingComponent),
            Some(process) => match &self.action_result {
                None => Err(SpecificationError::MissingCommand),
                Some(action_result) => Ok(process.compute_new_events(self.events.as_slice(), action_result)),
            },
        }
    }

    /// What the process answers to the action result in (a clone of) the given state
    /// (state-stored).
    pub fn new_state_outcome(&self) -> (outcome: Result<Result<State, Error>, SpecificationError>)
        requires
            self.given_process() matches Some(p) ==> p.state_computable(),
        ensures
            match outcome {
                Err(SpecificationError::MissingComponent) => self.given_process() is None,
                Err(SpecificationError::MissingCommand) => self.given_process() is Some && self.given_action_result() is None,
                Err(SpecificationError::MissingEvents) => false,
                Ok(result) => self.given_process() matches Some(p) && self.given_action_result() matches Some(r)
                    && exists|state: Option<State>| cloned(self.given_state_of(), state) && #[trigger] p.computes_state(state, r, result),
            },
    {
        match self.process {
            None => Err(SpecificationError::MissingComponent),
            Some(process) => match &self.action_result {
                None => Err(SpecificationError::MissingCommand),
                Some(action_result) => {
                    let state = self.state.clone();
                    let result = process.compute_new_state(state, action_result);
                    Ok(result)
                },
            },
        }
    }

    /// The state that the given events lead to, and the actions that the process generates in
    /// that state in response to the last given event.
    pub fn react_outcome(&self) -> (outcome: Result<(State, Vec<Action>), SpecificationError>)
        requires
            self.given_process() matches Some(p) ==> p.view_defined(),
        ensures
            match outcome {
                Err(SpecificationError::MissingComponent) => self.given_process() is None,
                Err(SpecificationError::MissingCommand) => false,
                Err(SpecificationError::MissingEvents) => self.given_process() is Some && self.given_events().len() == 0,
                Ok((state, actions)) => self.given_process() matches Some(p) && self.given_events().len() > 0
                    && replays_to(*p, self.given_events(), state) && p.reacts_with(
                        state,
                        self.given_events().last(),
                        actions,
                    ),
            },
    {
        match self.process {
            None => Err(SpecificationError::MissingComponent),
            Some(process) => {
                let state = replay(process, self.events.as_slice());
                if self.events.len() == 0 {
                    Err(SpecificationError::MissingEvents)
                } else {
                    let last_event = &self.events[self.events.len() - 1];
                    let actions = process.react(&state, last_event);
                    assert(*last_event == self.given_events().last());
                    Ok((state, actions))
                }
            },
        }
    }

    /// The state that the given events lead to, and all the actions that the process has
    /// pending in it.
    pub fn pending_outcome(&self) -> (outcome: Result<(State, Vec<Action>), SpecificationError>)
        requires
            self.given_process() matches Some(p) ==> p.view_defined(),
        ensures
            match outcome {
                Err(err) => err == SpecificationError::MissingComponent && self.given_process() is None,
                Ok((state, actions)) => self.given_process() matches Some(p) && replays_to(
                    *p,
                    self.given_events(),
                    state,
                ) && p.pending_in(state, actions),
            },
    {
        match self.process {
            None => Err(SpecificationError::MissingComponent),
            Some(process) => {
                let state = replay(process, self.events.as_slice());
                let actions = process.pending(&state);
                Ok((state, actions))
            },
        }
    }
}

/// For a process that keeps its ToDo semantics and replays deterministically, the actions that
/// `react_outcome` answers (for the last given event) are among those that `pending_outcome`
/// answers for the same given events: the two outcomes' statements, taken together, imply it.
pub proof fn lemma_react_outcome_within_pending_outcome<AR, S, E, A, P>(
    process: P,
    events: Seq<E>,
    reacted_state: S,
    reacted: Vec<A>,
    pending_state: S,
    pending: Vec<A>,
) where P: ProcessTrait<AR, S, S, E, E, A, Actions = Vec<A>>
    requires
        todo_consistent(process),
        view_deterministic(process),
        events.len() > 0,
        replays_to(process, events, reacted_state),
        process.reacts_with(reacted_state, events.last(), reacted),
        replays_to(process, events, pending_state),
        process.pending_in(pending_state, pending),
    ensures
        forall|a: A| #[trigger] reacted@.contains(a) ==> pending@.contains(a),
{
    lemma_replays_to_deterministic(process, events, reacted_state, pending_state);
    assert(process.reacts_with(reacted_state, events.last(), reacted) && process.pending_in(reacted_state, pending));
}

} // verus!
