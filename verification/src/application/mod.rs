//! # Application Layer
//!
//! The application layer bridges pure domain logic with infrastructure through repositories.
//! Each handler holds a domain component and a repository (or an event loader) and runs the
//! **execute pattern**: fetch the current data, compute with the component, save the result.
//!
//! - `EventSourcedCommandHandler`: fetch events, compute new events, save them
//! - `StateStoredCommandHandler`: fetch state, compute the new state, save it
//! - `MaterializedViewHandler`: fetch a view's state, evolve it by an event, save it
//! - `EventSourcedQueryHandler`: load events, fold them through a view (nothing is saved)
//!
//! Fetching and saving are asynchronous I/O done by repositories; the handlers here hold the
//! parts and compute. The computing step of the query handler, replaying loaded events through
//! the view, is `EventSourcedQueryHandler::state_from_events`.

mod event_sourced_command_handler;
mod event_sourced_query_handler;
mod materialized_view_handler;
mod state_stored_command_handler;

pub use event_sourced_command_handler::EventSourcedCommandHandler;
pub use event_sourced_query_handler::{EventSourcedQueryHandler, QueryTuple};
pub use materialized_view_handler::MaterializedViewHandler;
pub use state_stored_command_handler::StateStoredCommandHandler;
