//! Verified core of a graceful-shutdown framework for trees of subsystems.
//!
//! The asynchronous runtime around it (spawning subsystems, awaiting them,
//! cancellation and signal handling) drives the state kept here: the
//! joiner-token tree that counts live subsystems and routes their failures,
//! the alive guard that reports how a subsystem stopped, and the decision
//! of what a shutdown finally reports.

pub mod alive_guard;
pub mod error_action;
pub mod errors;
pub mod joiner_token;
pub mod remote_drop_collection;
pub mod stop_reason;
pub mod subsystem_builder;
pub mod token_tree;

pub use alive_guard::{AliveGuard, GuardView};
pub use error_action::{ErrorAction, ErrorActions, FailureHandler};
pub use errors::{
    shutdown_result, GracefulShutdownError, ShutdownOutcome, SubsystemError, SubsystemJoinError,
};
pub use joiner_token::{JoinerTree, StopAction};
pub use remote_drop_collection::RemotelyDroppableItems;
pub use stop_reason::StopReason;
pub use subsystem_builder::SubsystemBuilder;
pub use token_tree::{Propagation, TokenState};

use vstd::prelude::*;

verus! {

/// The error type that subsystems return when no other is chosen.
pub type BoxedError = Box<dyn std::error::Error + Send + Sync + 'static>;

/// What a custom error type has to provide to be the error type of the
/// framework.
pub trait ErrTypeTraits: std::fmt::Debug + std::fmt::Display + 'static + Send + Sync + Sized {

}

impl<T> ErrTypeTraits for T where T: std::fmt::Debug + std::fmt::Display + 'static + Send + Sync + Sized {

}

} // verus!
