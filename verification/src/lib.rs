//! A stack-based state machine, generic over the data its states share.
//!
//! The machine owns a stack of states. Only the state on top is active: it is
//! ticked through [`StateMachine::update`] and answers with a
//! [`StateTransition`] that the machine applies to its stack, telling the
//! states concerned through their lifecycle hooks.
//!
//! Every operation is specified by a relation between the stack and the shared
//! data before the call and after it, built from the effects that the states
//! declare for their own hooks.

pub mod laws;
pub mod machine;
pub mod semantics;
pub mod state;
pub mod transition;

pub use machine::StateMachine;
pub use state::State;
pub use transition::StateTransition;
