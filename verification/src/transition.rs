use vstd::prelude::*;

verus! {

/// What a state asks of the machine at the end of a tick.
///
/// `T` is the type of the states that the machine holds.
pub enum StateTransition<T> {
    /// Stay in the current state.
    Stay,
    /// End the current state and go back to the one beneath it, if any.
    /// Popping the last state stops the machine.
    Pop,
    /// Put a new state above the current one, which is paused.
    Push(Box<T>),
    /// End the current state and put this one in its place. The states
    /// beneath stay as they are.
    Switch(Box<T>),
    /// End every state and stop the machine.
    Quit,
}

} // verus!
