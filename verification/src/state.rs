use vstd::prelude::*;
use crate::transition::StateTransition;

verus! {

/// What a state of the machine can do.
///
/// `S` is the data shared by all states; every hook gets it by mutable
/// reference. Each hook comes with a specification function, its effect, that
/// says what the hook may do: it relates the state and the data before the
/// call to the state and the data after it. The machine's contracts are built
/// from these effects.
///
/// An effect that a state does not define allows anything, so nothing is
/// claimed of a hook whose state says nothing about it. The hooks themselves
/// have no default body: every state writes all five, and each is held to the
/// effect that the state gives it.
pub trait State<S>: Sized {
    /// What `on_start` may do to the state and to the data.
    open spec fn start_effect(&self, before: S, next: Self, after: S) -> bool {
        true
    }

    /// What `on_stop` may do to the data. The state is dropped afterwards.
    open spec fn stop_effect(&self, before: S, after: S) -> bool {
        true
    }

    /// What `on_pause` may do to the state and to the data.
    open spec fn pause_effect(&self, before: S, next: Self, after: S) -> bool {
        true
    }

    /// What `on_resume` may do to the state and to the data.
    open spec fn resume_effect(&self, before: S, next: Self, after: S) -> bool {
        true
    }

    /// What `update` may do to the state and to the data, and which
    /// transition it may ask for.
    open spec fn update_effect(
        &self,
        before: S,
        next: Self,
        after: S,
        request: StateTransition<Self>,
    ) -> bool {
        true
    }

    /// Called when the state is put on top of the stack.
    fn on_start(&mut self, state_data: &mut S)
        ensures
            old(self).start_effect(*old(state_data), *final(self), *final(state_data)),
    ;

    /// Called when the state is taken off the stack.
    fn on_stop(&mut self, state_data: &mut S)
        ensures
            old(self).stop_effect(*old(state_data), *final(state_data)),
    ;

    /// Called when another state is pushed over this one.
    fn on_pause(&mut self, state_data: &mut S)
        ensures
            old(self).pause_effect(*old(state_data), *final(self), *final(state_data)),
    ;

    /// Called when the state just above this one is popped.
    fn on_resume(&mut self, state_data: &mut S)
        ensures
            old(self).resume_effect(*old(state_data), *final(self), *final(state_data)),
    ;

    /// Called once per tick on the state on top of the stack. The transition
    /// it returns is the only way a state acts on the stack.
    fn update(&mut self, state_data: &mut S) -> (request: StateTransition<Self>)
        ensures
            old(self).update_effect(*old(state_data), *final(self), *final(state_data), request),
    ;
}

} // verus!
