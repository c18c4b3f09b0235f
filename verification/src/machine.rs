use vstd::prelude::*;
use crate::semantics::{popped, pushed, stop_trail, stopped, switched, transitioned, updated};
use crate::state::State;
use crate::transition::StateTransition;

verus! {

/// A stack of states of which only the top one is active.
///
/// `S` is the data that the states share and `T` the type of the states. The
/// machine never owns the data: each operation borrows it for the length of
/// the call and hands it to the hooks it runs.
pub struct StateMachine<S, T: State<S>> {
    state_stack: Vec<Box<T>>,
    shared: core::marker::PhantomData<S>,
}

impl<S, T: State<S>> View for StateMachine<S, T> {
    type V = Seq<T>;

    /// The states on the stack, from the bottom to the active one.
    closed spec fn view(&self) -> Seq<T> {
        Seq::new(self.state_stack@.len(), |i: int| *self.state_stack@[i])
    }
}

impl<S, T: State<S>> Default for StateMachine<S, T> {
    /// A machine with no state: it is not running.
    fn default() -> (machine: Self)
        ensures
            machine@ == Seq::<T>::empty(),
            !machine.is_running(),
    {
        StateMachine { state_stack: Vec::new(), shared: core::marker::PhantomData }
    }
}

impl<S, T: State<S>> StateMachine<S, T> {
    /// Whether the stack holds a state.
    pub open spec fn spec_is_running(&self) -> bool {
        self@.len() > 0
    }

    /// Whether the machine still has a state on its stack.
    #[verifier::when_used_as_spec(spec_is_running)]
    pub fn is_running(&self) -> (running: bool)
        ensures
            running == self.spec_is_running(),
    {
        !self.state_stack.is_empty()
    }

    /// Ticks the state on top of the stack with the data given and applies
    /// the transition that it asks for. A machine that is not running is left
    /// as it is, and so is the data.
    pub fn update(&mut self, state_data: &mut S)
        ensures
            updated(old(self)@, *old(state_data), final(self)@, *final(state_data)),
    {
        let ghost pre = self@;
        let ghost before = *state_data;
        let trans = match self.state_stack.last_mut() {
            Some(state) => state.update(state_data),
            None => StateTransition::Stay,
        };
        let ghost held = self@;
        let ghost mid = *state_data;
        self.transition(trans, state_data);
        proof {
            if pre.len() > 0 {
                assert(held =~= pre.drop_last().push(held.last()));
                assert(pre.last().update_effect(before, held.last(), mid, trans));
            } else {
                assert(self@ =~= pre);
            }
        }
    }

    /// Applies a transition to the stack: staying does nothing, the others
    /// are the operations below, and quitting is stopping.
    pub fn transition(&mut self, request: StateTransition<T>, state_data: &mut S)
        ensures
            transitioned(
                old(self)@,
                request,
                *old(state_data),
                final(self)@,
                *final(state_data),
            ),
    {
        match request {
            StateTransition::Stay => (),
            StateTransition::Pop => self.pop(state_data),
            StateTransition::Push(state) => self.push(state, state_data),
            StateTransition::Switch(state) => self.switch(state, state_data),
            StateTransition::Quit => self.stop(state_data),
        }
    }

    /// Stops and removes the active state, if there is one, then starts
    /// `state` and puts it in its place. The states beneath are not told.
    fn switch(&mut self, mut state: Box<T>, state_data: &mut S)
        ensures
            switched(old(self)@, *state, *old(state_data), final(self)@, *final(state_data)),
    {
        let ghost pre = self@;
        let ghost before = *state_data;
        if let Some(mut state) = self.state_stack.pop() {
            state.on_stop(state_data)
        }
        let ghost mid = *state_data;
        let ghost rest = self@;
        state.on_start(state_data);
        self.state_stack.push(state);
        proof {
            let n = pre.len() as int;
            assert(self@ =~= rest.push(*state));
            if n > 0 {
                assert(rest =~= pre.drop_last());
                assert(pre[n - 1].stop_effect(before, mid));
            }
        }
    }

    /// Pushes a state on the stack and starts it. The state that was active,
    /// if there was one, is paused first.
    pub fn push(&mut self, mut state: Box<T>, state_data: &mut S)
        ensures
            pushed(old(self)@, *state, *old(state_data), final(self)@, *final(state_data)),
    {
        let ghost pre = self@;
        let ghost before = *state_data;
        let ghost fresh = *state;
        if let Some(state) = self.state_stack.last_mut() {
            state.on_pause(state_data);
        }
        let ghost mid = *state_data;
        let ghost held = self@;
        state.on_start(state_data);
        self.state_stack.push(state);
        proof {
            let n = pre.len() as int;
            assert(self@ =~= held.push(*state));
            if n > 0 {
                assert(pre[n - 1].pause_effect(before, self@[n - 1], mid));
                assert(fresh.start_effect(mid, self@[n], *state_data));
            }
        }
    }

    /// Stops and removes the active state, then resumes the one beneath it.
    /// Either step is left out where there is no state for it.
    fn pop(&mut self, state_data: &mut S)
        ensures
            popped(old(self)@, *old(state_data), final(self)@, *final(state_data)),
    {
        let ghost pre = self@;
        let ghost before = *state_data;
        if let Some(mut state) = self.state_stack.pop() {
            state.on_stop(state_data);
        }
        let ghost mid = *state_data;
        let ghost rest = self@;
        if let Some(state) = self.state_stack.last_mut() {
            state.on_resume(state_data);
        }
        proof {
            let n = pre.len() as int;
            if n == 0 {
                assert(self@ =~= pre);
            } else {
                assert(rest =~= pre.drop_last());
                if n >= 2 {
                    assert(pre[n - 1].stop_effect(before, mid));
                    assert(pre[n - 2].resume_effect(mid, self@[n - 2], *state_data));
                }
            }
        }
    }

    /// Removes every state from the stack, stopping each, from the top down.
    pub fn stop(&mut self, state_data: &mut S)
        ensures
            stopped(old(self)@, *old(state_data), final(self)@, *final(state_data)),
    {
        let ghost pre = self@;
        let ghost trail = seq![*state_data];
        loop
            invariant
                self@.len() <= pre.len(),
                self@ == pre.take(self@.len() as int),
                trail.len() == pre.len() - self@.len() + 1,
                trail[0] == *old(state_data),
                trail.last() == *state_data,
                forall|k: int|
                    #![trigger trail[k]]
                    0 <= k < pre.len() - self@.len() ==> pre[pre.len() - 1 - k].stop_effect(
                        trail[k],
                        trail[k + 1],
                    ),
            ensures
                self@.len() == 0,
            decreases self@.len(),
        {
            let ghost held = self@;
            match self.state_stack.pop() {
                Some(mut state) => {
                    let ghost done = pre.len() - held.len();
                    let ghost prior = *state_data;
                    assert(*state == held.last());
                    assert(self@ =~= held.drop_last());
                    state.on_stop(state_data);
                    proof {
                        let longer = trail.push(*state_data);
                        assert forall|k: int| 0 <= k < done + 1 implies pre[pre.len() - 1
                            - k].stop_effect(#[trigger] longer[k], longer[k + 1]) by {
                            if k < done {
                                assert(longer[k] == trail[k]);
                                assert(longer[k + 1] == trail[k + 1]);
                            } else {
                                assert(longer[k] == prior);
                            }
                        }
                        trail = longer;
                    }
                },
                None => {
                    break ;
                },
            }
        }
        assert(stop_trail(pre, trail));
    }
}

} // verus!
