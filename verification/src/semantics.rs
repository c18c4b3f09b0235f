//! What each operation of the machine does, as a relation between the stack
//! and the shared data before the operation and after it.
//!
//! A stack is a sequence of states whose last element is the active one. Where
//! an operation runs two hooks, the data passes through a value in between,
//! which the relation quantifies over: the second hook starts from what the
//! first one left.

use vstd::prelude::*;
use crate::state::State;
use crate::transition::StateTransition;

verus! {

/// Pushing `state` on `pre`: the top of `pre`, if there is one, is paused, then
/// `state` is started and put above it. The states beneath the old top are
/// not touched.
pub open spec fn pushed<S, T: State<S>>(
    pre: Seq<T>,
    state: T,
    before: S,
    post: Seq<T>,
    after: S,
) -> bool {
    let n = pre.len() as int;
    &&& post.len() == n + 1
    &&& if n == 0 {
        state.start_effect(before, post[0], after)
    } else {
        let top = pre[n - 1];
        let paused = post[n - 1];
        let started = post[n];
        &&& forall|i: int| 0 <= i < n - 1 ==> #[trigger] post[i] == pre[i]
        &&& exists|mid: S|
            {
                &&& top.pause_effect(before, paused, mid)
                &&& state.start_effect(mid, started, after)
            }
    }
}

/// Popping the top of `pre`: it is stopped and removed, then the state
/// beneath it, if there is one, is resumed. On an empty stack nothing happens.
pub open spec fn popped<S, T: State<S>>(pre: Seq<T>, before: S, post: Seq<T>, after: S) -> bool {
    let n = pre.len() as int;
    if n == 0 {
        post == pre && after == before
    } else if n == 1 {
        post.len() == 0 && pre[0].stop_effect(before, after)
    } else {
        let top = pre[n - 1];
        let beneath = pre[n - 2];
        let resumed = post[n - 2];
        &&& post.len() == n - 1
        &&& forall|i: int| 0 <= i < n - 2 ==> #[trigger] post[i] == pre[i]
        &&& exists|mid: S|
            {
                &&& top.stop_effect(before, mid)
                &&& beneath.resume_effect(mid, resumed, after)
            }
    }
}

/// Replacing the top of `pre` by `state`: the top, if there is one, is stopped
/// and removed, then `state` is started and put in its place. No state is
/// paused or resumed, and the states beneath the old top are not touched.
pub open spec fn switched<S, T: State<S>>(
    pre: Seq<T>,
    state: T,
    before: S,
    post: Seq<T>,
    after: S,
) -> bool {
    let n = pre.len() as int;
    if n == 0 {
        post.len() == 1 && state.start_effect(before, post[0], after)
    } else {
        let top = pre[n - 1];
        let started = post[n - 1];
        &&& post.len() == n
        &&& forall|i: int| 0 <= i < n - 1 ==> #[trigger] post[i] == pre[i]
        &&& exists|mid: S|
            {
                &&& top.stop_effect(before, mid)
                &&& state.start_effect(mid, started, after)
            }
    }
}

/// `trail` lists the values that the data takes while every state of `stack`
/// is stopped, from the top down: `trail[k]` is the data before the `k`-th
/// call of `on_stop`, which is made on the `k`-th state from the top, and
/// `trail[k + 1]` the data after it.
pub open spec fn stop_trail<S, T: State<S>>(stack: Seq<T>, trail: Seq<S>) -> bool {
    &&& trail.len() == stack.len() + 1
    &&& forall|k: int|
        #![trigger trail[k]]
        0 <= k < stack.len() ==> stack[stack.len() - 1 - k].stop_effect(trail[k], trail[k + 1])
}

/// Stopping the machine: every state of `pre` is stopped once, from the top
/// down, and the stack is left empty.
pub open spec fn stopped<S, T: State<S>>(pre: Seq<T>, before: S, post: Seq<T>, after: S) -> bool {
    &&& post.len() == 0
    &&& exists|trail: Seq<S>|
        {
            &&& stop_trail(pre, trail)
            &&& trail[0] == before
            &&& trail[pre.len() as int] == after
        }
}

/// Applying `request` to `pre`.
pub open spec fn transitioned<S, T: State<S>>(
    pre: Seq<T>,
    request: StateTransition<T>,
    before: S,
    post: Seq<T>,
    after: S,
) -> bool {
    match request {
        StateTransition::Stay => post == pre && after == before,
        StateTransition::Pop => popped(pre, before, post, after),
        StateTransition::Push(state) => pushed(pre, *state, before, post, after),
        StateTransition::Switch(state) => switched(pre, *state, before, post, after),
        StateTransition::Quit => stopped(pre, before, post, after),
    }
}

/// One tick: the top of `pre` is updated and the transition it asks for is
/// applied to the stack with the updated state on top. On an empty stack
/// nothing happens.
pub open spec fn updated<S, T: State<S>>(pre: Seq<T>, before: S, post: Seq<T>, after: S) -> bool {
    if pre.len() == 0 {
        post == pre && after == before
    } else {
        exists|top: T, mid: S, request: StateTransition<T>|
            {
                &&& pre.last().update_effect(before, top, mid, request)
                &&& transitioned(pre.drop_last().push(top), request, mid, post, after)
            }
    }
}

} // verus!
