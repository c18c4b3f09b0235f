//! Laws of the machine's operations, proved from the relations that specify
//! them.
//!
//! In each law `pre` and `before` are the stack and the shared data before an
//! operation, `post` and `after` the stack and the data after it.

use vstd::prelude::*;
use crate::semantics::{popped, pushed, stop_trail, stopped, switched, transitioned, updated};
use crate::state::State;
use crate::transition::StateTransition;

verus! {

/// A push on a machine that is not running starts the state and does nothing
/// else: no hook but `on_start` runs, once and on the state pushed, and the
/// machine is running afterwards, with that state alone on its stack.
pub proof fn push_on_stopped_machine<S, T: State<S>>(state: T, before: S, post: Seq<T>, after: S)
    ensures
        pushed(Seq::<T>::empty(), state, before, post, after) <==> {
            &&& post.len() == 1
            &&& state.start_effect(before, post[0], after)
        },
{
}

/// A push on a running machine pauses the active state, then starts the state
/// pushed, which sees the data as `on_pause` left it. The active state is
/// kept, beneath the new one, and no state is stopped: every state under the
/// one that was active is as it was.
pub proof fn push_pauses_then_starts<S, T: State<S>>(
    pre: Seq<T>,
    state: T,
    before: S,
    post: Seq<T>,
    after: S,
)
    requires
        pre.len() > 0,
        pushed(pre, state, before, post, after),
    ensures
        post.len() == pre.len() + 1,
        forall|i: int| 0 <= i < pre.len() - 1 ==> post[i] == pre[i],
        ({
            let active = pre.last();
            let paused = post[post.len() - 2];
            let started = post.last();
            exists|mid: S|
                {
                    &&& active.pause_effect(before, paused, mid)
                    &&& state.start_effect(mid, started, after)
                }
        }),
{
    let n = pre.len() as int;
    let active = pre[n - 1];
    let paused = post[n - 1];
    let started = post[n];
    let mid = choose|mid: S|
        active.pause_effect(before, paused, mid) && state.start_effect(mid, started, after);
    assert(pre.last().pause_effect(before, post[post.len() - 2], mid));
    assert(state.start_effect(mid, post.last(), after));
}

/// A pop on a machine that is not running does nothing.
pub proof fn pop_on_stopped_machine<S, T: State<S>>(before: S, post: Seq<T>, after: S)
    ensures
        popped(Seq::<T>::empty(), before, post, after) <==> {
            &&& post == Seq::<T>::empty()
            &&& after == before
        },
{
}

/// Popping the only state stops it, resumes nothing and leaves the machine not
/// running.
pub proof fn pop_of_last_state<S, T: State<S>>(state: T, before: S, post: Seq<T>, after: S)
    ensures
        popped(seq![state], before, post, after) <==> {
            &&& post.len() == 0
            &&& state.stop_effect(before, after)
        },
{
}

/// A pop with a state beneath the active one stops the active state, then
/// resumes the one beneath, which sees the data as `on_stop` left it and
/// becomes the active state. The states under it are as they were.
pub proof fn pop_stops_then_resumes<S, T: State<S>>(pre: Seq<T>, before: S, post: Seq<T>, after: S)
    requires
        pre.len() >= 2,
        popped(pre, before, post, after),
    ensures
        post.len() == pre.len() - 1,
        forall|i: int| 0 <= i < pre.len() - 2 ==> post[i] == pre[i],
        ({
            let active = pre.last();
            let beneath = pre[pre.len() - 2];
            let resumed = post.last();
            exists|mid: S|
                {
                    &&& active.stop_effect(before, mid)
                    &&& beneath.resume_effect(mid, resumed, after)
                }
        }),
{
    let n = pre.len() as int;
    let active = pre[n - 1];
    let beneath = pre[n - 2];
    let resumed = post[n - 2];
    let mid = choose|mid: S|
        active.stop_effect(before, mid) && beneath.resume_effect(mid, resumed, after);
    assert(pre.last().stop_effect(before, mid));
    assert(pre[pre.len() - 2].resume_effect(mid, post.last(), after));
}

/// A switch on a machine that is not running is a push.
pub proof fn switch_on_stopped_machine<S, T: State<S>>(
    state: T,
    before: S,
    post: Seq<T>,
    after: S,
)
    ensures
        switched(Seq::<T>::empty(), state, before, post, after) <==> pushed(
            Seq::<T>::empty(),
            state,
            before,
            post,
            after,
        ),
{
}

/// A switch on a running machine stops the active state and starts the new
/// one in its place. The stack keeps its depth and every state beneath the top
/// is as it was: none of them is stopped, paused or resumed.
pub proof fn switch_replaces_top<S, T: State<S>>(
    pre: Seq<T>,
    state: T,
    before: S,
    post: Seq<T>,
    after: S,
)
    requires
        pre.len() > 0,
        switched(pre, state, before, post, after),
    ensures
        post.len() == pre.len(),
        post.drop_last() == pre.drop_last(),
        ({
            let active = pre.last();
            let started = post.last();
            exists|mid: S|
                {
                    &&& active.stop_effect(before, mid)
                    &&& state.start_effect(mid, started, after)
                }
        }),
{
    let n = pre.len() as int;
    assert(post.drop_last() =~= pre.drop_last());
    let active = pre[n - 1];
    let started = post[n - 1];
    let mid = choose|mid: S|
        active.stop_effect(before, mid) && state.start_effect(mid, started, after);
    assert(pre.last().stop_effect(before, mid));
    assert(state.start_effect(mid, post.last(), after));
}

/// Stopping a machine that is not running does nothing.
pub proof fn stop_on_stopped_machine<S, T: State<S>>(before: S, post: Seq<T>, after: S)
    ensures
        stopped(Seq::<T>::empty(), before, post, after) <==> {
            &&& post == Seq::<T>::empty()
            &&& after == before
        },
{
    if post == Seq::<T>::empty() && after == before {
        assert(stop_trail(Seq::<T>::empty(), seq![before]));
        assert(seq![before][0] == before);
    }
    if stopped(Seq::<T>::empty(), before, post, after) {
        assert(post =~= Seq::<T>::empty());
    }
}

/// Stopping goes from the top down: the state on top is stopped first, then
/// the rest of the stack is stopped from the data that this left.
pub proof fn stop_starts_at_the_top<S, T: State<S>>(
    pre: Seq<T>,
    top: T,
    before: S,
    post: Seq<T>,
    after: S,
)
    ensures
        stopped(pre.push(top), before, post, after) <==> exists|mid: S|
            {
                &&& top.stop_effect(before, mid)
                &&& stopped(pre, mid, post, after)
            },
{
    let n = pre.len() as int;
    let whole = pre.push(top);
    if stopped(whole, before, post, after) {
        let trail = choose|trail: Seq<S>|
            {
                &&& stop_trail(whole, trail)
                &&& trail[0] == before
                &&& trail[whole.len() as int] == after
            };
        let rest = trail.subrange(1, n + 2);
        assert forall|k: int| 0 <= k < n implies pre[n - 1 - k].stop_effect(
            #[trigger] rest[k],
            rest[k + 1],
        ) by {
            assert(whole[n - (k + 1)].stop_effect(trail[k + 1], trail[k + 2]));
        }
        assert(stop_trail(pre, rest));
        assert(rest[0] == trail[1]);
        assert(rest[n] == after);
        assert(whole[n - 0].stop_effect(trail[0], trail[1]));
        assert(top.stop_effect(before, trail[1]) && stopped(pre, trail[1], post, after));
    }
    if exists|mid: S| top.stop_effect(before, mid) && stopped(pre, mid, post, after) {
        let mid = choose|mid: S| top.stop_effect(before, mid) && stopped(pre, mid, post, after);
        let rest = choose|trail: Seq<S>|
            {
                &&& stop_trail(pre, trail)
                &&& trail[0] == mid
                &&& trail[n] == after
            };
        let trail = seq![before] + rest;
        assert forall|k: int| 0 <= k < n + 1 implies whole[n - k].stop_effect(
            #[trigger] trail[k],
            trail[k + 1],
        ) by {
            if k > 0 {
                assert(pre[n - 1 - (k - 1)].stop_effect(rest[k - 1], rest[k]));
            }
        }
        assert(stop_trail(whole, trail));
        assert(trail[0] == before);
        assert(trail[n + 1] == after);
    }
}

/// Stopping a stack of `n` states runs `on_stop` `n` times, once on each
/// state and from the top down, each call on the data that the call before
/// left, and leaves the machine not running.
pub proof fn stop_runs_every_on_stop<S, T: State<S>>(pre: Seq<T>, before: S, post: Seq<T>, after: S)
    requires
        stopped(pre, before, post, after),
    ensures
        post.len() == 0,
        exists|trail: Seq<S>|
            {
                &&& trail.len() == pre.len() + 1
                &&& trail.first() == before
                &&& trail.last() == after
                &&& forall|k: int|
                    #![trigger trail[k]]
                    0 <= k < pre.len() ==> pre[pre.len() - 1 - k].stop_effect(
                        trail[k],
                        trail[k + 1],
                    )
            },
{
    let trail = choose|trail: Seq<S>|
        {
            &&& stop_trail(pre, trail)
            &&& trail[0] == before
            &&& trail[pre.len() as int] == after
        };
    assert(trail.first() == before && trail.last() == after);
}

/// A tick on a machine that is not running changes neither the machine nor the
/// data.
pub proof fn update_on_stopped_machine<S, T: State<S>>(before: S, post: Seq<T>, after: S)
    ensures
        updated(Seq::<T>::empty(), before, post, after) <==> {
            &&& post == Seq::<T>::empty()
            &&& after == before
        },
{
}

/// A tick on a running machine updates the active state, then applies the
/// transition that it asked for to the stack that holds the updated state.
pub proof fn update_ticks_then_transitions<S, T: State<S>>(
    pre: Seq<T>,
    before: S,
    top: T,
    mid: S,
    request: StateTransition<T>,
    post: Seq<T>,
    after: S,
)
    requires
        pre.len() > 0,
        pre.last().update_effect(before, top, mid, request),
        transitioned(pre.update(pre.len() - 1, top), request, mid, post, after),
    ensures
        updated(pre, before, post, after),
{
    assert(pre.update(pre.len() - 1, top) =~= pre.drop_last().push(top));
}

/// Staying changes nothing: the stack keeps its states and its depth, and no
/// hook runs.
pub proof fn stay_changes_nothing<S, T: State<S>>(pre: Seq<T>, before: S, post: Seq<T>, after: S)
    ensures
        transitioned(pre, StateTransition::Stay, before, post, after) <==> {
            &&& post == pre
            &&& after == before
        },
{
}

/// How a transition changes the depth of the stack. A machine that is not
/// running starts only by a push or a switch, and a running machine stops only
/// by quitting or by a pop of its last state.
pub proof fn transition_changes_depth<S, T: State<S>>(
    pre: Seq<T>,
    request: StateTransition<T>,
    before: S,
    post: Seq<T>,
    after: S,
)
    requires
        transitioned(pre, request, before, post, after),
    ensures
        ({
            let n = pre.len() as int;
            post.len() == match request {
                StateTransition::Stay => n,
                StateTransition::Pop => if n == 0 {
                    0
                } else {
                    n - 1
                },
                StateTransition::Push(_) => n + 1,
                StateTransition::Switch(_) => if n == 0 {
                    1
                } else {
                    n
                },
                StateTransition::Quit => 0,
            }
        }),
{
}

/// The transitions that carry a state do what the operations of the same name
/// do, and quitting is stopping.
pub proof fn transition_by_request<S, T: State<S>>(
    pre: Seq<T>,
    state: T,
    before: S,
    post: Seq<T>,
    after: S,
)
    ensures
        transitioned(pre, StateTransition::Pop, before, post, after) <==> popped(
            pre,
            before,
            post,
            after,
        ),
        transitioned(pre, StateTransition::Push(Box::new(state)), before, post, after) <==> pushed(
            pre,
            state,
            before,
            post,
            after,
        ),
        transitioned(pre, StateTransition::Switch(Box::new(state)), before, post, after)
            <==> switched(pre, state, before, post, after),
        transitioned(pre, StateTransition::Quit, before, post, after) <==> stopped(
            pre,
            before,
            post,
            after,
        ),
{
}

} // verus!
