//! The order in which executing a render operation calls the renderer.
//!
//! Executing an operation saves the renderer's state, sets the transform and
//! the clip, runs the effects' pre-rendering step, tessellates the element,
//! applies the styles and the effects' post-rendering step, and restores the
//! state. The renderer, the element, the styles and the effects are supplied
//! by the caller; what is decided here is which call comes next, and that the
//! first failing call ends the execution with its error.
use vstd::prelude::*;

verus! {

/// What a render operation holds that decides which renderer calls its
/// execution makes.
#[derive(Debug, Clone, Copy, PartialEq, Eq)]
pub struct ExecutionPlan {
    /// The operation has a clip region.
    pub has_clip: bool,
    /// The number of effects of the operation.
    pub effect_count: usize,
    /// The number of styles of the operation.
    pub style_count: usize,
    /// The element can be tessellated into geometry.
    pub tessellable: bool,
}

/// One call on the renderer made while executing a render operation.
#[derive(Debug, Clone, Copy, PartialEq, Eq)]
pub enum RendererCall {
    /// Save the renderer's state.
    PushState,
    /// Set the operation's transform.
    SetTransform,
    /// Set the operation's clip region.
    SetClip,
    /// Run the pre-rendering step of the effect at this position.
    ApplyPre(usize),
    /// Tessellate the element into geometry.
    Tessellate,
    /// Apply the style at this position to the geometry.
    ApplyStyle(usize),
    /// Run the post-rendering step of the effect at this position.
    ApplyPost(usize),
    /// Restore the saved state.
    PopState,
}

/// What happened since the last step of an execution.
#[derive(Debug, Clone, Copy, PartialEq, Eq)]
pub enum ExecutionEvent {
    /// The execution begins; no call is outstanding.
    Start,
    /// The last call returned successfully.
    CallSucceeded,
    /// The last call returned an error.
    CallFailed,
}

/// What the execution does next.
#[derive(Debug, Clone, Copy, PartialEq, Eq)]
pub enum ExecutionAction {
    /// Make this call on the renderer.
    Call(RendererCall),
    /// The execution ends successfully.
    Succeed,
    /// The execution ends with the error of the call that failed.
    Fail,
}

/// The calls `f(0), f(1), ..., f(n - 1)`, one for each position below `n`.
pub open spec fn per_index(n: usize, f: spec_fn(usize) -> RendererCall) -> Seq<RendererCall> {
    Seq::new(n as nat, |i: int| f(i as usize))
}

/// The calls made after the element is tessellated: the styles in order,
/// then the effects' post-rendering steps in order.
pub open spec fn geometry_calls(plan: ExecutionPlan) -> Seq<RendererCall> {
    seq![RendererCall::Tessellate] + per_index(
        plan.style_count,
        |i: usize| RendererCall::ApplyStyle(i),
    ) + per_index(plan.effect_count, |i: usize| RendererCall::ApplyPost(i))
}

/// Every call that executing an operation with this plan makes, in order,
/// when none of them fails.
pub open spec fn planned_calls(plan: ExecutionPlan) -> Seq<RendererCall> {
    seq![RendererCall::PushState, RendererCall::SetTransform] + (if plan.has_clip {
        seq![RendererCall::SetClip]
    } else {
        Seq::empty()
    }) + per_index(plan.effect_count, |i: usize| RendererCall::ApplyPre(i)) + (if plan.tessellable {
        geometry_calls(plan)
    } else {
        Seq::empty()
    }) + seq![RendererCall::PopState]
}

/// The number of calls of a plan fits in a `usize`.
pub open spec fn plan_fits(plan: ExecutionPlan) -> bool {
    planned_calls(plan).len() <= usize::MAX
}

/// The call at position `k` of the plan's calls, or `None` past the last one.
pub fn planned_call(plan: &ExecutionPlan, k: usize) -> (r: Option<RendererCall>)
    ensures
        k < planned_calls(*plan).len() ==> r == Some(planned_calls(*plan)[k as int]),
        k >= planned_calls(*plan).len() ==> r is None,
{
    proof {
        lemma_planned_calls_by_position(*plan);
    }
    if k == 0 {
        return Some(RendererCall::PushState);
    }
    if k == 1 {
        return Some(RendererCall::SetTransform);
    }
    // `j` counts the positions from `k` back to the start of the range
    // looked at next.
    let mut j: usize = k - 2;
    if plan.has_clip {
        if j == 0 {
            return Some(RendererCall::SetClip);
        }
        j = j - 1;
    }
    assert(k == setup_len(*plan) + j);
    if j < plan.effect_count {
        return Some(RendererCall::ApplyPre(j));
    }
    j = j - plan.effect_count;
    if plan.tessellable {
        if j == 0 {
            return Some(RendererCall::Tessellate);
        }
        j = j - 1;
        if j < plan.style_count {
            return Some(RendererCall::ApplyStyle(j));
        }
        j = j - plan.style_count;
        if j < plan.effect_count {
            return Some(RendererCall::ApplyPost(j));
        }
        j = j - plan.effect_count;
    }
    assert(k == setup_len(*plan) + plan.effect_count + geometry_len(*plan) + j);
    if j == 0 {
        Some(RendererCall::PopState)
    } else {
        None
    }
}

/// One step of executing a render operation.
///
/// The state is the number of calls that have returned successfully so far.
/// A failed call ends the execution with its error at once: the calls after
/// it, restoring the renderer's state among them, are not made. Otherwise the
/// next planned call is made, and once all have succeeded the execution ends
/// successfully.
pub fn execution_step(plan: &ExecutionPlan, succeeded: usize, event: ExecutionEvent) -> (r: (
    usize,
    ExecutionAction,
))
    requires
        plan_fits(*plan),
        event is CallSucceeded ==> succeeded < planned_calls(*plan).len(),
    ensures
        event is CallFailed ==> r == (succeeded, ExecutionAction::Fail),
        !(event is CallFailed) ==> {
            let done = if event is CallSucceeded {
                succeeded + 1
            } else {
                succeeded as int
            };
            &&& r.0 == done
            &&& done < planned_calls(*plan).len() ==> r.1 == ExecutionAction::Call(
                planned_calls(*plan)[done],
            )
            &&& done >= planned_calls(*plan).len() ==> r.1 == ExecutionAction::Succeed
        },
{
    match event {
        ExecutionEvent::CallFailed => (succeeded, ExecutionAction::Fail),
        _ => {
            let done = if let ExecutionEvent::CallSucceeded = event {
                succeeded + 1
            } else {
                succeeded
            };
            match planned_call(plan, done) {
                Some(call) => (done, ExecutionAction::Call(call)),
                None => (done, ExecutionAction::Succeed),
            }
        },
    }
}

/// The number of calls in the plan that come before the first effect's
/// pre-rendering step: saving the state, the transform and the clip.
pub open spec fn setup_len(plan: ExecutionPlan) -> int {
    if plan.has_clip {
        3
    } else {
        2
    }
}

/// The number of calls that tessellating, styling and post-processing add.
pub open spec fn geometry_len(plan: ExecutionPlan) -> int {
    if plan.tessellable {
        1 + plan.style_count + plan.effect_count
    } else {
        0
    }
}

/// The call at position `k` of the plan, written by ranges of positions.
pub open spec fn call_at(plan: ExecutionPlan, k: int) -> RendererCall {
    let pre_start = setup_len(plan);
    let body_start = pre_start + plan.effect_count;
    let style_start = body_start + 1;
    let post_start = style_start + plan.style_count;
    if k == 0 {
        RendererCall::PushState
    } else if k == 1 {
        RendererCall::SetTransform
    } else if k < pre_start {
        RendererCall::SetClip
    } else if k < body_start {
        RendererCall::ApplyPre((k - pre_start) as usize)
    } else if k < body_start + geometry_len(plan) {
        if k == body_start {
            RendererCall::Tessellate
        } else if k < post_start {
            RendererCall::ApplyStyle((k - style_start) as usize)
        } else {
            RendererCall::ApplyPost((k - post_start) as usize)
        }
    } else {
        RendererCall::PopState
    }
}

/// The plan's calls, position by position.
pub proof fn lemma_planned_calls_by_position(plan: ExecutionPlan)
    ensures
        planned_calls(plan).len() == setup_len(plan) + plan.effect_count + geometry_len(plan) + 1,
        forall|k: int|
            0 <= k < planned_calls(plan).len() ==> #[trigger] planned_calls(plan)[k] == call_at(
                plan,
                k,
            ),
{
    let head = seq![RendererCall::PushState, RendererCall::SetTransform];
    let clip: Seq<RendererCall> = if plan.has_clip {
        seq![RendererCall::SetClip]
    } else {
        Seq::empty()
    };
    let pre = per_index(plan.effect_count, |i: usize| RendererCall::ApplyPre(i));
    let styles = per_index(plan.style_count, |i: usize| RendererCall::ApplyStyle(i));
    let post = per_index(plan.effect_count, |i: usize| RendererCall::ApplyPost(i));
    let body: Seq<RendererCall> = if plan.tessellable {
        geometry_calls(plan)
    } else {
        Seq::empty()
    };
    let all = planned_calls(plan);
    assert(all == head + clip + pre + body + seq![RendererCall::PopState]);
    assert(geometry_calls(plan) == seq![RendererCall::Tessellate] + styles + post);
    assert forall|k: int| 0 <= k < all.len() implies #[trigger] all[k] == call_at(plan, k) by {
        let pre_start = setup_len(plan);
        let body_start = pre_start + plan.effect_count;
        if k < 2 {
            assert(all[k] == head[k]);
        } else if k < pre_start {
            assert(all[k] == clip[k - 2]);
        } else if k < body_start {
            assert(all[k] == pre[k - pre_start]);
        } else if k < body_start + geometry_len(plan) {
            assert(all[k] == body[k - body_start]);
            if k > body_start {
                let m = k - body_start - 1;
                if m < plan.style_count {
                    assert(body[k - body_start] == styles[m]);
                } else {
                    assert(body[k - body_start] == post[m - plan.style_count]);
                }
            }
        } else {
            assert(all[k] == RendererCall::PopState);
        }
    }
}

/// Executing an operation saves the renderer's state first and restores it
/// last, and saves or restores it nowhere in between: when every call
/// succeeds, the renderer's state stack is left as it was found.
pub proof fn lemma_state_saved_then_restored(plan: ExecutionPlan)
    ensures
        planned_calls(plan)[0] == RendererCall::PushState,
        planned_calls(plan).last() == RendererCall::PopState,
        forall|k: int|
            0 < k < planned_calls(plan).len() - 1 ==> #[trigger] planned_calls(plan)[k]
                != RendererCall::PushState && planned_calls(plan)[k] != RendererCall::PopState,
{
    lemma_planned_calls_by_position(plan);
}

/// The clip is set exactly when the operation has one, and the element is
/// tessellated exactly when it is tessellable.
pub proof fn lemma_clip_and_tessellation(plan: ExecutionPlan)
    ensures
        planned_calls(plan).contains(RendererCall::SetClip) <==> plan.has_clip,
        planned_calls(plan).contains(RendererCall::Tessellate) <==> plan.tessellable,
{
    lemma_planned_calls_by_position(plan);
    let all = planned_calls(plan);
    if plan.has_clip {
        assert(all[2] == RendererCall::SetClip);
    }
    if plan.tessellable {
        assert(all[setup_len(plan) + plan.effect_count] == RendererCall::Tessellate);
    }
}

/// Each effect's pre-rendering step runs exactly once, before the element
/// is tessellated; each style is applied exactly once, after tessellation;
/// each effect's post-rendering step runs exactly once when the element is
/// tessellable, after every style.
pub proof fn lemma_steps_in_order(plan: ExecutionPlan)
    ensures
        forall|e: usize|
            #[trigger] planned_calls(plan).contains(RendererCall::ApplyPre(e)) <==> e
                < plan.effect_count,
        forall|e: usize|
            #[trigger] planned_calls(plan).contains(RendererCall::ApplyPost(e)) <==> (
            plan.tessellable && e < plan.effect_count),
        forall|i: int, j: int|
            0 <= i < j < planned_calls(plan).len() && planned_calls(plan)[i] == planned_calls(
                plan,
            )[j] ==> !(planned_calls(plan)[i] is ApplyPre || planned_calls(plan)[i] is ApplyStyle
                || planned_calls(plan)[i] is ApplyPost),
        forall|s: usize|
            #[trigger] planned_calls(plan).contains(RendererCall::ApplyStyle(s)) <==> (
            plan.tessellable && s < plan.style_count),
        forall|i: int, j: int|
            0 <= i < planned_calls(plan).len() && 0 <= j < planned_calls(plan).len() && (
            #[trigger] planned_calls(plan)[i]) is ApplyPre && (#[trigger] planned_calls(plan)[j])
                == RendererCall::Tessellate ==> i < j,
        forall|i: int, j: int|
            0 <= i < planned_calls(plan).len() && 0 <= j < planned_calls(plan).len() && (
            #[trigger] planned_calls(plan)[i]) == RendererCall::Tessellate && (
            #[trigger] planned_calls(plan)[j]) is ApplyStyle ==> i < j,
        forall|i: int, j: int|
            0 <= i < planned_calls(plan).len() && 0 <= j < planned_calls(plan).len() && (
            #[trigger] planned_calls(plan)[i]) is ApplyStyle && (#[trigger] planned_calls(plan)[j])
                is ApplyPost ==> i < j,
{
    lemma_planned_calls_by_position(plan);
    let all = planned_calls(plan);
    let pre_start = setup_len(plan);
    assert forall|e: usize| #[trigger] all.contains(RendererCall::ApplyPre(e)) <==> e
        < plan.effect_count by {
        if e < plan.effect_count {
            assert(all[pre_start + e] == RendererCall::ApplyPre(e));
        }
    }
    assert forall|e: usize| #[trigger] all.contains(RendererCall::ApplyPost(e)) <==> (
    plan.tessellable && e < plan.effect_count) by {
        if plan.tessellable && e < plan.effect_count {
            assert(all[pre_start + plan.effect_count + 1 + plan.style_count + e]
                == RendererCall::ApplyPost(e));
        }
    }
    assert forall|s: usize| #[trigger] all.contains(RendererCall::ApplyStyle(s)) <==> (
    plan.tessellable && s < plan.style_count) by {
        if plan.tessellable && s < plan.style_count {
            assert(all[pre_start + plan.effect_count + 1 + s] == RendererCall::ApplyStyle(s));
        }
    }
}

/// Where each call of an execution stands, in terms of the plan alone: the
/// state is saved first and the transform set second, then the clip (when
/// there is one), then each effect's pre-rendering step in the effects'
/// order; for a tessellable element the tessellation follows, then each
/// style in the order the styles were added, then each effect's
/// post-rendering step in the effects' order; the state is restored last.
pub proof fn lemma_execution_order(plan: ExecutionPlan)
    ensures
        ({
            let c: int = if plan.has_clip { 1 } else { 0 };
            let e = plan.effect_count as int;
            let st = plan.style_count as int;
            let calls = planned_calls(plan);
            &&& calls.len() == 3 + c + e + (if plan.tessellable { 1 + st + e } else { 0 })
            &&& calls[0] == RendererCall::PushState
            &&& calls[1] == RendererCall::SetTransform
            &&& plan.has_clip ==> calls[2] == RendererCall::SetClip
            &&& forall|i: int| 0 <= i < e ==> #[trigger] calls[2 + c + i] == RendererCall::ApplyPre(i as usize)
            &&& plan.tessellable ==> calls[2 + c + e] == RendererCall::Tessellate
            &&& plan.tessellable ==> forall|s: int|
                0 <= s < st ==> #[trigger] calls[3 + c + e + s] == RendererCall::ApplyStyle(s as usize)
            &&& plan.tessellable ==> forall|i: int|
                0 <= i < e ==> #[trigger] calls[3 + c + e + st + i] == RendererCall::ApplyPost(i as usize)
            &&& calls[calls.len() - 1] == RendererCall::PopState
        }),
{
    lemma_planned_calls_by_position(plan);
    let c: int = if plan.has_clip { 1 } else { 0 };
    let e = plan.effect_count as int;
    let st = plan.style_count as int;
    let calls = planned_calls(plan);
    assert forall|i: int| 0 <= i < e implies #[trigger] calls[2 + c + i] == RendererCall::ApplyPre(
        i as usize,
    ) by {
        assert(calls[2 + c + i] == call_at(plan, 2 + c + i));
    }
    if plan.tessellable {
        assert forall|s: int| 0 <= s < st implies #[trigger] calls[3 + c + e + s]
            == RendererCall::ApplyStyle(s as usize) by {
            assert(calls[3 + c + e + s] == call_at(plan, 3 + c + e + s));
        }
        assert forall|i: int| 0 <= i < e implies #[trigger] calls[3 + c + e + st + i]
            == RendererCall::ApplyPost(i as usize) by {
            assert(calls[3 + c + e + st + i] == call_at(plan, 3 + c + e + st + i));
        }
    }
}

/// Styles are applied in the order they were added, and the effects' steps
/// run in the effects' order: when two style calls (or two pre-rendering
/// steps, or two post-rendering steps) both occur, the one for the lower
/// position comes first.
pub proof fn lemma_execution_keeps_order(plan: ExecutionPlan, i: int, j: int)
    requires
        0 <= i < planned_calls(plan).len(),
        0 <= j < planned_calls(plan).len(),
    ensures
        planned_calls(plan)[i] matches RendererCall::ApplyStyle(a) && planned_calls(plan)[j] matches RendererCall::ApplyStyle(b) && a < b ==> i < j,
        planned_calls(plan)[i] matches RendererCall::ApplyPre(a) && planned_calls(plan)[j] matches RendererCall::ApplyPre(b) && a < b ==> i < j,
        planned_calls(plan)[i] matches RendererCall::ApplyPost(a) && planned_calls(plan)[j] matches RendererCall::ApplyPost(b) && a < b ==> i < j,
{
    lemma_planned_calls_by_position(plan);
}

} // verus!
