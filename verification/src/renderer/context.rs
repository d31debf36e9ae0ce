//! The order of the steps by which a render context executes an operation.
//!
//! A render context counts the operation, pushes the operation's transform
//! combined with the current one, pushes the operation's clip (on its own clip
//! stack and on the renderer), runs the effects' pre-rendering steps, sets the
//! current transform on the renderer, applies the styles, runs the effects'
//! post-rendering steps, pops the clip (from its stack and from the renderer)
//! and pops the transform. The renderer, the styles and the effects belong to
//! the caller; what is decided here is which step comes next, and that the
//! first failing step ends the execution with its error, leaving the steps
//! after it undone.
use vstd::prelude::*;
use crate::render_core::operation::execution::ExecutionEvent;

verus! {

/// What an operation holds that decides the steps a render context takes
/// to execute it.
#[derive(Debug, Clone, Copy, PartialEq, Eq)]
pub struct ContextPlan {
    /// The operation has a clip region.
    pub has_clip: bool,
    /// The number of effects of the operation.
    pub effect_count: usize,
    /// The number of styles of the operation.
    pub style_count: usize,
}

/// One step of a render context executing an operation.
#[derive(Debug, Clone, Copy, PartialEq, Eq)]
pub enum ContextCall {
    /// Count the operation in the statistics.
    CountOperation,
    /// Push the operation's transform, combined with the current one.
    PushTransform,
    /// Push the operation's clip region on the context's clip stack.
    PushClipRegion,
    /// Push the operation's clip region on the renderer.
    RendererPushClip,
    /// Run the pre-rendering step of the effect at this position.
    ApplyPre(usize),
    /// Set the current transform on the renderer.
    SetTransform,
    /// Apply the style at this position.
    ApplyStyle(usize),
    /// Run the post-rendering step of the effect at this position.
    ApplyPost(usize),
    /// Pop the clip region from the context's clip stack.
    PopClipRegion,
    /// Pop the clip region from the renderer.
    RendererPopClip,
    /// Pop the operation's transform.
    PopTransform,
}

/// What the context does next.
#[derive(Debug, Clone, Copy, PartialEq, Eq)]
pub enum ContextAction {
    /// Take this step.
    Call(ContextCall),
    /// The execution ends successfully.
    Succeed,
    /// The execution ends with the error of the step that failed.
    Fail,
}

/// The steps `f(0), f(1), ..., f(n - 1)`, one for each position below `n`.
pub open spec fn per_position(n: usize, f: spec_fn(usize) -> ContextCall) -> Seq<ContextCall> {
    Seq::new(n as nat, |i: int| f(i as usize))
}

/// The clip steps before the effects: on the context's stack, then on the
/// renderer; none without a clip.
pub open spec fn clip_push_calls(plan: ContextPlan) -> Seq<ContextCall> {
    if plan.has_clip {
        seq![ContextCall::PushClipRegion, ContextCall::RendererPushClip]
    } else {
        Seq::empty()
    }
}

/// The clip steps after the effects: from the context's stack, then from
/// the renderer; none without a clip.
pub open spec fn clip_pop_calls(plan: ContextPlan) -> Seq<ContextCall> {
    if plan.has_clip {
        seq![ContextCall::PopClipRegion, ContextCall::RendererPopClip]
    } else {
        Seq::empty()
    }
}

/// Every step of executing an operation with this plan, in order, when none
/// of them fails.
pub open spec fn context_calls(plan: ContextPlan) -> Seq<ContextCall> {
    seq![ContextCall::CountOperation, ContextCall::PushTransform] + clip_push_calls(plan)
        + per_position(plan.effect_count, |i: usize| ContextCall::ApplyPre(i)) + seq![
        ContextCall::SetTransform,
    ] + per_position(plan.style_count, |i: usize| ContextCall::ApplyStyle(i)) + per_position(
        plan.effect_count,
        |i: usize| ContextCall::ApplyPost(i),
    ) + clip_pop_calls(plan) + seq![ContextCall::PopTransform]
}

/// The number of steps of a plan fits in a `usize`.
pub open spec fn context_plan_fits(plan: ContextPlan) -> bool {
    context_calls(plan).len() <= usize::MAX
}

/// The number of clip steps on each side of the effects.
pub open spec fn clip_len(plan: ContextPlan) -> int {
    if plan.has_clip {
        2
    } else {
        0
    }
}

/// The step at position `k` of the plan, written by ranges of positions.
pub open spec fn context_call_at(plan: ContextPlan, k: int) -> ContextCall {
    let pre_start = 2 + clip_len(plan);
    let set_pos = pre_start + plan.effect_count;
    let style_start = set_pos + 1;
    let post_start = style_start + plan.style_count;
    let tail_start = post_start + plan.effect_count;
    if k == 0 {
        ContextCall::CountOperation
    } else if k == 1 {
        ContextCall::PushTransform
    } else if k < pre_start {
        if k == 2 {
            ContextCall::PushClipRegion
        } else {
            ContextCall::RendererPushClip
        }
    } else if k < set_pos {
        ContextCall::ApplyPre((k - pre_start) as usize)
    } else if k == set_pos {
        ContextCall::SetTransform
    } else if k < post_start {
        ContextCall::ApplyStyle((k - style_start) as usize)
    } else if k < tail_start {
        ContextCall::ApplyPost((k - post_start) as usize)
    } else if k < tail_start + clip_len(plan) {
        if k == tail_start {
            ContextCall::PopClipRegion
        } else {
            ContextCall::RendererPopClip
        }
    } else {
        ContextCall::PopTransform
    }
}

/// The plan's steps, position by position.
pub proof fn lemma_context_calls_by_position(plan: ContextPlan)
    ensures
        context_calls(plan).len() == 4 + 2 * clip_len(plan) + 2 * plan.effect_count
            + plan.style_count,
        forall|k: int|
            0 <= k < context_calls(plan).len() ==> #[trigger] context_calls(plan)[k]
                == context_call_at(plan, k),
{
    let head = seq![ContextCall::CountOperation, ContextCall::PushTransform];
    let cpush = clip_push_calls(plan);
    let pre = per_position(plan.effect_count, |i: usize| ContextCall::ApplyPre(i));
    let set = seq![ContextCall::SetTransform];
    let styles = per_position(plan.style_count, |i: usize| ContextCall::ApplyStyle(i));
    let post = per_position(plan.effect_count, |i: usize| ContextCall::ApplyPost(i));
    let cpop = clip_pop_calls(plan);
    let last = seq![ContextCall::PopTransform];
    let all = context_calls(plan);
    assert(all == head + cpush + pre + set + styles + post + cpop + last);
    let c = clip_len(plan);
    let pre_start = 2 + c;
    let set_pos = pre_start + plan.effect_count;
    let style_start = set_pos + 1;
    let post_start = style_start + plan.style_count;
    let tail_start = post_start + plan.effect_count;
    assert forall|k: int| 0 <= k < all.len() implies #[trigger] all[k] == context_call_at(
        plan,
        k,
    ) by {
        if k < 2 {
            assert(all[k] == head[k]);
        } else if k < pre_start {
            assert(all[k] == cpush[k - 2]);
        } else if k < set_pos {
            assert(all[k] == pre[k - pre_start]);
        } else if k == set_pos {
            assert(all[k] == set[0]);
        } else if k < post_start {
            assert(all[k] == styles[k - style_start]);
        } else if k < tail_start {
            assert(all[k] == post[k - post_start]);
        } else if k < tail_start + c {
            assert(all[k] == cpop[k - tail_start]);
        } else {
            assert(all[k] == last[0]);
        }
    }
}

/// The step at position `k` of the plan's steps, or `None` past the last.
pub fn context_call(plan: &ContextPlan, k: usize) -> (r: Option<ContextCall>)
    ensures
        k < context_calls(*plan).len() ==> r == Some(context_calls(*plan)[k as int]),
        k >= context_calls(*plan).len() ==> r is None,
{
    proof {
        lemma_context_calls_by_position(*plan);
    }
    if k == 0 {
        return Some(ContextCall::CountOperation);
    }
    if k == 1 {
        return Some(ContextCall::PushTransform);
    }
    // `j` counts the positions from `k` back to the start of the range
    // looked at next.
    let mut j: usize = k - 2;
    if plan.has_clip {
        if j == 0 {
            return Some(ContextCall::PushClipRegion);
        }
        if j == 1 {
            return Some(ContextCall::RendererPushClip);
        }
        j = j - 2;
    }
    assert(k == 2 + clip_len(*plan) + j);
    if j < plan.effect_count {
        return Some(ContextCall::ApplyPre(j));
    }
    j = j - plan.effect_count;
    if j == 0 {
        return Some(ContextCall::SetTransform);
    }
    j = j - 1;
    if j < plan.style_count {
        return Some(ContextCall::ApplyStyle(j));
    }
    j = j - plan.style_count;
    if j < plan.effect_count {
        return Some(ContextCall::ApplyPost(j));
    }
    j = j - plan.effect_count;
    assert(k == 3 + clip_len(*plan) + 2 * plan.effect_count + plan.style_count + j);
    if plan.has_clip {
        if j == 0 {
            return Some(ContextCall::PopClipRegion);
        }
        if j == 1 {
            return Some(ContextCall::RendererPopClip);
        }
        j = j - 2;
    }
    if j == 0 {
        Some(ContextCall::PopTransform)
    } else {
        None
    }
}

/// One step of a render context executing an operation.
///
/// The state is the number of steps that have succeeded so far. A failed
/// step ends the execution with its error at once: the steps after it,
/// popping the clip and the transform among them, are not taken. Otherwise
/// the next planned step is taken, and once all have succeeded the execution
/// ends successfully.
pub fn context_step(plan: &ContextPlan, succeeded: usize, event: ExecutionEvent) -> (r: (
    usize,
    ContextAction,
))
    requires
        context_plan_fits(*plan),
        event is CallSucceeded ==> succeeded < context_calls(*plan).len(),
    ensures
        event is CallFailed ==> r == (succeeded, ContextAction::Fail),
        !(event is CallFailed) ==> {
            let done = if event is CallSucceeded {
                succeeded + 1
            } else {
                succeeded as int
            };
            &&& r.0 == done
            &&& done < context_calls(*plan).len() ==> r.1 == ContextAction::Call(
                context_calls(*plan)[done],
            )
            &&& done >= context_calls(*plan).len() ==> r.1 == ContextAction::Succeed
        },
{
    match event {
        ExecutionEvent::CallFailed => (succeeded, ContextAction::Fail),
        _ => {
            let done = if let ExecutionEvent::CallSucceeded = event {
                succeeded + 1
            } else {
                succeeded
            };
            match context_call(plan, done) {
                Some(call) => (done, ContextAction::Call(call)),
                None => (done, ContextAction::Succeed),
            }
        },
    }
}

/// When every step succeeds, the context's stacks are left as found: the
/// transform is pushed second and popped last and at no other step; the
/// clip region is pushed and popped exactly when the operation has a clip,
/// on the context's stack and on the renderer alike, and the pushes come
/// before every effect and style step and the pops after them.
pub proof fn lemma_context_stacks_balanced(plan: ContextPlan)
    ensures
        context_calls(plan)[1] == ContextCall::PushTransform,
        context_calls(plan).last() == ContextCall::PopTransform,
        forall|k: int|
            0 <= k < context_calls(plan).len() - 1 && k != 1 ==> #[trigger] context_calls(plan)[k]
                != ContextCall::PushTransform && context_calls(plan)[k]
                != ContextCall::PopTransform,
        context_calls(plan).contains(ContextCall::PushClipRegion) <==> plan.has_clip,
        context_calls(plan).contains(ContextCall::PopClipRegion) <==> plan.has_clip,
        context_calls(plan).contains(ContextCall::RendererPushClip) <==> plan.has_clip,
        context_calls(plan).contains(ContextCall::RendererPopClip) <==> plan.has_clip,
        forall|i: int, j: int|
            0 <= i < context_calls(plan).len() && 0 <= j < context_calls(plan).len() && (
            #[trigger] context_calls(plan)[i] == ContextCall::PushClipRegion
                || context_calls(plan)[i] == ContextCall::RendererPushClip) && (
            #[trigger] context_calls(plan)[j] is ApplyPre || context_calls(plan)[j] is ApplyStyle
                || context_calls(plan)[j] is ApplyPost || context_calls(plan)[j]
                == ContextCall::SetTransform) ==> i < j,
        forall|i: int, j: int|
            0 <= i < context_calls(plan).len() && 0 <= j < context_calls(plan).len() && (
            #[trigger] context_calls(plan)[i] == ContextCall::PopClipRegion
                || context_calls(plan)[i] == ContextCall::RendererPopClip) && (
            #[trigger] context_calls(plan)[j] is ApplyPre || context_calls(plan)[j] is ApplyStyle
                || context_calls(plan)[j] is ApplyPost || context_calls(plan)[j]
                == ContextCall::SetTransform) ==> j < i,
{
    lemma_context_calls_by_position(plan);
    let all = context_calls(plan);
    let tail_start = 3 + clip_len(plan) + 2 * plan.effect_count + plan.style_count;
    if plan.has_clip {
        assert(all[2] == ContextCall::PushClipRegion);
        assert(all[3] == ContextCall::RendererPushClip);
        assert(all[tail_start] == ContextCall::PopClipRegion);
        assert(all[tail_start + 1] == ContextCall::RendererPopClip);
    }
}

/// The effects' pre-rendering steps come before the renderer's transform is
/// set, and the styles and post-rendering steps after it; each effect and
/// style step is taken exactly once.
pub proof fn lemma_context_effects_and_styles(plan: ContextPlan)
    ensures
        forall|e: usize|
            #[trigger] context_calls(plan).contains(ContextCall::ApplyPre(e)) <==> e
                < plan.effect_count,
        forall|e: usize|
            #[trigger] context_calls(plan).contains(ContextCall::ApplyPost(e)) <==> e
                < plan.effect_count,
        forall|s: usize|
            #[trigger] context_calls(plan).contains(ContextCall::ApplyStyle(s)) <==> s
                < plan.style_count,
        forall|i: int, j: int|
            0 <= i < j < context_calls(plan).len() && context_calls(plan)[i] == context_calls(
                plan,
            )[j] ==> !(context_calls(plan)[i] is ApplyPre || context_calls(plan)[i] is ApplyStyle
                || context_calls(plan)[i] is ApplyPost),
        forall|i: int, j: int|
            0 <= i < context_calls(plan).len() && 0 <= j < context_calls(plan).len() && (
            #[trigger] context_calls(plan)[i]) is ApplyPre && (#[trigger] context_calls(plan)[j])
                == ContextCall::SetTransform ==> i < j,
        forall|i: int, j: int|
            0 <= i < context_calls(plan).len() && 0 <= j < context_calls(plan).len() && (
            #[trigger] context_calls(plan)[i]) == ContextCall::SetTransform && ((
            #[trigger] context_calls(plan)[j]) is ApplyStyle || context_calls(plan)[j] is ApplyPost)
                ==> i < j,
{
    lemma_context_calls_by_position(plan);
    let all = context_calls(plan);
    let pre_start = 2 + clip_len(plan);
    let style_start = pre_start + plan.effect_count + 1;
    let post_start = style_start + plan.style_count;
    assert forall|e: usize| #[trigger] all.contains(ContextCall::ApplyPre(e)) <==> e
        < plan.effect_count by {
        if e < plan.effect_count {
            assert(all[pre_start + e] == ContextCall::ApplyPre(e));
        }
    }
    assert forall|e: usize| #[trigger] all.contains(ContextCall::ApplyPost(e)) <==> e
        < plan.effect_count by {
        if e < plan.effect_count {
            assert(all[post_start + e] == ContextCall::ApplyPost(e));
        }
    }
    assert forall|s: usize| #[trigger] all.contains(ContextCall::ApplyStyle(s)) <==> s
        < plan.style_count by {
        if s < plan.style_count {
            assert(all[style_start + s] == ContextCall::ApplyStyle(s));
        }
    }
}

/// Where each step of a render context's execution stands, in terms of the
/// plan alone: the operation is counted, its transform pushed, its clip
/// pushed on the context's stack and on the renderer (when it has one), then
/// each effect's pre-rendering step in the effects' order, the transform set
/// on the renderer, each style in the order the styles were added, each
/// effect's post-rendering step in the effects' order, the clip popped from
/// the stack and the renderer (when it has one), and the transform popped.
pub proof fn lemma_context_order(plan: ContextPlan)
    ensures
        ({
            let c: int = if plan.has_clip { 2 } else { 0 };
            let e = plan.effect_count as int;
            let st = plan.style_count as int;
            let calls = context_calls(plan);
            &&& calls.len() == 4 + 2 * c + 2 * e + st
            &&& calls[0] == ContextCall::CountOperation
            &&& calls[1] == ContextCall::PushTransform
            &&& plan.has_clip ==> calls[2] == ContextCall::PushClipRegion && calls[3]
                == ContextCall::RendererPushClip
            &&& forall|i: int| 0 <= i < e ==> #[trigger] calls[2 + c + i] == ContextCall::ApplyPre(i as usize)
            &&& calls[2 + c + e] == ContextCall::SetTransform
            &&& forall|s: int|
                0 <= s < st ==> #[trigger] calls[3 + c + e + s] == ContextCall::ApplyStyle(s as usize)
            &&& forall|i: int|
                0 <= i < e ==> #[trigger] calls[3 + c + e + st + i] == ContextCall::ApplyPost(i as usize)
            &&& plan.has_clip ==> calls[3 + c + 2 * e + st] == ContextCall::PopClipRegion
                && calls[4 + c + 2 * e + st] == ContextCall::RendererPopClip
            &&& calls[calls.len() - 1] == ContextCall::PopTransform
        }),
{
    lemma_context_calls_by_position(plan);
    let c: int = if plan.has_clip { 2 } else { 0 };
    let e = plan.effect_count as int;
    let st = plan.style_count as int;
    let calls = context_calls(plan);
    assert forall|i: int| 0 <= i < e implies #[trigger] calls[2 + c + i] == ContextCall::ApplyPre(
        i as usize,
    ) by {
        assert(calls[2 + c + i] == context_call_at(plan, 2 + c + i));
    }
    assert forall|s: int| 0 <= s < st implies #[trigger] calls[3 + c + e + s]
        == ContextCall::ApplyStyle(s as usize) by {
        assert(calls[3 + c + e + s] == context_call_at(plan, 3 + c + e + s));
    }
    assert forall|i: int| 0 <= i < e implies #[trigger] calls[3 + c + e + st + i]
        == ContextCall::ApplyPost(i as usize) by {
        assert(calls[3 + c + e + st + i] == context_call_at(plan, 3 + c + e + st + i));
    }
    if plan.has_clip {
        assert(calls[3 + c + 2 * e + st] == context_call_at(plan, 3 + c + 2 * e + st));
        assert(calls[4 + c + 2 * e + st] == context_call_at(plan, 4 + c + 2 * e + st));
    }
}

/// The effects' steps run in the effects' order and the styles in the order
/// they were added: when two such steps of one kind both occur, the one for
/// the lower position comes first.
pub proof fn lemma_context_keeps_order(plan: ContextPlan, i: int, j: int)
    requires
        0 <= i < context_calls(plan).len(),
        0 <= j < context_calls(plan).len(),
    ensures
        context_calls(plan)[i] matches ContextCall::ApplyPre(a) && context_calls(plan)[j] matches ContextCall::ApplyPre(b) && a < b ==> i < j,
        context_calls(plan)[i] matches ContextCall::ApplyStyle(a) && context_calls(plan)[j] matches ContextCall::ApplyStyle(b) && a < b ==> i < j,
        context_calls(plan)[i] matches ContextCall::ApplyPost(a) && context_calls(plan)[j] matches ContextCall::ApplyPost(b) && a < b ==> i < j,
{
    lemma_context_calls_by_position(plan);
}

} // verus!
