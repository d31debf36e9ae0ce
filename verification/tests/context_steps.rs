use vectron_render::render_core::operation::execution::ExecutionEvent;
use vectron_render::renderer::context::{context_call, context_step, ContextAction, ContextCall, ContextPlan};

/// Runs the steps to their end, failing the step at `fail_at` if given.
fn run_context(plan: &ContextPlan, fail_at: Option<usize>) -> (Vec<ContextCall>, bool) {
    let mut calls = Vec::new();
    let (mut state, mut action) = context_step(plan, 0, ExecutionEvent::Start);
    loop {
        match action {
            ContextAction::Call(call) => {
                let position = calls.len();
                calls.push(call);
                let event = if fail_at == Some(position) {
                    ExecutionEvent::CallFailed
                } else {
                    ExecutionEvent::CallSucceeded
                };
                let next = context_step(plan, state, event);
                state = next.0;
                action = next.1;
            }
            ContextAction::Succeed => return (calls, true),
            ContextAction::Fail => return (calls, false),
        }
    }
}

#[test]
fn test_context_steps_with_clip() {
    let plan = ContextPlan { has_clip: true, effect_count: 1, style_count: 2 };
    let (calls, ok) = run_context(&plan, None);
    assert!(ok);
    assert_eq!(
        calls,
        vec![
            ContextCall::CountOperation,
            ContextCall::PushTransform,
            ContextCall::PushClipRegion,
            ContextCall::RendererPushClip,
            ContextCall::ApplyPre(0),
            ContextCall::SetTransform,
            ContextCall::ApplyStyle(0),
            ContextCall::ApplyStyle(1),
            ContextCall::ApplyPost(0),
            ContextCall::PopClipRegion,
            ContextCall::RendererPopClip,
            ContextCall::PopTransform,
        ]
    );
}

#[test]
fn test_context_steps_without_clip() {
    let plan = ContextPlan { has_clip: false, effect_count: 0, style_count: 1 };
    let (calls, ok) = run_context(&plan, None);
    assert!(ok);
    assert_eq!(
        calls,
        vec![
            ContextCall::CountOperation,
            ContextCall::PushTransform,
            ContextCall::SetTransform,
            ContextCall::ApplyStyle(0),
            ContextCall::PopTransform,
        ]
    );
}

#[test]
fn test_failed_clip_push_leaves_transform_pushed() {
    let plan = ContextPlan { has_clip: true, effect_count: 2, style_count: 1 };
    let (calls, ok) = run_context(&plan, Some(3));
    assert!(!ok);
    assert_eq!(calls.last(), Some(&ContextCall::RendererPushClip));
    assert!(!calls.contains(&ContextCall::PopTransform));
    assert!(!calls.contains(&ContextCall::ApplyPre(0)));
}

#[test]
fn test_context_call_positions() {
    let plan = ContextPlan { has_clip: true, effect_count: 1, style_count: 1 };
    assert_eq!(context_call(&plan, 5), Some(ContextCall::SetTransform));
    assert_eq!(context_call(&plan, 10), Some(ContextCall::PopTransform));
    assert_eq!(context_call(&plan, 11), None);
    assert_eq!(context_step(&plan, 2, ExecutionEvent::CallFailed), (2, ContextAction::Fail));
}
