use vectron_render::render_core::operation::execution::{
    execution_step, planned_call, ExecutionAction, ExecutionEvent, ExecutionPlan, RendererCall,
};

/// Runs an execution to its end, failing the call at position `fail_at` if
/// given; returns the calls made and whether the execution succeeded.
fn run(plan: &ExecutionPlan, fail_at: Option<usize>) -> (Vec<RendererCall>, bool) {
    let mut calls = Vec::new();
    let (mut state, mut action) = execution_step(plan, 0, ExecutionEvent::Start);
    loop {
        match action {
            ExecutionAction::Call(call) => {
                let position = calls.len();
                calls.push(call);
                let event = if fail_at == Some(position) {
                    ExecutionEvent::CallFailed
                } else {
                    ExecutionEvent::CallSucceeded
                };
                let next = execution_step(plan, state, event);
                state = next.0;
                action = next.1;
            }
            ExecutionAction::Succeed => return (calls, true),
            ExecutionAction::Fail => return (calls, false),
        }
    }
}

fn full_plan() -> ExecutionPlan {
    ExecutionPlan { has_clip: true, effect_count: 2, style_count: 1, tessellable: true }
}

#[test]
fn test_execution_makes_every_call_in_order() {
    let (calls, ok) = run(&full_plan(), None);
    assert!(ok);
    assert_eq!(
        calls,
        vec![
            RendererCall::PushState,
            RendererCall::SetTransform,
            RendererCall::SetClip,
            RendererCall::ApplyPre(0),
            RendererCall::ApplyPre(1),
            RendererCall::Tessellate,
            RendererCall::ApplyStyle(0),
            RendererCall::ApplyPost(0),
            RendererCall::ApplyPost(1),
            RendererCall::PopState,
        ]
    );
}

#[test]
fn test_execution_without_clip_or_geometry() {
    let plan = ExecutionPlan { has_clip: false, effect_count: 1, style_count: 3, tessellable: false };
    let (calls, ok) = run(&plan, None);
    assert!(ok);
    assert_eq!(
        calls,
        vec![
            RendererCall::PushState,
            RendererCall::SetTransform,
            RendererCall::ApplyPre(0),
            RendererCall::PopState,
        ]
    );
}

#[test]
fn test_execution_of_empty_operation() {
    let plan = ExecutionPlan { has_clip: false, effect_count: 0, style_count: 0, tessellable: true };
    let (calls, ok) = run(&plan, None);
    assert!(ok);
    assert_eq!(
        calls,
        vec![RendererCall::PushState, RendererCall::SetTransform, RendererCall::Tessellate, RendererCall::PopState]
    );
}

#[test]
fn test_failed_style_ends_execution_without_restoring_state() {
    let (calls, ok) = run(&full_plan(), Some(6));
    assert!(!ok);
    assert_eq!(calls.len(), 7);
    assert_eq!(calls[6], RendererCall::ApplyStyle(0));
    assert!(!calls.contains(&RendererCall::PopState));
}

#[test]
fn test_failed_tessellation_skips_styles() {
    let (calls, ok) = run(&full_plan(), Some(5));
    assert!(!ok);
    assert_eq!(calls.last(), Some(&RendererCall::Tessellate));
    assert!(!calls.contains(&RendererCall::ApplyStyle(0)));
}

#[test]
fn test_failed_pop_state_fails_execution() {
    let (calls, ok) = run(&full_plan(), Some(9));
    assert!(!ok);
    assert_eq!(calls.len(), 10);
}

#[test]
fn test_planned_call_positions() {
    let plan = full_plan();
    assert_eq!(planned_call(&plan, 0), Some(RendererCall::PushState));
    assert_eq!(planned_call(&plan, 4), Some(RendererCall::ApplyPre(1)));
    assert_eq!(planned_call(&plan, 8), Some(RendererCall::ApplyPost(1)));
    assert_eq!(planned_call(&plan, 9), Some(RendererCall::PopState));
    assert_eq!(planned_call(&plan, 10), None);
    assert_eq!(planned_call(&plan, usize::MAX), None);
}

#[test]
fn test_step_after_failure_reports_failure() {
    let plan = full_plan();
    assert_eq!(execution_step(&plan, 3, ExecutionEvent::CallFailed), (3, ExecutionAction::Fail));
    assert_eq!(
        execution_step(&plan, 9, ExecutionEvent::CallSucceeded),
        (10, ExecutionAction::Succeed)
    );
}
