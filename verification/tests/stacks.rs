use vectron_render::renderer::clip_stack::ClipStack;
use vectron_render::renderer::transform_stack::TransformStack;

#[derive(Debug, Clone, PartialEq)]
enum ClipRegion {
    Rect { x: f32, y: f32, width: f32, height: f32 },
}

#[derive(Debug, Clone, PartialEq)]
struct Transform {
    m: [[f32; 4]; 4],
}

impl Transform {
    fn identity() -> Self {
        let mut m = [[0.0; 4]; 4];
        for (i, row) in m.iter_mut().enumerate() {
            row[i] = 1.0;
        }
        Transform { m }
    }

    fn translation(x: f32, y: f32, z: f32) -> Self {
        let mut t = Self::identity();
        t.m[3][0] = x;
        t.m[3][1] = y;
        t.m[3][2] = z;
        t
    }
}

#[test]
fn test_clip_stack_operations() {
    let mut stack = ClipStack::new();

    assert_eq!(stack.depth(), 0);
    assert!(stack.is_empty());

    let clip = ClipRegion::Rect { x: 0.0, y: 0.0, width: 100.0, height: 100.0 };

    stack.push(clip.clone());
    assert_eq!(stack.depth(), 1);
    assert!(!stack.is_empty());

    let current = stack.current();
    assert!(current.is_some());
    assert_eq!(*current.unwrap(), clip);

    let popped = stack.pop();
    assert!(popped.is_some());
    assert_eq!(popped.unwrap(), clip);
    assert_eq!(stack.depth(), 0);
    assert!(stack.is_empty());

    assert!(stack.current().is_none());
}

#[test]
fn test_transform_stack_operations() {
    let mut stack = TransformStack::new();

    assert_eq!(stack.depth(), 0);

    stack.push(Transform::identity());
    assert_eq!(stack.depth(), 1);

    let translate = Transform::translation(10.0, 20.0, 0.0);
    stack.push(translate.clone());
    assert_eq!(stack.depth(), 2);

    assert_eq!(*stack.current(), translate);

    let popped = stack.pop();
    assert!(popped.is_some());
    assert_eq!(popped.unwrap(), translate);
    assert_eq!(stack.depth(), 1);

    stack.clear();
    assert_eq!(stack.depth(), 0);
}

#[test]
fn transform_stack_keeps_its_last_transform() {
    let mut stack = TransformStack::new();
    assert!(stack.pop().is_none());
    stack.push(Transform::identity());
    assert!(stack.pop().is_none());
    assert_eq!(stack.depth(), 1);
    assert_eq!(*stack.current(), Transform::identity());
}

#[test]
fn transform_stack_set_current_replaces_or_pushes() {
    let mut stack = TransformStack::new();
    stack.set_current(Transform::translation(1.0, 2.0, 3.0));
    assert_eq!(stack.depth(), 1);
    stack.push(Transform::identity());
    stack.set_current(Transform::translation(4.0, 5.0, 6.0));
    assert_eq!(stack.depth(), 2);
    assert_eq!(*stack.current(), Transform::translation(4.0, 5.0, 6.0));
    assert_eq!(stack.pop(), Some(Transform::translation(4.0, 5.0, 6.0)));
    assert_eq!(*stack.current(), Transform::translation(1.0, 2.0, 3.0));
}

#[test]
fn clip_stack_pop_on_empty_and_clear() {
    let mut stack: ClipStack<u32> = ClipStack::new();
    assert_eq!(stack.pop(), None);
    stack.push(1);
    stack.push(2);
    assert_eq!(stack.current(), Some(&2));
    stack.clear();
    assert!(stack.is_empty());
    assert_eq!(stack.current(), None);
}
