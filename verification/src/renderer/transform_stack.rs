//! The stack of transforms of rendering operations.
use vstd::prelude::*;

verus! {

/// TransformStack manages a stack of transforms for rendering operations.
/// The bottom transform is never popped: once the stack holds a transform,
/// it keeps at least one until it is cleared. The transform type is a
/// parameter; the stack only keeps transforms in order.
pub struct TransformStack<T> {
    stack: Vec<T>,
}

impl<T> View for TransformStack<T> {
    type V = Seq<T>;

    closed spec fn view(&self) -> Seq<T> {
        self.stack@
    }
}

impl<T> TransformStack<T> {
    /// Create a new empty transform stack.
    pub fn new() -> (r: Self)
        ensures
            r@ == Seq::<T>::empty(),
    {
        TransformStack { stack: Vec::new() }
    }

    /// Push a transform onto the stack.
    pub fn push(&mut self, transform: T)
        ensures
            final(self)@ == old(self)@.push(transform),
    {
        self.stack.push(transform);
    }

    /// Pop a transform from the stack; the last transform is kept and
    /// nothing is popped then.
    pub fn pop(&mut self) -> (r: Option<T>)
        ensures
            old(self)@.len() <= 1 ==> r is None && final(self)@ == old(self)@,
            old(self)@.len() > 1 ==> r == Some(old(self)@.last()) && final(self)@ == old(
                self,
            )@.drop_last(),
    {
        if self.stack.len() <= 1 {
            return None;
        }
        self.stack.pop()
    }

    /// Get the current transform (top of stack); the stack must not be
    /// empty.
    pub fn current(&self) -> (r: &T)
        requires
            self@.len() > 0,
        ensures
            *r == self@.last(),
    {
        self.stack.last().unwrap()
    }

    /// Set the current transform: replace the top of the stack, or push it
    /// when the stack is empty.
    pub fn set_current(&mut self, transform: T)
        ensures
            old(self)@.len() == 0 ==> final(self)@ == seq![transform],
            old(self)@.len() > 0 ==> final(self)@ == old(self)@.update(
                old(self)@.len() - 1,
                transform,
            ),
    {
        if self.stack.len() == 0 {
            self.stack.push(transform);
            assert(self.stack@ =~= seq![transform]);
        } else {
            let idx = self.stack.len() - 1;
            self.stack.set(idx, transform);
        }
    }

    /// Clear the stack.
    pub fn clear(&mut self)
        ensures
            final(self)@ == Seq::<T>::empty(),
    {
        self.stack.clear();
    }

    /// Get the depth of the stack.
    pub fn depth(&self) -> (r: usize)
        ensures
            r == self@.len(),
    {
        self.stack.len()
    }
}

/// On a stack that holds a transform, pushing a transform and popping gives
/// back that transform and the stack as it was; popping never empties a
/// stack that holds a transform.
pub proof fn lemma_transform_push_pop<T>(stack: Seq<T>, transform: T)
    requires
        stack.len() >= 1,
    ensures
        stack.push(transform).len() > 1,
        stack.push(transform).last() == transform,
        stack.push(transform).drop_last() == stack,
        stack.len() > 1 ==> stack.drop_last().len() >= 1,
{
    assert(stack.push(transform).drop_last() =~= stack);
}

} // verus!
