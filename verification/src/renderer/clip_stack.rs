//! The stack of clipping regions of rendering operations.
use vstd::prelude::*;

verus! {

/// ClipStack manages a stack of clipping regions for rendering operations.
/// It handles pushing and popping clip regions to maintain the current
/// clipping state. The region type is a parameter; the stack only keeps
/// regions in order.
pub struct ClipStack<C> {
    stack: Vec<C>,
}

impl<C> View for ClipStack<C> {
    type V = Seq<C>;

    closed spec fn view(&self) -> Seq<C> {
        self.stack@
    }
}

impl<C> ClipStack<C> {
    /// Create a new empty clip stack.
    pub fn new() -> (r: Self)
        ensures
            r@ == Seq::<C>::empty(),
    {
        ClipStack { stack: Vec::new() }
    }

    /// Push a clip region onto the stack.
    pub fn push(&mut self, clip: C)
        ensures
            final(self)@ == old(self)@.push(clip),
    {
        self.stack.push(clip);
    }

    /// Pop a clip region from the stack.
    pub fn pop(&mut self) -> (r: Option<C>)
        ensures
            old(self)@.len() == 0 ==> r is None && final(self)@ == old(self)@,
            old(self)@.len() > 0 ==> r == Some(old(self)@.last()) && final(self)@ == old(
                self,
            )@.drop_last(),
    {
        self.stack.pop()
    }

    /// Get the current clip region (top of stack).
    pub fn current(&self) -> (r: Option<&C>)
        ensures
            self@.len() == 0 ==> r is None,
            self@.len() > 0 ==> r == Some(&self@.last()),
    {
        self.stack.last()
    }

    /// Clear the stack.
    pub fn clear(&mut self)
        ensures
            final(self)@ == Seq::<C>::empty(),
    {
        self.stack.clear();
    }

    /// Get the depth of the stack.
    pub fn depth(&self) -> (r: usize)
        ensures
            r == self@.len(),
    {
        self.stack.len()
    }

    /// Check if the stack is empty.
    pub fn is_empty(&self) -> (r: bool)
        ensures
            r <==> self@.len() == 0,
    {
        self.stack.is_empty()
    }
}

/// Pushing a region and popping gives back that region and the stack as it
/// was; the region pushed last is the current one.
pub proof fn lemma_clip_push_pop<C>(stack: Seq<C>, clip: C)
    ensures
        stack.push(clip).len() > 0,
        stack.push(clip).last() == clip,
        stack.push(clip).drop_last() == stack,
{
    assert(stack.push(clip).drop_last() =~= stack);
}

} // verus!
