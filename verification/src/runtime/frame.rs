//! The activation record of one method invocation.

use crate::runtime::heap::{value_views, HeapValue, HeapValueView};
use vstd::prelude::*;

verus! {

/// The locals, the operand stack and the program counter of an invocation.
///
/// `max_stack` is the depth that the method declared for its operand
/// stack. A push beyond it is carried out all the same.
#[derive(Debug)]
pub struct Frame {
    pub local_vars: Vec<HeapValue>,
    pub operand_stack: Vec<HeapValue>,
    pub pc: usize,
    pub max_stack: usize,
}

/// A frame as a mathematical value. The top of the operand stack is the
/// last element of `stack`.
pub ghost struct FrameView {
    pub locals: Seq<HeapValueView>,
    pub stack: Seq<HeapValueView>,
    pub pc: usize,
    pub max_stack: usize,
}

impl FrameView {
    /// A frame with `max_locals` locals, all `Null`, and an empty stack.
    pub open spec fn fresh(max_locals: usize, max_stack: usize) -> FrameView {
        FrameView {
            locals: Seq::new(max_locals as nat, |i: int| HeapValueView::Null),
            stack: Seq::empty(),
            pc: 0,
            max_stack,
        }
    }

    /// The frame with `value` on top of its stack.
    pub open spec fn push(self, value: HeapValueView) -> FrameView {
        FrameView { stack: self.stack.push(value), ..self }
    }

    /// The value on top of the stack; `Null` where the stack is empty.
    pub open spec fn top(self) -> HeapValueView {
        if self.stack.len() > 0 {
            self.stack.last()
        } else {
            HeapValueView::Null
        }
    }

    /// The frame without the top of its stack; the frame itself where the
    /// stack is empty.
    pub open spec fn pop(self) -> FrameView {
        if self.stack.len() > 0 {
            FrameView { stack: self.stack.drop_last(), ..self }
        } else {
            self
        }
    }

    /// The value on top of the stack, if there is one.
    pub open spec fn peek(self) -> Option<HeapValueView> {
        if self.stack.len() > 0 {
            Some(self.stack.last())
        } else {
            None
        }
    }

    /// The local at `index`, if the frame has one there.
    pub open spec fn get_local(self, index: int) -> Option<HeapValueView> {
        if 0 <= index < self.locals.len() {
            Some(self.locals[index])
        } else {
            None
        }
    }

    /// The locals grown with `Null` until they hold `len` values; the locals
    /// themselves where they hold that many.
    pub open spec fn grown(locals: Seq<HeapValueView>, len: int) -> Seq<HeapValueView> {
        if len <= locals.len() {
            locals
        } else {
            Seq::new(
                len as nat,
                |i: int|
                    if i < locals.len() {
                        locals[i]
                    } else {
                        HeapValueView::Null
                    },
            )
        }
    }

    /// The frame with `value` in the local at `index`, the locals grown to
    /// reach it.
    pub open spec fn set_local(self, index: int, value: HeapValueView) -> FrameView {
        FrameView { locals: Self::grown(self.locals, index + 1).update(index, value), ..self }
    }

    /// Whether the stack is deeper than the method declared.
    pub open spec fn exceeds_max_stack(self) -> bool {
        self.stack.len() > self.max_stack
    }
}

impl View for Frame {
    type V = FrameView;

    open spec fn view(&self) -> FrameView {
        FrameView {
            locals: value_views(self.local_vars@),
            stack: value_views(self.operand_stack@),
            pc: self.pc,
            max_stack: self.max_stack,
        }
    }
}

impl DeepView for Frame {
    type V = FrameView;

    open spec fn deep_view(&self) -> FrameView {
        self@
    }
}

fn clone_values(values: &Vec<HeapValue>) -> (copy: Vec<HeapValue>)
    ensures
        copy@ == values@,
{
    let mut copy: Vec<HeapValue> = Vec::with_capacity(values.len());
    let mut i: usize = 0;
    while i < values.len()
        invariant
            i <= values.len(),
            copy@ == values@.take(i as int),
        decreases values.len() - i,
    {
        copy.push(values[i].clone());
        i += 1;
        assert(copy@ =~= values@.take(i as int));
    }
    assert(copy@ =~= values@);
    copy
}

impl Clone for Frame {
    fn clone(&self) -> (copy: Frame)
        ensures
            copy@ == self@,
    {
        Frame {
            local_vars: clone_values(&self.local_vars),
            operand_stack: clone_values(&self.operand_stack),
            pc: self.pc,
            max_stack: self.max_stack,
        }
    }
}

impl Frame {
    /// A frame with `max_locals` locals, all `Null`, and an empty stack.
    pub fn new(max_locals: usize, max_stack: usize) -> (frame: Frame)
        ensures
            frame@ == FrameView::fresh(max_locals, max_stack),
    {
        let mut local_vars: Vec<HeapValue> = Vec::with_capacity(max_locals);
        let mut i: usize = 0;
        while i < max_locals
            invariant
                i <= max_locals,
                local_vars@.len() == i,
                forall|j: int| 0 <= j < i ==> (#[trigger] local_vars@[j])@ == HeapValueView::Null,
            decreases max_locals - i,
        {
            local_vars.push(HeapValue::Null);
            i += 1;
        }
        let frame = Frame { local_vars, operand_stack: Vec::with_capacity(max_stack), pc: 0, max_stack };
        assert(frame@.locals =~= FrameView::fresh(max_locals, max_stack).locals);
        assert(frame@.stack =~= Seq::empty());
        frame
    }

    /// The local at `index`, if the frame has one there.
    pub fn get_local(&self, index: usize) -> (r: Option<&HeapValue>)
        ensures
            match r {
                Some(value) => self@.get_local(index as int) == Some(value@),
                None => self@.get_local(index as int) is None,
            },
    {
        if index < self.local_vars.len() {
            Some(&self.local_vars[index])
        } else {
            None
        }
    }

    /// Puts `value` in the local at `index`. Where the frame has no local
    /// there, the locals grow to reach it, and those in between are `Null`.
    pub fn set_local(&mut self, index: usize, value: HeapValue)
        requires
            index < usize::MAX,
        ensures
            final(self)@ == old(self)@.set_local(index as int, value@),
    {
        let ghost before = self.local_vars@;
        while self.local_vars.len() <= index
            invariant
                self.local_vars@.len() >= before.len(),
                self.local_vars@.len() <= index + 1 || self.local_vars@ == before,
                self.operand_stack == old(self).operand_stack,
                self.pc == old(self).pc,
                self.max_stack == old(self).max_stack,
                forall|j: int| 0 <= j < before.len() ==> self.local_vars@[j] == before[j],
                forall|j: int|
                    before.len() <= j < self.local_vars@.len() ==> (#[trigger] self.local_vars@[j])@
                        == HeapValueView::Null,
            decreases index + 1 - self.local_vars@.len(),
        {
            self.local_vars.push(HeapValue::Null);
        }
        assert(value_views(self.local_vars@) =~= FrameView::grown(old(self)@.locals, index + 1));
        self.local_vars.set(index, value);
        assert(self@.locals =~= old(self)@.set_local(index as int, value@).locals);
    }

    /// Pushes `value` on the operand stack, and reports whether the stack
    /// is still within the depth that the method declared. The push is
    /// carried out either way.
    pub fn push(&mut self, value: HeapValue) -> (within: bool)
        ensures
            final(self)@ == old(self)@.push(value@),
            within == !final(self)@.exceeds_max_stack(),
    {
        self.operand_stack.push(value);
        assert(self@.stack =~= old(self)@.stack.push(value@));
        self.operand_stack.len() <= self.max_stack
    }

    /// Pops the top of the operand stack; gives `Null` where it is empty.
    pub fn pop(&mut self) -> (value: HeapValue)
        ensures
            value@ == old(self)@.top(),
            final(self)@ == old(self)@.pop(),
    {
        match self.operand_stack.pop() {
            Some(value) => {
                assert(self@.stack =~= old(self)@.stack.drop_last());
                value
            },
            None => HeapValue::Null,
        }
    }

    /// The top of the operand stack, if there is one.
    pub fn peek(&self) -> (r: Option<&HeapValue>)
        ensures
            match r {
                Some(value) => self@.peek() == Some(value@),
                None => self@.peek() is None,
            },
    {
        let depth = self.operand_stack.len();
        if depth > 0 {
            Some(&self.operand_stack[depth - 1])
        } else {
            None
        }
    }

    /// The top of the operand stack, to be changed in place, if there is
    /// one.
    pub fn peek_mut(&mut self) -> (r: Option<&mut HeapValue>)
        ensures
            match r {
                Some(value) => old(self)@.peek() == Some(value@) && final(self)@ == old(
                    self,
                )@.pop().push(final(value)@),
                None => old(self)@.peek() is None && final(self)@ == old(self)@,
            },
    {
        let depth = self.operand_stack.len();
        if depth > 0 {
            let value = &mut self.operand_stack[depth - 1];
            proof {
                assert(value_views(old(self).operand_stack@.update(depth - 1, *final(value)))
                    =~= old(self)@.stack.drop_last().push(final(value)@));
            }
            Some(value)
        } else {
            None
        }
    }

    /// The depth of the operand stack.
    pub fn stack_size(&self) -> (n: usize)
        ensures
            n == self@.stack.len(),
    {
        self.operand_stack.len()
    }

    /// Whether the stack is deeper than the method declared.
    pub fn exceeds_max_stack(&self) -> (b: bool)
        ensures
            b == self@.exceeds_max_stack(),
    {
        self.operand_stack.len() > self.max_stack
    }

    /// Pushes `val` as an `Int`.
    pub fn push_int(&mut self, val: i32)
        ensures
            final(self)@ == old(self)@.push(HeapValueView::Int(val)),
    {
        let _ = self.push(HeapValue::Int(val));
    }

    /// Pops the top of the stack and reads it as a 32-bit integer.
    pub fn pop_int(&mut self) -> (val: i32)
        ensures
            val == old(self)@.top().as_int(),
            final(self)@ == old(self)@.pop(),
    {
        self.pop().as_int()
    }

    /// Pushes `val` as a `Long`.
    pub fn push_long(&mut self, val: i64)
        ensures
            final(self)@ == old(self)@.push(HeapValueView::Long(val)),
    {
        let _ = self.push(HeapValue::Long(val));
    }

    /// Pops the top of the stack and reads it as a 64-bit integer.
    pub fn pop_long(&mut self) -> (val: i64)
        ensures
            val == old(self)@.top().as_long(),
            final(self)@ == old(self)@.pop(),
    {
        self.pop().as_long()
    }
}

} // verus!
