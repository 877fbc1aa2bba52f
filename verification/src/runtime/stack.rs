//! The call stack: the frames of the invocations in progress.

use crate::runtime::frame::{Frame, FrameView};
use vstd::prelude::*;

verus! {

/// The frames of the invocations in progress, the current one last.
#[derive(Debug)]
pub struct Stack {
    frames: Vec<Frame>,
}

impl View for Stack {
    type V = Seq<FrameView>;

    closed spec fn view(&self) -> Seq<FrameView> {
        self.frames.deep_view()
    }
}

impl Stack {
    /// An empty stack.
    pub fn new() -> (stack: Stack)
        ensures
            stack@ == Seq::<FrameView>::empty(),
    {
        let stack = Stack { frames: Vec::new() };
        assert(stack@ =~= Seq::<FrameView>::empty());
        stack
    }

    /// Makes `frame` the current frame.
    pub fn push_frame(&mut self, frame: Frame)
        ensures
            final(self)@ == old(self)@.push(frame@),
    {
        self.frames.push(frame);
        assert(self@ =~= old(self)@.push(frame@));
    }

    /// Takes the current frame off the stack, if there is one.
    pub fn pop_frame(&mut self) -> (r: Option<Frame>)
        ensures
            match r {
                Some(frame) => old(self)@.len() > 0 && frame@ == old(self)@.last() && final(self)@
                    == old(self)@.drop_last(),
                None => old(self)@.len() == 0 && final(self)@ == old(self)@,
            },
    {
        let r = self.frames.pop();
        proof {
            if r is Some {
                assert(self@ =~= old(self)@.drop_last());
            } else {
                assert(self@ =~= old(self)@);
            }
        }
        r
    }

    /// The current frame, if there is one.
    pub fn current_frame(&self) -> (r: Option<&Frame>)
        ensures
            match r {
                Some(frame) => self@.len() > 0 && frame@ == self@.last(),
                None => self@.len() == 0,
            },
    {
        let depth = self.frames.len();
        if depth > 0 {
            Some(&self.frames[depth - 1])
        } else {
            None
        }
    }

    /// The current frame, to be changed in place, if there is one.
    pub fn current_frame_mut(&mut self) -> (r: Option<&mut Frame>)
        ensures
            match r {
                Some(frame) => old(self)@.len() > 0 && frame@ == old(self)@.last() && final(self)@
                    == old(self)@.drop_last().push(final(frame)@),
                None => old(self)@.len() == 0 && final(self)@ == old(self)@,
            },
    {
        let depth = self.frames.len();
        if depth > 0 {
            let frame = &mut self.frames[depth - 1];
            proof {
                let after = old(self).frames@.update(depth - 1, *final(frame));
                assert(Seq::new(after.len(), |i: int| after[i].deep_view()) =~= old(
                    self,
                )@.drop_last().push(final(frame)@));
            }
            Some(frame)
        } else {
            None
        }
    }

    /// The current frame, if there is one.
    pub fn peek_frame(&self) -> (r: Option<&Frame>)
        ensures
            match r {
                Some(frame) => self@.len() > 0 && frame@ == self@.last(),
                None => self@.len() == 0,
            },
    {
        self.current_frame()
    }

    /// Whether no invocation is in progress.
    pub fn is_empty(&self) -> (b: bool)
        ensures
            b == (self@.len() == 0),
    {
        self.frames.len() == 0
    }

    /// The number of invocations in progress.
    pub fn depth(&self) -> (n: usize)
        ensures
            n == self@.len(),
    {
        self.frames.len()
    }

    /// The frames, the current one last.
    pub fn iter_frames(&self) -> (frames: &Vec<Frame>)
        ensures
            frames.deep_view() == self@,
    {
        &self.frames
    }
}

} // verus!
