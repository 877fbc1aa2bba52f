//! The adapter of `java/io/PrintStream`.

use crate::native::{NativeCall, NativeCallView, NativeView};
use crate::runtime::frame::{Frame, FrameView};
use crate::runtime::heap::HeapValueView;
use crate::text::str_eq;
use vstd::prelude::*;

verus! {

/// Whether `println` with the descriptor `descriptor` writes `value`:
/// `(I)V` writes an `Int`, `(J)V` a `Long`, and `(Ljava/lang/String;)V`
/// whatever it is given.
pub open spec fn prints(descriptor: Seq<char>, value: HeapValueView) -> bool {
    ||| descriptor == "(I)V"@ && value is Int
    ||| descriptor == "(J)V"@ && value is Long
    ||| descriptor == "(Ljava/lang/String;)V"@
}

/// Whether the adapter takes `println` with the descriptor `descriptor`.
pub open spec fn takes(descriptor: Seq<char>) -> bool {
    descriptor == "(I)V"@ || descriptor == "(J)V"@ || descriptor == "(Ljava/lang/String;)V"@
}

/// `println` with one of the three descriptors pops its argument, which is
/// to be written if it is of the kind that the descriptor names; no other
/// method is taken.
pub open spec fn spec_invoke(method_name: Seq<char>, descriptor: Seq<char>, frame: FrameView) -> NativeView {
    if method_name == "println"@ && takes(descriptor) {
        NativeView {
            frame: frame.pop(),
            call: if prints(descriptor, frame.top()) {
                NativeCallView::Print(frame.top())
            } else {
                NativeCallView::Handled
            },
        }
    } else {
        NativeView { frame, call: NativeCallView::Unhandled }
    }
}

/// Carries out the call of a method of `java/io/PrintStream`, if it is one that the
/// adapter takes.
pub fn invoke(method_name: &str, descriptor: &str, frame: &mut Frame) -> (call: NativeCall)
    ensures
        (NativeView { frame: final(frame)@, call: call@ }) == spec_invoke(
            method_name@,
            descriptor@,
            old(frame)@,
        ),
{
    if !str_eq(method_name, "println") {
        return NativeCall::Unhandled;
    }
    proof {
        reveal_strlit("(I)V");
        reveal_strlit("(J)V");
        reveal_strlit("(Ljava/lang/String;)V");
        assert("(I)V"@[1] != "(J)V"@[1]);
        assert("(I)V"@.len() != "(Ljava/lang/String;)V"@.len());
        assert("(J)V"@.len() != "(Ljava/lang/String;)V"@.len());
    }
    if str_eq(descriptor, "(I)V") {
        let value = frame.pop();
        if value.is_int() {
            NativeCall::Print(value)
        } else {
            NativeCall::Handled
        }
    } else if str_eq(descriptor, "(J)V") {
        let value = frame.pop();
        if value.is_long() {
            NativeCall::Print(value)
        } else {
            NativeCall::Handled
        }
    } else if str_eq(descriptor, "(Ljava/lang/String;)V") {
        NativeCall::Print(frame.pop())
    } else {
        NativeCall::Unhandled
    }
}

} // verus!
