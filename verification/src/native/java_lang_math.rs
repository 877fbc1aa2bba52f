//! The adapter of `java/lang/Math`.

use crate::native::{NativeCall, NativeCallView, NativeView};
use crate::runtime::frame::{Frame, FrameView};
use crate::text::str_eq;
use vstd::prelude::*;

verus! {

/// `abs(I)I` pops a value and pushes its absolute value; no other method
/// is taken.
pub open spec fn spec_invoke(method_name: Seq<char>, descriptor: Seq<char>, frame: FrameView) -> NativeView {
    if method_name == "abs"@ && descriptor == "(I)I"@ {
        NativeView { frame: frame.pop().push(frame.top().abs()), call: NativeCallView::Handled }
    } else {
        NativeView { frame, call: NativeCallView::Unhandled }
    }
}

/// Carries out the call of a method of `java/lang/Math`, if it is one that the
/// adapter takes.
pub fn invoke(method_name: &str, descriptor: &str, frame: &mut Frame) -> (call: NativeCall)
    ensures
        (NativeView { frame: final(frame)@, call: call@ }) == spec_invoke(
            method_name@,
            descriptor@,
            old(frame)@,
        ),
{
    if str_eq(method_name, "abs") && str_eq(descriptor, "(I)I") {
        let value = frame.pop();
        let _ = frame.push(value.abs());
        NativeCall::Handled
    } else {
        NativeCall::Unhandled
    }
}

} // verus!
