//! The adapter of `java/lang/System`.

use crate::native::{NativeCall, NativeCallView, NativeView};
use crate::runtime::frame::{Frame, FrameView};
use crate::runtime::heap::{HeapValue, HeapValueView};
use crate::text::str_eq;
use vstd::prelude::*;

verus! {

/// `currentTimeMillis()J` asks for the clock; no other method is taken.
pub open spec fn spec_invoke(method_name: Seq<char>, descriptor: Seq<char>, frame: FrameView) -> NativeView {
    if method_name == "currentTimeMillis"@ && descriptor == "()J"@ {
        NativeView { frame, call: NativeCallView::ReadClock }
    } else {
        NativeView { frame, call: NativeCallView::Unhandled }
    }
}

/// Carries out the call of a method of `java/lang/System`, if it is one that the
/// adapter takes.
pub fn invoke(method_name: &str, descriptor: &str, frame: &mut Frame) -> (call: NativeCall)
    ensures
        (NativeView { frame: final(frame)@, call: call@ }) == spec_invoke(
            method_name@,
            descriptor@,
            old(frame)@,
        ),
{
    if str_eq(method_name, "currentTimeMillis") && str_eq(descriptor, "()J") {
        NativeCall::ReadClock
    } else {
        NativeCall::Unhandled
    }
}

/// Completes `currentTimeMillis`: pushes `millis`, the milliseconds since
/// the epoch, as a `Long`.
pub fn push_time(frame: &mut Frame, millis: i64)
    ensures
        final(frame)@ == old(frame)@.push(HeapValueView::Long(millis)),
{
    let _ = frame.push(HeapValue::Long(millis));
}

} // verus!
