//! The native bridge: methods that the machine carries out itself in place
//! of running bytecode.
//!
//! An adapter changes the frame of the caller and says what is left to do
//! outside the machine: nothing, writing a line, or reading the clock.

pub mod java_io_printstream;
pub mod java_lang_math;
pub mod java_lang_system;

use crate::runtime::frame::{Frame, FrameView};
use crate::runtime::heap::{HeapValue, HeapValueView};
use crate::text::str_eq;
use vstd::prelude::*;

verus! {

/// What a call through the bridge came to.
#[derive(Debug, PartialEq)]
pub enum NativeCall {
    /// No adapter takes the method: the frame is as it was.
    Unhandled,
    /// An adapter took the method, and nothing is left to do.
    Handled,
    /// An adapter took the method: the value is to be written as a line to
    /// standard output.
    Print(HeapValue),
    /// An adapter took the method: the time is to be read and handed to
    /// `java_lang_system::push_time`.
    ReadClock,
}

/// The result of a call through the bridge as a mathematical value.
pub ghost enum NativeCallView {
    Unhandled,
    Handled,
    Print(HeapValueView),
    ReadClock,
}

impl View for NativeCall {
    type V = NativeCallView;

    open spec fn view(&self) -> NativeCallView {
        match *self {
            NativeCall::Unhandled => NativeCallView::Unhandled,
            NativeCall::Handled => NativeCallView::Handled,
            NativeCall::Print(value) => NativeCallView::Print(value@),
            NativeCall::ReadClock => NativeCallView::ReadClock,
        }
    }
}

/// A frame after a call through the bridge, and what the call came to.
pub ghost struct NativeView {
    pub frame: FrameView,
    pub call: NativeCallView,
}

/// What the bridge makes of a call of `class_name.method_name` with the
/// descriptor `descriptor`: what the adapter of that class makes of it, and
/// `Unhandled` for a class without adapter.
pub open spec fn spec_invoke_native(
    class_name: Seq<char>,
    method_name: Seq<char>,
    descriptor: Seq<char>,
    frame: FrameView,
) -> NativeView {
    if class_name == "java/lang/System"@ {
        java_lang_system::spec_invoke(method_name, descriptor, frame)
    } else if class_name == "java/lang/Math"@ {
        java_lang_math::spec_invoke(method_name, descriptor, frame)
    } else if class_name == "java/io/PrintStream"@ {
        java_io_printstream::spec_invoke(method_name, descriptor, frame)
    } else {
        NativeView { frame, call: NativeCallView::Unhandled }
    }
}

/// Hands a call of `class_name.method_name` to the adapter of its class.
pub fn invoke_native(class_name: &str, method_name: &str, descriptor: &str, frame: &mut Frame) -> (call:
    NativeCall)
    ensures
        (NativeView { frame: final(frame)@, call: call@ }) == spec_invoke_native(
            class_name@,
            method_name@,
            descriptor@,
            old(frame)@,
        ),
{
    if str_eq(class_name, "java/lang/System") {
        java_lang_system::invoke(method_name, descriptor, frame)
    } else if str_eq(class_name, "java/lang/Math") {
        java_lang_math::invoke(method_name, descriptor, frame)
    } else if str_eq(class_name, "java/io/PrintStream") {
        java_io_printstream::invoke(method_name, descriptor, frame)
    } else {
        NativeCall::Unhandled
    }
}

} // verus!
