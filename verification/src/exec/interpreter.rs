//! The interpreter: what one instruction does to a frame and the heap, and
//! the dispatch loop over the code of a method.

use crate::bytecode::parser::{
    ClassFile, ClassFileView, ConstantPoolEntry, ConstantPoolEntryView, MethodInfo,
};
use crate::exec::instructions::{spec_decode, Instruction};
use crate::native::{invoke_native, NativeCall};
use crate::runtime::frame::{Frame, FrameView};
use crate::runtime::gc::{collected, Gc};
use crate::runtime::heap::{Heap, HeapValue, HeapValueView, HeapView};
use crate::runtime::numeric::{div32, to_div32};
use crate::runtime::stack::Stack;
use crate::text::str_eq;
use vstd::prelude::*;

verus! {

/// How an instruction ended.
#[derive(Debug, Clone, Copy, PartialEq, Eq, Structural)]
pub enum Outcome {
    /// It was carried out.
    Done,
    /// It was carried out on an operand that is no number, which was read
    /// as 0.
    TypeError,
    /// The divisor was 0: both operands are gone and nothing was pushed.
    DivisionByZero,
    /// The constant-pool index of the instruction is 0, which names no
    /// entry: nothing was changed, and there is nothing to report.
    ZeroIndex,
    /// A constant-pool index led to no entry of the kind that the
    /// instruction needs: nothing was changed.
    Unresolved,
    /// An operand that the instruction needs is not there: a local past the
    /// locals, a value at the top of an empty stack, an object that is not
    /// one or not on the heap, a field that the object does not have.
    Skipped,
    /// The instruction needs a new object and the heap has run out of ids:
    /// nothing was changed.
    HeapFull,
    /// The machine does not carry this instruction out: nothing was changed.
    Unimplemented,
    /// The method returns: dispatch ends.
    Return,
    /// The opcode is not known or its operands are cut off: dispatch ends.
    Unknown(u8),
}

impl Outcome {
    /// Whether dispatch ends with this instruction.
    pub open spec fn ends_dispatch(self) -> bool {
        self is Return || self is Unknown
    }
}

/// A frame and a heap after an instruction, and how it ended.
pub ghost struct StepView {
    pub frame: FrameView,
    pub heap: HeapView,
    pub outcome: Outcome,
}

/// The step that leaves frame and heap as they are.
pub open spec fn unchanged(frame: FrameView, heap: HeapView, outcome: Outcome) -> StepView {
    StepView { frame, heap, outcome }
}

/// The step of an arithmetic instruction: the right operand is popped, then
/// the left one, both read as 32-bit integers, and the result is pushed.
/// Sum, difference and product wrap around. A division by 0 pushes nothing.
pub open spec fn arithmetic(instr: Instruction, frame: FrameView, heap: HeapView) -> StepView {
    let b = frame.top().as_int();
    let a = frame.pop().top().as_int();
    let rest = frame.pop().pop();
    let outcome = read_outcome(frame.top().is_numeric() && frame.pop().top().is_numeric());
    match instr {
        Instruction::IAdd => StepView {
            frame: rest.push(HeapValueView::Int(a.wrapping_add(b))),
            heap,
            outcome,
        },
        Instruction::ISub => StepView {
            frame: rest.push(HeapValueView::Int(a.wrapping_sub(b))),
            heap,
            outcome,
        },
        Instruction::IMul => StepView {
            frame: rest.push(HeapValueView::Int(a.wrapping_mul(b))),
            heap,
            outcome,
        },
        _ => if b == 0 {
            StepView { frame: rest, heap, outcome: Outcome::DivisionByZero }
        } else {
            StepView { frame: rest.push(HeapValueView::Int(div32(a, b))), heap, outcome }
        },
    }
}

/// How an instruction ends that read its operands as numbers: `Done` where
/// all of them were numbers, `TypeError` where one was not.
pub open spec fn read_outcome(numeric: bool) -> Outcome {
    if numeric {
        Outcome::Done
    } else {
        Outcome::TypeError
    }
}

/// The step of `Ldc`: a `String` entry pushes a reference to the interned
/// object of its text, a `Utf8` entry pushes its text itself.
pub open spec fn load_constant(class: ClassFileView, index: u16, frame: FrameView, heap: HeapView) -> StepView {
    match class.entry(index) {
        Some(ConstantPoolEntryView::String { string_index }) => match class.utf8(string_index) {
            Some(text) => if heap.can_intern(text) {
                StepView {
                    frame: frame.push(HeapValueView::Object(heap.alloc_string(text).1)),
                    heap: heap.alloc_string(text).0,
                    outcome: Outcome::Done,
                }
            } else {
                unchanged(frame, heap, Outcome::HeapFull)
            },
            None => unchanged(frame, heap, Outcome::Unresolved),
        },
        Some(ConstantPoolEntryView::Utf8(text)) => StepView {
            frame: frame.push(HeapValueView::String(text)),
            heap,
            outcome: Outcome::Done,
        },
        _ => unchanged(frame, heap, Outcome::Unresolved),
    }
}

/// The step of `GetField`: the reference is popped and the value of the
/// field of its object is pushed.
pub open spec fn get_field(class: ClassFileView, index: u16, frame: FrameView, heap: HeapView) -> StepView {
    match class.field_name(index) {
        Some(name) => match frame.top() {
            HeapValueView::Object(id) => match heap.get_field(id, name) {
                Some(value) => StepView {
                    frame: frame.pop().push(value),
                    heap,
                    outcome: Outcome::Done,
                },
                None => StepView { frame: frame.pop(), heap, outcome: Outcome::Skipped },
            },
            _ => StepView { frame: frame.pop(), heap, outcome: Outcome::Skipped },
        },
        None => unchanged(frame, heap, Outcome::Unresolved),
    }
}

/// The step of `PutField`: the value is popped, then the reference, and
/// the value is written to the field of the object on the heap.
pub open spec fn put_field(class: ClassFileView, index: u16, frame: FrameView, heap: HeapView) -> StepView {
    match class.field_name(index) {
        Some(name) => {
            let value = frame.top();
            let rest = frame.pop().pop();
            match frame.pop().top() {
                HeapValueView::Object(id) => if heap.objects.contains_key(id) {
                    StepView { frame: rest, heap: heap.set_field(id, name, value), outcome: Outcome::Done }
                } else {
                    StepView { frame: rest, heap, outcome: Outcome::Skipped }
                },
                _ => StepView { frame: rest, heap, outcome: Outcome::Skipped },
            }
        },
        None => unchanged(frame, heap, Outcome::Unresolved),
    }
}

/// The constant-pool index that an instruction names, if it names one.
pub open spec fn pool_operand(instr: Instruction) -> Option<u16> {
    match instr {
        Instruction::New(index) => Some(index),
        Instruction::Ldc(index) => Some(index as u16),
        Instruction::GetField(index) => Some(index),
        Instruction::PutField(index) => Some(index),
        Instruction::GetStatic(index) => Some(index),
        Instruction::InvokeVirtual(index) => Some(index),
        Instruction::InvokeStatic(index) => Some(index),
        Instruction::InvokeSpecial(index) => Some(index),
        _ => None,
    }
}

/// What the instruction `instr` of a method of `class` makes of a frame and
/// a heap. An instruction that names the constant-pool index 0 changes
/// nothing.
pub open spec fn step(class: ClassFileView, instr: Instruction, frame: FrameView, heap: HeapView) -> StepView {
    if pool_operand(instr) == Some(0u16) {
        unchanged(frame, heap, Outcome::ZeroIndex)
    } else {
        step_resolved(class, instr, frame, heap)
    }
}

/// What an instruction that does not name the constant-pool index 0 makes
/// of a frame and a heap.
pub open spec fn step_resolved(
    class: ClassFileView,
    instr: Instruction,
    frame: FrameView,
    heap: HeapView,
) -> StepView {
    match instr {
        Instruction::New(index) => match class.class_name(index) {
            Some(name) => if heap.is_full() {
                unchanged(frame, heap, Outcome::HeapFull)
            } else {
                StepView {
                    frame: frame.push(HeapValueView::Object(heap.alloc_object(name).1)),
                    heap: heap.alloc_object(name).0,
                    outcome: Outcome::Done,
                }
            },
            None => unchanged(frame, heap, Outcome::Unresolved),
        },
        Instruction::Dup => match frame.peek() {
            Some(top) => StepView { frame: frame.push(top), heap, outcome: Outcome::Done },
            None => unchanged(frame, heap, Outcome::Skipped),
        },
        Instruction::Pop => StepView { frame: frame.pop(), heap, outcome: Outcome::Done },
        Instruction::AStore(index) | Instruction::IStore(index) => StepView {
            frame: frame.pop().set_local(index as int, frame.top()),
            heap,
            outcome: Outcome::Done,
        },
        Instruction::ALoad(index) | Instruction::ILoad(index) => match frame.get_local(
            index as int,
        ) {
            Some(value) => StepView { frame: frame.push(value), heap, outcome: Outcome::Done },
            None => unchanged(frame, heap, Outcome::Skipped),
        },
        Instruction::IConst(v) => StepView {
            frame: frame.push(HeapValueView::Int(v)),
            heap,
            outcome: Outcome::Done,
        },
        Instruction::BiPush(v) => StepView {
            frame: frame.push(HeapValueView::Int(v as i32)),
            heap,
            outcome: Outcome::Done,
        },
        Instruction::SiPush(v) => StepView {
            frame: frame.push(HeapValueView::Int(v as i32)),
            heap,
            outcome: Outcome::Done,
        },
        Instruction::IAdd | Instruction::ISub | Instruction::IMul | Instruction::IDiv => arithmetic(
            instr,
            frame,
            heap,
        ),
        Instruction::IInc(index, delta) => match frame.get_local(index as int) {
            Some(value) => StepView {
                frame: frame.set_local(
                    index as int,
                    HeapValueView::Int(value.as_int().wrapping_add(delta as i32)),
                ),
                heap,
                outcome: read_outcome(value.is_numeric()),
            },
            None => unchanged(frame, heap, Outcome::Skipped),
        },
        Instruction::Ldc(index) => load_constant(class, index as u16, frame, heap),
        Instruction::GetField(index) => get_field(class, index, frame, heap),
        Instruction::PutField(index) => put_field(class, index, frame, heap),
        Instruction::GetStatic(index) => match class.entry(index) {
            Some(ConstantPoolEntryView::FieldRef { class_index, name_and_type_index }) => unchanged(
                frame,
                heap,
                Outcome::Done,
            ),
            _ => unchanged(frame, heap, Outcome::Unresolved),
        },
        Instruction::Return => unchanged(frame, heap, Outcome::Return),
        Instruction::Unknown(opcode) => unchanged(frame, heap, Outcome::Unknown(opcode)),
        _ => unchanged(frame, heap, Outcome::Unimplemented),
    }
}

/// No instruction touches the program counter of the frame or the depth
/// that the method declared for its stack.
pub proof fn lemma_step_keeps_limits(
    class: ClassFileView,
    instr: Instruction,
    frame: FrameView,
    heap: HeapView,
)
    ensures
        step(class, instr, frame, heap).frame.pc == frame.pc,
        step(class, instr, frame, heap).frame.max_stack == frame.max_stack,
{
}

/// An arithmetic instruction on a stack of two values or more leaves the
/// stack one value shorter: it pops two and pushes one. A division by 0
/// pushes nothing and leaves the stack two values shorter.
pub proof fn lemma_arithmetic_depth(
    class: ClassFileView,
    instr: Instruction,
    frame: FrameView,
    heap: HeapView,
)
    requires
        instr == Instruction::IAdd || instr == Instruction::ISub || instr == Instruction::IMul
            || instr == Instruction::IDiv,
        frame.stack.len() >= 2,
    ensures
        ({
            let after = step(class, instr, frame, heap);
            if instr == Instruction::IDiv && frame.top().as_int() == 0 {
                &&& after.frame.stack.len() == frame.stack.len() - 2
                &&& after.outcome == Outcome::DivisionByZero
            } else {
                &&& after.frame.stack.len() == frame.stack.len() - 1
                &&& after.outcome == read_outcome(
                    frame.top().is_numeric() && frame.pop().top().is_numeric(),
                )
            }
        }),
        step(class, instr, frame, heap).heap == heap,
        step(class, instr, frame, heap).frame.locals == frame.locals,
{
}

/// The number of objects on the heap above which the simple entry point
/// collects after an instruction.
pub const GC_THRESHOLD: usize = 128;

/// The heap after the check that follows an instruction in the simple entry
/// point: above the threshold, what a collection with `frame` as the only
/// frame leaves of it.
pub open spec fn after_check(frame: FrameView, heap: HeapView) -> HeapView {
    if heap.objects.dom().len() > GC_THRESHOLD {
        collected(heap, seq![frame])
    } else {
        heap
    }
}

/// Where a dispatch loop stands when it ends: the frame, its program
/// counter behind the last instruction that was decoded, the heap, and how
/// each instruction ended, in their order.
pub ghost struct RunView {
    pub frame: FrameView,
    pub heap: HeapView,
    pub trace: Seq<Outcome>,
}

/// `frame` with the program counter `pc`.
pub open spec fn at_pc(frame: FrameView, pc: int) -> FrameView {
    FrameView { pc: pc as usize, ..frame }
}

/// The dispatch loop of the simple entry point over `code`, from the
/// program counter `pc`: instruction after instruction is decoded and
/// carried out, each followed by the heap check, until the code ends or an
/// instruction ends dispatch.
pub open spec fn run(class: ClassFileView, code: Seq<u8>, pc: int, frame: FrameView, heap: HeapView) -> RunView
    decreases code.len() - pc,
{
    if pc < 0 || pc >= code.len() {
        RunView { frame: at_pc(frame, pc), heap, trace: Seq::empty() }
    } else {
        let (instr, next) = spec_decode(code, pc);
        let s = step(class, instr, frame, heap);
        if s.outcome.ends_dispatch() {
            RunView { frame: at_pc(s.frame, next), heap: s.heap, trace: seq![s.outcome] }
        } else {
            let rest = run(class, code, next, s.frame, after_check(s.frame, s.heap));
            RunView { trace: seq![s.outcome] + rest.trace, ..rest }
        }
    }
}

/// The run `rest` behind the instructions that ended as `done` says.
pub open spec fn run_after(done: Seq<Outcome>, rest: RunView) -> RunView {
    RunView { trace: done + rest.trace, ..rest }
}

/// The name of a method: the text that its name index leads to, the empty
/// text where it leads to none.
pub open spec fn method_name(class: ClassFileView, index: int) -> Seq<char> {
    match class.utf8(class.methods[index].name_index) {
        Some(name) => name,
        None => Seq::empty(),
    }
}

/// The index of the first method of `class`, from `start` on, whose name is
/// `name`.
pub open spec fn find_method_from(class: ClassFileView, name: Seq<char>, start: int) -> Option<int>
    decreases class.methods.len() - start,
{
    if start < 0 || start >= class.methods.len() {
        None
    } else if method_name(class, start) == name {
        Some(start)
    } else {
        find_method_from(class, name, start + 1)
    }
}

/// The index of the first method of `class` whose name is `name`.
pub open spec fn find_method(class: ClassFileView, name: Seq<char>) -> Option<int> {
    find_method_from(class, name, 0)
}

/// Why the simple entry point ran nothing.
#[derive(Debug, Clone, Copy, PartialEq, Eq, Structural)]
pub enum ExecuteError {
    /// The class has no method named `main`.
    NoMain,
    /// The method `main` has no code.
    NoCode,
}

/// What the simple entry point leaves behind.
pub struct Execution {
    /// The frame of `main` when dispatch ended, its program counter behind
    /// the last instruction that was decoded.
    pub frame: Frame,
    /// The heap when dispatch ended.
    pub heap: Heap,
    /// How each instruction ended, in their order.
    pub trace: Vec<Outcome>,
}

impl Execution {
    /// The execution as a mathematical value.
    pub open spec fn run_view(&self) -> RunView {
        RunView { frame: self.frame@, heap: self.heap@, trace: self.trace@ }
    }
}

/// What is left to do outside the machine when the loop of the full entry
/// point stops.
#[derive(Debug, PartialEq)]
pub enum Action {
    /// The method is over. The value is what it returned: the top of its
    /// stack at `Return`, and nothing where the stack was empty or the
    /// method ended otherwise.
    Finished(Option<HeapValue>),
    /// A native method wrote this value as a line to standard output.
    /// Resume with `Event::Resume`.
    Print(HeapValue),
    /// A native method asks for the time. Resume with `Event::Clock`.
    ReadClock,
    /// The code invokes a method that no native adapter takes: the class is
    /// to be loaded and the method run on the same heap, whatever it
    /// returns being dropped. Resume with `Event::Resume`, also where the
    /// class could not be loaded.
    Invoke { class_name: String, method_name: String, descriptor: String },
}

/// An action as a mathematical value.
pub ghost enum ActionView {
    Finished(Option<HeapValueView>),
    Print(HeapValueView),
    ReadClock,
    Invoke { class_name: Seq<char>, method_name: Seq<char>, descriptor: Seq<char> },
}

impl View for Action {
    type V = ActionView;

    open spec fn view(&self) -> ActionView {
        match *self {
            Action::Finished(value) => ActionView::Finished(
                match value {
                    Some(value) => Some(value@),
                    None => None,
                },
            ),
            Action::Print(value) => ActionView::Print(value@),
            Action::ReadClock => ActionView::ReadClock,
            Action::Invoke { class_name, method_name, descriptor } => ActionView::Invoke {
                class_name: class_name@,
                method_name: method_name@,
                descriptor: descriptor@,
            },
        }
    }
}

/// What the full entry point is called with.
#[derive(Debug, Clone, Copy, PartialEq, Eq, Structural)]
pub enum Event {
    /// The method is to be entered: a fresh frame goes on the stack.
    Start,
    /// What the last action asked for was done: the current frame goes on.
    Resume,
    /// The time was read: this many milliseconds since the epoch go on the
    /// stack of the current frame, which then goes on.
    Clock(i64),
}

/// Where the loop of the full entry point stands when it stops.
pub ghost struct Suspension {
    pub frame: FrameView,
    pub heap: HeapView,
    pub trace: Seq<Outcome>,
    pub action: ActionView,
}

/// The suspension `rest` behind an instruction that ended as `outcome`.
pub open spec fn then(outcome: Outcome, rest: Suspension) -> Suspension {
    Suspension { trace: seq![outcome] + rest.trace, ..rest }
}

/// The suspension `rest` behind the instructions that ended as `done` says.
pub open spec fn suspension_after(done: Seq<Outcome>, rest: Suspension) -> Suspension {
    Suspension { trace: done + rest.trace, ..rest }
}

/// What an invoke instruction with the operand `index` makes of frame and
/// heap, where `rest` is how the loop goes on behind it. The native bridge
/// is asked first; what it does not take is left to the caller.
pub open spec fn invoke(
    class: ClassFileView,
    index: u16,
    next: int,
    frame: FrameView,
    heap: HeapView,
) -> Option<Suspension> {
    match class.method_ref(index) {
        None => None,
        Some((class_name, method_name, descriptor)) => {
            let native = crate::native::spec_invoke_native(
                class_name,
                method_name,
                descriptor,
                frame,
            );
            let action = match native.call {
                crate::native::NativeCallView::Unhandled => Some(
                    ActionView::Invoke { class_name, method_name, descriptor },
                ),
                crate::native::NativeCallView::Handled => None,
                crate::native::NativeCallView::Print(value) => Some(ActionView::Print(value)),
                crate::native::NativeCallView::ReadClock => Some(ActionView::ReadClock),
            };
            match action {
                Some(action) => Some(
                    Suspension {
                        frame: at_pc(native.frame, next),
                        heap,
                        trace: seq![Outcome::Done],
                        action,
                    },
                ),
                None => None,
            }
        },
    }
}

/// The frame that the loop goes on with behind an invoke instruction that
/// did not stop it, and how that instruction ended.
pub open spec fn invoke_passed(class: ClassFileView, index: u16, frame: FrameView) -> (
    FrameView,
    Outcome,
) {
    match class.method_ref(index) {
        None => (
            frame,
            if index == 0 {
                Outcome::ZeroIndex
            } else {
                Outcome::Unresolved
            },
        ),
        Some((class_name, method_name, descriptor)) => (
            crate::native::spec_invoke_native(class_name, method_name, descriptor, frame).frame,
            Outcome::Done,
        ),
    }
}

/// The operand of an invoke instruction.
pub open spec fn invoke_operand(instr: Instruction) -> Option<u16> {
    match instr {
        Instruction::InvokeStatic(index) => Some(index),
        Instruction::InvokeVirtual(index) => Some(index),
        Instruction::InvokeSpecial(index) => Some(index),
        _ => None,
    }
}

/// The loop of the full entry point over `code`, from the program counter
/// `pc`, up to where it stops: at the end of the method, or at an action
/// that the caller has to carry out. The heap is not collected.
pub open spec fn dispatch(
    class: ClassFileView,
    code: Seq<u8>,
    pc: int,
    frame: FrameView,
    heap: HeapView,
) -> Suspension
    decreases code.len() - pc,
{
    if pc < 0 || pc >= code.len() {
        Suspension {
            frame: at_pc(frame, pc),
            heap,
            trace: Seq::empty(),
            action: ActionView::Finished(None),
        }
    } else {
        let (instr, next) = spec_decode(code, pc);
        match invoke_operand(instr) {
            Some(index) => match invoke(class, index, next, frame, heap) {
                Some(suspension) => suspension,
                None => then(
                    invoke_passed(class, index, frame).1,
                    dispatch(class, code, next, invoke_passed(class, index, frame).0, heap),
                ),
            },
            None => {
                let s = step(class, instr, frame, heap);
                if s.outcome is Return {
                    Suspension {
                        frame: at_pc(s.frame, next),
                        heap: s.heap,
                        trace: seq![s.outcome],
                        action: ActionView::Finished(frame.peek()),
                    }
                } else if s.outcome is Unknown {
                    Suspension {
                        frame: at_pc(s.frame, next),
                        heap: s.heap,
                        trace: seq![s.outcome],
                        action: ActionView::Finished(None),
                    }
                } else {
                    then(s.outcome, dispatch(class, code, next, s.frame, s.heap))
                }
            },
        }
    }
}

/// The code of the first method of `class` named `name`, if there is such
/// a method and it has code.
pub open spec fn method_code(class: ClassFileView, name: Seq<char>) -> Option<
    crate::bytecode::parser::CodeAttributeView,
> {
    match find_method(class, name) {
        Some(index) => class.methods[index].code,
        None => None,
    }
}

/// The frame that goes on when the full entry point is called with `event`
/// on `stack`, and the frames that stay below it; nothing where the event
/// needs a current frame and there is none.
pub open spec fn entering(
    code: crate::bytecode::parser::CodeAttributeView,
    stack: Seq<FrameView>,
    event: Event,
) -> Option<(Seq<FrameView>, FrameView)> {
    match event {
        Event::Start => Some(
            (stack, FrameView::fresh(code.max_locals as usize, code.max_stack as usize)),
        ),
        Event::Resume => if stack.len() > 0 {
            Some((stack.drop_last(), stack.last()))
        } else {
            None
        },
        Event::Clock(millis) => if stack.len() > 0 {
            Some((stack.drop_last(), stack.last().push(HeapValueView::Long(millis))))
        } else {
            None
        },
    }
}

/// Stack, heap and trace after a call of the full entry point, and the
/// action it gave.
pub ghost struct MethodStep {
    pub stack: Seq<FrameView>,
    pub heap: HeapView,
    pub trace: Seq<Outcome>,
    pub action: ActionView,
}

/// What a call of the full entry point makes of stack and heap.
///
/// Where the class has no method of that name, the method has no code, or
/// the event needs a current frame and the stack is empty, nothing changes
/// and the method is finished without a value. Else the frame that the
/// event names is run up to where the loop stops. A finished method leaves
/// its frame off the stack; a method that waits for its caller leaves it
/// on top, the program counter behind the instruction that stopped it.
pub open spec fn spec_execute_method(
    class: ClassFileView,
    name: Seq<char>,
    stack: Seq<FrameView>,
    heap: HeapView,
    event: Event,
) -> MethodStep {
    let nothing = MethodStep {
        stack,
        heap,
        trace: Seq::empty(),
        action: ActionView::Finished(None),
    };
    match method_code(class, name) {
        None => nothing,
        Some(code) => match entering(code, stack, event) {
            None => nothing,
            Some((below, frame)) => {
                let stop = dispatch(class, code.code, frame.pc as int, frame, heap);
                MethodStep {
                    stack: if stop.action is Finished {
                        below
                    } else {
                        below.push(stop.frame)
                    },
                    heap: stop.heap,
                    trace: stop.trace,
                    action: stop.action,
                }
            },
        },
    }
}

/// What the simple entry point makes of `class`: the run of the code of
/// its first method named `main`, in a fresh frame of the size that the
/// code asks for, on an empty heap.
pub open spec fn spec_execute(class: ClassFileView) -> Result<RunView, ExecuteError> {
    match find_method(class, "main"@) {
        None => Err(ExecuteError::NoMain),
        Some(index) => match class.methods[index].code {
            None => Err(ExecuteError::NoCode),
            Some(code) => Ok(
                run(
                    class,
                    code.code,
                    0,
                    FrameView::fresh(code.max_locals as usize, code.max_stack as usize),
                    HeapView::empty(),
                ),
            ),
        },
    }
}

/// The interpreter.
pub struct Interpreter {
    debug_mode: bool,
}

impl Interpreter {
    /// An interpreter. `debug_mode` has no part in what is computed.
    pub fn new(debug_mode: bool) -> (interpreter: Interpreter)
        ensures
            interpreter.debug_mode() == debug_mode,
    {
        Interpreter { debug_mode }
    }

    /// Whether the interpreter was made for debugging.
    pub closed spec fn debug_mode(&self) -> bool {
        self.debug_mode
    }

    /// Whether the interpreter was made for debugging.
    pub fn is_debug(&self) -> (b: bool)
        ensures
            b == self.debug_mode(),
    {
        self.debug_mode
    }

    fn exec_arithmetic(frame: &mut Frame, instr: Instruction, Ghost(heap): Ghost<HeapView>) -> (outcome:
        Outcome)
        requires
            instr == Instruction::IAdd || instr == Instruction::ISub || instr == Instruction::IMul
                || instr == Instruction::IDiv,
        ensures
            (StepView { frame: final(frame)@, heap, outcome }) == arithmetic(
                instr,
                old(frame)@,
                heap,
            ),
    {
        let right = frame.pop();
        let left = frame.pop();
        let b = right.as_int();
        let a = left.as_int();
        let outcome = if right.is_numeric() && left.is_numeric() {
            Outcome::Done
        } else {
            Outcome::TypeError
        };
        match instr {
            Instruction::IAdd => {
                let _ = frame.push(HeapValue::Int(a.wrapping_add(b)));
                outcome
            },
            Instruction::ISub => {
                let _ = frame.push(HeapValue::Int(a.wrapping_sub(b)));
                outcome
            },
            Instruction::IMul => {
                let _ = frame.push(HeapValue::Int(a.wrapping_mul(b)));
                outcome
            },
            _ => {
                if b == 0 {
                    Outcome::DivisionByZero
                } else {
                    let _ = frame.push(HeapValue::Int(to_div32(a, b)));
                    outcome
                }
            },
        }
    }

    /// Carries out `instr` on `frame` and `heap`.
    pub fn exec_instr(frame: &mut Frame, heap: &mut Heap, class: &ClassFile, instr: Instruction) -> (outcome:
        Outcome)
        requires
            old(heap).wf(),
        ensures
            final(heap).wf(),
            (StepView { frame: final(frame)@, heap: final(heap)@, outcome }) == step(
                class@,
                instr,
                old(frame)@,
                old(heap)@,
            ),
    {
        let zero = match instr {
            Instruction::New(index) => index == 0,
            Instruction::Ldc(index) => index == 0,
            Instruction::GetField(index) => index == 0,
            Instruction::PutField(index) => index == 0,
            Instruction::GetStatic(index) => index == 0,
            Instruction::InvokeVirtual(index) => index == 0,
            Instruction::InvokeStatic(index) => index == 0,
            Instruction::InvokeSpecial(index) => index == 0,
            _ => false,
        };
        if zero {
            return Outcome::ZeroIndex;
        }
        match instr {
            Instruction::New(index) => match class.get_class_name(index) {
                Some(name) => {
                    if heap.is_full() {
                        Outcome::HeapFull
                    } else {
                        let id = heap.alloc_object(name);
                        let _ = frame.push(HeapValue::Object(id));
                        Outcome::Done
                    }
                },
                None => Outcome::Unresolved,
            },
            Instruction::Dup => {
                let top = match frame.peek() {
                    Some(top) => Some(top.clone()),
                    None => None,
                };
                match top {
                    Some(top) => {
                        let _ = frame.push(top);
                        Outcome::Done
                    },
                    None => Outcome::Skipped,
                }
            },
            Instruction::Pop => {
                let _ = frame.pop();
                Outcome::Done
            },
            Instruction::AStore(index) | Instruction::IStore(index) => {
                let value = frame.pop();
                frame.set_local(index as usize, value);
                Outcome::Done
            },
            Instruction::ALoad(index) | Instruction::ILoad(index) => {
                let local = match frame.get_local(index as usize) {
                    Some(value) => Some(value.clone()),
                    None => None,
                };
                match local {
                    Some(value) => {
                        let _ = frame.push(value);
                        Outcome::Done
                    },
                    None => Outcome::Skipped,
                }
            },
            Instruction::IConst(v) => {
                let _ = frame.push(HeapValue::Int(v));
                Outcome::Done
            },
            Instruction::BiPush(v) => {
                let _ = frame.push(HeapValue::Int(v as i32));
                Outcome::Done
            },
            Instruction::SiPush(v) => {
                let _ = frame.push(HeapValue::Int(v as i32));
                Outcome::Done
            },
            Instruction::IAdd | Instruction::ISub | Instruction::IMul | Instruction::IDiv => {
                Self::exec_arithmetic(frame, instr, Ghost(heap@))
            },
            Instruction::IInc(index, delta) => {
                let sum = match frame.get_local(index as usize) {
                    Some(value) => Some(
                        (value.as_int().wrapping_add(delta as i32), value.is_numeric()),
                    ),
                    None => None,
                };
                match sum {
                    Some((sum, numeric)) => {
                        frame.set_local(index as usize, HeapValue::Int(sum));
                        if numeric {
                            Outcome::Done
                        } else {
                            Outcome::TypeError
                        }
                    },
                    None => Outcome::Skipped,
                }
            },
            Instruction::Ldc(index) => Self::exec_load_constant(frame, heap, class, index as u16),
            Instruction::GetField(index) => Self::exec_get_field(frame, heap, class, index),
            Instruction::PutField(index) => Self::exec_put_field(frame, heap, class, index),
            Instruction::GetStatic(index) => match class.entry(index) {
                Some(ConstantPoolEntry::FieldRef { class_index, name_and_type_index }) => Outcome::Done,
                _ => Outcome::Unresolved,
            },
            Instruction::Return => Outcome::Return,
            Instruction::Unknown(opcode) => Outcome::Unknown(opcode),
            _ => Outcome::Unimplemented,
        }
    }

    fn exec_load_constant(frame: &mut Frame, heap: &mut Heap, class: &ClassFile, index: u16) -> (outcome:
        Outcome)
        requires
            old(heap).wf(),
        ensures
            final(heap).wf(),
            (StepView { frame: final(frame)@, heap: final(heap)@, outcome }) == load_constant(
                class@,
                index,
                old(frame)@,
                old(heap)@,
            ),
    {
        match class.entry(index) {
            Some(ConstantPoolEntry::String { string_index }) => match class.get_utf8(*string_index) {
                Some(text) => {
                    if heap.is_full() && heap.interned(text).is_none() {
                        Outcome::HeapFull
                    } else {
                        let object = heap.alloc_string(text);
                        let _ = frame.push(object);
                        Outcome::Done
                    }
                },
                None => Outcome::Unresolved,
            },
            Some(ConstantPoolEntry::Utf8(text)) => {
                let _ = frame.push(HeapValue::String(text.clone()));
                Outcome::Done
            },
            _ => Outcome::Unresolved,
        }
    }

    fn exec_get_field(frame: &mut Frame, heap: &mut Heap, class: &ClassFile, index: u16) -> (outcome:
        Outcome)
        requires
            old(heap).wf(),
        ensures
            final(heap).wf(),
            (StepView { frame: final(frame)@, heap: final(heap)@, outcome }) == get_field(
                class@,
                index,
                old(frame)@,
                old(heap)@,
            ),
    {
        match class.get_field_name(index) {
            Some(name) => {
                let reference = frame.pop();
                let value = match reference {
                    HeapValue::Object(id) => match heap.get(id) {
                        Some(object) => match object.get_field(name) {
                            Some(value) => Some(value.clone()),
                            None => None,
                        },
                        None => None,
                    },
                    _ => None,
                };
                match value {
                    Some(value) => {
                        let _ = frame.push(value);
                        Outcome::Done
                    },
                    None => Outcome::Skipped,
                }
            },
            None => Outcome::Unresolved,
        }
    }

    fn exec_put_field(frame: &mut Frame, heap: &mut Heap, class: &ClassFile, index: u16) -> (outcome:
        Outcome)
        requires
            old(heap).wf(),
        ensures
            final(heap).wf(),
            (StepView { frame: final(frame)@, heap: final(heap)@, outcome }) == put_field(
                class@,
                index,
                old(frame)@,
                old(heap)@,
            ),
    {
        match class.get_field_name(index) {
            Some(name) => {
                let value = frame.pop();
                let reference = frame.pop();
                match reference {
                    HeapValue::Object(id) => {
                        if heap.set_field(id, name, value) {
                            Outcome::Done
                        } else {
                            Outcome::Skipped
                        }
                    },
                    _ => Outcome::Skipped,
                }
            },
            None => Outcome::Unresolved,
        }
    }

    /// The index of the first method of `class` whose name is `name`.
    pub fn find_method(class: &ClassFile, name: &str) -> (r: Option<usize>)
        ensures
            match find_method(class@, name@) {
                Some(index) => r == Some(index as usize) && 0 <= index < class.methods.len(),
                None => r is None,
            },
    {
        let mut i: usize = 0;
        while i < class.methods.len()
            invariant
                i <= class.methods.len(),
                find_method(class@, name@) == find_method_from(class@, name@, i as int),
            decreases class.methods.len() - i,
        {
            assert(class@.methods[i as int] == class.methods[i as int]@);
            let method_name = match class.get_utf8(class.methods[i].name_index) {
                Some(method_name) => method_name,
                None => "",
            };
            proof {
                reveal_strlit("");
                assert(""@ =~= Seq::<char>::empty());
            }
            if str_eq(method_name, name) {
                return Some(i);
            }
            i += 1;
        }
        None
    }

    /// Runs the dispatch loop of the simple entry point over `code` from
    /// the program counter of the frame `start`, gives the frame as the
    /// loop leaves it, and adds to `trace` how each instruction ended.
    pub fn run_code(
        &self,
        class: &ClassFile,
        code: &Vec<u8>,
        start: Frame,
        heap: &mut Heap,
        trace: &mut Vec<Outcome>,
    ) -> (after: Frame)
        requires
            old(heap).wf(),
        ensures
            final(heap).wf(),
            ({
                let r = run(class@, code@, start.pc as int, start@, old(heap)@);
                &&& after@ == r.frame
                &&& final(heap)@ == r.heap
                &&& final(trace)@ == old(trace)@ + r.trace
            }),
    {
        let gc = Gc::new(self.debug_mode);
        let mut frame = start;
        let mut pc: usize = frame.pc;
        let ghost whole = run(class@, code@, pc as int, frame@, heap@);
        let ghost mut done: Seq<Outcome> = Seq::empty();
        assert(done + whole.trace =~= whole.trace);
        while pc < code.len()
            invariant
                heap.wf(),
                trace@ == old(trace)@ + done,
                whole == run(class@, code@, start.pc as int, start@, old(heap)@),
                run_after(done, run(class@, code@, pc as int, frame@, heap@)) == whole,
            decreases code.len() - pc,
        {
            let ghost before_pc = pc as int;
            let ghost before_frame = frame@;
            let ghost before_heap = heap@;
            let instr = Instruction::from_bytecode(code.as_slice(), &mut pc);
            let outcome = Self::exec_instr(&mut frame, heap, class, instr);
            trace.push(outcome);
            let ghost s = step(class@, instr, before_frame, before_heap);
            proof {
                lemma_step_keeps_limits(class@, instr, before_frame, before_heap);
            }
            match outcome {
                Outcome::Return | Outcome::Unknown(_) => {
                    proof {
                        assert(done + seq![outcome] =~= done.push(outcome));
                        assert(trace@ =~= old(trace)@ + (done + seq![outcome]));
                    }
                    frame.pc = pc;
                    return frame;
                },
                _ => {},
            }
            if heap.object_count() > GC_THRESHOLD {
                let mut stack = Stack::new();
                stack.push_frame(frame);
                assert(stack@ =~= seq![s.frame]);
                gc.collect(heap, &stack);
                frame = stack.pop_frame().unwrap();
            }
            proof {
                let rest = run(class@, code@, pc as int, frame@, heap@);
                assert(done + (seq![outcome] + rest.trace) =~= done.push(outcome) + rest.trace);
                assert(trace@ =~= old(trace)@ + done.push(outcome));
                done = done.push(outcome);
            }
        }
        proof {
            assert(done + Seq::<Outcome>::empty() =~= done);
        }
        frame.pc = pc;
        frame
    }

    /// The simple entry point: runs the first method of `class` named
    /// `main` in one frame, on a heap of its own, without invoking other
    /// methods.
    pub fn execute(&self, class: &ClassFile) -> (r: Result<Execution, ExecuteError>)
        ensures
            match spec_execute(class@) {
                Ok(run) => r is Ok && r->Ok_0.run_view() == run && r->Ok_0.heap.wf(),
                Err(error) => r is Err && r->Err_0 == error,
            },
    {
        let index = match Self::find_method(class, "main") {
            Some(index) => index,
            None => {
                return Err(ExecuteError::NoMain);
            },
        };
        let method: &MethodInfo = &class.methods[index];
        assert(class@.methods[index as int] == method@);
        match &method.code {
            Some(code) => {
                let frame = Frame::new(code.max_locals as usize, code.max_stack as usize);
                let mut heap = Heap::new();
                let mut trace: Vec<Outcome> = Vec::new();
                let frame = self.run_code(class, &code.code, frame, &mut heap, &mut trace);
                assert(trace@ =~= Seq::<Outcome>::empty() + trace@);
                Ok(Execution { frame, heap, trace })
            },
            None => Err(ExecuteError::NoCode),
        }
    }

    /// Carries out an invoke instruction with the operand `index`: asks
    /// the native bridge, and gives the action that stops the loop, if the
    /// instruction stops it, with how the instruction ended.
    fn exec_invoke(frame: &mut Frame, class: &ClassFile, index: u16, Ghost(next): Ghost<int>, Ghost(
        heap,
    ): Ghost<HeapView>) -> (r: (Option<Action>, Outcome))
        ensures
            match invoke(class@, index, next, old(frame)@, heap) {
                Some(suspension) => r.0 is Some && r.0->Some_0@ == suspension.action && at_pc(
                    final(frame)@,
                    next,
                ) == suspension.frame && r.1 == Outcome::Done,
                None => r.0 is None && (final(frame)@, r.1) == invoke_passed(
                    class@,
                    index,
                    old(frame)@,
                ),
            },
    {
        match class.get_method_ref(index) {
            None => (
                None,
                if index == 0 {
                    Outcome::ZeroIndex
                } else {
                    Outcome::Unresolved
                },
            ),
            Some((class_name, method_name, descriptor)) => {
                match invoke_native(class_name, method_name, descriptor, frame) {
                    NativeCall::Unhandled => (
                        Some(
                            Action::Invoke {
                                class_name: class_name.to_owned(),
                                method_name: method_name.to_owned(),
                                descriptor: descriptor.to_owned(),
                            },
                        ),
                        Outcome::Done,
                    ),
                    NativeCall::Handled => (None, Outcome::Done),
                    NativeCall::Print(value) => (Some(Action::Print(value)), Outcome::Done),
                    NativeCall::ReadClock => (Some(Action::ReadClock), Outcome::Done),
                }
            },
        }
    }

    /// Runs the loop of the full entry point over `code` from the program
    /// counter of the frame `start` up to where it stops, gives the frame as
    /// the loop leaves it with the action, and adds to `trace` how each
    /// instruction ended.
    pub fn resume_frame(
        &self,
        class: &ClassFile,
        code: &Vec<u8>,
        start: Frame,
        heap: &mut Heap,
        trace: &mut Vec<Outcome>,
    ) -> (r: (Frame, Action))
        requires
            old(heap).wf(),
        ensures
            final(heap).wf(),
            ({
                let stop = dispatch(class@, code@, start.pc as int, start@, old(heap)@);
                &&& r.0@ == stop.frame
                &&& r.1@ == stop.action
                &&& final(heap)@ == stop.heap
                &&& final(trace)@ == old(trace)@ + stop.trace
            }),
    {
        let mut frame = start;
        let mut pc: usize = frame.pc;
        let ghost whole = dispatch(class@, code@, pc as int, frame@, heap@);
        let ghost mut done: Seq<Outcome> = Seq::empty();
        assert(done + whole.trace =~= whole.trace);
        while pc < code.len()
            invariant
                heap.wf(),
                trace@ == old(trace)@ + done,
                whole == dispatch(class@, code@, start.pc as int, start@, old(heap)@),
                suspension_after(done, dispatch(class@, code@, pc as int, frame@, heap@)) == whole,
            decreases code.len() - pc,
        {
            let ghost before_frame = frame@;
            let ghost before_heap = heap@;
            let instr = Instruction::from_bytecode(code.as_slice(), &mut pc);
            let operand = match instr {
                Instruction::InvokeStatic(index) => Some(index),
                Instruction::InvokeVirtual(index) => Some(index),
                Instruction::InvokeSpecial(index) => Some(index),
                _ => None,
            };
            let outcome = match operand {
                Some(index) => {
                    let (action, outcome) = Self::exec_invoke(
                        &mut frame,
                        class,
                        index,
                        Ghost(pc as int),
                        Ghost(heap@),
                    );
                    match action {
                        Some(action) => {
                            trace.push(outcome);
                            proof {
                                assert(trace@ =~= old(trace)@ + (done + seq![outcome]));
                            }
                            frame.pc = pc;
                            return (frame, action);
                        },
                        None => outcome,
                    }
                },
                None => {
                    let returned = match instr {
                        Instruction::Return => match frame.peek() {
                            Some(top) => Some(top.clone()),
                            None => None,
                        },
                        _ => None,
                    };
                    let outcome = Self::exec_instr(&mut frame, heap, class, instr);
                    proof {
                        lemma_step_keeps_limits(class@, instr, before_frame, before_heap);
                    }
                    match outcome {
                        Outcome::Return | Outcome::Unknown(_) => {
                            trace.push(outcome);
                            proof {
                                assert(trace@ =~= old(trace)@ + (done + seq![outcome]));
                            }
                            frame.pc = pc;
                            return (frame, Action::Finished(returned));
                        },
                        _ => outcome,
                    }
                },
            };
            trace.push(outcome);
            proof {
                let rest = dispatch(class@, code@, pc as int, frame@, heap@);
                assert(done + (seq![outcome] + rest.trace) =~= done.push(outcome) + rest.trace);
                assert(trace@ =~= old(trace)@ + done.push(outcome));
                done = done.push(outcome);
            }
        }
        proof {
            assert(done + Seq::<Outcome>::empty() =~= done);
        }
        frame.pc = pc;
        (frame, Action::Finished(None))
    }

    /// The full entry point: runs the first method of `class` named `name`
    /// in a frame on `stack`, asking the native bridge at each invoke, up to
    /// where the method ends or the caller has to act.
    ///
    /// The descriptor is advisory and takes no part in finding the method.
    pub fn execute_method(
        &self,
        class: &ClassFile,
        name: &str,
        _desc: &str,
        stack: &mut Stack,
        heap: &mut Heap,
        event: Event,
        trace: &mut Vec<Outcome>,
    ) -> (action: Action)
        requires
            old(heap).wf(),
        ensures
            final(heap).wf(),
            ({
                let r = spec_execute_method(class@, name@, old(stack)@, old(heap)@, event);
                &&& final(stack)@ == r.stack
                &&& final(heap)@ == r.heap
                &&& final(trace)@ == old(trace)@ + r.trace
                &&& action@ == r.action
            }),
    {
        proof {
            assert(trace@ + Seq::<Outcome>::empty() =~= trace@);
        }
        let index = match Self::find_method(class, name) {
            Some(index) => index,
            None => {
                return Action::Finished(None);
            },
        };
        let method: &MethodInfo = &class.methods[index];
        assert(class@.methods[index as int] == method@);
        let code = match &method.code {
            Some(code) => code,
            None => {
                return Action::Finished(None);
            },
        };
        let frame = match event {
            Event::Start => Frame::new(code.max_locals as usize, code.max_stack as usize),
            Event::Resume => match stack.pop_frame() {
                Some(frame) => frame,
                None => {
                    return Action::Finished(None);
                },
            },
            Event::Clock(millis) => match stack.pop_frame() {
                Some(frame) => {
                    let mut frame = frame;
                    crate::native::java_lang_system::push_time(&mut frame, millis);
                    frame
                },
                None => {
                    return Action::Finished(None);
                },
            },
        };
        let (frame, action) = self.resume_frame(class, &code.code, frame, heap, trace);
        match action {
            Action::Finished(_) => {},
            _ => {
                stack.push_frame(frame);
            },
        }
        action
    }
}

} // verus!
