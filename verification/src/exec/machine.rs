//! The machine: the invocations in progress, each with a call stack of its
//! own, run one step at a time.
//!
//! A step runs the innermost invocation up to where it ends or needs
//! something from outside. The machine itself enters the method that an
//! invocation invokes, where the loader has its class, and goes back to the
//! invoking method when the invoked one is over. What only the caller of
//! the machine can do is handed out as an action: writing a line, reading
//! the clock, loading a class.

use crate::bytecode::parser::ClassFile;
use crate::exec::interpreter::{
    spec_execute_method, Action, ActionView, Event, Interpreter, Outcome,
};
use crate::loader::class_loader::{ClassLoader, ClassLoaderView};
use crate::runtime::frame::FrameView;
use crate::runtime::heap::{Heap, HeapValue, HeapValueView, HeapView};
use crate::runtime::stack::Stack;
use vstd::prelude::*;

verus! {

/// One invocation in progress: the method, by the names of its class and
/// itself, and the call stack of the invocation.
#[derive(Debug)]
pub struct Activation {
    pub class_name: String,
    pub method_name: String,
    pub descriptor: String,
    pub stack: Stack,
}

/// An invocation as a mathematical value.
pub ghost struct ActivationView {
    pub class_name: Seq<char>,
    pub method_name: Seq<char>,
    pub descriptor: Seq<char>,
    pub stack: Seq<FrameView>,
}

impl View for Activation {
    type V = ActivationView;

    open spec fn view(&self) -> ActivationView {
        ActivationView {
            class_name: self.class_name@,
            method_name: self.method_name@,
            descriptor: self.descriptor@,
            stack: self.stack@,
        }
    }
}

impl DeepView for Activation {
    type V = ActivationView;

    open spec fn deep_view(&self) -> ActivationView {
        self@
    }
}

/// What the caller of the machine hands to a step.
#[derive(Debug, Clone, Copy, PartialEq, Eq, Structural)]
pub enum Signal {
    /// What the last action asked for was done, as far as it could be.
    Go,
    /// The clock was read: so many milliseconds have passed since the epoch.
    Clock(i64),
}

/// What a step leaves for the caller of the machine to do.
#[derive(Debug, PartialEq)]
pub enum MachineAction {
    /// Nothing: the next step goes on.
    Continue,
    /// The outermost invocation is over, with this value if it returned
    /// one. The machine is done.
    Finished(Option<HeapValue>),
    /// This value is to be written as a line to standard output.
    Print(HeapValue),
    /// The clock is to be read and handed to the next step.
    ReadClock,
    /// The class of this name is to be loaded. The next step enters the
    /// method that was invoked if the loader then has the class, and goes on
    /// behind the invoking instruction if it has not.
    Load { class_name: String },
}

/// An action of the machine as a mathematical value.
pub ghost enum MachineActionView {
    Continue,
    Finished(Option<HeapValueView>),
    Print(HeapValueView),
    ReadClock,
    Load { class_name: Seq<char> },
}

impl View for MachineAction {
    type V = MachineActionView;

    open spec fn view(&self) -> MachineActionView {
        match *self {
            MachineAction::Continue => MachineActionView::Continue,
            MachineAction::Finished(value) => MachineActionView::Finished(
                match value {
                    Some(value) => Some(value@),
                    None => None,
                },
            ),
            MachineAction::Print(value) => MachineActionView::Print(value@),
            MachineAction::ReadClock => MachineActionView::ReadClock,
            MachineAction::Load { class_name } => MachineActionView::Load { class_name: class_name@ },
        }
    }
}

/// The invocations in progress, the innermost last; how the innermost is
/// to go on; and the invocation that waits for its class to be loaded.
pub struct Machine {
    activations: Vec<Activation>,
    next: Event,
    pending: Option<Activation>,
}

/// A machine as a mathematical value.
pub ghost struct MachineView {
    pub activations: Seq<ActivationView>,
    pub next: Event,
    pub pending: Option<ActivationView>,
}

/// A machine and a heap after a step, how the instructions of the step
/// ended, and the action that the step gave.
pub ghost struct MachineStep {
    pub machine: MachineView,
    pub heap: HeapView,
    pub trace: Seq<Outcome>,
    pub action: MachineActionView,
}

impl ActivationView {
    /// An invocation that has not been entered yet.
    pub open spec fn fresh(class_name: Seq<char>, method_name: Seq<char>, descriptor: Seq<char>) -> ActivationView {
        ActivationView { class_name, method_name, descriptor, stack: Seq::empty() }
    }
}

impl MachineView {
    /// The machine that is to enter the method `method_name` of the class
    /// `class_name`.
    pub open spec fn start(class_name: Seq<char>, method_name: Seq<char>, descriptor: Seq<char>) -> MachineView {
        MachineView {
            activations: seq![ActivationView::fresh(class_name, method_name, descriptor)],
            next: Event::Start,
            pending: None,
        }
    }

    /// The machine after the invocation that waited for its class was
    /// looked at again: it is entered where the loader has the class, and
    /// dropped where it has not.
    pub open spec fn settle(self, loader: ClassLoaderView) -> MachineView {
        match self.pending {
            Some(waiting) => if loader.classes.contains_key(waiting.class_name) {
                MachineView {
                    activations: self.activations.push(waiting),
                    next: Event::Start,
                    pending: None,
                }
            } else {
                MachineView { pending: None, ..self }
            },
            None => self,
        }
    }

    /// How the innermost invocation is called in a step with `signal`: with
    /// the time that was read, or as the machine has it.
    pub open spec fn event(self, signal: Signal) -> Event {
        match signal {
            Signal::Clock(millis) => if self.next == Event::Resume {
                Event::Clock(millis)
            } else {
                self.next
            },
            Signal::Go => self.next,
        }
    }

    /// What a step with `signal` makes of the machine and the heap.
    ///
    /// First the invocation that waits for its class is settled. With no
    /// invocation left the machine is done. The innermost invocation is then
    /// run up to where it stops. Where its class is not with the loader, or
    /// its method is over, the invocation is taken off, and the machine is
    /// done if it was the outermost. Where the method invokes another whose
    /// class the loader has, that one is entered with the next step; where
    /// the loader has not got the class, the invocation waits and the class
    /// is asked for. Whatever an invoked method returns is dropped.
    pub open spec fn step(self, loader: ClassLoaderView, heap: HeapView, signal: Signal) -> MachineStep {
        let settled = self.settle(loader);
        if settled.activations.len() == 0 {
            MachineStep {
                machine: settled,
                heap,
                trace: Seq::empty(),
                action: MachineActionView::Finished(None),
            }
        } else {
            let below = settled.activations.drop_last();
            let top = settled.activations.last();
            if !loader.classes.contains_key(top.class_name) {
                MachineStep {
                    machine: MachineView { activations: below, next: Event::Resume, pending: None },
                    heap,
                    trace: Seq::empty(),
                    action: if below.len() == 0 {
                        MachineActionView::Finished(None)
                    } else {
                        MachineActionView::Continue
                    },
                }
            } else {
                let r = spec_execute_method(
                    loader.classes[top.class_name],
                    top.method_name,
                    top.stack,
                    heap,
                    settled.event(signal),
                );
                let kept = below.push(ActivationView { stack: r.stack, ..top });
                match r.action {
                    ActionView::Finished(value) => MachineStep {
                        machine: MachineView {
                            activations: below,
                            next: Event::Resume,
                            pending: None,
                        },
                        heap: r.heap,
                        trace: r.trace,
                        action: if below.len() == 0 {
                            MachineActionView::Finished(value)
                        } else {
                            MachineActionView::Continue
                        },
                    },
                    ActionView::Print(value) => MachineStep {
                        machine: MachineView { activations: kept, next: Event::Resume, pending: None },
                        heap: r.heap,
                        trace: r.trace,
                        action: MachineActionView::Print(value),
                    },
                    ActionView::ReadClock => MachineStep {
                        machine: MachineView { activations: kept, next: Event::Resume, pending: None },
                        heap: r.heap,
                        trace: r.trace,
                        action: MachineActionView::ReadClock,
                    },
                    ActionView::Invoke { class_name, method_name, descriptor } => {
                        let invoked = ActivationView::fresh(class_name, method_name, descriptor);
                        if loader.classes.contains_key(class_name) {
                            MachineStep {
                                machine: MachineView {
                                    activations: kept.push(invoked),
                                    next: Event::Start,
                                    pending: None,
                                },
                                heap: r.heap,
                                trace: r.trace,
                                action: MachineActionView::Continue,
                            }
                        } else {
                            MachineStep {
                                machine: MachineView {
                                    activations: kept,
                                    next: Event::Resume,
                                    pending: Some(invoked),
                                },
                                heap: r.heap,
                                trace: r.trace,
                                action: MachineActionView::Load { class_name },
                            }
                        }
                    },
                }
            }
        }
    }
}

impl View for Machine {
    type V = MachineView;

    closed spec fn view(&self) -> MachineView {
        MachineView {
            activations: self.activations.deep_view(),
            next: self.next,
            pending: match self.pending {
                Some(waiting) => Some(waiting@),
                None => None,
            },
        }
    }
}

impl Machine {
    /// A machine that is to enter the method `method_name` of the class
    /// `class_name`. The descriptor is advisory.
    pub fn new(class_name: &str, method_name: &str, descriptor: &str) -> (machine: Machine)
        ensures
            machine@ == MachineView::start(class_name@, method_name@, descriptor@),
    {
        let mut activations: Vec<Activation> = Vec::new();
        activations.push(
            Activation {
                class_name: class_name.to_owned(),
                method_name: method_name.to_owned(),
                descriptor: descriptor.to_owned(),
                stack: Stack::new(),
            },
        );
        let machine = Machine { activations, next: Event::Start, pending: None };
        assert(machine@.activations =~= MachineView::start(
            class_name@,
            method_name@,
            descriptor@,
        ).activations);
        machine
    }

    /// The number of invocations in progress.
    pub fn depth(&self) -> (n: usize)
        ensures
            n == self@.activations.len(),
    {
        self.activations.len()
    }

    fn settle(&mut self, loader: &ClassLoader)
        requires
            loader.wf(),
        ensures
            final(self)@ == old(self)@.settle(loader@),
    {
        let waiting = self.pending.take();
        match waiting {
            Some(waiting) => {
                if loader.get(waiting.class_name.as_str()).is_some() {
                    let ghost before = self.activations.deep_view();
                    let ghost entered = waiting@;
                    self.activations.push(waiting);
                    self.next = Event::Start;
                    assert(self.activations.deep_view() =~= before.push(entered));
                }
            },
            None => {},
        }
    }

    /// Runs the machine one step.
    pub fn step(
        &mut self,
        interpreter: &Interpreter,
        loader: &ClassLoader,
        heap: &mut Heap,
        signal: Signal,
        trace: &mut Vec<Outcome>,
    ) -> (action: MachineAction)
        requires
            loader.wf(),
            old(heap).wf(),
        ensures
            final(heap).wf(),
            ({
                let r = old(self)@.step(loader@, old(heap)@, signal);
                &&& final(self)@ == r.machine
                &&& final(heap)@ == r.heap
                &&& final(trace)@ == old(trace)@ + r.trace
                &&& action@ == r.action
            }),
    {
        proof {
            assert(trace@ + Seq::<Outcome>::empty() =~= trace@);
        }
        self.settle(loader);
        let ghost settled = self@;
        let mut top = match self.activations.pop() {
            Some(top) => top,
            None => {
                assert(self@.activations =~= settled.activations);
                return MachineAction::Finished(None);
            },
        };
        let ghost below = self.activations.deep_view();
        assert(below =~= settled.activations.drop_last());
        assert(top@ == settled.activations.last());
        let event = match signal {
            Signal::Clock(millis) => match self.next {
                Event::Resume => Event::Clock(millis),
                _ => self.next,
            },
            Signal::Go => self.next,
        };
        self.next = Event::Resume;
        let class: &ClassFile = match loader.get(top.class_name.as_str()) {
            Some(class) => class,
            None => {
                return if self.activations.len() == 0 {
                    MachineAction::Finished(None)
                } else {
                    MachineAction::Continue
                };
            },
        };
        let action = interpreter.execute_method(
            class,
            top.method_name.as_str(),
            top.descriptor.as_str(),
            &mut top.stack,
            heap,
            event,
            trace,
        );
        let ghost kept = below.push(top@);
        match action {
            Action::Finished(value) => {
                if self.activations.len() == 0 {
                    MachineAction::Finished(value)
                } else {
                    MachineAction::Continue
                }
            },
            Action::Print(value) => {
                self.activations.push(top);
                assert(self.activations.deep_view() =~= kept);
                MachineAction::Print(value)
            },
            Action::ReadClock => {
                self.activations.push(top);
                assert(self.activations.deep_view() =~= kept);
                MachineAction::ReadClock
            },
            Action::Invoke { class_name, method_name, descriptor } => {
                self.activations.push(top);
                assert(self.activations.deep_view() =~= kept);
                let invoked = Activation {
                    class_name: class_name.clone(),
                    method_name,
                    descriptor,
                    stack: Stack::new(),
                };
                if loader.get(class_name.as_str()).is_some() {
                    let ghost entered = invoked@;
                    self.activations.push(invoked);
                    self.next = Event::Start;
                    assert(self.activations.deep_view() =~= kept.push(entered));
                    MachineAction::Continue
                } else {
                    self.pending = Some(invoked);
                    MachineAction::Load { class_name }
                }
            },
        }
    }
}

} // verus!
