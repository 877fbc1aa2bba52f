use aria_core::exec::interpreter::{Interpreter, Outcome};
use aria_core::exec::machine::{Machine, MachineAction, Signal};
use aria_core::loader::class_loader::{ClassLoader, LoadAction, LoadEvent};
use aria_core::runtime::heap::{Heap, HeapValue};

/// Builds the bytes of a class file entry by entry.
struct ClassBuilder {
    pool: Vec<u8>,
    next_index: u16,
    methods: Vec<u8>,
    method_count: u16,
}

impl ClassBuilder {
    fn new() -> ClassBuilder {
        ClassBuilder { pool: Vec::new(), next_index: 1, methods: Vec::new(), method_count: 0 }
    }

    fn slot(&mut self) -> u16 {
        let index = self.next_index;
        self.next_index += 1;
        index
    }

    fn utf8(&mut self, text: &str) -> u16 {
        self.pool.push(1);
        self.pool.extend_from_slice(&(text.len() as u16).to_be_bytes());
        self.pool.extend_from_slice(text.as_bytes());
        self.slot()
    }

    fn one(&mut self, tag: u8, a: u16) -> u16 {
        self.pool.push(tag);
        self.pool.extend_from_slice(&a.to_be_bytes());
        self.slot()
    }

    fn two(&mut self, tag: u8, a: u16, b: u16) -> u16 {
        self.pool.push(tag);
        self.pool.extend_from_slice(&a.to_be_bytes());
        self.pool.extend_from_slice(&b.to_be_bytes());
        self.slot()
    }

    fn method_ref(&mut self, class: &str, name: &str, descriptor: &str) -> u16 {
        let class_name = self.utf8(class);
        let class_index = self.one(7, class_name);
        let name_index = self.utf8(name);
        let descriptor_index = self.utf8(descriptor);
        let name_and_type = self.two(12, name_index, descriptor_index);
        self.two(10, class_index, name_and_type)
    }

    fn method(&mut self, name: &str, code: &[u8]) {
        let name_index = self.utf8(name);
        let descriptor_index = self.utf8("()V");
        let code_index = self.utf8("Code");
        let m = &mut self.methods;
        m.extend_from_slice(&0x0009u16.to_be_bytes());
        m.extend_from_slice(&name_index.to_be_bytes());
        m.extend_from_slice(&descriptor_index.to_be_bytes());
        m.extend_from_slice(&1u16.to_be_bytes());
        m.extend_from_slice(&code_index.to_be_bytes());
        m.extend_from_slice(&(12 + code.len() as u32).to_be_bytes());
        m.extend_from_slice(&4u16.to_be_bytes());
        m.extend_from_slice(&2u16.to_be_bytes());
        m.extend_from_slice(&(code.len() as u32).to_be_bytes());
        m.extend_from_slice(code);
        m.extend_from_slice(&0u16.to_be_bytes());
        m.extend_from_slice(&0u16.to_be_bytes());
        self.method_count += 1;
    }

    fn bytes(&self) -> Vec<u8> {
        let mut out = vec![0xCA, 0xFE, 0xBA, 0xBE, 0, 0, 0, 52];
        out.extend_from_slice(&self.next_index.to_be_bytes());
        out.extend_from_slice(&self.pool);
        out.extend_from_slice(&[0, 0x21, 0, 0, 0, 0, 0, 0, 0, 0]);
        out.extend_from_slice(&self.method_count.to_be_bytes());
        out.extend_from_slice(&self.methods);
        out.extend_from_slice(&[0, 0]);
        out
    }
}

fn invoke(index: u16) -> [u8; 3] {
    [0xB8, (index >> 8) as u8, index as u8]
}

struct World {
    interpreter: Interpreter,
    loader: ClassLoader,
    heap: Heap,
    trace: Vec<Outcome>,
}

impl World {
    fn new() -> World {
        World {
            interpreter: Interpreter::new(false),
            loader: ClassLoader::new(),
            heap: Heap::new(),
            trace: Vec::new(),
        }
    }

    fn define(&mut self, name: &str, builder: &ClassBuilder) {
        let action = self.loader.load_class(name, LoadEvent::Found(builder.bytes()));
        assert_eq!(action, LoadAction::Loaded);
    }

    fn step(&mut self, machine: &mut Machine, signal: Signal) -> MachineAction {
        machine.step(&self.interpreter, &self.loader, &mut self.heap, signal, &mut self.trace)
    }
}

#[test]
fn a_method_without_invocations_is_over_in_one_step() {
    let mut world = World::new();
    let mut builder = ClassBuilder::new();
    builder.method("main", &[0x10, 42, 0xB1]);
    world.define("Main", &builder);
    let mut machine = Machine::new("Main", "main", "()V");
    assert_eq!(machine.depth(), 1);
    assert_eq!(
        world.step(&mut machine, Signal::Go),
        MachineAction::Finished(Some(HeapValue::Int(42)))
    );
    assert_eq!(machine.depth(), 0);
    assert_eq!(world.trace, vec![Outcome::Done, Outcome::Return]);
    // A machine that is done stays done.
    assert_eq!(world.step(&mut machine, Signal::Go), MachineAction::Finished(None));
    assert_eq!(world.step(&mut machine, Signal::Clock(1)), MachineAction::Finished(None));
}

#[test]
fn an_invoked_method_is_entered_and_left_again() {
    let mut world = World::new();
    let mut builder = ClassBuilder::new();
    let helper = builder.method_ref("Main", "helper", "()V");
    let mut code = vec![0x06];
    code.extend_from_slice(&invoke(helper));
    code.extend_from_slice(&[0x07, 0x60, 0xB1]);
    builder.method("main", &code);
    builder.method("helper", &[0x10, 99, 0xB1]);
    world.define("Main", &builder);
    let mut machine = Machine::new("Main", "main", "()V");
    assert_eq!(world.step(&mut machine, Signal::Go), MachineAction::Continue);
    assert_eq!(machine.depth(), 2);
    assert_eq!(world.step(&mut machine, Signal::Go), MachineAction::Continue);
    assert_eq!(machine.depth(), 1);
    // What the helper returned is dropped: the invoking method adds 3 and 4.
    assert_eq!(
        world.step(&mut machine, Signal::Go),
        MachineAction::Finished(Some(HeapValue::Int(7)))
    );
    assert_eq!(
        world.trace,
        vec![
            Outcome::Done,
            Outcome::Done,
            Outcome::Done,
            Outcome::Return,
            Outcome::Done,
            Outcome::Done,
            Outcome::Return,
        ]
    );
}

#[test]
fn a_class_that_the_loader_has_not_got_is_asked_for() {
    let mut world = World::new();
    let mut main = ClassBuilder::new();
    let run = main.method_ref("util.Helper", "run", "()V");
    let mut code = invoke(run).to_vec();
    code.extend_from_slice(&[0x08, 0xB1]);
    main.method("main", &code);
    world.define("Main", &main);
    let mut helper = ClassBuilder::new();
    let class_c_name = helper.utf8("C");
    let class_c = helper.one(7, class_c_name);
    helper.method("run", &[0xBB, 0, class_c as u8, 0xB1]);

    // The class is loaded while the machine waits: the method is entered.
    let mut machine = Machine::new("Main", "main", "()V");
    assert_eq!(
        world.step(&mut machine, Signal::Go),
        MachineAction::Load { class_name: "util.Helper".to_string() }
    );
    assert_eq!(machine.depth(), 1);
    world.define("util.Helper", &helper);
    assert_eq!(world.step(&mut machine, Signal::Go), MachineAction::Continue);
    assert_eq!(machine.depth(), 1);
    assert_eq!(world.heap.object_count(), 1);
    assert_eq!(
        world.step(&mut machine, Signal::Go),
        MachineAction::Finished(Some(HeapValue::Int(5)))
    );

    // With the class in the cache the method is entered without asking.
    let mut machine = Machine::new("Main", "main", "()V");
    assert_eq!(world.step(&mut machine, Signal::Go), MachineAction::Continue);
    assert_eq!(machine.depth(), 2);
}

#[test]
fn a_class_that_cannot_be_loaded_is_passed_over() {
    let mut world = World::new();
    let mut main = ClassBuilder::new();
    let run = main.method_ref("Ghost", "run", "()V");
    let mut code = vec![0x04];
    code.extend_from_slice(&invoke(run));
    code.extend_from_slice(&[0x05, 0x60, 0xB1]);
    main.method("main", &code);
    world.define("Main", &main);
    let mut machine = Machine::new("Main", "main", "()V");
    assert_eq!(
        world.step(&mut machine, Signal::Go),
        MachineAction::Load { class_name: "Ghost".to_string() }
    );
    assert_eq!(
        world.step(&mut machine, Signal::Go),
        MachineAction::Finished(Some(HeapValue::Int(3)))
    );
}

#[test]
fn a_method_that_the_class_has_not_got_is_over_at_once() {
    let mut world = World::new();
    let mut main = ClassBuilder::new();
    let run = main.method_ref("Main", "missing", "()V");
    let mut code = invoke(run).to_vec();
    code.extend_from_slice(&[0x04, 0xB1]);
    main.method("main", &code);
    world.define("Main", &main);
    let mut machine = Machine::new("Main", "main", "()V");
    assert_eq!(world.step(&mut machine, Signal::Go), MachineAction::Continue);
    assert_eq!(machine.depth(), 2);
    assert_eq!(world.step(&mut machine, Signal::Go), MachineAction::Continue);
    assert_eq!(machine.depth(), 1);
    assert_eq!(
        world.step(&mut machine, Signal::Go),
        MachineAction::Finished(Some(HeapValue::Int(1)))
    );
}

#[test]
fn an_entry_class_that_the_loader_has_not_got_runs_nothing() {
    let mut world = World::new();
    let mut machine = Machine::new("Nowhere", "main", "()V");
    assert_eq!(world.step(&mut machine, Signal::Go), MachineAction::Finished(None));
    assert_eq!(machine.depth(), 0);
    assert!(world.trace.is_empty());
}

#[test]
fn lines_and_the_clock_go_through_the_caller() {
    let mut world = World::new();
    let mut main = ClassBuilder::new();
    let clock = main.method_ref("java/lang/System", "currentTimeMillis", "()J");
    let println = main.method_ref("java/io/PrintStream", "println", "(J)V");
    let mut code = invoke(clock).to_vec();
    code.push(0x59);
    code.extend_from_slice(&[0xB6, 0, println as u8]);
    code.push(0xB1);
    main.method("main", &code);
    world.define("Main", &main);
    let mut machine = Machine::new("Main", "main", "()V");
    assert_eq!(world.step(&mut machine, Signal::Go), MachineAction::ReadClock);
    assert_eq!(
        world.step(&mut machine, Signal::Clock(777)),
        MachineAction::Print(HeapValue::Long(777))
    );
    assert_eq!(
        world.step(&mut machine, Signal::Go),
        MachineAction::Finished(Some(HeapValue::Long(777)))
    );
}

#[test]
fn a_time_that_was_not_asked_for_enters_nothing() {
    let mut world = World::new();
    let mut main = ClassBuilder::new();
    main.method("main", &[0x04, 0xB1]);
    world.define("Main", &main);
    let mut machine = Machine::new("Main", "main", "()V");
    assert_eq!(
        world.step(&mut machine, Signal::Clock(5)),
        MachineAction::Finished(Some(HeapValue::Int(1)))
    );
}

#[test]
fn a_method_that_invokes_itself_goes_one_level_deeper_with_each_step() {
    let mut world = World::new();
    let mut main = ClassBuilder::new();
    let again = main.method_ref("Main", "main", "()V");
    let mut code = invoke(again).to_vec();
    code.push(0xB1);
    main.method("main", &code);
    world.define("Main", &main);
    let mut machine = Machine::new("Main", "main", "()V");
    for depth in 1..=50 {
        assert_eq!(machine.depth(), depth);
        assert_eq!(world.step(&mut machine, Signal::Go), MachineAction::Continue);
    }
}

#[test]
fn invocations_share_the_heap() {
    let mut world = World::new();
    let mut main = ClassBuilder::new();
    let text = main.utf8("shared");
    let string = main.one(8, text);
    let helper = main.method_ref("Main", "helper", "()V");
    let mut code = vec![0x12, string as u8];
    code.extend_from_slice(&invoke(helper));
    code.push(0xB1);
    main.method("main", &code);
    main.method("helper", &[0x12, string as u8, 0xB1]);
    world.define("Main", &main);
    let mut machine = Machine::new("Main", "main", "()V");
    assert_eq!(world.step(&mut machine, Signal::Go), MachineAction::Continue);
    assert_eq!(world.step(&mut machine, Signal::Go), MachineAction::Continue);
    assert_eq!(
        world.step(&mut machine, Signal::Go),
        MachineAction::Finished(Some(HeapValue::Object(1)))
    );
    assert_eq!(world.heap.object_count(), 1);
}
