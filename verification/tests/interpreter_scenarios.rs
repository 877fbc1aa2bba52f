use aria_core::bytecode::parser::{ClassFile, ParseError};
use aria_core::exec::instructions::Instruction;
use aria_core::exec::interpreter::{ExecuteError, Interpreter, Outcome, GC_THRESHOLD};
use aria_core::runtime::frame::Frame;
use aria_core::runtime::heap::{Heap, HeapValue};

/// Builds the bytes of a class file entry by entry.
struct ClassBuilder {
    pool: Vec<u8>,
    next_index: u16,
    methods: Vec<u8>,
    method_count: u16,
}

impl ClassBuilder {
    fn new() -> ClassBuilder {
        ClassBuilder { pool: Vec::new(), next_index: 1, methods: Vec::new(), method_count: 0 }
    }

    fn slot(&mut self, width: u16) -> u16 {
        let index = self.next_index;
        self.next_index += width;
        index
    }

    fn utf8(&mut self, text: &str) -> u16 {
        self.pool.push(1);
        self.pool.extend_from_slice(&(text.len() as u16).to_be_bytes());
        self.pool.extend_from_slice(text.as_bytes());
        self.slot(1)
    }

    fn one(&mut self, tag: u8, a: u16) -> u16 {
        self.pool.push(tag);
        self.pool.extend_from_slice(&a.to_be_bytes());
        self.slot(1)
    }

    fn two(&mut self, tag: u8, a: u16, b: u16) -> u16 {
        self.pool.push(tag);
        self.pool.extend_from_slice(&a.to_be_bytes());
        self.pool.extend_from_slice(&b.to_be_bytes());
        self.slot(1)
    }

    fn class(&mut self, name: &str) -> u16 {
        let name_index = self.utf8(name);
        self.one(7, name_index)
    }

    fn string(&mut self, text: &str) -> u16 {
        let text_index = self.utf8(text);
        self.one(8, text_index)
    }

    fn integer(&mut self, v: i32) -> u16 {
        self.pool.push(3);
        self.pool.extend_from_slice(&v.to_be_bytes());
        self.slot(1)
    }

    fn long(&mut self, v: i64) -> u16 {
        self.pool.push(5);
        self.pool.extend_from_slice(&v.to_be_bytes());
        self.slot(2)
    }

    fn field_ref(&mut self, class: &str, name: &str, descriptor: &str) -> u16 {
        let class_index = self.class(class);
        let name_index = self.utf8(name);
        let descriptor_index = self.utf8(descriptor);
        let name_and_type = self.two(12, name_index, descriptor_index);
        self.two(9, class_index, name_and_type)
    }

    fn method(&mut self, name: &str, max_stack: u16, max_locals: u16, code: &[u8]) {
        let name_index = self.utf8(name);
        let descriptor_index = self.utf8("()V");
        let code_index = self.utf8("Code");
        let m = &mut self.methods;
        m.extend_from_slice(&0x0009u16.to_be_bytes());
        m.extend_from_slice(&name_index.to_be_bytes());
        m.extend_from_slice(&descriptor_index.to_be_bytes());
        m.extend_from_slice(&1u16.to_be_bytes());
        m.extend_from_slice(&code_index.to_be_bytes());
        m.extend_from_slice(&(12 + code.len() as u32).to_be_bytes());
        m.extend_from_slice(&max_stack.to_be_bytes());
        m.extend_from_slice(&max_locals.to_be_bytes());
        m.extend_from_slice(&(code.len() as u32).to_be_bytes());
        m.extend_from_slice(code);
        m.extend_from_slice(&0u16.to_be_bytes());
        m.extend_from_slice(&0u16.to_be_bytes());
        self.method_count += 1;
    }

    fn method_without_code(&mut self, name: &str) {
        let name_index = self.utf8(name);
        let descriptor_index = self.utf8("()V");
        let m = &mut self.methods;
        m.extend_from_slice(&0x0401u16.to_be_bytes());
        m.extend_from_slice(&name_index.to_be_bytes());
        m.extend_from_slice(&descriptor_index.to_be_bytes());
        m.extend_from_slice(&0u16.to_be_bytes());
        self.method_count += 1;
    }

    fn build(&self) -> ClassFile {
        let mut out = vec![0xCA, 0xFE, 0xBA, 0xBE, 0, 0, 0, 52];
        out.extend_from_slice(&self.next_index.to_be_bytes());
        out.extend_from_slice(&self.pool);
        out.extend_from_slice(&[0, 0x21, 0, 0, 0, 0, 0, 0, 0, 0]);
        out.extend_from_slice(&self.method_count.to_be_bytes());
        out.extend_from_slice(&self.methods);
        out.extend_from_slice(&[0, 0]);
        ClassFile::parse(out).unwrap()
    }
}

fn class_with_main(code: &[u8]) -> ClassFile {
    let mut builder = ClassBuilder::new();
    builder.method("main", 4, 4, code);
    builder.build()
}

fn run_main(code: &[u8]) -> aria_core::exec::interpreter::Execution {
    Interpreter::new(false).execute(&class_with_main(code)).ok().unwrap()
}

fn empty_class() -> ClassFile {
    ClassBuilder::new().build()
}

fn step(frame: &mut Frame, heap: &mut Heap, class: &ClassFile, instr: Instruction) -> Outcome {
    Interpreter::exec_instr(frame, heap, class, instr)
}

fn frame_with(values: &[HeapValue]) -> Frame {
    let mut frame = Frame::new(2, 8);
    for value in values {
        frame.push(value.clone());
    }
    frame
}

#[test]
fn magic_passes_and_truncated_content_fails() {
    let bytes = vec![0xCA, 0xFE, 0xBA, 0xBE];
    assert_eq!(ClassFile::parse(bytes).err(), Some(ParseError::Truncated));
    let bytes = vec![0xCA, 0xFE, 0xBA, 0xBE, 0x00, 0x00, 0x00];
    assert_eq!(ClassFile::parse(bytes).err(), Some(ParseError::Truncated));
}

#[test]
fn wrong_magic_is_reported_with_its_value() {
    let bytes = vec![0xCA, 0xFE, 0xBA, 0xBF, 0, 0, 0, 52];
    assert_eq!(ClassFile::parse(bytes).err(), Some(ParseError::InvalidMagic(0xCAFEBABF)));
}

#[test]
fn integer_arithmetic_leaves_nine_on_top() {
    let run = run_main(&[0x05, 0x10, 0x07, 0x60, 0xB1]);
    assert_eq!(run.frame.peek(), Some(&HeapValue::Int(9)));
    assert_eq!(run.frame.stack_size(), 1);
    assert_eq!(run.trace, vec![Outcome::Done, Outcome::Done, Outcome::Done, Outcome::Return]);
    assert_eq!(run.frame.pc, 5);
    assert_eq!(run.heap.object_count(), 0);
}

#[test]
fn division_by_zero_is_reported_and_leaves_the_stack_empty() {
    let run = run_main(&[0x08, 0x03, 0x6C, 0xB1]);
    assert_eq!(run.frame.stack_size(), 0);
    assert_eq!(
        run.trace,
        vec![Outcome::Done, Outcome::Done, Outcome::DivisionByZero, Outcome::Return]
    );
}

#[test]
fn two_string_constants_with_equal_text_are_one_object() {
    let mut builder = ClassBuilder::new();
    let first = builder.string("hello");
    let second = builder.string("hello");
    let other = builder.string("world");
    assert_ne!(first, second);
    builder.method("main", 3, 0, &[0x12, first as u8, 0x12, second as u8, 0x12, other as u8, 0xB1]);
    let run = Interpreter::new(false).execute(&builder.build()).ok().unwrap();
    assert_eq!(run.trace, vec![Outcome::Done, Outcome::Done, Outcome::Done, Outcome::Return]);
    let stack = &run.frame.operand_stack;
    assert_eq!(stack.len(), 3);
    assert!(matches!(stack[0], HeapValue::Object(_)));
    assert_eq!(stack[0], stack[1]);
    assert_ne!(stack[0], stack[2]);
    assert_eq!(run.heap.object_count(), 2);
    let id = match stack[0] {
        HeapValue::Object(id) => id,
        _ => unreachable!(),
    };
    let object = run.heap.get(id).unwrap();
    assert_eq!(object.class_name, "java/lang/String");
    assert_eq!(object.get_field("value"), Some(&HeapValue::String("hello".to_string())));
}

#[test]
fn a_field_written_through_one_reference_is_read_through_another() {
    let mut builder = ClassBuilder::new();
    let class_c = builder.class("C");
    let field_x = builder.field_ref("C", "x", "I");
    let code = [
        0xBB, 0, class_c as u8, // new C
        0x59, // dup
        0x59, // dup
        0x4B, // astore_0
        0x10, 42, // bipush 42
        0xB5, 0, field_x as u8, // putfield x
        0x57, // pop the reference that is left
        0x2A, // aload_0
        0xB4, 0, field_x as u8, // getfield x
        0xB1,
    ];
    builder.method("main", 4, 1, &code);
    let run = Interpreter::new(false).execute(&builder.build()).ok().unwrap();
    assert!(run.trace.iter().all(|o| *o == Outcome::Done || *o == Outcome::Return));
    assert_eq!(run.trace.len(), 10);
    assert_eq!(run.frame.peek(), Some(&HeapValue::Int(42)));
    assert_eq!(run.frame.stack_size(), 1);
    assert_eq!(run.frame.get_local(0), Some(&HeapValue::Object(1)));
    assert_eq!(run.heap.get(1).unwrap().class_name, "C");
    assert_eq!(run.heap.get(1).unwrap().get_field("x"), Some(&HeapValue::Int(42)));
}

#[test]
fn a_class_without_main_runs_nothing() {
    assert_eq!(Interpreter::new(false).execute(&empty_class()).err(), Some(ExecuteError::NoMain));
    let mut builder = ClassBuilder::new();
    builder.method("Main", 1, 1, &[0xB1]);
    builder.method("main2", 1, 1, &[0xB1]);
    assert_eq!(
        Interpreter::new(false).execute(&builder.build()).err(),
        Some(ExecuteError::NoMain)
    );
}

#[test]
fn a_main_without_code_runs_nothing() {
    let mut builder = ClassBuilder::new();
    builder.method_without_code("main");
    builder.method("main", 1, 1, &[0xB1]);
    assert_eq!(
        Interpreter::new(false).execute(&builder.build()).err(),
        Some(ExecuteError::NoCode)
    );
}

#[test]
fn the_first_method_named_main_is_run() {
    let mut builder = ClassBuilder::new();
    builder.method("other", 1, 1, &[0x03, 0xB1]);
    builder.method("main", 1, 1, &[0x04, 0xB1]);
    builder.method("main", 1, 1, &[0x05, 0xB1]);
    let class = builder.build();
    assert_eq!(Interpreter::find_method(&class, "main"), Some(1));
    assert_eq!(Interpreter::find_method(&class, "other"), Some(0));
    assert_eq!(Interpreter::find_method(&class, "none"), None);
    let run = Interpreter::new(false).execute(&class).ok().unwrap();
    assert_eq!(run.frame.peek(), Some(&HeapValue::Int(1)));
}

#[test]
fn the_frame_is_sized_by_the_code_attribute() {
    let mut builder = ClassBuilder::new();
    builder.method("main", 7, 3, &[]);
    let run = Interpreter::new(true).execute(&builder.build()).ok().unwrap();
    assert_eq!(run.frame.max_stack, 7);
    assert_eq!(run.frame.local_vars, vec![HeapValue::Null, HeapValue::Null, HeapValue::Null]);
    assert!(run.trace.is_empty());
    assert_eq!(run.frame.pc, 0);
}

#[test]
fn dispatch_ends_at_return_and_at_an_unknown_opcode() {
    let run = run_main(&[0x03, 0xB1, 0x04, 0x05]);
    assert_eq!(run.trace, vec![Outcome::Done, Outcome::Return]);
    assert_eq!(run.frame.stack_size(), 1);
    assert_eq!(run.frame.pc, 2);
    let run = run_main(&[0x03, 0xCB, 0x04]);
    assert_eq!(run.trace, vec![Outcome::Done, Outcome::Unknown(0xCB)]);
    assert_eq!(run.frame.stack_size(), 1);
    let run = run_main(&[0x03, 0x10]);
    assert_eq!(run.trace, vec![Outcome::Done, Outcome::Unknown(0x10)]);
    let run = run_main(&[0x03, 0x04]);
    assert_eq!(run.trace, vec![Outcome::Done, Outcome::Done]);
    assert_eq!(run.frame.pc, 2);
}

#[test]
fn instructions_the_machine_does_not_carry_out_change_nothing() {
    let run = run_main(&[
        0x03, 0x5A, 0x5B, 0x5C, 0xA7, 0, 0, 0x99, 0, 0, 0xB6, 0, 1, 0xB7, 0, 1, 0xB8, 0, 1, 0xB1,
    ]);
    assert_eq!(
        run.trace,
        vec![
            Outcome::Done,
            Outcome::Unimplemented,
            Outcome::Unimplemented,
            Outcome::Unimplemented,
            Outcome::Unimplemented,
            Outcome::Unimplemented,
            Outcome::Unimplemented,
            Outcome::Unimplemented,
            Outcome::Unimplemented,
            Outcome::Return,
        ]
    );
    assert_eq!(run.frame.operand_stack, vec![HeapValue::Int(0)]);
}

#[test]
fn arithmetic_pops_two_and_pushes_one() {
    let class = empty_class();
    let mut heap = Heap::new();
    for (instr, expected) in [
        (Instruction::IAdd, 23),
        (Instruction::ISub, 17),
        (Instruction::IMul, 60),
        (Instruction::IDiv, 6),
    ] {
        let mut frame = frame_with(&[HeapValue::Int(1), HeapValue::Int(20), HeapValue::Int(3)]);
        assert_eq!(step(&mut frame, &mut heap, &class, instr), Outcome::Done);
        assert_eq!(frame.operand_stack, vec![HeapValue::Int(1), HeapValue::Int(expected)]);
    }
    let mut frame = frame_with(&[HeapValue::Int(1), HeapValue::Int(20), HeapValue::Int(0)]);
    assert_eq!(step(&mut frame, &mut heap, &class, Instruction::IDiv), Outcome::DivisionByZero);
    assert_eq!(frame.operand_stack, vec![HeapValue::Int(1)]);
}

#[test]
fn arithmetic_wraps_around() {
    let class = empty_class();
    let mut heap = Heap::new();
    let cases = [
        (Instruction::IAdd, i32::MAX, 1, i32::MIN),
        (Instruction::ISub, i32::MIN, 1, i32::MAX),
        (Instruction::IMul, 0x4000_0000, 4, 0),
        (Instruction::IMul, i32::MIN, -1, i32::MIN),
        (Instruction::IDiv, i32::MIN, -1, i32::MIN),
        (Instruction::IDiv, -7, 2, -3),
    ];
    for (instr, a, b, expected) in cases {
        let mut frame = frame_with(&[HeapValue::Int(a), HeapValue::Int(b)]);
        assert_eq!(step(&mut frame, &mut heap, &class, instr), Outcome::Done);
        assert_eq!(frame.operand_stack, vec![HeapValue::Int(expected)]);
    }
}

#[test]
fn arithmetic_on_a_short_stack_reads_null_as_zero() {
    let class = empty_class();
    let mut heap = Heap::new();
    let mut frame = frame_with(&[]);
    assert_eq!(step(&mut frame, &mut heap, &class, Instruction::IAdd), Outcome::TypeError);
    assert_eq!(frame.operand_stack, vec![HeapValue::Int(0)]);
    let mut frame = frame_with(&[HeapValue::Int(5)]);
    assert_eq!(step(&mut frame, &mut heap, &class, Instruction::ISub), Outcome::TypeError);
    assert_eq!(frame.operand_stack, vec![HeapValue::Int(-5)]);
    let mut frame = frame_with(&[HeapValue::Int(5)]);
    assert_eq!(step(&mut frame, &mut heap, &class, Instruction::IDiv), Outcome::TypeError);
    assert_eq!(frame.operand_stack, vec![HeapValue::Int(0)]);
    let mut frame = frame_with(&[HeapValue::Int(5), HeapValue::Null]);
    assert_eq!(step(&mut frame, &mut heap, &class, Instruction::IDiv), Outcome::DivisionByZero);
    assert!(frame.operand_stack.is_empty());
}

#[test]
fn arithmetic_coerces_its_operands() {
    let class = empty_class();
    let mut heap = Heap::new();
    let mut frame = frame_with(&[HeapValue::Long((1 << 32) + 4), HeapValue::Float(0x4020_0000)]);
    assert_eq!(step(&mut frame, &mut heap, &class, Instruction::IAdd), Outcome::Done);
    assert_eq!(frame.operand_stack, vec![HeapValue::Int(6)]);
    let mut frame = frame_with(&[HeapValue::String("4".to_string()), HeapValue::Int(3)]);
    assert_eq!(step(&mut frame, &mut heap, &class, Instruction::IAdd), Outcome::TypeError);
    assert_eq!(frame.operand_stack, vec![HeapValue::Int(3)]);
}

#[test]
fn constants_and_pushes_put_integers_on_the_stack() {
    let run = run_main(&[0x02, 0x08, 0x10, 0x80, 0x11, 0xFF, 0x00, 0xB1]);
    assert_eq!(
        run.frame.operand_stack,
        vec![HeapValue::Int(-1), HeapValue::Int(5), HeapValue::Int(-128), HeapValue::Int(-256)]
    );
}

#[test]
fn stores_and_loads_move_values_between_stack_and_locals() {
    let run = run_main(&[0x08, 0x3C, 0x1B, 0x1B, 0x3A, 6, 0x19, 6, 0x15, 2, 0x2D, 0x15, 9, 0xB1]);
    assert_eq!(
        run.trace,
        vec![
            Outcome::Done,
            Outcome::Done,
            Outcome::Done,
            Outcome::Done,
            Outcome::Done,
            Outcome::Done,
            Outcome::Done,
            Outcome::Done,
            Outcome::Skipped,
            Outcome::Return,
        ]
    );
    assert_eq!(
        run.frame.operand_stack,
        vec![HeapValue::Int(5), HeapValue::Int(5), HeapValue::Null, HeapValue::Null]
    );
    assert_eq!(run.frame.local_vars.len(), 7);
    assert_eq!(run.frame.get_local(1), Some(&HeapValue::Int(5)));
    assert_eq!(run.frame.get_local(6), Some(&HeapValue::Int(5)));
}

#[test]
fn a_store_from_an_empty_stack_stores_null() {
    let run = run_main(&[0x08, 0x3B, 0x3B, 0xB1]);
    assert_eq!(run.frame.get_local(0), Some(&HeapValue::Null));
    assert_eq!(run.trace, vec![Outcome::Done, Outcome::Done, Outcome::Done, Outcome::Return]);
}

#[test]
fn pop_and_dup_work_on_the_top() {
    let run = run_main(&[0x59, 0x04, 0x59, 0x05, 0x57, 0x57, 0x57, 0x57, 0xB1]);
    assert_eq!(
        run.trace,
        vec![
            Outcome::Skipped,
            Outcome::Done,
            Outcome::Done,
            Outcome::Done,
            Outcome::Done,
            Outcome::Done,
            Outcome::Done,
            Outcome::Done,
            Outcome::Return,
        ]
    );
    assert!(run.frame.operand_stack.is_empty());
}

#[test]
fn iinc_adds_to_a_local() {
    let run = run_main(&[0x10, 100, 0x3C, 0x84, 1, 0xFD, 0x84, 1, 5, 0x84, 0, 1, 0x84, 9, 1, 0xB1]);
    assert_eq!(run.frame.get_local(1), Some(&HeapValue::Int(102)));
    assert_eq!(run.frame.get_local(0), Some(&HeapValue::Int(1)));
    assert_eq!(run.frame.local_vars.len(), 4);
    assert_eq!(
        run.trace,
        vec![
            Outcome::Done,
            Outcome::Done,
            Outcome::Done,
            Outcome::Done,
            Outcome::TypeError,
            Outcome::Skipped,
            Outcome::Return,
        ]
    );
    let class = empty_class();
    let mut heap = Heap::new();
    let mut frame = Frame::new(1, 1);
    frame.set_local(0, HeapValue::Int(i32::MAX));
    assert_eq!(step(&mut frame, &mut heap, &class, Instruction::IInc(0, 1)), Outcome::Done);
    assert_eq!(frame.get_local(0), Some(&HeapValue::Int(i32::MIN)));
}

#[test]
fn new_allocates_an_object_of_the_named_class() {
    let mut builder = ClassBuilder::new();
    let class_c = builder.class("pkg/C");
    let text = builder.utf8("text");
    builder.method("main", 2, 0, &[0xBB, 0, class_c as u8, 0xBB, 0, text as u8, 0xBB, 0, 0, 0xBB, 9, 9, 0xB1]);
    let run = Interpreter::new(false).execute(&builder.build()).ok().unwrap();
    assert_eq!(
        run.trace,
        vec![
            Outcome::Done,
            Outcome::Unresolved,
            Outcome::ZeroIndex,
            Outcome::Unresolved,
            Outcome::Return,
        ]
    );
    assert_eq!(run.frame.operand_stack, vec![HeapValue::Object(1)]);
    assert_eq!(run.heap.object_count(), 1);
    assert_eq!(run.heap.get(1).unwrap().class_name, "pkg/C");
}

#[test]
fn ldc_of_a_utf8_entry_pushes_the_text_itself() {
    let mut builder = ClassBuilder::new();
    let text = builder.utf8("raw");
    let number = builder.integer(7);
    let wide = builder.long(7);
    let dangling = builder.one(8, 200);
    builder.method(
        "main",
        2,
        0,
        &[0x12, text as u8, 0x12, number as u8, 0x12, wide as u8, 0x12, wide as u8 + 1, 0x12, dangling as u8, 0x12, 0, 0x12, 250, 0xB1],
    );
    let run = Interpreter::new(false).execute(&builder.build()).ok().unwrap();
    assert_eq!(
        run.trace,
        vec![
            Outcome::Done,
            Outcome::Unresolved,
            Outcome::Unresolved,
            Outcome::Unresolved,
            Outcome::Unresolved,
            Outcome::ZeroIndex,
            Outcome::Unresolved,
            Outcome::Return,
        ]
    );
    assert_eq!(run.frame.operand_stack, vec![HeapValue::String("raw".to_string())]);
    assert_eq!(run.heap.object_count(), 0);
}

#[test]
fn field_access_without_an_object_is_skipped() {
    let mut builder = ClassBuilder::new();
    let class_c = builder.class("C");
    let field_x = builder.field_ref("C", "x", "I");
    let field_y = builder.field_ref("C", "y", "I");
    builder.method("main", 1, 1, &[0xB1]);
    let class = builder.build();
    let mut heap = Heap::new();
    // getfield with an unresolved index changes nothing
    let mut frame = frame_with(&[HeapValue::Int(1)]);
    assert_eq!(step(&mut frame, &mut heap, &class, Instruction::GetField(class_c)), Outcome::Unresolved);
    assert_eq!(step(&mut frame, &mut heap, &class, Instruction::GetField(0)), Outcome::ZeroIndex);
    assert_eq!(step(&mut frame, &mut heap, &class, Instruction::PutField(0)), Outcome::ZeroIndex);
    assert_eq!(step(&mut frame, &mut heap, &class, Instruction::PutField(class_c)), Outcome::Unresolved);
    assert_eq!(frame.operand_stack, vec![HeapValue::Int(1)]);
    // getfield on what is no reference pops it
    assert_eq!(step(&mut frame, &mut heap, &class, Instruction::GetField(field_x)), Outcome::Skipped);
    assert!(frame.operand_stack.is_empty());
    // getfield on an object without the field, and on a reference to nothing
    let id = heap.alloc_object("C");
    let mut frame = frame_with(&[HeapValue::Object(77), HeapValue::Object(id)]);
    assert_eq!(step(&mut frame, &mut heap, &class, Instruction::GetField(field_x)), Outcome::Skipped);
    assert_eq!(step(&mut frame, &mut heap, &class, Instruction::GetField(field_x)), Outcome::Skipped);
    assert!(frame.operand_stack.is_empty());
    // putfield pops both operands, whatever they are
    let mut frame = frame_with(&[HeapValue::Int(3), HeapValue::Null, HeapValue::Int(4)]);
    assert_eq!(step(&mut frame, &mut heap, &class, Instruction::PutField(field_x)), Outcome::Skipped);
    assert_eq!(frame.operand_stack, vec![HeapValue::Int(3)]);
    let mut frame = frame_with(&[HeapValue::Object(77), HeapValue::Int(4)]);
    assert_eq!(step(&mut frame, &mut heap, &class, Instruction::PutField(field_x)), Outcome::Skipped);
    assert!(frame.operand_stack.is_empty());
    // fields are told apart by name
    let mut frame = frame_with(&[HeapValue::Object(id), HeapValue::Int(4)]);
    assert_eq!(step(&mut frame, &mut heap, &class, Instruction::PutField(field_x)), Outcome::Done);
    frame.push(HeapValue::Object(id));
    assert_eq!(step(&mut frame, &mut heap, &class, Instruction::GetField(field_y)), Outcome::Skipped);
    frame.push(HeapValue::Object(id));
    assert_eq!(step(&mut frame, &mut heap, &class, Instruction::GetField(field_x)), Outcome::Done);
    assert_eq!(frame.operand_stack, vec![HeapValue::Int(4)]);
}

#[test]
fn getstatic_resolves_and_changes_nothing() {
    let mut builder = ClassBuilder::new();
    let field_x = builder.field_ref("C", "x", "I");
    builder.method("main", 1, 0, &[0x04, 0xB2, 0, field_x as u8, 0xB2, 0, 1, 0xB2, 0, 0, 0xB1]);
    let run = Interpreter::new(false).execute(&builder.build()).ok().unwrap();
    assert_eq!(
        run.trace,
        vec![Outcome::Done, Outcome::Done, Outcome::Unresolved, Outcome::ZeroIndex, Outcome::Return]
    );
    assert_eq!(run.frame.operand_stack, vec![HeapValue::Int(1)]);
}

#[test]
fn the_heap_is_collected_once_it_passes_the_threshold() {
    assert_eq!(GC_THRESHOLD, 128);
    let mut builder = ClassBuilder::new();
    let class_c = builder.class("C");
    let mut code = Vec::new();
    // one object kept in a local
    code.extend_from_slice(&[0xBB, 0, class_c as u8, 0x4B]);
    // 128 objects dropped at once: the heap holds 129 after the last new
    for _ in 0..128 {
        code.extend_from_slice(&[0xBB, 0, class_c as u8, 0x57]);
    }
    code.push(0xB1);
    builder.method("main", 2, 1, &code);
    let run = Interpreter::new(false).execute(&builder.build()).ok().unwrap();
    assert_eq!(run.trace.len(), 2 + 256 + 1);
    // The check after the last `new` ran with its object still on the stack.
    assert_eq!(run.heap.object_count(), 2);
    assert!(run.heap.get(1).is_some());
    assert!(run.heap.get(129).is_some());
    assert_eq!(run.frame.get_local(0), Some(&HeapValue::Object(1)));
}

#[test]
fn below_the_threshold_nothing_is_collected() {
    let mut builder = ClassBuilder::new();
    let class_c = builder.class("C");
    let mut code = Vec::new();
    for _ in 0..128 {
        code.extend_from_slice(&[0xBB, 0, class_c as u8, 0x57]);
    }
    code.push(0xB1);
    builder.method("main", 2, 1, &code);
    let run = Interpreter::new(false).execute(&builder.build()).ok().unwrap();
    assert_eq!(run.heap.object_count(), 128);
}

#[test]
fn run_code_goes_on_from_the_program_counter_of_the_frame() {
    let class = empty_class();
    let code = vec![0x03, 0x04, 0x05, 0x60, 0xB1, 0x08];
    let mut frame = Frame::new(0, 4);
    frame.pc = 1;
    let mut heap = Heap::new();
    let mut trace = vec![Outcome::Skipped];
    let frame = Interpreter::new(false).run_code(&class, &code, frame, &mut heap, &mut trace);
    assert_eq!(frame.operand_stack, vec![HeapValue::Int(3)]);
    assert_eq!(frame.pc, 5);
    assert_eq!(
        trace,
        vec![Outcome::Skipped, Outcome::Done, Outcome::Done, Outcome::Done, Outcome::Return]
    );
    let mut trace = Vec::new();
    let frame = Interpreter::new(false).run_code(&class, &code, frame, &mut heap, &mut trace);
    assert_eq!(frame.operand_stack, vec![HeapValue::Int(3), HeapValue::Int(5)]);
    assert_eq!(frame.pc, 6);
    let mut frame = frame;
    frame.pc = 100;
    let frame = Interpreter::new(false).run_code(&class, &code, frame, &mut heap, &mut trace);
    assert_eq!(frame.pc, 100);
    assert_eq!(trace, vec![Outcome::Done]);
}

#[test]
fn an_instruction_that_names_index_zero_changes_nothing() {
    let class = empty_class();
    let mut heap = Heap::new();
    let mut frame = frame_with(&[HeapValue::Int(1), HeapValue::Int(2)]);
    for instr in [
        Instruction::New(0),
        Instruction::Ldc(0),
        Instruction::GetField(0),
        Instruction::PutField(0),
        Instruction::GetStatic(0),
        Instruction::InvokeVirtual(0),
        Instruction::InvokeStatic(0),
        Instruction::InvokeSpecial(0),
    ] {
        assert_eq!(step(&mut frame, &mut heap, &class, instr), Outcome::ZeroIndex);
    }
    assert_eq!(frame.operand_stack, vec![HeapValue::Int(1), HeapValue::Int(2)]);
    assert_eq!(heap.object_count(), 0);
    // An operand of 0 that is no constant-pool index is read as it is.
    assert_eq!(step(&mut frame, &mut heap, &class, Instruction::ILoad(0)), Outcome::Done);
    assert_eq!(step(&mut frame, &mut heap, &class, Instruction::IConst(0)), Outcome::Done);
    assert_eq!(step(&mut frame, &mut heap, &class, Instruction::Goto(0)), Outcome::Unimplemented);
}

#[test]
fn the_debug_flag_is_kept() {
    assert!(Interpreter::new(true).is_debug());
    assert!(!Interpreter::new(false).is_debug());
}
