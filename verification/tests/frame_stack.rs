use aria_core::runtime::frame::Frame;
use aria_core::runtime::heap::HeapValue;
use aria_core::runtime::stack::Stack;

#[test]
fn a_fresh_frame_has_null_locals_and_an_empty_stack() {
    let frame = Frame::new(3, 2);
    assert_eq!(frame.local_vars, vec![HeapValue::Null, HeapValue::Null, HeapValue::Null]);
    assert!(frame.operand_stack.is_empty());
    assert_eq!(frame.pc, 0);
    assert_eq!(frame.max_stack, 2);
    assert_eq!(frame.stack_size(), 0);
    assert!(frame.peek().is_none());
    let empty = Frame::new(0, 0);
    assert!(empty.local_vars.is_empty());
    assert!(empty.get_local(0).is_none());
}

#[test]
fn push_pop_and_peek_work_on_the_top() {
    let mut frame = Frame::new(0, 4);
    frame.push(HeapValue::Int(1));
    frame.push(HeapValue::String("s".to_string()));
    assert_eq!(frame.stack_size(), 2);
    assert_eq!(frame.peek(), Some(&HeapValue::String("s".to_string())));
    assert_eq!(frame.pop(), HeapValue::String("s".to_string()));
    assert_eq!(frame.peek(), Some(&HeapValue::Int(1)));
    assert_eq!(frame.pop(), HeapValue::Int(1));
    assert_eq!(frame.stack_size(), 0);
}

#[test]
fn pop_on_an_empty_stack_gives_null() {
    let mut frame = Frame::new(0, 1);
    assert_eq!(frame.pop(), HeapValue::Null);
    assert_eq!(frame.pop(), HeapValue::Null);
    assert_eq!(frame.stack_size(), 0);
    assert_eq!(frame.pop_int(), 0);
    assert_eq!(frame.pop_long(), 0);
    assert!(frame.peek_mut().is_none());
}

#[test]
fn a_push_beyond_max_stack_is_carried_out() {
    let mut frame = Frame::new(0, 1);
    frame.push_int(1);
    assert!(!frame.exceeds_max_stack());
    frame.push_int(2);
    assert!(frame.exceeds_max_stack());
    assert_eq!(frame.stack_size(), 2);
    assert_eq!(frame.pop_int(), 2);
    assert!(!frame.exceeds_max_stack());
    let mut none = Frame::new(0, 0);
    assert!(!none.exceeds_max_stack());
    none.push(HeapValue::Null);
    assert!(none.exceeds_max_stack());
}

#[test]
fn set_local_grows_the_locals_with_null() {
    let mut frame = Frame::new(1, 1);
    frame.set_local(0, HeapValue::Int(5));
    assert_eq!(frame.local_vars, vec![HeapValue::Int(5)]);
    frame.set_local(3, HeapValue::Long(9));
    assert_eq!(
        frame.local_vars,
        vec![HeapValue::Int(5), HeapValue::Null, HeapValue::Null, HeapValue::Long(9)]
    );
    assert_eq!(frame.get_local(3), Some(&HeapValue::Long(9)));
    assert_eq!(frame.get_local(1), Some(&HeapValue::Null));
    assert!(frame.get_local(4).is_none());
    frame.set_local(4, HeapValue::Null);
    assert_eq!(frame.local_vars.len(), 5);
    frame.set_local(1, HeapValue::Int(1));
    assert_eq!(frame.local_vars.len(), 5);
    assert_eq!(frame.get_local(1), Some(&HeapValue::Int(1)));
}

#[test]
fn typed_pushes_and_pops_coerce() {
    let mut frame = Frame::new(0, 4);
    frame.push_int(-3);
    frame.push_long(1 << 33);
    assert_eq!(frame.peek(), Some(&HeapValue::Long(1 << 33)));
    assert_eq!(frame.pop_long(), 1 << 33);
    assert_eq!(frame.pop_long(), -3);
    frame.push_long((1 << 32) + 7);
    assert_eq!(frame.pop_int(), 7);
    frame.push(HeapValue::Object(1));
    assert_eq!(frame.pop_int(), 0);
}

#[test]
fn peek_mut_changes_the_top_in_place() {
    let mut frame = Frame::new(0, 2);
    frame.push_int(1);
    frame.push_int(2);
    *frame.peek_mut().unwrap() = HeapValue::Int(20);
    assert_eq!(frame.operand_stack, vec![HeapValue::Int(1), HeapValue::Int(20)]);
}

#[test]
fn a_cloned_frame_is_equal_and_independent() {
    let mut frame = Frame::new(2, 3);
    frame.push(HeapValue::String("a".to_string()));
    frame.set_local(1, HeapValue::Object(4));
    frame.pc = 9;
    let mut copy = frame.clone();
    assert_eq!(copy.local_vars, frame.local_vars);
    assert_eq!(copy.operand_stack, frame.operand_stack);
    assert_eq!(copy.pc, 9);
    assert_eq!(copy.max_stack, 3);
    copy.push_int(1);
    assert_eq!(frame.stack_size(), 1);
}

#[test]
fn the_call_stack_is_last_in_first_out() {
    let mut stack = Stack::new();
    assert!(stack.is_empty());
    assert_eq!(stack.depth(), 0);
    assert!(stack.current_frame().is_none());
    assert!(stack.peek_frame().is_none());
    assert!(stack.current_frame_mut().is_none());
    assert!(stack.pop_frame().is_none());
    stack.push_frame(Frame::new(1, 1));
    stack.push_frame(Frame::new(2, 2));
    assert!(!stack.is_empty());
    assert_eq!(stack.depth(), 2);
    assert_eq!(stack.current_frame().unwrap().max_stack, 2);
    assert_eq!(stack.peek_frame().unwrap().local_vars.len(), 2);
    stack.current_frame_mut().unwrap().push_int(5);
    assert_eq!(stack.current_frame().unwrap().stack_size(), 1);
    let frames = stack.iter_frames();
    assert_eq!(frames.len(), 2);
    assert_eq!(frames[0].max_stack, 1);
    assert_eq!(frames[1].max_stack, 2);
    let top = stack.pop_frame().unwrap();
    assert_eq!(top.peek(), Some(&HeapValue::Int(5)));
    assert_eq!(stack.depth(), 1);
    assert_eq!(stack.pop_frame().unwrap().max_stack, 1);
    assert!(stack.pop_frame().is_none());
    assert!(stack.is_empty());
}

#[test]
fn push_reports_whether_the_stack_is_within_its_limit() {
    let mut frame = Frame::new(0, 2);
    assert!(frame.push(HeapValue::Int(1)));
    assert!(frame.push(HeapValue::Int(2)));
    assert!(!frame.push(HeapValue::Int(3)));
    assert!(!frame.push(HeapValue::Int(4)));
    assert_eq!(frame.stack_size(), 4);
    frame.pop();
    frame.pop();
    frame.pop();
    assert!(frame.push(HeapValue::Null));
}
