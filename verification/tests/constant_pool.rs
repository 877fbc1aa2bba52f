use aria_core::bytecode::parser::{ClassFile, ConstantPoolEntry};

fn u2(out: &mut Vec<u8>, v: u16) {
    out.extend_from_slice(&v.to_be_bytes());
}

fn utf8(out: &mut Vec<u8>, text: &str) {
    out.push(1);
    u2(out, text.len() as u16);
    out.extend_from_slice(text.as_bytes());
}

fn pair(out: &mut Vec<u8>, tag: u8, a: u16, b: u16) {
    out.push(tag);
    u2(out, a);
    u2(out, b);
}

fn sample() -> ClassFile {
    let mut out = vec![0xCA, 0xFE, 0xBA, 0xBE, 0, 0, 0, 52];
    u2(&mut out, 13);
    utf8(&mut out, "Point"); // 1
    out.push(7); // 2: Class -> 1
    u2(&mut out, 1);
    utf8(&mut out, "x"); // 3
    utf8(&mut out, "I"); // 4
    pair(&mut out, 12, 3, 4); // 5: NameAndType x:I
    pair(&mut out, 9, 2, 5); // 6: FieldRef Point.x:I
    pair(&mut out, 10, 2, 5); // 7: MethodRef Point.x:I
    out.push(7); // 8: Class -> 9 (no Utf8)
    u2(&mut out, 9);
    pair(&mut out, 12, 3, 2); // 9: NameAndType with a descriptor that is no Utf8
    pair(&mut out, 9, 2, 1); // 10: FieldRef whose second index is no NameAndType
    pair(&mut out, 10, 8, 5); // 11: MethodRef whose class does not resolve
    pair(&mut out, 10, 2, 9); // 12: MethodRef whose descriptor does not resolve
    for _ in 0..7 {
        u2(&mut out, 0);
    }
    ClassFile::parse(out).unwrap()
}

#[test]
fn index_zero_is_absent() {
    let class = sample();
    assert!(class.entry(0).is_none());
    assert_eq!(class.get_utf8(0), None);
    assert_eq!(class.get_class_name(0), None);
    assert_eq!(class.get_field_name(0), None);
    assert_eq!(class.get_method_ref(0), None);
    assert_eq!(class.get_name_and_type(0), None);
}

#[test]
fn an_index_past_the_pool_is_absent() {
    let class = sample();
    assert!(class.entry(12).is_some());
    assert!(class.entry(13).is_none());
    assert!(class.entry(u16::MAX).is_none());
    assert_eq!(class.get_utf8(13), None);
    assert_eq!(class.get_utf8(u16::MAX), None);
    assert_eq!(class.get_class_name(13), None);
    assert_eq!(class.get_field_name(4000), None);
    assert_eq!(class.get_method_ref(4000), None);
}

#[test]
fn a_slot_of_another_kind_is_absent() {
    let class = sample();
    assert_eq!(class.get_utf8(2), None);
    assert_eq!(class.get_class_name(1), None);
    assert_eq!(class.get_field_name(7), None);
    assert_eq!(class.get_method_ref(6), None);
    assert_eq!(class.get_name_and_type(6), None);
}

#[test]
fn lookups_follow_the_indices() {
    let class = sample();
    assert!(matches!(class.entry(1), Some(ConstantPoolEntry::Utf8(s)) if s == "Point"));
    assert_eq!(class.get_utf8(1), Some("Point"));
    assert_eq!(class.get_utf8(3), Some("x"));
    assert_eq!(class.get_class_name(2), Some("Point"));
    assert_eq!(class.get_name_and_type(5), Some(("x", "I")));
    assert_eq!(class.get_field_name(6), Some("x"));
    assert_eq!(class.get_method_ref(7), Some(("Point", "x", "I")));
}

#[test]
fn a_broken_chain_is_absent() {
    let class = sample();
    assert_eq!(class.get_class_name(8), None);
    assert_eq!(class.get_name_and_type(9), None);
    // The name of a field is taken from its NameAndType; the descriptor is not looked at.
    assert_eq!(class.get_field_name(10), None);
    assert_eq!(class.get_method_ref(11), None);
    assert_eq!(class.get_method_ref(12), None);
}
