//! The class-file format as a grammar over bytes.
//!
//! Each function reads one construct at a position of a byte sequence and
//! gives the value it denotes with the position after it, or `None` where
//! the sequence ends before the construct does.

use crate::bytecode::parser::{
    AttributeInfoView, ClassFileView, CodeAttributeView, ConstantPoolEntryView,
    ExceptionTableEntry, FieldInfoView, MethodInfoView, ParseError, JAVA_MAGIC,
};
use crate::bytecode::reader::{be_u16, be_u32};
use vstd::prelude::*;
use vstd::utf8::{decode_utf8, valid_utf8};

verus! {

/// The signed 32-bit number with the bits of `v`.
pub open spec fn signed32(v: u32) -> i32 {
    if v >= 0x8000_0000 {
        (v - 0x1_0000_0000) as i32
    } else {
        v as i32
    }
}

/// The unsigned 64-bit number with `high` above `low`.
pub open spec fn join64(high: u32, low: u32) -> u64 {
    (high as int * 0x1_0000_0000 + low as int) as u64
}

/// The signed 64-bit number with the bits of `v`.
pub open spec fn signed64(v: u64) -> i64 {
    if v >= 0x8000_0000_0000_0000 {
        (v - 0x1_0000_0000_0000_0000) as i64
    } else {
        v as i64
    }
}

/// The text that a run of bytes stands for, with each malformed stretch
/// replaced by U+FFFD.
pub uninterp spec fn utf8_lossy(bytes: Seq<u8>) -> Seq<char>;

/// The text of a `Utf8` entry with the bytes `bytes`: the text that they
/// encode where they are valid UTF-8, and else what is left of it when each
/// malformed stretch is replaced.
pub open spec fn utf8_text(bytes: Seq<u8>) -> Seq<char> {
    if valid_utf8(bytes) {
        decode_utf8(bytes)
    } else {
        utf8_lossy(bytes)
    }
}

/// The byte at `p`.
pub open spec fn spec_u1(s: Seq<u8>, p: int) -> Option<(u8, int)> {
    if 0 <= p && p + 1 <= s.len() {
        Some((s[p], p + 1))
    } else {
        None
    }
}

/// The two-byte number at `p`, big-endian.
pub open spec fn spec_u2(s: Seq<u8>, p: int) -> Option<(u16, int)> {
    if 0 <= p && p + 2 <= s.len() {
        Some((be_u16(s[p], s[p + 1]) as u16, p + 2))
    } else {
        None
    }
}

/// The four-byte number at `p`, big-endian.
pub open spec fn spec_u4(s: Seq<u8>, p: int) -> Option<(u32, int)> {
    if 0 <= p && p + 4 <= s.len() {
        Some((be_u32(s[p], s[p + 1], s[p + 2], s[p + 3]) as u32, p + 4))
    } else {
        None
    }
}

/// The `n` bytes at `p`.
pub open spec fn spec_take(s: Seq<u8>, p: int, n: int) -> Option<(Seq<u8>, int)> {
    if 0 <= p && 0 <= n && p + n <= s.len() {
        Some((s.subrange(p, p + n), p + n))
    } else {
        None
    }
}

/// `n` constructs in a row, each read by `item`.
pub open spec fn spec_repeat<T>(
    item: spec_fn(Seq<u8>, int) -> Option<(T, int)>,
    s: Seq<u8>,
    p: int,
    n: nat,
) -> Option<(Seq<T>, int)>
    decreases n,
{
    if n == 0 {
        Some((Seq::empty(), p))
    } else {
        match item(s, p) {
            Some((first, q1)) => match spec_repeat(item, s, q1, (n - 1) as nat) {
                Some((rest, q2)) => Some((seq![first] + rest, q2)),
                None => None,
            },
            None => None,
        }
    }
}

/// What `spec_repeat` gives once `done` has been read and the rest is `rest`.
pub open spec fn spec_after<T>(done: Seq<T>, rest: Option<(Seq<T>, int)>) -> Option<(Seq<T>, int)> {
    match rest {
        Some((items, p)) => Some((done + items, p)),
        None => None,
    }
}

/// Reading one more item moves it from the rest to what is done.
pub proof fn lemma_repeat_step<T>(
    item: spec_fn(Seq<u8>, int) -> Option<(T, int)>,
    s: Seq<u8>,
    p: int,
    n: nat,
    done: Seq<T>,
)
    requires
        n > 0,
    ensures
        spec_after(done, spec_repeat(item, s, p, n)) == match item(s, p) {
            Some((first, q1)) => spec_after(
                done.push(first),
                spec_repeat(item, s, q1, (n - 1) as nat),
            ),
            None => None,
        },
{
    match item(s, p) {
        Some((first, q1)) => {
            match spec_repeat(item, s, q1, (n - 1) as nat) {
                Some((rest, q2)) => {
                    assert(done + (seq![first] + rest) =~= done.push(first) + rest);
                },
                None => {},
            }
        },
        None => {},
    }
}

/// A pair of two-byte numbers.
pub open spec fn spec_u2_pair(s: Seq<u8>, p: int) -> Option<((u16, u16), int)> {
    match spec_u2(s, p) {
        Some((a, q1)) => match spec_u2(s, q1) {
            Some((b, q2)) => Some(((a, b), q2)),
            None => None,
        },
        None => None,
    }
}

/// A pair of four-byte numbers.
pub open spec fn spec_u4_pair(s: Seq<u8>, p: int) -> Option<((u32, u32), int)> {
    match spec_u4(s, p) {
        Some((a, q1)) => match spec_u4(s, q1) {
            Some((b, q2)) => Some(((a, b), q2)),
            None => None,
        },
        None => None,
    }
}

/// A run of bytes behind its two-byte length.
pub open spec fn spec_utf8(s: Seq<u8>, p: int) -> Option<(Seq<u8>, int)> {
    match spec_u2(s, p) {
        Some((len, q1)) => spec_take(s, q1, len as int),
        None => None,
    }
}

/// One constant-pool entry: a tag byte and what the tag calls for. A tag
/// that the format does not define stands alone.
pub open spec fn spec_constant(s: Seq<u8>, p: int) -> Option<(ConstantPoolEntryView, int)> {
    match spec_u1(s, p) {
        None => None,
        Some((tag, q1)) => {
            if tag == 1 {
                match spec_utf8(s, q1) {
                    Some((bytes, q2)) => Some((ConstantPoolEntryView::Utf8(utf8_text(bytes)), q2)),
                    None => None,
                }
            } else if tag == 3 {
                match spec_u4(s, q1) {
                    Some((v, q2)) => Some((ConstantPoolEntryView::Integer(signed32(v)), q2)),
                    None => None,
                }
            } else if tag == 4 {
                match spec_u4(s, q1) {
                    Some((v, q2)) => Some((ConstantPoolEntryView::Float(v), q2)),
                    None => None,
                }
            } else if tag == 5 {
                match spec_u4_pair(s, q1) {
                    Some(((high, low), q2)) => Some(
                        (ConstantPoolEntryView::Long(signed64(join64(high, low))), q2),
                    ),
                    None => None,
                }
            } else if tag == 6 {
                match spec_u4_pair(s, q1) {
                    Some(((high, low), q2)) => Some(
                        (ConstantPoolEntryView::Double(join64(high, low)), q2),
                    ),
                    None => None,
                }
            } else if tag == 7 {
                match spec_u2(s, q1) {
                    Some((name_index, q2)) => Some(
                        (ConstantPoolEntryView::Class { name_index }, q2),
                    ),
                    None => None,
                }
            } else if tag == 8 {
                match spec_u2(s, q1) {
                    Some((string_index, q2)) => Some(
                        (ConstantPoolEntryView::String { string_index }, q2),
                    ),
                    None => None,
                }
            } else if tag == 9 {
                match spec_u2_pair(s, q1) {
                    Some(((class_index, name_and_type_index), q2)) => Some(
                        (ConstantPoolEntryView::FieldRef { class_index, name_and_type_index }, q2),
                    ),
                    None => None,
                }
            } else if tag == 10 {
                match spec_u2_pair(s, q1) {
                    Some(((class_index, name_and_type_index), q2)) => Some(
                        (ConstantPoolEntryView::MethodRef { class_index, name_and_type_index }, q2),
                    ),
                    None => None,
                }
            } else if tag == 11 {
                match spec_u2_pair(s, q1) {
                    Some(((class_index, name_and_type_index), q2)) => Some(
                        (
                            ConstantPoolEntryView::InterfaceMethodRef {
                                class_index,
                                name_and_type_index,
                            },
                            q2,
                        ),
                    ),
                    None => None,
                }
            } else if tag == 12 {
                match spec_u2_pair(s, q1) {
                    Some(((name_index, descriptor_index), q2)) => Some(
                        (ConstantPoolEntryView::NameAndType { name_index, descriptor_index }, q2),
                    ),
                    None => None,
                }
            } else if tag == 15 {
                match spec_u1(s, q1) {
                    Some((reference_kind, q2)) => match spec_u2(s, q2) {
                        Some((reference_index, q3)) => Some(
                            (
                                ConstantPoolEntryView::MethodHandle {
                                    reference_kind,
                                    reference_index,
                                },
                                q3,
                            ),
                        ),
                        None => None,
                    },
                    None => None,
                }
            } else if tag == 16 {
                match spec_u2(s, q1) {
                    Some((descriptor_index, q2)) => Some(
                        (ConstantPoolEntryView::MethodType { descriptor_index }, q2),
                    ),
                    None => None,
                }
            } else if tag == 18 {
                match spec_u2_pair(s, q1) {
                    Some(((bootstrap_method_attr_index, name_and_type_index), q2)) => Some(
                        (
                            ConstantPoolEntryView::InvokeDynamic {
                                bootstrap_method_attr_index,
                                name_and_type_index,
                            },
                            q2,
                        ),
                    ),
                    None => None,
                }
            } else if tag == 19 {
                match spec_u2(s, q1) {
                    Some((name_index, q2)) => Some(
                        (ConstantPoolEntryView::Module { name_index }, q2),
                    ),
                    None => None,
                }
            } else if tag == 20 {
                match spec_u2(s, q1) {
                    Some((name_index, q2)) => Some(
                        (ConstantPoolEntryView::Package { name_index }, q2),
                    ),
                    None => None,
                }
            } else {
                Some((ConstantPoolEntryView::Unknown(tag), q1))
            }
        },
    }
}

/// The slots that an entry fills: itself, and a phantom behind it where it
/// is wide.
pub open spec fn slots_of(entry: ConstantPoolEntryView) -> Seq<ConstantPoolEntryView> {
    if entry.is_wide() {
        seq![entry, ConstantPoolEntryView::Phantom]
    } else {
        seq![entry]
    }
}

/// The entries of a pool from index `index` up to, not including, `count`.
/// The slot at position `k` of the result is the one with index `index + k`.
pub open spec fn spec_constants(s: Seq<u8>, p: int, index: int, count: int) -> Option<
    (Seq<ConstantPoolEntryView>, int),
>
    decreases count + 1 - index,
{
    if index >= count {
        Some((Seq::empty(), p))
    } else {
        match spec_constant(s, p) {
            Some((entry, q1)) => {
                let next = if entry.is_wide() {
                    index + 2
                } else {
                    index + 1
                };
                match spec_constants(s, q1, next, count) {
                    Some((rest, q2)) => Some((slots_of(entry) + rest, q2)),
                    None => None,
                }
            },
            None => None,
        }
    }
}

/// A constant pool: its declared count, then the entries from index 1.
pub open spec fn spec_constant_pool(s: Seq<u8>, p: int) -> Option<
    ((u16, Seq<ConstantPoolEntryView>), int),
> {
    match spec_u2(s, p) {
        Some((count, q1)) => match spec_constants(s, q1, 1, count as int) {
            Some((pool, q2)) => Some(((count, pool), q2)),
            None => None,
        },
        None => None,
    }
}

/// An attribute kept as found: name index, four-byte length, that many bytes.
pub open spec fn spec_attribute(s: Seq<u8>, p: int) -> Option<(AttributeInfoView, int)> {
    match spec_u2(s, p) {
        Some((name_index, q1)) => match spec_u4(s, q1) {
            Some((len, q2)) => match spec_take(s, q2, len as int) {
                Some((info, q3)) => Some((AttributeInfoView { name_index, info }, q3)),
                None => None,
            },
            None => None,
        },
        None => None,
    }
}

/// The reader of one attribute, for `spec_repeat`.
pub open spec fn attribute_item() -> spec_fn(Seq<u8>, int) -> Option<(AttributeInfoView, int)> {
    |s: Seq<u8>, p: int| spec_attribute(s, p)
}

/// A list of attributes behind its two-byte count.
pub open spec fn spec_attributes(s: Seq<u8>, p: int) -> Option<(Seq<AttributeInfoView>, int)> {
    match spec_u2(s, p) {
        Some((count, q1)) => spec_repeat(attribute_item(), s, q1, count as nat),
        None => None,
    }
}

/// The reader of one two-byte number, for `spec_repeat`.
pub open spec fn u2_item() -> spec_fn(Seq<u8>, int) -> Option<(u16, int)> {
    |s: Seq<u8>, p: int| spec_u2(s, p)
}

/// The interface indices behind their two-byte count.
pub open spec fn spec_interfaces(s: Seq<u8>, p: int) -> Option<(Seq<u16>, int)> {
    match spec_u2(s, p) {
        Some((count, q1)) => spec_repeat(u2_item(), s, q1, count as nat),
        None => None,
    }
}

/// A field: three two-byte numbers and its attributes.
pub open spec fn spec_field(s: Seq<u8>, p: int) -> Option<(FieldInfoView, int)> {
    match spec_u2(s, p) {
        Some((access_flags, q1)) => match spec_u2_pair(s, q1) {
            Some(((name_index, descriptor_index), q2)) => match spec_attributes(s, q2) {
                Some((attributes, q3)) => Some(
                    (
                        FieldInfoView { access_flags, name_index, descriptor_index, attributes },
                        q3,
                    ),
                ),
                None => None,
            },
            None => None,
        },
        None => None,
    }
}

/// The reader of one field, for `spec_repeat`.
pub open spec fn field_item() -> spec_fn(Seq<u8>, int) -> Option<(FieldInfoView, int)> {
    |s: Seq<u8>, p: int| spec_field(s, p)
}

/// The fields behind their two-byte count.
pub open spec fn spec_fields(s: Seq<u8>, p: int) -> Option<(Seq<FieldInfoView>, int)> {
    match spec_u2(s, p) {
        Some((count, q1)) => spec_repeat(field_item(), s, q1, count as nat),
        None => None,
    }
}

/// One row of an exception table: four two-byte numbers.
pub open spec fn spec_exception(s: Seq<u8>, p: int) -> Option<(ExceptionTableEntry, int)> {
    match spec_u2_pair(s, p) {
        Some(((start_pc, end_pc), q1)) => match spec_u2_pair(s, q1) {
            Some(((handler_pc, catch_type), q2)) => Some(
                (ExceptionTableEntry { start_pc, end_pc, handler_pc, catch_type }, q2),
            ),
            None => None,
        },
        None => None,
    }
}

/// The reader of one row of an exception table, for `spec_repeat`.
pub open spec fn exception_item() -> spec_fn(Seq<u8>, int) -> Option<(ExceptionTableEntry, int)> {
    |s: Seq<u8>, p: int| spec_exception(s, p)
}

/// The exception table behind its two-byte count.
pub open spec fn spec_exceptions(s: Seq<u8>, p: int) -> Option<(Seq<ExceptionTableEntry>, int)> {
    match spec_u2(s, p) {
        Some((count, q1)) => spec_repeat(exception_item(), s, q1, count as nat),
        None => None,
    }
}

/// The code of a method behind its four-byte length.
pub open spec fn spec_code_bytes(s: Seq<u8>, p: int) -> Option<(Seq<u8>, int)> {
    match spec_u4(s, p) {
        Some((len, q1)) => spec_take(s, q1, len as int),
        None => None,
    }
}

/// The content of a `Code` attribute: stack and locals limits, the code, the
/// exception table, and the attributes nested in it.
pub open spec fn spec_code(s: Seq<u8>, p: int) -> Option<(CodeAttributeView, int)> {
    match spec_u2_pair(s, p) {
        Some(((max_stack, max_locals), q1)) => match spec_code_bytes(s, q1) {
            Some((code, q2)) => match spec_exceptions(s, q2) {
                Some((exception_table, q3)) => match spec_attributes(s, q3) {
                    Some((attributes, q4)) => Some(
                        (
                            CodeAttributeView {
                                max_stack,
                                max_locals,
                                code,
                                exception_table,
                                attributes,
                            },
                            q4,
                        ),
                    ),
                    None => None,
                },
                None => None,
            },
            None => None,
        },
        None => None,
    }
}

/// The slot of `pool` with the one-based index `index`.
pub open spec fn pool_entry(pool: Seq<ConstantPoolEntryView>, index: u16) -> Option<
    ConstantPoolEntryView,
> {
    if 1 <= index <= pool.len() {
        Some(pool[index - 1])
    } else {
        None
    }
}

/// Whether the slot at `index` holds the name `Code`.
pub open spec fn names_code(pool: Seq<ConstantPoolEntryView>, index: u16) -> bool {
    pool_entry(pool, index) == Some(ConstantPoolEntryView::Utf8("Code"@))
}

/// An attribute of a method: the code, or one kept as found.
pub ghost enum MethodAttributeView {
    Code(CodeAttributeView),
    Other(AttributeInfoView),
}

/// One attribute of a method. Where its name is `Code` the content is read
/// by its structure, whatever its declared length says.
pub open spec fn spec_method_attribute(pool: Seq<ConstantPoolEntryView>, s: Seq<u8>, p: int) -> Option<
    (MethodAttributeView, int),
> {
    match spec_u2(s, p) {
        Some((name_index, q1)) => match spec_u4(s, q1) {
            Some((len, q2)) => if names_code(pool, name_index) {
                match spec_code(s, q2) {
                    Some((code, q3)) => Some((MethodAttributeView::Code(code), q3)),
                    None => None,
                }
            } else {
                match spec_take(s, q2, len as int) {
                    Some((info, q3)) => Some(
                        (MethodAttributeView::Other(AttributeInfoView { name_index, info }), q3),
                    ),
                    None => None,
                }
            },
            None => None,
        },
        None => None,
    }
}

/// The reader of one attribute of a method of a class with the pool
/// `pool`, for `spec_repeat`.
pub open spec fn method_attribute_item(pool: Seq<ConstantPoolEntryView>) -> spec_fn(
    Seq<u8>,
    int,
) -> Option<(MethodAttributeView, int)> {
    |s: Seq<u8>, p: int| spec_method_attribute(pool, s, p)
}

/// The code among a method's attributes: the last one, where there are
/// several.
pub open spec fn last_code(attrs: Seq<MethodAttributeView>) -> Option<CodeAttributeView>
    decreases attrs.len(),
{
    if attrs.len() == 0 {
        None
    } else {
        match attrs.last() {
            MethodAttributeView::Code(code) => Some(code),
            MethodAttributeView::Other(_) => last_code(attrs.drop_last()),
        }
    }
}

/// A method's attributes without the code, in their order.
pub open spec fn other_attributes(attrs: Seq<MethodAttributeView>) -> Seq<AttributeInfoView>
    decreases attrs.len(),
{
    if attrs.len() == 0 {
        Seq::empty()
    } else {
        match attrs.last() {
            MethodAttributeView::Code(_) => other_attributes(attrs.drop_last()),
            MethodAttributeView::Other(attr) => other_attributes(attrs.drop_last()).push(attr),
        }
    }
}

/// A method: three two-byte numbers and its attributes.
pub open spec fn spec_method(pool: Seq<ConstantPoolEntryView>, s: Seq<u8>, p: int) -> Option<
    (MethodInfoView, int),
> {
    match spec_u2(s, p) {
        Some((access_flags, q1)) => match spec_u2_pair(s, q1) {
            Some(((name_index, descriptor_index), q2)) => match spec_u2(s, q2) {
                Some((count, q3)) => match spec_repeat(
                    method_attribute_item(pool),
                    s,
                    q3,
                    count as nat,
                ) {
                    Some((attrs, q4)) => Some(
                        (
                            MethodInfoView {
                                access_flags,
                                name_index,
                                descriptor_index,
                                code: last_code(attrs),
                                attributes: other_attributes(attrs),
                            },
                            q4,
                        ),
                    ),
                    None => None,
                },
                None => None,
            },
            None => None,
        },
        None => None,
    }
}

/// The reader of one method of a class with the pool `pool`, for
/// `spec_repeat`.
pub open spec fn method_item(pool: Seq<ConstantPoolEntryView>) -> spec_fn(Seq<u8>, int) -> Option<
    (MethodInfoView, int),
> {
    |s: Seq<u8>, p: int| spec_method(pool, s, p)
}

/// The methods behind their two-byte count.
pub open spec fn spec_methods(pool: Seq<ConstantPoolEntryView>, s: Seq<u8>, p: int) -> Option<
    (Seq<MethodInfoView>, int),
> {
    match spec_u2(s, p) {
        Some((count, q1)) => spec_repeat(method_item(pool), s, q1, count as nat),
        None => None,
    }
}

/// Access flags, this class and super class.
pub open spec fn spec_class_info(s: Seq<u8>, p: int) -> Option<((u16, u16, u16), int)> {
    match spec_u2(s, p) {
        Some((access_flags, q1)) => match spec_u2_pair(s, q1) {
            Some(((this_class, super_class), q2)) => Some(
                ((access_flags, this_class, super_class), q2),
            ),
            None => None,
        },
        None => None,
    }
}

/// Interfaces, fields, methods and class attributes, in that order.
pub open spec fn spec_members(pool: Seq<ConstantPoolEntryView>, s: Seq<u8>, p: int) -> Option<
    (
        (Seq<u16>, Seq<FieldInfoView>, Seq<MethodInfoView>, Seq<AttributeInfoView>),
        int,
    ),
> {
    match spec_interfaces(s, p) {
        Some((interfaces, q1)) => match spec_fields(s, q1) {
            Some((fields, q2)) => match spec_methods(pool, s, q2) {
                Some((methods, q3)) => match spec_attributes(s, q3) {
                    Some((attributes, q4)) => Some(((interfaces, fields, methods, attributes), q4)),
                    None => None,
                },
                None => None,
            },
            None => None,
        },
        None => None,
    }
}

/// All of a class file behind its magic marker, which stands at the first
/// four bytes.
pub open spec fn spec_class_body(s: Seq<u8>, magic: u32) -> Option<ClassFileView> {
    match spec_u2_pair(s, 4) {
        Some(((minor_version, major_version), q1)) => match spec_constant_pool(s, q1) {
            Some(((constant_pool_count, constant_pool), q2)) => match spec_class_info(s, q2) {
                Some(((access_flags, this_class, super_class), q3)) => match spec_members(
                    constant_pool,
                    s,
                    q3,
                ) {
                    Some(((interfaces, fields, methods, attributes), _)) => Some(
                        ClassFileView {
                            magic,
                            minor_version,
                            major_version,
                            constant_pool_count,
                            constant_pool,
                            access_flags,
                            this_class,
                            super_class,
                            interfaces,
                            fields,
                            methods,
                            attributes,
                        },
                    ),
                    None => None,
                },
                None => None,
            },
            None => None,
        },
        None => None,
    }
}

/// What a byte sequence decodes to: the class file it holds, or the reason
/// it holds none. Bytes behind the class attributes are not looked at.
pub open spec fn spec_class_file(s: Seq<u8>) -> Result<ClassFileView, ParseError> {
    match spec_u4(s, 0) {
        None => Err(ParseError::Truncated),
        Some((magic, _)) => if magic != JAVA_MAGIC {
            Err(ParseError::InvalidMagic(magic))
        } else {
            match spec_class_body(s, magic) {
                Some(class) => Ok(class),
                None => Err(ParseError::Truncated),
            }
        },
    }
}

/// The slot with the index `target`, read from the bytes again: the entries
/// of the pool are walked from the one with the index `index`, which stands
/// at `p`, and the walk stops at the entry that fills the slot. That is the
/// entry itself, or the phantom behind it where it is wide.
pub open spec fn reread_slot(s: Seq<u8>, p: int, index: int, count: int, target: int) -> Option<
    ConstantPoolEntryView,
>
    decreases count + 1 - index,
{
    if index >= count {
        None
    } else {
        match spec_constant(s, p) {
            Some((entry, q1)) => {
                if target == index {
                    Some(entry)
                } else if entry.is_wide() {
                    if target == index + 1 {
                        Some(ConstantPoolEntryView::Phantom)
                    } else {
                        reread_slot(s, q1, index + 2, count, target)
                    }
                } else {
                    reread_slot(s, q1, index + 1, count, target)
                }
            },
            None => None,
        }
    }
}

/// Whether each wide entry of `pool` has a phantom behind it, and each
/// phantom a wide entry before it.
pub open spec fn phantoms_follow_wide(pool: Seq<ConstantPoolEntryView>) -> bool {
    &&& forall|k: int|
        0 <= k < pool.len() && (#[trigger] pool[k]).is_wide() ==> k + 1 < pool.len() && pool[k + 1]
            == ConstantPoolEntryView::Phantom
    &&& forall|k: int|
        0 <= k < pool.len() && #[trigger] pool[k] == ConstantPoolEntryView::Phantom ==> k > 0
            && pool[k - 1].is_wide()
}

/// A decoded pool holds at each index the entry that a second reading of
/// the bytes finds for that index: the slot at position `k` of the entries
/// decoded from index `index` on has the index `index + k`. A `Long` or
/// `Double` fills the slot of its index, and the slot behind it is a
/// phantom. The pool ends at the declared count, or one slot behind it
/// where the last entry is wide.
pub proof fn lemma_pool_reread(s: Seq<u8>, p: int, index: int, count: int)
    requires
        spec_constants(s, p, index, count) is Some,
    ensures
        ({
            let pool = spec_constants(s, p, index, count)->Some_0.0;
            &&& forall|k: int|
                0 <= k < pool.len() ==> reread_slot(s, p, index, count, index + k) == Some(
                    #[trigger] pool[k],
                )
            &&& phantoms_follow_wide(pool)
            &&& index < count ==> count - index <= pool.len() <= count - index + 1
            &&& index >= count ==> pool.len() == 0
        }),
    decreases count + 1 - index,
{
    let pool = spec_constants(s, p, index, count)->Some_0.0;
    if index < count {
        let (entry, q1) = spec_constant(s, p)->Some_0;
        let next = if entry.is_wide() {
            index + 2
        } else {
            index + 1
        };
        let rest = spec_constants(s, q1, next, count)->Some_0.0;
        lemma_pool_reread(s, q1, next, count);
        assert(pool == slots_of(entry) + rest);
        assert(entry != ConstantPoolEntryView::Phantom);
        assert forall|k: int| 0 <= k < pool.len() implies reread_slot(
            s,
            p,
            index,
            count,
            index + k,
        ) == Some(#[trigger] pool[k]) by {
            if k >= slots_of(entry).len() {
                let j = k - slots_of(entry).len();
                assert(pool[k] == rest[j]);
                assert(reread_slot(s, q1, next, count, next + j) == Some(rest[j]));
            }
        }
        assert forall|k: int| 0 <= k < pool.len() && (#[trigger] pool[k]).is_wide() implies k + 1
            < pool.len() && pool[k + 1] == ConstantPoolEntryView::Phantom by {
            if k >= slots_of(entry).len() {
                let j = k - slots_of(entry).len();
                assert(pool[k] == rest[j]);
                assert(rest[j].is_wide());
                assert(pool[k + 1] == rest[j + 1]);
            }
        }
        assert forall|k: int|
            0 <= k < pool.len() && #[trigger] pool[k] == ConstantPoolEntryView::Phantom implies k
            > 0 && pool[k - 1].is_wide() by {
            if k >= slots_of(entry).len() {
                let j = k - slots_of(entry).len();
                assert(pool[k] == rest[j]);
                if j > 0 {
                    assert(pool[k - 1] == rest[j - 1]);
                } else {
                    assert(rest[0] == ConstantPoolEntryView::Phantom);
                    assert(false);
                }
            }
        }
    }
}

/// The pool of a decoded class file holds at each index the entry that a
/// second reading of the bytes finds for it, with a phantom behind each
/// `Long` and `Double`.
pub proof fn lemma_class_pool_reread(s: Seq<u8>)
    requires
        spec_class_file(s) is Ok,
    ensures
        ({
            let class = spec_class_file(s)->Ok_0;
            let count = class.constant_pool_count as int;
            &&& forall|index: int|
                1 <= index <= class.constant_pool.len() ==> reread_slot(s, 10, 1, count, index)
                    == Some(#[trigger] class.constant_pool[index - 1])
            &&& phantoms_follow_wide(class.constant_pool)
            &&& count >= 1 ==> count - 1 <= class.constant_pool.len() <= count
        }),
{
    let class = spec_class_file(s)->Ok_0;
    let count = class.constant_pool_count as int;
    lemma_pool_reread(s, 10, 1, count);
    assert forall|index: int| 1 <= index <= class.constant_pool.len() implies reread_slot(
        s,
        10,
        1,
        count,
        index,
    ) == Some(#[trigger] class.constant_pool[index - 1]) by {
        let k = index - 1;
        assert(reread_slot(s, 10, 1, count, 1 + k) == Some(class.constant_pool[k]));
    }
}

} // verus!
