//! The structured form of a class file, and the decoder that builds it from
//! bytes.

use crate::bytecode::format::{
    attribute_item, exception_item, field_item, join64, last_code, lemma_repeat_step,
    method_attribute_item, method_item, names_code, other_attributes, signed32, signed64, slots_of,
    spec_after, spec_attribute, spec_attributes, spec_class_file, spec_code, spec_constant,
    spec_constant_pool, spec_constants, spec_exception, spec_exceptions, spec_field, spec_fields,
    spec_interfaces, spec_method, spec_methods, spec_repeat, spec_take, spec_u1, spec_u2,
    spec_u2_pair, spec_u4, spec_u4_pair, u2_item, utf8_lossy, MethodAttributeView,
};
use crate::bytecode::reader::{ClassReader, ReaderView};
use crate::text::str_eq;
use vstd::prelude::*;
use vstd::utf8::{decode_utf8, valid_utf8};

verus! {

/// The four bytes every class file starts with.
pub const JAVA_MAGIC: u32 = 0xCAFEBABE;

/// Why a buffer could not be decoded.
#[derive(Debug, Clone, Copy, PartialEq, Eq, Structural)]
pub enum ParseError {
    /// The first four bytes hold this number in place of the magic marker.
    InvalidMagic(u32),
    /// The buffer ends before the class file does.
    Truncated,
}

/// One slot of the constant pool.
///
/// `Float` and `Double` hold the IEEE-754 bit pattern of the constant.
/// `Phantom` fills the slot after a `Long` or a `Double`, which the format
/// leaves unusable.
#[derive(Debug, Clone)]
pub enum ConstantPoolEntry {
    Utf8(String),
    Integer(i32),
    Float(u32),
    Long(i64),
    Double(u64),
    Class { name_index: u16 },
    String { string_index: u16 },
    FieldRef { class_index: u16, name_and_type_index: u16 },
    MethodRef { class_index: u16, name_and_type_index: u16 },
    InterfaceMethodRef { class_index: u16, name_and_type_index: u16 },
    NameAndType { name_index: u16, descriptor_index: u16 },
    MethodHandle { reference_kind: u8, reference_index: u16 },
    MethodType { descriptor_index: u16 },
    InvokeDynamic { bootstrap_method_attr_index: u16, name_and_type_index: u16 },
    Module { name_index: u16 },
    Package { name_index: u16 },
    Unknown(u8),
    Phantom,
}

/// A constant-pool slot as a mathematical value.
pub ghost enum ConstantPoolEntryView {
    Utf8(Seq<char>),
    Integer(i32),
    Float(u32),
    Long(i64),
    Double(u64),
    Class { name_index: u16 },
    String { string_index: u16 },
    FieldRef { class_index: u16, name_and_type_index: u16 },
    MethodRef { class_index: u16, name_and_type_index: u16 },
    InterfaceMethodRef { class_index: u16, name_and_type_index: u16 },
    NameAndType { name_index: u16, descriptor_index: u16 },
    MethodHandle { reference_kind: u8, reference_index: u16 },
    MethodType { descriptor_index: u16 },
    InvokeDynamic { bootstrap_method_attr_index: u16, name_and_type_index: u16 },
    Module { name_index: u16 },
    Package { name_index: u16 },
    Unknown(u8),
    Phantom,
}

impl ConstantPoolEntryView {
    /// Whether the entry takes two slots of the pool.
    pub open spec fn is_wide(self) -> bool {
        self is Long || self is Double
    }
}

impl View for ConstantPoolEntry {
    type V = ConstantPoolEntryView;

    open spec fn view(&self) -> ConstantPoolEntryView {
        match *self {
            ConstantPoolEntry::Utf8(s) => ConstantPoolEntryView::Utf8(s@),
            ConstantPoolEntry::Integer(v) => ConstantPoolEntryView::Integer(v),
            ConstantPoolEntry::Float(v) => ConstantPoolEntryView::Float(v),
            ConstantPoolEntry::Long(v) => ConstantPoolEntryView::Long(v),
            ConstantPoolEntry::Double(v) => ConstantPoolEntryView::Double(v),
            ConstantPoolEntry::Class { name_index } => ConstantPoolEntryView::Class { name_index },
            ConstantPoolEntry::String { string_index } => ConstantPoolEntryView::String {
                string_index,
            },
            ConstantPoolEntry::FieldRef {
                class_index,
                name_and_type_index,
            } => ConstantPoolEntryView::FieldRef { class_index, name_and_type_index },
            ConstantPoolEntry::MethodRef {
                class_index,
                name_and_type_index,
            } => ConstantPoolEntryView::MethodRef { class_index, name_and_type_index },
            ConstantPoolEntry::InterfaceMethodRef {
                class_index,
                name_and_type_index,
            } => ConstantPoolEntryView::InterfaceMethodRef { class_index, name_and_type_index },
            ConstantPoolEntry::NameAndType {
                name_index,
                descriptor_index,
            } => ConstantPoolEntryView::NameAndType { name_index, descriptor_index },
            ConstantPoolEntry::MethodHandle {
                reference_kind,
                reference_index,
            } => ConstantPoolEntryView::MethodHandle { reference_kind, reference_index },
            ConstantPoolEntry::MethodType { descriptor_index } => ConstantPoolEntryView::MethodType {
                descriptor_index,
            },
            ConstantPoolEntry::InvokeDynamic {
                bootstrap_method_attr_index,
                name_and_type_index,
            } => ConstantPoolEntryView::InvokeDynamic {
                bootstrap_method_attr_index,
                name_and_type_index,
            },
            ConstantPoolEntry::Module { name_index } => ConstantPoolEntryView::Module { name_index },
            ConstantPoolEntry::Package { name_index } => ConstantPoolEntryView::Package {
                name_index,
            },
            ConstantPoolEntry::Unknown(tag) => ConstantPoolEntryView::Unknown(tag),
            ConstantPoolEntry::Phantom => ConstantPoolEntryView::Phantom,
        }
    }
}

impl DeepView for ConstantPoolEntry {
    type V = ConstantPoolEntryView;

    open spec fn deep_view(&self) -> ConstantPoolEntryView {
        self@
    }
}

/// An attribute that the decoder keeps as it found it.
#[derive(Debug, Clone)]
pub struct AttributeInfo {
    pub name_index: u16,
    pub info: Vec<u8>,
}

/// An attribute as a mathematical value.
pub ghost struct AttributeInfoView {
    pub name_index: u16,
    pub info: Seq<u8>,
}

impl View for AttributeInfo {
    type V = AttributeInfoView;

    open spec fn view(&self) -> AttributeInfoView {
        AttributeInfoView { name_index: self.name_index, info: self.info@ }
    }
}

impl DeepView for AttributeInfo {
    type V = AttributeInfoView;

    open spec fn deep_view(&self) -> AttributeInfoView {
        self@
    }
}

/// A field of a class.
#[derive(Debug, Clone)]
pub struct FieldInfo {
    pub access_flags: u16,
    pub name_index: u16,
    pub descriptor_index: u16,
    pub attributes: Vec<AttributeInfo>,
}

/// A field as a mathematical value.
pub ghost struct FieldInfoView {
    pub access_flags: u16,
    pub name_index: u16,
    pub descriptor_index: u16,
    pub attributes: Seq<AttributeInfoView>,
}

impl View for FieldInfo {
    type V = FieldInfoView;

    open spec fn view(&self) -> FieldInfoView {
        FieldInfoView {
            access_flags: self.access_flags,
            name_index: self.name_index,
            descriptor_index: self.descriptor_index,
            attributes: self.attributes.deep_view(),
        }
    }
}

impl DeepView for FieldInfo {
    type V = FieldInfoView;

    open spec fn deep_view(&self) -> FieldInfoView {
        self@
    }
}

/// One row of a method's exception table.
#[derive(Debug, Clone, Copy, PartialEq, Eq, Structural)]
pub struct ExceptionTableEntry {
    pub start_pc: u16,
    pub end_pc: u16,
    pub handler_pc: u16,
    pub catch_type: u16,
}

impl DeepView for ExceptionTableEntry {
    type V = ExceptionTableEntry;

    open spec fn deep_view(&self) -> ExceptionTableEntry {
        *self
    }
}

/// The body of a method.
#[derive(Debug, Clone)]
pub struct CodeAttribute {
    pub max_stack: u16,
    pub max_locals: u16,
    pub code: Vec<u8>,
    pub exception_table: Vec<ExceptionTableEntry>,
    pub attributes: Vec<AttributeInfo>,
}

/// The body of a method as a mathematical value.
pub ghost struct CodeAttributeView {
    pub max_stack: u16,
    pub max_locals: u16,
    pub code: Seq<u8>,
    pub exception_table: Seq<ExceptionTableEntry>,
    pub attributes: Seq<AttributeInfoView>,
}

impl View for CodeAttribute {
    type V = CodeAttributeView;

    open spec fn view(&self) -> CodeAttributeView {
        CodeAttributeView {
            max_stack: self.max_stack,
            max_locals: self.max_locals,
            code: self.code@,
            exception_table: self.exception_table@,
            attributes: self.attributes.deep_view(),
        }
    }
}

impl DeepView for CodeAttribute {
    type V = CodeAttributeView;

    open spec fn deep_view(&self) -> CodeAttributeView {
        self@
    }
}

/// A method of a class.
#[derive(Debug, Clone)]
pub struct MethodInfo {
    pub access_flags: u16,
    pub name_index: u16,
    pub descriptor_index: u16,
    pub code: Option<CodeAttribute>,
    pub attributes: Vec<AttributeInfo>,
}

/// A method as a mathematical value.
pub ghost struct MethodInfoView {
    pub access_flags: u16,
    pub name_index: u16,
    pub descriptor_index: u16,
    pub code: Option<CodeAttributeView>,
    pub attributes: Seq<AttributeInfoView>,
}

impl View for MethodInfo {
    type V = MethodInfoView;

    open spec fn view(&self) -> MethodInfoView {
        MethodInfoView {
            access_flags: self.access_flags,
            name_index: self.name_index,
            descriptor_index: self.descriptor_index,
            code: self.code.deep_view(),
            attributes: self.attributes.deep_view(),
        }
    }
}

impl DeepView for MethodInfo {
    type V = MethodInfoView;

    open spec fn deep_view(&self) -> MethodInfoView {
        self@
    }
}

/// A decoded class file.
#[derive(Debug, Clone)]
pub struct ClassFile {
    pub magic: u32,
    pub minor_version: u16,
    pub major_version: u16,
    pub constant_pool_count: u16,
    pub constant_pool: Vec<ConstantPoolEntry>,
    pub access_flags: u16,
    pub this_class: u16,
    pub super_class: u16,
    pub interfaces: Vec<u16>,
    pub fields: Vec<FieldInfo>,
    pub methods: Vec<MethodInfo>,
    pub attributes: Vec<AttributeInfo>,
}

/// A class file as a mathematical value.
pub ghost struct ClassFileView {
    pub magic: u32,
    pub minor_version: u16,
    pub major_version: u16,
    pub constant_pool_count: u16,
    pub constant_pool: Seq<ConstantPoolEntryView>,
    pub access_flags: u16,
    pub this_class: u16,
    pub super_class: u16,
    pub interfaces: Seq<u16>,
    pub fields: Seq<FieldInfoView>,
    pub methods: Seq<MethodInfoView>,
    pub attributes: Seq<AttributeInfoView>,
}

impl View for ClassFile {
    type V = ClassFileView;

    open spec fn view(&self) -> ClassFileView {
        ClassFileView {
            magic: self.magic,
            minor_version: self.minor_version,
            major_version: self.major_version,
            constant_pool_count: self.constant_pool_count,
            constant_pool: self.constant_pool.deep_view(),
            access_flags: self.access_flags,
            this_class: self.this_class,
            super_class: self.super_class,
            interfaces: self.interfaces@,
            fields: self.fields.deep_view(),
            methods: self.methods.deep_view(),
            attributes: self.attributes.deep_view(),
        }
    }
}

/// Whether `result` and the cursor after it are what the grammar gives at
/// the cursor before: the value it denotes with the cursor behind it, or
/// `Truncated` where it denotes none.
pub open spec fn reads<T: View>(
    result: Result<T, ParseError>,
    before: ReaderView,
    after: ReaderView,
    expected: Option<(T::V, int)>,
) -> bool {
    &&& after.data == before.data
    &&& match expected {
        Some((value, next)) => result is Ok && result->Ok_0@ == value && after.position == next,
        None => result is Err && result->Err_0 == ParseError::Truncated,
    }
}

/// As `reads`, for a list of items that have a view each.
pub open spec fn reads_list<T: DeepView>(
    result: Result<Vec<T>, ParseError>,
    before: ReaderView,
    after: ReaderView,
    expected: Option<(Seq<T::V>, int)>,
) -> bool {
    &&& after.data == before.data
    &&& match expected {
        Some((value, next)) => result is Ok && result->Ok_0.deep_view() == value && after.position
            == next,
        None => result is Err && result->Err_0 == ParseError::Truncated,
    }
}

/// `String::from_utf8_lossy`: the text of `bytes`, which depends on the
/// bytes alone; `utf8_lossy` names it. Bytes that are valid UTF-8 give the
/// text that they encode.
#[verifier::external_body]
fn decode_utf8_lossy(bytes: &Vec<u8>) -> (text: String)
    ensures
        text@ == utf8_lossy(bytes@),
        valid_utf8(bytes@) ==> text@ == decode_utf8(bytes@),
{
    String::from_utf8_lossy(bytes).into_owned()
}

fn to_signed32(v: u32) -> (r: i32)
    ensures
        r == signed32(v),
{
    if v >= 0x8000_0000 {
        ((v - 0x8000_0000) as i32) - 0x7fff_ffff - 1
    } else {
        v as i32
    }
}

fn to_joined64(high: u32, low: u32) -> (r: u64)
    ensures
        r == join64(high, low),
{
    (high as u64) * 0x1_0000_0000 + (low as u64)
}

fn to_signed64(v: u64) -> (r: i64)
    ensures
        r == signed64(v),
{
    if v >= 0x8000_0000_0000_0000 {
        ((v - 0x8000_0000_0000_0000) as i64) - 0x7fff_ffff_ffff_ffff - 1
    } else {
        v as i64
    }
}

fn take_u1(reader: &mut ClassReader) -> (r: Result<u8, ParseError>)
    ensures
        reads(r, old(reader)@, final(reader)@, spec_u1(old(reader)@.data, old(reader)@.position)),
{
    if reader.remaining() < 1 {
        return Err(ParseError::Truncated);
    }
    Ok(reader.read_u1())
}

fn take_u2(reader: &mut ClassReader) -> (r: Result<u16, ParseError>)
    ensures
        reads(r, old(reader)@, final(reader)@, spec_u2(old(reader)@.data, old(reader)@.position)),
{
    if reader.remaining() < 2 {
        return Err(ParseError::Truncated);
    }
    Ok(reader.read_u2())
}

fn take_u4(reader: &mut ClassReader) -> (r: Result<u32, ParseError>)
    ensures
        reads(r, old(reader)@, final(reader)@, spec_u4(old(reader)@.data, old(reader)@.position)),
{
    if reader.remaining() < 4 {
        return Err(ParseError::Truncated);
    }
    Ok(reader.read_u4())
}

fn take_u2_pair(reader: &mut ClassReader) -> (r: Result<(u16, u16), ParseError>)
    ensures
        final(reader)@.data == old(reader)@.data,
        match spec_u2_pair(old(reader)@.data, old(reader)@.position) {
            Some((pair, next)) => r == Ok::<(u16, u16), ParseError>(pair) && final(reader)@.position
                == next,
            None => r == Err::<(u16, u16), ParseError>(ParseError::Truncated),
        },
{
    let a = take_u2(reader)?;
    let b = take_u2(reader)?;
    Ok((a, b))
}

fn take_u4_pair(reader: &mut ClassReader) -> (r: Result<(u32, u32), ParseError>)
    ensures
        final(reader)@.data == old(reader)@.data,
        match spec_u4_pair(old(reader)@.data, old(reader)@.position) {
            Some((pair, next)) => r == Ok::<(u32, u32), ParseError>(pair) && final(reader)@.position
                == next,
            None => r == Err::<(u32, u32), ParseError>(ParseError::Truncated),
        },
{
    let a = take_u4(reader)?;
    let b = take_u4(reader)?;
    Ok((a, b))
}

fn take_bytes(reader: &mut ClassReader, n: usize) -> (r: Result<Vec<u8>, ParseError>)
    ensures
        reads(
            r,
            old(reader)@,
            final(reader)@,
            spec_take(old(reader)@.data, old(reader)@.position, n as int),
        ),
{
    if reader.remaining() < n {
        return Err(ParseError::Truncated);
    }
    let ghost s = reader@.data;
    let ghost p = reader@.position;
    let mut bytes: Vec<u8> = Vec::with_capacity(n);
    let mut i: usize = 0;
    while i < n
        invariant
            i <= n,
            0 <= p,
            p + n <= s.len(),
            reader@ == (ReaderView { data: s, position: p + i }),
            bytes@ == s.subrange(p, p + i),
        decreases n - i,
    {
        let b = reader.read_u1();
        bytes.push(b);
        i += 1;
        assert(bytes@ =~= s.subrange(p, p + i));
    }
    Ok(bytes)
}

fn parse_constant(reader: &mut ClassReader) -> (r: Result<ConstantPoolEntry, ParseError>)
    ensures
        reads(
            r,
            old(reader)@,
            final(reader)@,
            spec_constant(old(reader)@.data, old(reader)@.position),
        ),
{
    let tag = take_u1(reader)?;
    let entry = match tag {
        1 => {
            let length = take_u2(reader)?;
            let bytes = take_bytes(reader, length as usize)?;
            ConstantPoolEntry::Utf8(decode_utf8_lossy(&bytes))
        },
        3 => ConstantPoolEntry::Integer(to_signed32(take_u4(reader)?)),
        4 => ConstantPoolEntry::Float(take_u4(reader)?),
        5 => {
            let (high, low) = take_u4_pair(reader)?;
            ConstantPoolEntry::Long(to_signed64(to_joined64(high, low)))
        },
        6 => {
            let (high, low) = take_u4_pair(reader)?;
            ConstantPoolEntry::Double(to_joined64(high, low))
        },
        7 => ConstantPoolEntry::Class { name_index: take_u2(reader)? },
        8 => ConstantPoolEntry::String { string_index: take_u2(reader)? },
        9 => {
            let (class_index, name_and_type_index) = take_u2_pair(reader)?;
            ConstantPoolEntry::FieldRef { class_index, name_and_type_index }
        },
        10 => {
            let (class_index, name_and_type_index) = take_u2_pair(reader)?;
            ConstantPoolEntry::MethodRef { class_index, name_and_type_index }
        },
        11 => {
            let (class_index, name_and_type_index) = take_u2_pair(reader)?;
            ConstantPoolEntry::InterfaceMethodRef { class_index, name_and_type_index }
        },
        12 => {
            let (name_index, descriptor_index) = take_u2_pair(reader)?;
            ConstantPoolEntry::NameAndType { name_index, descriptor_index }
        },
        15 => {
            let reference_kind = take_u1(reader)?;
            let reference_index = take_u2(reader)?;
            ConstantPoolEntry::MethodHandle { reference_kind, reference_index }
        },
        16 => ConstantPoolEntry::MethodType { descriptor_index: take_u2(reader)? },
        18 => {
            let (bootstrap_method_attr_index, name_and_type_index) = take_u2_pair(reader)?;
            ConstantPoolEntry::InvokeDynamic { bootstrap_method_attr_index, name_and_type_index }
        },
        19 => ConstantPoolEntry::Module { name_index: take_u2(reader)? },
        20 => ConstantPoolEntry::Package { name_index: take_u2(reader)? },
        _ => ConstantPoolEntry::Unknown(tag),
    };
    Ok(entry)
}

/// Reading one more entry moves its slots from the rest to what is done.
proof fn lemma_constants_step(
    s: Seq<u8>,
    p: int,
    index: int,
    count: int,
    done: Seq<ConstantPoolEntryView>,
)
    requires
        index < count,
    ensures
        spec_after(done, spec_constants(s, p, index, count)) == match spec_constant(s, p) {
            Some((entry, q1)) => spec_after(
                done + slots_of(entry),
                spec_constants(s, q1, index + slots_of(entry).len(), count),
            ),
            None => None,
        },
{
    match spec_constant(s, p) {
        Some((entry, q1)) => {
            let next = index + slots_of(entry).len();
            match spec_constants(s, q1, next, count) {
                Some((rest, q2)) => {
                    assert(done + (slots_of(entry) + rest) =~= (done + slots_of(entry)) + rest);
                },
                None => {},
            }
        },
        None => {},
    }
}

/// Reads a constant pool at the cursor: its declared count, and its slots
/// from index 1 on.
pub fn parse_constant_pool(reader: &mut ClassReader) -> (r: Result<
    (u16, Vec<ConstantPoolEntry>),
    ParseError,
>)
    ensures
        final(reader)@.data == old(reader)@.data,
        match spec_constant_pool(old(reader)@.data, old(reader)@.position) {
            Some(((count, pool), next)) => r is Ok && r->Ok_0.0 == count
                && r->Ok_0.1.deep_view() == pool && final(reader)@.position == next,
            None => r is Err && r->Err_0 == ParseError::Truncated,
        },
{
    let count = take_u2(reader)?;
    let ghost s = reader@.data;
    let ghost start = reader@.position;
    let mut pool: Vec<ConstantPoolEntry> = Vec::new();
    let mut index: u32 = 1;
    assert(pool.deep_view() + spec_constants(s, start, 1, count as int)->Some_0.0
        =~= spec_constants(s, start, 1, count as int)->Some_0.0);
    while index < count as u32
        invariant
            1 <= index <= count + 1,
            reader@.data == s,
            old(reader)@.data == s,
            spec_u2(s, old(reader)@.position) == Some((count, start)),
            spec_after(
                pool.deep_view(),
                spec_constants(s, reader@.position, index as int, count as int),
            ) == spec_constants(s, start, 1, count as int),
        decreases count + 1 - index,
    {
        proof {
            lemma_constants_step(s, reader@.position, index as int, count as int, pool.deep_view());
        }
        let ghost done = pool.deep_view();
        let entry = parse_constant(reader)?;
        let ghost entry_view = entry@;
        let wide = match entry {
            ConstantPoolEntry::Long(_) => true,
            ConstantPoolEntry::Double(_) => true,
            _ => false,
        };
        pool.push(entry);
        if wide {
            pool.push(ConstantPoolEntry::Phantom);
            index += 2;
        } else {
            index += 1;
        }
        assert(pool.deep_view() =~= done + slots_of(entry_view));
    }
    assert(pool.deep_view() + Seq::<ConstantPoolEntryView>::empty() =~= pool.deep_view());
    Ok((count, pool))
}

fn parse_attribute(reader: &mut ClassReader) -> (r: Result<AttributeInfo, ParseError>)
    ensures
        reads(
            r,
            old(reader)@,
            final(reader)@,
            spec_attribute(old(reader)@.data, old(reader)@.position),
        ),
{
    let name_index = take_u2(reader)?;
    let length = take_u4(reader)?;
    let info = take_bytes(reader, length as usize)?;
    Ok(AttributeInfo { name_index, info })
}

/// Reads a list of attributes at the cursor, each kept as found.
pub fn parse_attributes(reader: &mut ClassReader) -> (r: Result<Vec<AttributeInfo>, ParseError>)
    ensures
        reads_list(
            r,
            old(reader)@,
            final(reader)@,
            spec_attributes(old(reader)@.data, old(reader)@.position),
        ),
{
    let count = take_u2(reader)?;
    let ghost s = reader@.data;
    let ghost start = reader@.position;
    let mut attributes: Vec<AttributeInfo> = Vec::with_capacity(count as usize);
    let mut i: u16 = 0;
    assert(attributes.deep_view() + spec_repeat(attribute_item(), s, start, count as nat)->Some_0.0
        =~= spec_repeat(attribute_item(), s, start, count as nat)->Some_0.0);
    while i < count
        invariant
            i <= count,
            reader@.data == s,
            old(reader)@.data == s,
            spec_u2(s, old(reader)@.position) == Some((count, start)),
            spec_after(
                attributes.deep_view(),
                spec_repeat(attribute_item(), s, reader@.position, (count - i) as nat),
            ) == spec_repeat(attribute_item(), s, start, count as nat),
        decreases count - i,
    {
        proof {
            lemma_repeat_step(
                attribute_item(),
                s,
                reader@.position,
                (count - i) as nat,
                attributes.deep_view(),
            );
        }
        let ghost done = attributes.deep_view();
        let attribute = parse_attribute(reader)?;
        let ghost attribute_view = attribute@;
        attributes.push(attribute);
        i += 1;
        assert(attributes.deep_view() =~= done.push(attribute_view));
    }
    assert(attributes.deep_view() + Seq::<AttributeInfoView>::empty() =~= attributes.deep_view());
    Ok(attributes)
}

/// Reads the interface indices of a class at the cursor.
pub fn parse_interfaces(reader: &mut ClassReader) -> (r: Result<Vec<u16>, ParseError>)
    ensures
        reads(
            r,
            old(reader)@,
            final(reader)@,
            spec_interfaces(old(reader)@.data, old(reader)@.position),
        ),
{
    let count = take_u2(reader)?;
    let ghost s = reader@.data;
    let ghost start = reader@.position;
    let mut interfaces: Vec<u16> = Vec::with_capacity(count as usize);
    let mut i: u16 = 0;
    assert(interfaces@ + spec_repeat(u2_item(), s, start, count as nat)->Some_0.0 =~= spec_repeat(
        u2_item(),
        s,
        start,
        count as nat,
    )->Some_0.0);
    while i < count
        invariant
            i <= count,
            reader@.data == s,
            old(reader)@.data == s,
            spec_u2(s, old(reader)@.position) == Some((count, start)),
            spec_after(
                interfaces@,
                spec_repeat(u2_item(), s, reader@.position, (count - i) as nat),
            ) == spec_repeat(u2_item(), s, start, count as nat),
        decreases count - i,
    {
        proof {
            lemma_repeat_step(u2_item(), s, reader@.position, (count - i) as nat, interfaces@);
        }
        let interface = take_u2(reader)?;
        interfaces.push(interface);
        i += 1;
    }
    assert(interfaces@ + Seq::<u16>::empty() =~= interfaces@);
    Ok(interfaces)
}

fn parse_field(reader: &mut ClassReader) -> (r: Result<FieldInfo, ParseError>)
    ensures
        reads(r, old(reader)@, final(reader)@, spec_field(old(reader)@.data, old(reader)@.position)),
{
    let access_flags = take_u2(reader)?;
    let (name_index, descriptor_index) = take_u2_pair(reader)?;
    let attributes = parse_attributes(reader)?;
    Ok(FieldInfo { access_flags, name_index, descriptor_index, attributes })
}

/// Reads the fields of a class at the cursor.
pub fn parse_fields(reader: &mut ClassReader) -> (r: Result<Vec<FieldInfo>, ParseError>)
    ensures
        reads_list(
            r,
            old(reader)@,
            final(reader)@,
            spec_fields(old(reader)@.data, old(reader)@.position),
        ),
{
    let count = take_u2(reader)?;
    let ghost s = reader@.data;
    let ghost start = reader@.position;
    let mut fields: Vec<FieldInfo> = Vec::with_capacity(count as usize);
    let mut i: u16 = 0;
    assert(fields.deep_view() + spec_repeat(field_item(), s, start, count as nat)->Some_0.0
        =~= spec_repeat(field_item(), s, start, count as nat)->Some_0.0);
    while i < count
        invariant
            i <= count,
            reader@.data == s,
            old(reader)@.data == s,
            spec_u2(s, old(reader)@.position) == Some((count, start)),
            spec_after(
                fields.deep_view(),
                spec_repeat(field_item(), s, reader@.position, (count - i) as nat),
            ) == spec_repeat(field_item(), s, start, count as nat),
        decreases count - i,
    {
        proof {
            lemma_repeat_step(
                field_item(),
                s,
                reader@.position,
                (count - i) as nat,
                fields.deep_view(),
            );
        }
        let ghost done = fields.deep_view();
        let field = parse_field(reader)?;
        let ghost field_view = field@;
        fields.push(field);
        i += 1;
        assert(fields.deep_view() =~= done.push(field_view));
    }
    assert(fields.deep_view() + Seq::<FieldInfoView>::empty() =~= fields.deep_view());
    Ok(fields)
}

fn parse_exception(reader: &mut ClassReader) -> (r: Result<ExceptionTableEntry, ParseError>)
    ensures
        final(reader)@.data == old(reader)@.data,
        match spec_exception(old(reader)@.data, old(reader)@.position) {
            Some((entry, next)) => r == Ok::<ExceptionTableEntry, ParseError>(entry)
                && final(reader)@.position == next,
            None => r == Err::<ExceptionTableEntry, ParseError>(ParseError::Truncated),
        },
{
    let (start_pc, end_pc) = take_u2_pair(reader)?;
    let (handler_pc, catch_type) = take_u2_pair(reader)?;
    Ok(ExceptionTableEntry { start_pc, end_pc, handler_pc, catch_type })
}

fn parse_exceptions(reader: &mut ClassReader) -> (r: Result<Vec<ExceptionTableEntry>, ParseError>)
    ensures
        reads(
            r,
            old(reader)@,
            final(reader)@,
            spec_exceptions(old(reader)@.data, old(reader)@.position),
        ),
{
    let count = take_u2(reader)?;
    let ghost s = reader@.data;
    let ghost start = reader@.position;
    let mut table: Vec<ExceptionTableEntry> = Vec::with_capacity(count as usize);
    let mut i: u16 = 0;
    assert(table@ + spec_repeat(exception_item(), s, start, count as nat)->Some_0.0
        =~= spec_repeat(exception_item(), s, start, count as nat)->Some_0.0);
    while i < count
        invariant
            i <= count,
            reader@.data == s,
            old(reader)@.data == s,
            spec_u2(s, old(reader)@.position) == Some((count, start)),
            spec_after(
                table@,
                spec_repeat(exception_item(), s, reader@.position, (count - i) as nat),
            ) == spec_repeat(exception_item(), s, start, count as nat),
        decreases count - i,
    {
        proof {
            lemma_repeat_step(exception_item(), s, reader@.position, (count - i) as nat, table@);
        }
        let entry = parse_exception(reader)?;
        table.push(entry);
        i += 1;
    }
    assert(table@ + Seq::<ExceptionTableEntry>::empty() =~= table@);
    Ok(table)
}

/// Reads the content of a `Code` attribute at the cursor.
pub fn parse_code(reader: &mut ClassReader) -> (r: Result<CodeAttribute, ParseError>)
    ensures
        reads(r, old(reader)@, final(reader)@, spec_code(old(reader)@.data, old(reader)@.position)),
{
    let (max_stack, max_locals) = take_u2_pair(reader)?;
    let code_length = take_u4(reader)?;
    let code = take_bytes(reader, code_length as usize)?;
    let exception_table = parse_exceptions(reader)?;
    let attributes = parse_attributes(reader)?;
    Ok(CodeAttribute { max_stack, max_locals, code, exception_table, attributes })
}

/// Whether the slot of `pool` at the one-based index `index` holds the
/// name `Code`.
pub fn is_code_name(pool: &Vec<ConstantPoolEntry>, index: u16) -> (b: bool)
    ensures
        b == names_code(pool.deep_view(), index),
{
    if index == 0 || index as usize > pool.len() {
        return false;
    }
    assert(pool.deep_view()[index - 1] == pool[index - 1]@);
    match &pool[(index - 1) as usize] {
        ConstantPoolEntry::Utf8(name) => str_eq(name.as_str(), "Code"),
        _ => false,
    }
}

/// Reads one method at the cursor. An attribute whose name the pool `pool`
/// resolves to `Code` is read as the code of the method; the others are
/// kept as found.
pub fn parse_method(reader: &mut ClassReader, pool: &Vec<ConstantPoolEntry>) -> (r: Result<
    MethodInfo,
    ParseError,
>)
    ensures
        reads(
            r,
            old(reader)@,
            final(reader)@,
            spec_method(pool.deep_view(), old(reader)@.data, old(reader)@.position),
        ),
{
    let access_flags = take_u2(reader)?;
    let (name_index, descriptor_index) = take_u2_pair(reader)?;
    let count = take_u2(reader)?;
    let ghost s = reader@.data;
    let ghost start = reader@.position;
    let ghost item = method_attribute_item(pool.deep_view());
    let ghost mut items: Seq<MethodAttributeView> = Seq::empty();
    let mut code: Option<CodeAttribute> = None;
    let mut attributes: Vec<AttributeInfo> = Vec::with_capacity(count as usize);
    let mut i: u16 = 0;
    assert(items + spec_repeat(item, s, start, count as nat)->Some_0.0 =~= spec_repeat(
        item,
        s,
        start,
        count as nat,
    )->Some_0.0);
    assert(attributes.deep_view() =~= other_attributes(items));
    while i < count
        invariant
            i <= count,
            reader@.data == s,
            old(reader)@.data == s,
            item == method_attribute_item(pool.deep_view()),
            spec_u2(s, old(reader)@.position) == Some((access_flags, old(reader)@.position + 2)),
            spec_u2_pair(s, old(reader)@.position + 2) == Some(
                ((name_index, descriptor_index), start - 2),
            ),
            spec_u2(s, start - 2) == Some((count, start)),
            code.deep_view() == last_code(items),
            attributes.deep_view() == other_attributes(items),
            spec_after(items, spec_repeat(item, s, reader@.position, (count - i) as nat))
                == spec_repeat(item, s, start, count as nat),
        decreases count - i,
    {
        proof {
            lemma_repeat_step(item, s, reader@.position, (count - i) as nat, items);
        }
        let ghost done = attributes.deep_view();
        let attribute_name = take_u2(reader)?;
        let length = take_u4(reader)?;
        if is_code_name(pool, attribute_name) {
            let parsed = parse_code(reader)?;
            proof {
                let next = items.push(MethodAttributeView::Code(parsed@));
                assert(next.drop_last() =~= items);
                items = next;
            }
            code = Some(parsed);
        } else {
            let info = take_bytes(reader, length as usize)?;
            let attribute = AttributeInfo { name_index: attribute_name, info };
            proof {
                let next = items.push(MethodAttributeView::Other(attribute@));
                assert(next.drop_last() =~= items);
                items = next;
            }
            attributes.push(attribute);
            assert(attributes.deep_view() =~= done.push(attribute@));
        }
        i += 1;
    }
    assert(items + Seq::<MethodAttributeView>::empty() =~= items);
    Ok(MethodInfo { access_flags, name_index, descriptor_index, code, attributes })
}

/// Reads the methods of a class with the pool `pool` at the cursor.
pub fn parse_methods(reader: &mut ClassReader, pool: &Vec<ConstantPoolEntry>) -> (r: Result<
    Vec<MethodInfo>,
    ParseError,
>)
    ensures
        reads_list(
            r,
            old(reader)@,
            final(reader)@,
            spec_methods(pool.deep_view(), old(reader)@.data, old(reader)@.position),
        ),
{
    let count = take_u2(reader)?;
    let ghost s = reader@.data;
    let ghost start = reader@.position;
    let ghost item = method_item(pool.deep_view());
    let mut methods: Vec<MethodInfo> = Vec::with_capacity(count as usize);
    let mut i: u16 = 0;
    assert(methods.deep_view() + spec_repeat(item, s, start, count as nat)->Some_0.0
        =~= spec_repeat(item, s, start, count as nat)->Some_0.0);
    while i < count
        invariant
            i <= count,
            reader@.data == s,
            old(reader)@.data == s,
            item == method_item(pool.deep_view()),
            spec_u2(s, old(reader)@.position) == Some((count, start)),
            spec_after(
                methods.deep_view(),
                spec_repeat(item, s, reader@.position, (count - i) as nat),
            ) == spec_repeat(item, s, start, count as nat),
        decreases count - i,
    {
        proof {
            lemma_repeat_step(item, s, reader@.position, (count - i) as nat, methods.deep_view());
        }
        let ghost done = methods.deep_view();
        let method = parse_method(reader, pool)?;
        let ghost method_view = method@;
        methods.push(method);
        i += 1;
        assert(methods.deep_view() =~= done.push(method_view));
    }
    assert(methods.deep_view() + Seq::<MethodInfoView>::empty() =~= methods.deep_view());
    Ok(methods)
}

impl ClassFile {
    /// Decodes a class file from `bytes`.
    ///
    /// Gives `InvalidMagic` where the buffer holds four bytes that are not
    /// the magic marker, `Truncated` where it ends before the class file
    /// does, and else the class file that the bytes denote.
    pub fn parse(bytes: Vec<u8>) -> (r: Result<ClassFile, ParseError>)
        ensures
            match spec_class_file(bytes@) {
                Ok(class) => r is Ok && r->Ok_0@ == class,
                Err(error) => r is Err && r->Err_0 == error,
            },
    {
        let mut reader = ClassReader::from_bytes(bytes);
        let magic = take_u4(&mut reader)?;
        if magic != JAVA_MAGIC {
            return Err(ParseError::InvalidMagic(magic));
        }
        let (minor_version, major_version) = take_u2_pair(&mut reader)?;
        let (constant_pool_count, constant_pool) = parse_constant_pool(&mut reader)?;
        let access_flags = take_u2(&mut reader)?;
        let (this_class, super_class) = take_u2_pair(&mut reader)?;
        let interfaces = parse_interfaces(&mut reader)?;
        let fields = parse_fields(&mut reader)?;
        let methods = parse_methods(&mut reader, &constant_pool)?;
        let attributes = parse_attributes(&mut reader)?;
        Ok(
            ClassFile {
                magic,
                minor_version,
                major_version,
                constant_pool_count,
                constant_pool,
                access_flags,
                this_class,
                super_class,
                interfaces,
                fields,
                methods,
                attributes,
            },
        )
    }
}

} // verus!
