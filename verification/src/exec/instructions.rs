//! The instructions the machine knows, and their decoding from bytecode.

use vstd::prelude::*;

verus! {

/// One decoded instruction with its operands.
#[derive(Debug, Clone, Copy, PartialEq, Eq, Structural)]
pub enum Instruction {
    IConst(i32),
    BiPush(i8),
    SiPush(i16),
    Ldc(u8),
    ILoad(u8),
    IStore(u8),
    ALoad(u8),
    AStore(u8),
    Dup,
    Dup2,
    DupX1,
    DupX2,
    Pop,
    IAdd,
    ISub,
    IMul,
    IDiv,
    Goto(i16),
    IfEq(i16),
    IfNe(i16),
    IfLt(i16),
    IfGe(i16),
    IfGt(i16),
    IfLe(i16),
    IInc(u8, i8),
    GetStatic(u16),
    GetField(u16),
    PutField(u16),
    InvokeVirtual(u16),
    InvokeStatic(u16),
    InvokeSpecial(u16),
    New(u16),
    Return,
    Unknown(u8),
}

/// The signed byte with the bits of `b`.
pub open spec fn signed8(b: u8) -> i8 {
    if b >= 0x80 {
        (b - 0x100) as i8
    } else {
        b as i8
    }
}

/// The unsigned 16-bit number with `high` above `low`.
pub open spec fn join16(high: u8, low: u8) -> u16 {
    (high as int * 0x100 + low as int) as u16
}

/// The signed 16-bit number with the bits of `v`.
pub open spec fn signed16(v: u16) -> i16 {
    if v >= 0x8000 {
        (v - 0x1_0000) as i16
    } else {
        v as i16
    }
}

/// The instruction that an opcode without operands stands for, if it is one.
pub open spec fn plain_instruction(opcode: u8) -> Option<Instruction> {
    if opcode == 0x02 {
        Some(Instruction::IConst(-1i32))
    } else if 0x03 <= opcode <= 0x08 {
        Some(Instruction::IConst((opcode - 0x03) as i32))
    } else if 0x1A <= opcode <= 0x1D {
        Some(Instruction::ILoad((opcode - 0x1A) as u8))
    } else if 0x2A <= opcode <= 0x2D {
        Some(Instruction::ALoad((opcode - 0x2A) as u8))
    } else if 0x3B <= opcode <= 0x3E {
        Some(Instruction::IStore((opcode - 0x3B) as u8))
    } else if 0x4B <= opcode <= 0x4E {
        Some(Instruction::AStore((opcode - 0x4B) as u8))
    } else if opcode == 0x57 {
        Some(Instruction::Pop)
    } else if opcode == 0x59 {
        Some(Instruction::Dup)
    } else if opcode == 0x5A {
        Some(Instruction::DupX1)
    } else if opcode == 0x5B {
        Some(Instruction::DupX2)
    } else if opcode == 0x5C {
        Some(Instruction::Dup2)
    } else if opcode == 0x60 {
        Some(Instruction::IAdd)
    } else if opcode == 0x64 {
        Some(Instruction::ISub)
    } else if opcode == 0x68 {
        Some(Instruction::IMul)
    } else if opcode == 0x6C {
        Some(Instruction::IDiv)
    } else if opcode == 0xB1 {
        Some(Instruction::Return)
    } else {
        None
    }
}

/// The instruction that an opcode with a one-byte operand makes of it.
pub open spec fn byte_instruction(opcode: u8, operand: u8) -> Option<Instruction> {
    if opcode == 0x10 {
        Some(Instruction::BiPush(signed8(operand)))
    } else if opcode == 0x12 {
        Some(Instruction::Ldc(operand))
    } else if opcode == 0x15 {
        Some(Instruction::ILoad(operand))
    } else if opcode == 0x19 {
        Some(Instruction::ALoad(operand))
    } else if opcode == 0x36 {
        Some(Instruction::IStore(operand))
    } else if opcode == 0x3A {
        Some(Instruction::AStore(operand))
    } else {
        None
    }
}

/// The instruction that an opcode with two one-byte operands, read one
/// after the other, makes of them.
pub open spec fn two_byte_instruction(opcode: u8, first: u8, second: u8) -> Option<Instruction> {
    if opcode == 0x11 {
        Some(Instruction::SiPush(signed16(join16(first, second))))
    } else if opcode == 0x84 {
        Some(Instruction::IInc(first, signed8(second)))
    } else {
        None
    }
}

/// The instruction that an opcode with a two-byte operand, read as one
/// big-endian number, makes of it.
pub open spec fn wide_instruction(opcode: u8, operand: u16) -> Option<Instruction> {
    if opcode == 0x99 {
        Some(Instruction::IfEq(signed16(operand)))
    } else if opcode == 0x9A {
        Some(Instruction::IfNe(signed16(operand)))
    } else if opcode == 0x9B {
        Some(Instruction::IfLt(signed16(operand)))
    } else if opcode == 0x9C {
        Some(Instruction::IfGe(signed16(operand)))
    } else if opcode == 0x9D {
        Some(Instruction::IfGt(signed16(operand)))
    } else if opcode == 0x9E {
        Some(Instruction::IfLe(signed16(operand)))
    } else if opcode == 0xA7 {
        Some(Instruction::Goto(signed16(operand)))
    } else if opcode == 0xB2 {
        Some(Instruction::GetStatic(operand))
    } else if opcode == 0xB4 {
        Some(Instruction::GetField(operand))
    } else if opcode == 0xB5 {
        Some(Instruction::PutField(operand))
    } else if opcode == 0xB6 {
        Some(Instruction::InvokeVirtual(operand))
    } else if opcode == 0xB7 {
        Some(Instruction::InvokeSpecial(operand))
    } else if opcode == 0xB8 {
        Some(Instruction::InvokeStatic(operand))
    } else if opcode == 0xBB {
        Some(Instruction::New(operand))
    } else {
        None
    }
}

/// The instruction at `pc` in `code`, with the program counter behind it.
///
/// Past the end of the code this is `Unknown(0xFF)` and the counter stays.
/// An opcode that the machine does not know is `Unknown` of it. Where the
/// code ends within the operands of an opcode, the result is `Unknown` of
/// that opcode: the counter then stands behind the operand bytes that were
/// read one by one, and a two-byte operand is read all or not at all.
pub open spec fn spec_decode(code: Seq<u8>, pc: int) -> (Instruction, int) {
    if pc < 0 || pc >= code.len() {
        (Instruction::Unknown(0xFF), pc)
    } else {
        let opcode = code[pc];
        let unknown = Instruction::Unknown(opcode);
        if plain_instruction(opcode) is Some {
            (plain_instruction(opcode)->Some_0, pc + 1)
        } else if byte_instruction(opcode, 0) is Some {
            if pc + 1 < code.len() {
                (byte_instruction(opcode, code[pc + 1])->Some_0, pc + 2)
            } else {
                (unknown, pc + 1)
            }
        } else if two_byte_instruction(opcode, 0, 0) is Some {
            if pc + 2 < code.len() {
                (two_byte_instruction(opcode, code[pc + 1], code[pc + 2])->Some_0, pc + 3)
            } else if pc + 1 < code.len() {
                (unknown, pc + 2)
            } else {
                (unknown, pc + 1)
            }
        } else if wide_instruction(opcode, 0) is Some {
            if pc + 2 < code.len() {
                (wide_instruction(opcode, join16(code[pc + 1], code[pc + 2]))->Some_0, pc + 3)
            } else {
                (unknown, pc + 1)
            }
        } else {
            (unknown, pc + 1)
        }
    }
}

fn to_signed8(b: u8) -> (r: i8)
    ensures
        r == signed8(b),
{
    if b >= 0x80 {
        ((b - 0x80) as i8) - 0x7f - 1
    } else {
        b as i8
    }
}

fn to_signed16(v: u16) -> (r: i16)
    ensures
        r == signed16(v),
{
    if v >= 0x8000 {
        ((v - 0x8000) as i16) - 0x7fff - 1
    } else {
        v as i16
    }
}

fn fetch_u8(code: &[u8], pc: &mut usize) -> (r: Option<u8>)
    requires
        *old(pc) <= code@.len(),
    ensures
        *old(pc) < code@.len() ==> r == Some(code@[*old(pc) as int]) && *final(pc) == *old(pc) + 1,
        *old(pc) >= code@.len() ==> r is None && *final(pc) == *old(pc),
{
    if *pc >= code.len() {
        return None;
    }
    let b = code[*pc];
    *pc = *pc + 1;
    Some(b)
}

fn fetch_u16(code: &[u8], pc: &mut usize) -> (r: Option<u16>)
    requires
        *old(pc) <= code@.len(),
    ensures
        *old(pc) + 1 < code@.len() ==> r == Some(
            join16(code@[*old(pc) as int], code@[*old(pc) + 1]),
        ) && *final(pc) == *old(pc) + 2,
        *old(pc) + 1 >= code@.len() ==> r is None && *final(pc) == *old(pc),
{
    if code.len() - *pc < 2 {
        return None;
    }
    let high = code[*pc];
    let low = code[*pc + 1];
    *pc = *pc + 2;
    Some((high as u16) * 0x100 + (low as u16))
}

impl Instruction {
    /// Decodes the instruction at `*pc` and moves the counter behind it.
    pub fn from_bytecode(code: &[u8], pc: &mut usize) -> (instr: Instruction)
        ensures
            (instr, *final(pc) as int) == spec_decode(code@, *old(pc) as int),
    {
        if *pc >= code.len() {
            return Instruction::Unknown(0xFF);
        }
        let opcode = code[*pc];
        *pc = *pc + 1;
        let unknown = Instruction::Unknown(opcode);
        match opcode {
            0x02 => Instruction::IConst(-1),
            0x03..=0x08 => Instruction::IConst((opcode - 0x03) as i32),
            0x10 => match fetch_u8(code, pc) {
                Some(b) => Instruction::BiPush(to_signed8(b)),
                None => unknown,
            },
            0x11 => match fetch_u8(code, pc) {
                Some(high) => match fetch_u8(code, pc) {
                    Some(low) => Instruction::SiPush(
                        to_signed16((high as u16) * 0x100 + (low as u16)),
                    ),
                    None => unknown,
                },
                None => unknown,
            },
            0x12 => match fetch_u8(code, pc) {
                Some(b) => Instruction::Ldc(b),
                None => unknown,
            },
            0x15 => match fetch_u8(code, pc) {
                Some(b) => Instruction::ILoad(b),
                None => unknown,
            },
            0x36 => match fetch_u8(code, pc) {
                Some(b) => Instruction::IStore(b),
                None => unknown,
            },
            0x19 => match fetch_u8(code, pc) {
                Some(b) => Instruction::ALoad(b),
                None => unknown,
            },
            0x3A => match fetch_u8(code, pc) {
                Some(b) => Instruction::AStore(b),
                None => unknown,
            },
            0x1A..=0x1D => Instruction::ILoad(opcode - 0x1A),
            0x3B..=0x3E => Instruction::IStore(opcode - 0x3B),
            0x2A..=0x2D => Instruction::ALoad(opcode - 0x2A),
            0x4B..=0x4E => Instruction::AStore(opcode - 0x4B),
            0x59 => Instruction::Dup,
            0x5A => Instruction::DupX1,
            0x5B => Instruction::DupX2,
            0x5C => Instruction::Dup2,
            0x57 => Instruction::Pop,
            0x60 => Instruction::IAdd,
            0x64 => Instruction::ISub,
            0x68 => Instruction::IMul,
            0x6C => Instruction::IDiv,
            0x84 => match fetch_u8(code, pc) {
                Some(index) => match fetch_u8(code, pc) {
                    Some(delta) => Instruction::IInc(index, to_signed8(delta)),
                    None => unknown,
                },
                None => unknown,
            },
            0xA7 => match fetch_u16(code, pc) {
                Some(v) => Instruction::Goto(to_signed16(v)),
                None => unknown,
            },
            0x99 => match fetch_u16(code, pc) {
                Some(v) => Instruction::IfEq(to_signed16(v)),
                None => unknown,
            },
            0x9A => match fetch_u16(code, pc) {
                Some(v) => Instruction::IfNe(to_signed16(v)),
                None => unknown,
            },
            0x9B => match fetch_u16(code, pc) {
                Some(v) => Instruction::IfLt(to_signed16(v)),
                None => unknown,
            },
            0x9C => match fetch_u16(code, pc) {
                Some(v) => Instruction::IfGe(to_signed16(v)),
                None => unknown,
            },
            0x9D => match fetch_u16(code, pc) {
                Some(v) => Instruction::IfGt(to_signed16(v)),
                None => unknown,
            },
            0x9E => match fetch_u16(code, pc) {
                Some(v) => Instruction::IfLe(to_signed16(v)),
                None => unknown,
            },
            0xBB => match fetch_u16(code, pc) {
                Some(v) => Instruction::New(v),
                None => unknown,
            },
            0xB2 => match fetch_u16(code, pc) {
                Some(v) => Instruction::GetStatic(v),
                None => unknown,
            },
            0xB4 => match fetch_u16(code, pc) {
                Some(v) => Instruction::GetField(v),
                None => unknown,
            },
            0xB5 => match fetch_u16(code, pc) {
                Some(v) => Instruction::PutField(v),
                None => unknown,
            },
            0xB6 => match fetch_u16(code, pc) {
                Some(v) => Instruction::InvokeVirtual(v),
                None => unknown,
            },
            0xB7 => match fetch_u16(code, pc) {
                Some(v) => Instruction::InvokeSpecial(v),
                None => unknown,
            },
            0xB8 => match fetch_u16(code, pc) {
                Some(v) => Instruction::InvokeStatic(v),
                None => unknown,
            },
            0xB1 => Instruction::Return,
            _ => unknown,
        }
    }
}

} // verus!
