//! A big-endian cursor over an in-memory byte buffer.

use vstd::prelude::*;

verus! {

/// The value of two bytes read in big-endian order.
pub open spec fn be_u16(b0: u8, b1: u8) -> int {
    b0 as int * 0x100 + b1 as int
}

/// The value of four bytes read in big-endian order.
pub open spec fn be_u32(b0: u8, b1: u8, b2: u8, b3: u8) -> int {
    b0 as int * 0x100_0000 + b1 as int * 0x1_0000 + b2 as int * 0x100 + b3 as int
}

/// What a reader is: the buffer and how far into it the cursor stands.
pub ghost struct ReaderView {
    pub data: Seq<u8>,
    pub position: int,
}

impl ReaderView {
    /// The number of bytes between the cursor and the end of the buffer.
    pub open spec fn remaining(self) -> int {
        self.data.len() - self.position
    }

    /// The same buffer with the cursor moved to `position`.
    pub open spec fn at(self, position: int) -> ReaderView {
        ReaderView { data: self.data, position }
    }

    /// The big-endian value of the two bytes under the cursor.
    pub open spec fn peek_u16(self) -> int {
        be_u16(self.data[self.position], self.data[self.position + 1])
    }

    /// The big-endian value of the four bytes under the cursor.
    pub open spec fn peek_u32(self) -> int {
        be_u32(
            self.data[self.position],
            self.data[self.position + 1],
            self.data[self.position + 2],
            self.data[self.position + 3],
        )
    }
}

/// A cursor over a byte buffer. The cursor never passes the end of the buffer.
#[derive(Debug)]
pub struct ClassReader {
    data: Vec<u8>,
    position: usize,
}

impl View for ClassReader {
    type V = ReaderView;

    closed spec fn view(&self) -> ReaderView {
        ReaderView { data: self.data@, position: self.position as int }
    }
}

impl ClassReader {
    #[verifier::type_invariant]
    spec fn in_bounds(&self) -> bool {
        self.position <= self.data.len()
    }

    /// A reader over `bytes`, with the cursor at the first byte.
    pub fn from_bytes(bytes: Vec<u8>) -> (r: ClassReader)
        ensures
            r@ == (ReaderView { data: bytes@, position: 0 }),
    {
        ClassReader { data: bytes, position: 0 }
    }

    /// Reads one byte and moves the cursor past it.
    pub fn read_u1(&mut self) -> (val: u8)
        requires
            old(self)@.remaining() >= 1,
        ensures
            val == old(self)@.data[old(self)@.position],
            final(self)@ == old(self)@.at(old(self)@.position + 1),
    {
        proof {
            use_type_invariant(&*self);
        }
        let val = self.data[self.position];
        self.position = self.position + 1;
        val
    }

    /// Reads two bytes as a big-endian number and moves the cursor past them.
    pub fn read_u2(&mut self) -> (val: u16)
        requires
            old(self)@.remaining() >= 2,
        ensures
            val == old(self)@.peek_u16(),
            final(self)@ == old(self)@.at(old(self)@.position + 2),
    {
        let b0 = self.read_u1();
        let b1 = self.read_u1();
        (b0 as u16) * 0x100 + (b1 as u16)
    }

    /// Reads four bytes as a big-endian number and moves the cursor past them.
    pub fn read_u4(&mut self) -> (val: u32)
        requires
            old(self)@.remaining() >= 4,
        ensures
            val == old(self)@.peek_u32(),
            final(self)@ == old(self)@.at(old(self)@.position + 4),
    {
        let b0 = self.read_u1();
        let b1 = self.read_u1();
        let b2 = self.read_u1();
        let b3 = self.read_u1();
        (b0 as u32) * 0x100_0000 + (b1 as u32) * 0x1_0000 + (b2 as u32) * 0x100 + (b3 as u32)
    }

    /// Moves the cursor `n` bytes forward.
    pub fn skip(&mut self, n: usize)
        requires
            old(self)@.remaining() >= n,
        ensures
            final(self)@ == old(self)@.at(old(self)@.position + n),
    {
        proof {
            use_type_invariant(&*self);
        }
        self.position = self.position + n;
    }

    /// Where the cursor stands, counted from the start of the buffer.
    pub fn position(&self) -> (p: usize)
        ensures
            p == self@.position,
    {
        self.position
    }

    /// The length of the buffer.
    pub fn len(&self) -> (n: usize)
        ensures
            n == self@.data.len(),
    {
        self.data.len()
    }

    /// The number of bytes not yet read.
    pub fn remaining(&self) -> (n: usize)
        ensures
            n == self@.remaining(),
            0 <= self@.position <= self@.data.len(),
    {
        proof {
            use_type_invariant(self);
        }
        self.data.len() - self.position
    }

    /// Whether any byte is left to read.
    pub fn has_more(&self) -> (b: bool)
        ensures
            b == (self@.remaining() > 0),
    {
        proof {
            use_type_invariant(self);
        }
        self.position < self.data.len()
    }

    /// The next `count` bytes, or those that are left where they are fewer,
    /// without moving the cursor.
    pub fn dump_bytes(&self, count: usize) -> (bytes: Vec<u8>)
        ensures
            bytes@ == self@.data.subrange(
                self@.position,
                if count <= self@.remaining() {
                    self@.position + count
                } else {
                    self@.data.len() as int
                },
            ),
    {
        proof {
            use_type_invariant(self);
        }
        let left = self.data.len() - self.position;
        let end = if count <= left {
            self.position + count
        } else {
            self.data.len()
        };
        let mut bytes: Vec<u8> = Vec::new();
        let mut i: usize = self.position;
        while i < end
            invariant
                self.position <= i <= end <= self.data.len(),
                bytes@ == self.data@.subrange(self.position as int, i as int),
            decreases end - i,
        {
            bytes.push(self.data[i]);
            i += 1;
            assert(bytes@ =~= self.data@.subrange(self.position as int, i as int));
        }
        bytes
    }

    /// Moves the cursor to `pos`, which may be the end of the buffer.
    pub fn seek(&mut self, pos: usize)
        requires
            pos <= old(self)@.data.len(),
        ensures
            final(self)@ == old(self)@.at(pos as int),
    {
        self.position = pos;
    }
}

} // verus!
