//! The unit of compiled output: an append-only byte sequence of encoded
//! instructions, a run-length-encoded record of the source line of every
//! byte, and an append-only pool of constant values referenced by index
//! from instructions.

use vstd::prelude::*;

use crate::op::{OP_CONSTANT, OP_CONSTANT_LONG};
use crate::rle::{spec_rle_add, RunLengthEncoder};
use crate::value::{Value, ValueArray};

verus! {

/// The largest number of constants a chunk can hold: a long constant
/// instruction carries a three-byte index, so pool indices must stay below
/// two to the twenty-fourth power.
pub const MAX_CONSTANTS: usize = 0x0100_0000;

/// The 24-bit big-endian pool index held in the three code bytes starting
/// at `offset` (most-significant byte first).
pub open spec fn spec_be24(code: Seq<u8>, offset: int) -> int {
    code[offset] * 0x10000 + code[offset + 1] * 0x100 + code[offset + 2]
}

/// A compiled unit: instruction bytes, line record and constant pool.
pub struct Chunk {
    /// The encoded instruction stream.
    pub code: Vec<u8>,
    /// The source line of each byte of `code`, stored compressed.
    pub lines: RunLengthEncoder<u32>,
    /// The constant pool.
    pub constants: ValueArray,
}

impl Chunk {
    /// The source line of every byte offset of `code`, decompressed.
    pub open spec fn lines_seq(self) -> Seq<u32> {
        self.lines.view_seq()
    }

    /// Structural invariant: the line record is well formed and covers
    /// exactly the byte offsets of `code`, so every offset valid as an
    /// instruction start has a recorded line.
    pub open spec fn wf(self) -> bool {
        &&& self.lines.wf()
        &&& self.lines.total() == self.code@.len()
    }

    /// Machine limits that appending `n` more bytes at source line `line`
    /// must respect: the code length stays within a machine word and the
    /// extended line run stays within its 32-bit counter.
    pub open spec fn can_record(self, line: u32, n: int) -> bool {
        &&& self.code@.len() + n <= usize::MAX
        &&& (self.lines.coalesces(line) ==> self.lines.values@.last().1 + n <= u32::MAX)
        &&& (!self.lines.coalesces(line) ==> n <= u32::MAX)
    }

    /// Creates an empty chunk.
    pub fn new() -> (c: Chunk)
        ensures
            c.wf(),
            c.code@ == Seq::<u8>::empty(),
            c.lines.values@ == Seq::<(u32, u32)>::empty(),
            c.lines_seq() == Seq::<u32>::empty(),
            c.constants.values@ == Seq::<Value>::empty(),
    {
        Chunk {
            code: Vec::new(),
            lines: RunLengthEncoder::<u32>::new(),
            constants: ValueArray::new(),
        }
    }

    /// Returns the source line recorded for a byte offset, or `None` if the
    /// offset was never written to.
    pub fn find_line(&self, offset: usize) -> (r: Option<u32>)
        requires
            self.wf(),
        ensures
            match r {
                Some(line) => offset < self.code@.len() && line == self.lines_seq()[offset as int],
                None => offset >= self.code@.len(),
            },
    {
        match self.lines.find(offset) {
            Some(v) => Some(*v),
            None => None,
        }
    }

    /// Appends one raw byte to the instruction stream and records `line`
    /// for that byte's offset.
    pub fn write(&mut self, byte: u8, line: u32)
        requires
            old(self).wf(),
            old(self).can_record(line, 1),
        ensures
            final(self).wf(),
            final(self).code@ == old(self).code@.push(byte),
            final(self).lines.values@ == spec_rle_add(old(self).lines.values@, line),
            final(self).lines_seq() == old(self).lines_seq().push(line),
            final(self).constants == old(self).constants,
            forall|n: int|
                old(self).can_record(line, n + 1) ==> #[trigger] final(self).can_record(line, n),
    {
        self.code.push(byte);
        self.lines.add(line);
    }

    /// Appends `value` to the constant pool and emits the instruction that
    /// loads it: a short constant instruction (one-byte index) while the
    /// pool index stays below 256, a long constant instruction (three-byte
    /// big-endian index) from index 256 on.
    pub fn write_constant(&mut self, value: Value, line: u32)
        requires
            old(self).wf(),
            old(self).constants.values@.len() < MAX_CONSTANTS,
            old(self).can_record(
                line,
                if old(self).constants.values@.len() < 256 {
                    2int
                } else {
                    4int
                },
            ),
        ensures
            final(self).wf(),
            final(self).constants.values@ == old(self).constants.values@.push(value),
            ({
                let index = old(self).constants.values@.len() as int;
                if index < 256 {
                    &&& final(self).code@ == old(self).code@ + seq![OP_CONSTANT, index as u8]
                    &&& final(self).lines_seq() == old(self).lines_seq() + seq![line, line]
                } else {
                    &&& final(self).code@ == old(self).code@ + seq![
                        OP_CONSTANT_LONG,
                        (index / 0x10000) as u8,
                        ((index / 0x100) % 0x100) as u8,
                        (index % 0x100) as u8,
                    ]
                    &&& final(self).lines_seq() == old(self).lines_seq() + seq![
                        line,
                        line,
                        line,
                        line,
                    ]
                }
            }),
    {
        let ghost code0 = self.code@;
        let ghost lines0 = self.lines_seq();
        self.constants.write(value);
        let const_index: usize = self.constants.values.len() - 1;
        if const_index < 256 {
            self.write(OP_CONSTANT, line);
            self.write(const_index as u8, line);
            proof {
                assert(self.code@ =~= code0 + seq![OP_CONSTANT, const_index as u8]);
                assert(self.lines_seq() =~= lines0 + seq![line, line]);
            }
            return;
        }
        self.write(OP_CONSTANT_LONG, line);
        self.write((const_index / 0x10000) as u8, line);
        self.write(((const_index / 0x100) % 0x100) as u8, line);
        self.write((const_index % 0x100) as u8, line);
        proof {
            assert(self.code@ =~= code0 + seq![
                OP_CONSTANT_LONG,
                (const_index / 0x10000) as u8,
                ((const_index / 0x100) % 0x100) as u8,
                (const_index % 0x100) as u8,
            ]);
            assert(self.lines_seq() =~= lines0 + seq![line, line, line, line]);
        }
    }

    /// Returns the constant at pool index `id`; an out-of-bounds index is an
    /// invariant violation of a well-formed chunk, ruled out beforehand.
    pub fn get_constant(&self, id: usize) -> (v: &Value)
        requires
            id < self.constants.values@.len(),
        ensures
            *v == self.constants.values@[id as int],
    {
        &self.constants.values[id]
    }

    /// Returns a tuple containing the value whose one-byte pool index sits
    /// at `offset` and the next code offset.
    pub fn extract_constant_short(&self, offset: usize) -> (r: (Value, usize))
        requires
            offset < self.code@.len(),
            self.code@[offset as int] < self.constants.values@.len(),
        ensures
            r.0 == self.constants.values@[self.code@[offset as int] as int],
            r.1 == offset + 1,
    {
        proof {
            assert(self.code@.len() == vstd::std_specs::vec::spec_vec_len(&self.code));
        }
        (self.constants.values[self.code[offset] as usize], offset + 1)
    }

    /// Returns a tuple containing the value whose three-byte big-endian
    /// pool index starts at `offset` and the next code offset.
    pub fn extract_constant_long(&self, offset: usize) -> (r: (Value, usize))
        requires
            offset + 3 <= self.code@.len(),
            spec_be24(self.code@, offset as int) < self.constants.values@.len(),
        ensures
            r.0 == self.constants.values@[spec_be24(self.code@, offset as int)],
            r.1 == offset + 3,
    {
        proof {
            assert(self.code@.len() == vstd::std_specs::vec::spec_vec_len(&self.code));
        }
        let const_index: usize = (self.code[offset] as usize) * 0x10000 + (self.code[offset
            + 1] as usize) * 0x100 + (self.code[offset + 2] as usize);
        (self.constants.values[const_index], offset + 3)
    }
}

} // verus!
