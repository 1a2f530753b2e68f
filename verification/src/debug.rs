//! The disassembler: a read-only diagnostic consumer that walks a chunk's
//! byte sequence and renders each instruction as structured data — its
//! offset, source line (with a marker when the line repeats the previous
//! instruction's), mnemonic, and decoded constant operand. Callers print
//! the rendered records; nothing here performs output or mutation.

use vstd::prelude::*;

use crate::chunk::{spec_be24, Chunk};
use crate::op::{
    op_size, spec_op_size, OP_ADD, OP_CONSTANT, OP_CONSTANT_LONG, OP_DIVIDE, OP_MULTIPLY,
    OP_NEGATE, OP_RETURN, OP_SUBTRACT,
};
use crate::value::Value;

verus! {

/// The mnemonic of the instruction starting with the given byte;
/// unrecognized bytes render as a placeholder.
pub open spec fn spec_op_name(op: u8) -> Seq<char> {
    if op == OP_CONSTANT {
        "OP_CONSTANT"@
    } else if op == OP_ADD {
        "OP_ADD"@
    } else if op == OP_SUBTRACT {
        "OP_SUBTRACT"@
    } else if op == OP_MULTIPLY {
        "OP_MULTIPLY"@
    } else if op == OP_DIVIDE {
        "OP_DIVIDE"@
    } else if op == OP_NEGATE {
        "OP_NEGATE"@
    } else if op == OP_RETURN {
        "OP_RETURN"@
    } else if op == OP_CONSTANT_LONG {
        "OP_CONSTANT_LONG"@
    } else {
        "OP_UNKNOWN"@
    }
}

/// Returns a string representation of the given opcode.
pub fn op_to_string(op: u8) -> (r: &'static str)
    ensures
        r@ == spec_op_name(op),
{
    if op == OP_CONSTANT {
        "OP_CONSTANT"
    } else if op == OP_ADD {
        "OP_ADD"
    } else if op == OP_SUBTRACT {
        "OP_SUBTRACT"
    } else if op == OP_MULTIPLY {
        "OP_MULTIPLY"
    } else if op == OP_DIVIDE {
        "OP_DIVIDE"
    } else if op == OP_NEGATE {
        "OP_NEGATE"
    } else if op == OP_RETURN {
        "OP_RETURN"
    } else if op == OP_CONSTANT_LONG {
        "OP_CONSTANT_LONG"
    } else {
        "OP_UNKNOWN"
    }
}

/// One disassembled instruction, ready to be printed.
pub struct InstructionInfo {
    /// The byte offset the instruction starts at.
    pub offset: usize,
    /// The source line recorded for that offset.
    pub line: u32,
    /// Whether the previous byte carries the same source line, so a
    /// continuation marker should be printed instead of the line number.
    pub line_repeated: bool,
    /// The instruction's mnemonic.
    pub name: &'static str,
    /// The decoded constant operand, for the constant-loading opcodes.
    pub constant: Option<Value>,
}

/// The constant operand of the instruction starting at `offset`, if its
/// opcode is one of the constant-loading ones.
pub open spec fn spec_instr_constant(chunk: Chunk, offset: int) -> Option<Value> {
    let opcode = chunk.code@[offset];
    if opcode == OP_CONSTANT {
        Some(chunk.constants.values@[chunk.code@[offset + 1] as int])
    } else if opcode == OP_CONSTANT_LONG {
        Some(chunk.constants.values@[spec_be24(chunk.code@, offset + 1)])
    } else {
        None
    }
}

/// What a correct rendering of the instruction starting at `offset` holds.
pub open spec fn spec_info_matches(chunk: Chunk, info: InstructionInfo, offset: int) -> bool {
    &&& info.offset == offset
    &&& info.line == chunk.lines_seq()[offset]
    &&& info.line_repeated == (offset > 0 && chunk.lines_seq()[offset - 1] == chunk.lines_seq()[
        offset
    ])
    &&& info.name@ == spec_op_name(chunk.code@[offset])
    &&& info.constant == spec_instr_constant(chunk, offset)
}

/// Whether the instruction starting at `offset` can be decoded without
/// running past the code or the constant pool: a constant-loading opcode
/// must have its operand bytes inside the code and its pool index inside
/// the pool. Anything else — including an unrecognized opcode, which
/// renders as a placeholder and advances by one byte — is fine.
pub open spec fn spec_disasm_ok(chunk: Chunk, offset: int) -> bool {
    let opcode = chunk.code@[offset];
    if opcode == OP_CONSTANT {
        &&& offset + 2 <= chunk.code@.len()
        &&& chunk.code@[offset + 1] < chunk.constants.values@.len()
    } else if opcode == OP_CONSTANT_LONG {
        &&& offset + 4 <= chunk.code@.len()
        &&& spec_be24(chunk.code@, offset + 1) < chunk.constants.values@.len()
    } else {
        true
    }
}

/// Whether every instruction reached by walking the code from `offset`
/// can be decoded (see [`spec_disasm_ok`]).
pub open spec fn spec_chunk_disasm_ok(chunk: Chunk, offset: int) -> bool
    decreases chunk.code@.len() - offset,
{
    if offset >= chunk.code@.len() {
        true
    } else if !spec_disasm_ok(chunk, offset) {
        false
    } else {
        spec_chunk_disasm_ok(chunk, offset + spec_op_size(chunk.code@[offset]))
    }
}

/// The byte offsets of the instruction starts reached by walking the code
/// from `offset`.
pub open spec fn spec_instr_starts(chunk: Chunk, offset: int) -> Seq<int>
    decreases chunk.code@.len() - offset,
{
    if offset >= chunk.code@.len() {
        Seq::empty()
    } else {
        let next = offset + spec_op_size(chunk.code@[offset]);
        if next > chunk.code@.len() {
            seq![offset]
        } else {
            seq![offset] + spec_instr_starts(chunk, next)
        }
    }
}

/// The instruction-start offsets of a sequence of rendered instructions.
pub open spec fn spec_info_offsets(infos: Seq<InstructionInfo>) -> Seq<int> {
    infos.map_values(|info: InstructionInfo| info.offset as int)
}

/// Law: round trip through the binary encoding. If `post` came out of
/// `pre` exactly as `write_constant(value, line)` promises — the value
/// appended to the pool and a short or long constant-load instruction
/// appended to the code — then the appended instruction decodes without
/// failure at its start offset (the old code length) and the disassembler
/// recovers exactly `value` from it, bit for bit.
pub proof fn lemma_write_constant_round_trip(pre: Chunk, post: Chunk, value: Value, line: u32)
    requires
        pre.constants.values@.len() < crate::chunk::MAX_CONSTANTS,
        post.constants.values@ == pre.constants.values@.push(value),
        ({
            let index = pre.constants.values@.len() as int;
            if index < 256 {
                post.code@ == pre.code@ + seq![OP_CONSTANT, index as u8]
            } else {
                post.code@ == pre.code@ + seq![
                    OP_CONSTANT_LONG,
                    (index / 0x10000) as u8,
                    ((index / 0x100) % 0x100) as u8,
                    (index % 0x100) as u8,
                ]
            }
        }),
    ensures
        spec_disasm_ok(post, pre.code@.len() as int),
        spec_instr_constant(post, pre.code@.len() as int) == Some(value),
{
    let offset = pre.code@.len() as int;
    let index = pre.constants.values@.len() as int;
    if index < 256 {
        assert(post.code@[offset] == OP_CONSTANT);
        assert(post.code@[offset + 1] == index as u8);
        assert(post.constants.values@[index] == value);
    } else {
        assert(post.code@[offset] == OP_CONSTANT_LONG);
        assert(spec_be24(post.code@, offset + 1) == index) by {
            let b2 = (index / 0x10000) as u8;
            let b1 = ((index / 0x100) % 0x100) as u8;
            let b0 = (index % 0x100) as u8;
            assert(b2 == index / 0x10000 && b1 == (index / 0x100) % 0x100 && b0 == index
                % 0x100);
            assert(index / 0x10000 * 0x10000 + (index / 0x100) % 0x100 * 0x100 + index % 0x100
                == index) by (nonlinear_arith)
                requires
                    256 <= index < 0x0100_0000,
            ;
        }
        assert(post.constants.values@[index] == value);
    }
}

/// Disassembles the instruction at the given code offset in the chunk;
/// returns its rendering and the next code offset. On a well-formed chunk
/// this never fails; an unrecognized opcode renders as a placeholder and
/// advances by one byte.
pub fn disassemble_instruction(chunk: &Chunk, offset: usize) -> (r: (InstructionInfo, usize))
    requires
        chunk.wf(),
        offset < chunk.code@.len(),
        spec_disasm_ok(*chunk, offset as int),
    ensures
        spec_info_matches(*chunk, r.0, offset as int),
        r.1 == offset + spec_op_size(chunk.code@[offset as int]),
        r.1 <= chunk.code@.len(),
    {
        proof {
            assert(chunk.code@.len() == vstd::std_specs::vec::spec_vec_len(&chunk.code));
        }
        let instruction_line = chunk.find_line(offset).unwrap();
        let line_repeated = if offset > 0 {
            let previous_line = chunk.find_line(offset - 1).unwrap();
            previous_line == instruction_line
        } else {
            false
        };
        let opcode: u8 = chunk.code[offset];
        let name = op_to_string(opcode);
        let constant = if opcode == OP_CONSTANT {
            let (value, _rest) = chunk.extract_constant_short(offset + 1);
            Some(value)
        } else if opcode == OP_CONSTANT_LONG {
            let (value, _rest) = chunk.extract_constant_long(offset + 1);
            Some(value)
        } else {
            None
        };
        let next: usize = offset + op_size(opcode);
        (
            InstructionInfo {
                offset,
                line: instruction_line,
                line_repeated,
                name,
                constant,
            },
            next,
        )
    }

/// Disassembles a whole chunk from offset zero to the end of its code,
/// one rendered instruction per decoded instruction start.
pub fn disassemble_chunk(chunk: &Chunk) -> (r: Vec<InstructionInfo>)
    requires
        chunk.wf(),
        spec_chunk_disasm_ok(*chunk, 0),
    ensures
        spec_info_offsets(r@) == spec_instr_starts(*chunk, 0),
        forall|i: int|
            0 <= i < r@.len() ==> spec_info_matches(*chunk, #[trigger] r@[i], r@[i].offset as int),
{
    let mut result: Vec<InstructionInfo> = Vec::new();
    let code_len: usize = chunk.code.len();
    let mut offset: usize = 0;
    while offset < code_len
        invariant
            chunk.wf(),
            offset <= code_len,
            code_len == chunk.code@.len(),
            spec_chunk_disasm_ok(*chunk, offset as int),
            spec_instr_starts(*chunk, 0) == spec_info_offsets(result@) + spec_instr_starts(
                *chunk,
                offset as int,
            ),
            forall|i: int|
                0 <= i < result@.len() ==> spec_info_matches(
                    *chunk,
                    #[trigger] result@[i],
                    result@[i].offset as int,
                ),
        decreases code_len - offset,
    {
        let ghost offsets0 = spec_info_offsets(result@);
        let (info, next) = disassemble_instruction(chunk, offset);
        result.push(info);
        proof {
            assert(spec_info_offsets(result@) =~= offsets0.push(offset as int));
            assert(spec_instr_starts(*chunk, offset as int) == seq![offset as int]
                + spec_instr_starts(*chunk, next as int));
            assert(offsets0 + spec_instr_starts(*chunk, offset as int) =~= spec_info_offsets(
                result@,
            ) + spec_instr_starts(*chunk, next as int));
        }
        offset = next;
    }
    proof {
        assert(spec_info_offsets(result@) + spec_instr_starts(*chunk, offset as int)
            =~= spec_info_offsets(result@));
    }
    result
}

} // verus!
