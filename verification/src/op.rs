//! The opcode table: a closed enumeration of instruction kinds together with
//! their one-byte encodings and their fixed instruction sizes.

use vstd::prelude::*;

verus! {

/// Byte encoding of [`Op::Constant`].
pub const OP_CONSTANT: u8 = 0x00;

/// Byte encoding of [`Op::Add`].
pub const OP_ADD: u8 = 0x01;

/// Byte encoding of [`Op::Subtract`].
pub const OP_SUBTRACT: u8 = 0x02;

/// Byte encoding of [`Op::Multiply`].
pub const OP_MULTIPLY: u8 = 0x03;

/// Byte encoding of [`Op::Divide`].
pub const OP_DIVIDE: u8 = 0x04;

/// Byte encoding of [`Op::Negate`].
pub const OP_NEGATE: u8 = 0x05;

/// Byte encoding of [`Op::Return`].
pub const OP_RETURN: u8 = 0x06;

/// Byte encoding of [`Op::ConstantLong`].
pub const OP_CONSTANT_LONG: u8 = 0x07;

/// A single instruction kind, one byte wide in the encoded stream.
#[derive(Clone, Copy, Debug, PartialEq, Eq, Structural)]
pub enum Op {
    /// Push a constant; operand is a one-byte pool index.
    Constant,
    /// Pop one value, add it to the new stack top in place.
    Add,
    /// Pop one value, subtract it from the new stack top in place.
    Subtract,
    /// Pop one value, multiply the new stack top by it in place.
    Multiply,
    /// Pop one value, divide the new stack top by it in place.
    Divide,
    /// Negate the stack top in place.
    Negate,
    /// Pop and report the stack top; ends execution.
    Return,
    /// Push a constant; operand is a three-byte big-endian pool index.
    ConstantLong,
}

/// The byte that encodes an instruction kind.
pub open spec fn spec_op_byte(op: Op) -> u8 {
    match op {
        Op::Constant => OP_CONSTANT,
        Op::Add => OP_ADD,
        Op::Subtract => OP_SUBTRACT,
        Op::Multiply => OP_MULTIPLY,
        Op::Divide => OP_DIVIDE,
        Op::Negate => OP_NEGATE,
        Op::Return => OP_RETURN,
        Op::ConstantLong => OP_CONSTANT_LONG,
    }
}

/// The instruction kind a byte decodes to, if any.
pub open spec fn spec_op_of_byte(byte: u8) -> Option<Op> {
    if byte == OP_CONSTANT {
        Some(Op::Constant)
    } else if byte == OP_ADD {
        Some(Op::Add)
    } else if byte == OP_SUBTRACT {
        Some(Op::Subtract)
    } else if byte == OP_MULTIPLY {
        Some(Op::Multiply)
    } else if byte == OP_DIVIDE {
        Some(Op::Divide)
    } else if byte == OP_NEGATE {
        Some(Op::Negate)
    } else if byte == OP_RETURN {
        Some(Op::Return)
    } else if byte == OP_CONSTANT_LONG {
        Some(Op::ConstantLong)
    } else {
        None
    }
}

/// Total size in bytes (opcode plus operands) of the instruction starting
/// with the given byte; unrecognized bytes count as one byte.
pub open spec fn spec_op_size(byte: u8) -> usize {
    if byte == OP_CONSTANT {
        2
    } else if byte == OP_CONSTANT_LONG {
        4
    } else {
        1
    }
}

/// Returns the size of opcode + operands in bytes.
pub fn op_size(op: u8) -> (size: usize)
    ensures
        size == spec_op_size(op),
{
    if op == OP_CONSTANT {
        2
    } else if op == OP_CONSTANT_LONG {
        4
    } else {
        1
    }
}

impl Op {
    /// Returns the size in bytes of the opcode + operands.
    pub fn size(&self) -> (size: isize)
        ensures
            size == spec_op_size(spec_op_byte(*self)),
    {
        match self {
            Op::Constant => 2,
            Op::ConstantLong => 4,
            _ => 1,
        }
    }

    /// The byte this instruction kind is encoded as.
    pub fn to_byte(&self) -> (byte: u8)
        ensures
            byte == spec_op_byte(*self),
    {
        match self {
            Op::Constant => OP_CONSTANT,
            Op::Add => OP_ADD,
            Op::Subtract => OP_SUBTRACT,
            Op::Multiply => OP_MULTIPLY,
            Op::Divide => OP_DIVIDE,
            Op::Negate => OP_NEGATE,
            Op::Return => OP_RETURN,
            Op::ConstantLong => OP_CONSTANT_LONG,
        }
    }

    /// Checked decoding of an opcode byte into the closed instruction set.
    pub fn try_from(value: u8) -> (r: Result<Op, ()>)
        ensures
            match r {
                Ok(op) => spec_op_of_byte(value) == Some(op),
                Err(()) => spec_op_of_byte(value) is None,
            },
    {
        if value == OP_CONSTANT {
            Ok(Op::Constant)
        } else if value == OP_ADD {
            Ok(Op::Add)
        } else if value == OP_SUBTRACT {
            Ok(Op::Subtract)
        } else if value == OP_MULTIPLY {
            Ok(Op::Multiply)
        } else if value == OP_DIVIDE {
            Ok(Op::Divide)
        } else if value == OP_NEGATE {
            Ok(Op::Negate)
        } else if value == OP_RETURN {
            Ok(Op::Return)
        } else if value == OP_CONSTANT_LONG {
            Ok(Op::ConstantLong)
        } else {
            Err(())
        }
    }
}

} // verus!
