use lox_vm::chunk::Chunk;
use lox_vm::debug::{disassemble_chunk, disassemble_instruction, op_to_string};
use lox_vm::op::{OP_ADD, OP_CONSTANT, OP_NEGATE, OP_RETURN};
use lox_vm::value::Value;

fn value_of(number: f64) -> Value {
    Value::new(number.to_bits())
}

#[test]
fn op_to_string_should_name_every_opcode() {
    assert_eq!(op_to_string(OP_CONSTANT), "OP_CONSTANT");
    assert_eq!(op_to_string(OP_ADD), "OP_ADD");
    assert_eq!(op_to_string(OP_RETURN), "OP_RETURN");
    assert_eq!(op_to_string(0xff), "OP_UNKNOWN");
}

#[test]
fn disassemble_instruction_should_recover_short_constant_exactly() {
    let mut chunk = Chunk::new();
    chunk.write_constant(value_of(3.1415), 1);

    let (info, next) = disassemble_instruction(&chunk, 0);

    assert_eq!(info.offset, 0);
    assert_eq!(info.line, 1);
    assert!(!info.line_repeated);
    assert_eq!(info.name, "OP_CONSTANT");
    assert_eq!(info.constant.unwrap().bits, 3.1415f64.to_bits());
    assert_eq!(next, 2);
}

#[test]
fn disassemble_instruction_should_recover_long_constant_exactly() {
    let mut chunk = Chunk::new();
    for _ in 0..257usize {
        chunk.write_constant(value_of(0.25), 1);
    }

    let offset = chunk.code.len() - 4;
    let (info, next) = disassemble_instruction(&chunk, offset);

    assert_eq!(info.name, "OP_CONSTANT_LONG");
    assert_eq!(info.constant.unwrap().bits, 0.25f64.to_bits());
    assert_eq!(next, chunk.code.len());
}

#[test]
fn disassemble_instruction_should_mark_repeated_lines() {
    let mut chunk = Chunk::new();
    chunk.write(OP_NEGATE, 7);
    chunk.write(OP_NEGATE, 7);
    chunk.write(OP_RETURN, 8);

    let (first, _) = disassemble_instruction(&chunk, 0);
    let (second, _) = disassemble_instruction(&chunk, 1);
    let (third, _) = disassemble_instruction(&chunk, 2);

    assert!(!first.line_repeated);
    assert!(second.line_repeated);
    assert!(!third.line_repeated);
    assert_eq!(third.line, 8);
}

#[test]
fn disassemble_instruction_should_placeholder_unknown_opcode() {
    let mut chunk = Chunk::new();
    chunk.write(0xab, 3);

    let (info, next) = disassemble_instruction(&chunk, 0);

    assert_eq!(info.name, "OP_UNKNOWN");
    assert!(info.constant.is_none());
    assert_eq!(next, 1);
}

#[test]
fn disassemble_chunk_should_walk_every_instruction() {
    let mut chunk = Chunk::new();
    chunk.write_constant(value_of(1.0), 1);
    chunk.write(OP_NEGATE, 1);
    chunk.write(OP_RETURN, 2);

    let listing = disassemble_chunk(&chunk);

    assert_eq!(listing.len(), 3);
    assert_eq!(listing[0].offset, 0);
    assert_eq!(listing[0].name, "OP_CONSTANT");
    assert_eq!(listing[1].offset, 2);
    assert_eq!(listing[1].name, "OP_NEGATE");
    assert_eq!(listing[2].offset, 3);
    assert_eq!(listing[2].name, "OP_RETURN");
}
