use lox_vm::chunk::Chunk;
use lox_vm::op::{OP_ADD, OP_CONSTANT, OP_DIVIDE, OP_MULTIPLY, OP_NEGATE, OP_RETURN, OP_SUBTRACT};
use lox_vm::value::Value;
use lox_vm::vm::{InterpretError, VM};

fn value_of(number: f64) -> Value {
    Value::new(number.to_bits())
}

fn reported_number(result: Result<Option<Value>, InterpretError>) -> f64 {
    f64::from_bits(result.unwrap().unwrap().bits)
}

#[test]
fn interpret_should_error_on_malformed_chunk() {
    let mut sut = VM::new(8);
    let mut chunk = Chunk::new();
    chunk.write(OP_CONSTANT, 1); // OP_CONSTANT is normally followed by one byte of constant id

    let result = sut.interpret(&chunk);

    assert_eq!(result, Result::Err(InterpretError::BadChunk));
}

#[test]
#[should_panic]
fn interpret_should_panic_on_full_stack() {
    let mut chunk = Chunk::new();
    for _i in 0..9 {
        chunk.write_constant(value_of(1.0), 1);
    }
    let mut sut = VM::new(8);

    let _ = sut.interpret(&chunk);
}

#[test]
#[should_panic]
fn interpret_should_panic_when_popping_empty_stack() {
    let mut chunk = Chunk::new();
    chunk.write(OP_ADD, 1);
    let mut sut = VM::new(8);

    let _ = sut.interpret(&chunk);
}

#[test]
fn interpret_should_error_on_unrecognized_opcode() {
    let mut sut = VM::new(8);
    let mut chunk = Chunk::new();
    chunk.write(0xff, 1);

    let result = sut.interpret(&chunk);

    assert_eq!(result, Result::Err(InterpretError::BadChunk));
}

#[test]
fn interpret_should_succeed_trivially_on_empty_chunk() {
    let mut sut = VM::new(8);
    let chunk = Chunk::new();

    let result = sut.interpret(&chunk);

    assert_eq!(result, Ok(None));
}

#[test]
fn interpret_should_report_nothing_without_return() {
    let mut sut = VM::new(8);
    let mut chunk = Chunk::new();
    chunk.write_constant(value_of(1.0), 1);

    let result = sut.interpret(&chunk);

    assert_eq!(result, Ok(None));
}

#[test]
fn interpret_should_report_negated_constant() {
    let mut sut = VM::new(8);
    let mut chunk = Chunk::new();
    chunk.write_constant(value_of(3.1415), 1);
    chunk.write(OP_NEGATE, 1);
    chunk.write(OP_RETURN, 1);

    let result = sut.interpret(&chunk);

    assert_eq!(reported_number(result), -3.1415);
}

#[test]
fn interpret_should_evaluate_arithmetic_chain() {
    let mut sut = VM::new(8);
    let mut chunk = Chunk::new();
    chunk.write_constant(value_of(1.0), 1);
    chunk.write_constant(value_of(1.0), 1);
    chunk.write(OP_ADD, 1);
    chunk.write_constant(value_of(1.0), 1);
    chunk.write(OP_SUBTRACT, 1);
    chunk.write_constant(value_of(2.0), 1);
    chunk.write(OP_MULTIPLY, 1);
    chunk.write_constant(value_of(4.0), 1);
    chunk.write(OP_DIVIDE, 1);
    chunk.write(OP_NEGATE, 1);
    chunk.write(OP_RETURN, 1);

    let result = sut.interpret(&chunk);

    // -((((1.0 + 1.0) - 1.0) * 2.0) / 4.0) = -0.5
    assert_eq!(reported_number(result), -0.5);
}

#[test]
fn interpret_should_order_subtraction_operands() {
    let mut sut = VM::new(8);
    let mut chunk = Chunk::new();
    chunk.write_constant(value_of(5.0), 1);
    chunk.write_constant(value_of(2.0), 1);
    chunk.write(OP_SUBTRACT, 1);
    chunk.write(OP_RETURN, 1);

    let result = sut.interpret(&chunk);

    // the second-to-top operand is the left-hand side: 5.0 - 2.0
    assert_eq!(reported_number(result), 3.0);
}

#[test]
fn interpret_should_divide_by_ieee_rules() {
    let mut sut = VM::new(8);
    let mut chunk = Chunk::new();
    chunk.write_constant(value_of(1.0), 1);
    chunk.write_constant(value_of(0.0), 1);
    chunk.write(OP_DIVIDE, 1);
    chunk.write(OP_RETURN, 1);

    let result = sut.interpret(&chunk);

    assert_eq!(reported_number(result), f64::INFINITY);
}

#[test]
fn interpret_should_load_constants_through_the_long_form() {
    let mut sut = VM::new(8);
    let mut chunk = Chunk::new();
    for i in 0..257usize {
        chunk.write_constant(value_of(i as f64), 1);
    }
    // drop everything but the final long constant-load, then return it
    let mut trimmed = Chunk::new();
    let start = chunk.code.len() - 4;
    for offset in start..chunk.code.len() {
        trimmed.write(chunk.code[offset], 1);
    }
    for index in 0..chunk.constants.values.len() {
        let value = *chunk.get_constant(index);
        trimmed.constants.write(value);
    }
    trimmed.write(OP_RETURN, 1);

    let result = sut.interpret(&trimmed);

    assert_eq!(reported_number(result), 256.0);
}
