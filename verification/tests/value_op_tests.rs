use lox_vm::op::{op_size, Op, OP_ADD, OP_CONSTANT, OP_CONSTANT_LONG, OP_RETURN};
use lox_vm::scanner::{Scanner, Token, TokenType};
use lox_vm::value::{Value, ValueArray};

#[test]
fn op_size_should_match_encoding_table() {
    assert_eq!(op_size(OP_CONSTANT), 2);
    assert_eq!(op_size(OP_CONSTANT_LONG), 4);
    assert_eq!(op_size(OP_ADD), 1);
    assert_eq!(op_size(OP_RETURN), 1);
    assert_eq!(op_size(0xff), 1);
}

#[test]
fn op_methods_should_round_trip_through_bytes() {
    let ops = [
        Op::Constant,
        Op::Add,
        Op::Subtract,
        Op::Multiply,
        Op::Divide,
        Op::Negate,
        Op::Return,
        Op::ConstantLong,
    ];
    for op in ops {
        let byte = op.to_byte();
        assert_eq!(Op::try_from(byte), Ok(op));
        assert_eq!(op.size() as usize, op_size(byte));
    }
    assert_eq!(Op::try_from(0x08), Err(()));
}

#[test]
fn size_should_count_opcode_plus_operands() {
    assert_eq!(Op::Constant.size(), 2);
    assert_eq!(Op::ConstantLong.size(), 4);
    assert_eq!(Op::Negate.size(), 1);
}

#[test]
fn negate_should_flip_only_the_sign() {
    let mut value = Value::new(3.5f64.to_bits());
    value.negate();
    assert_eq!(f64::from_bits(value.bits), -3.5);
    value.negate();
    assert_eq!(f64::from_bits(value.bits), 3.5);
}

#[test]
fn arithmetic_should_follow_ieee_double_semantics() {
    let mut a = Value::new(1.5f64.to_bits());
    a.add(&Value::new(2.25f64.to_bits()));
    assert_eq!(f64::from_bits(a.bits), 3.75);

    let mut s = Value::new(1.0f64.to_bits());
    s.subtract(&Value::new(0.75f64.to_bits()));
    assert_eq!(f64::from_bits(s.bits), 0.25);

    let mut m = Value::new(1.5f64.to_bits());
    m.multiply(&Value::new((-2.0f64).to_bits()));
    assert_eq!(f64::from_bits(m.bits), -3.0);

    let mut d = Value::new(1.0f64.to_bits());
    d.divide(&Value::new(8.0f64.to_bits()));
    assert_eq!(f64::from_bits(d.bits), 0.125);
}

#[test]
fn value_array_should_append_in_order() {
    let mut array = ValueArray::new();
    array.write(Value::new(1u64));
    array.write(Value::new(2u64));

    assert_eq!(array.values.len(), 2);
    assert_eq!(array.values[0].bits, 1);
    assert_eq!(array.values[1].bits, 2);
}

#[test]
fn scanner_should_expose_an_empty_token_stream() {
    let mut scanner = Scanner::new("print 1 + 2;");

    assert!(scanner.next().is_none());

    let token = Token { kind: TokenType::Number, lexeme: "2".to_string(), line: 1 };
    assert_eq!(token.kind, TokenType::Number);
    assert_eq!(token.line, 1);
}
