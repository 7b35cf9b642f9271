use rlox::chunk::{Chunk, OpCode};
use rlox::value::Value;

#[test]
fn boring_test_of_chunk() {
    let c = Chunk::default();
    assert_eq!(0, c.len());
}

#[test]
fn mess_around_with_bytecode() {
    let mut c = Chunk::new();
    let i = c.add_constant(Value::Number(1.0f64.to_bits())).unwrap();
    c.write_opcode(OpCode::Constant, 123).with_operand(i);
    c.write_opcode(OpCode::Return, 123);

    assert!(c.len() >= 3);

    // Constant
    assert_eq!(Some(OpCode::Constant), c.get(0).unwrap().as_opcode());
    let operand = c.get(1);
    assert_eq!(Some(0), operand.map(|b| b.as_constant_index()));
    assert_eq!(
        Some(Value::Number(1.0f64.to_bits())),
        operand.and_then(|b| b.resolve_constant())
    );

    // Return
    assert_eq!(Some(OpCode::Return), c.get(2).unwrap().as_opcode());
}

#[test]
fn opcode_bytes_round_trip() {
    assert_eq!(Ok(OpCode::Constant), OpCode::try_from(0u8));
    assert_eq!(Ok(OpCode::Return), OpCode::try_from(20u8));
    assert!(OpCode::try_from(21u8).is_err());
    for byte in 0u8..21 {
        assert_eq!(byte, OpCode::try_from(byte).unwrap().as_byte());
    }
}

#[test]
fn lines_are_recorded_per_byte() {
    let mut c = Chunk::new();
    assert!(c.is_empty());
    c.write_opcode(OpCode::Nil, 7);
    c.write_opcode(OpCode::GetLocal, 8).with_operand(3);
    assert_eq!(Some(7), c.line_number_for(0));
    assert_eq!(Some(8), c.line_number_for(1));
    assert_eq!(Some(8), c.line_number_for(2));
    assert_eq!(None, c.line_number_for(3));
    assert_eq!(3, c.get(2).unwrap().as_constant_index());
    assert!(c.get(3).is_none());
}

#[test]
fn constant_pool_holds_at_most_256_indices() {
    let mut c = Chunk::new();
    for k in 0..256usize {
        assert_eq!(Some(k as u8), c.add_constant(Value::Nil));
    }
    assert_eq!(None, c.add_constant(Value::Boolean(true)));
    assert_eq!(Some(Value::Boolean(true)), c.constant(256));
    assert_eq!(None, c.get(0).and_then(|b| b.resolve_constant_with_index()));
}
