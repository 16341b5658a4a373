use obfusku::bytecode::{Chunk, OpCode, Value};

#[test]
fn test_chunk_creation() {
    let mut chunk = Chunk::new("test");

    let idx = chunk.add_constant(Value::Integer(42));
    chunk.write_op(OpCode::Const, 1);
    chunk.write_u16(idx, 1);
    chunk.write_op(OpCode::Halt, 1);

    assert_eq!(chunk.code.len(), 4);
    assert_eq!(chunk.constants[0], Value::Integer(42));
}

#[test]
fn test_value_truthiness() {
    assert!(Value::Boolean(true).is_truthy());
    assert!(!Value::Boolean(false).is_truthy());
    assert!(!Value::Null.is_truthy());
    assert!(Value::Integer(1).is_truthy());
    assert!(!Value::Integer(0).is_truthy());
}
