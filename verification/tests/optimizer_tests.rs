use obfusku::bytecode::{Chunk, OpCode, Value};
use obfusku::number::{Real, RealOp, RealRequest};
use obfusku::optimizer::{ConstantFolding, NopRemoval};

#[test]
fn test_constant_folding() {
    let mut chunk = Chunk::new("test");

    // 5 + 3
    let idx1 = chunk.add_constant(Value::Integer(5));
    let idx2 = chunk.add_constant(Value::Integer(3));

    chunk.write_op(OpCode::Const, 1);
    chunk.write_u16(idx1, 1);
    chunk.write_op(OpCode::Const, 1);
    chunk.write_u16(idx2, 1);
    chunk.write_op(OpCode::Add, 1);
    chunk.write_op(OpCode::Halt, 1);

    let pass = ConstantFolding;
    let count = pass.optimize(&mut chunk);

    assert!(count > 0);
}

#[test]
fn a_fold_rewrites_seven_bytes() {
    let mut chunk = Chunk::new("test");
    chunk.add_constant(Value::Integer(5));
    chunk.add_constant(Value::Integer(3));
    for byte in [0x01, 0, 0, 0x01, 1, 0, OpCode::Mul.to_byte(), OpCode::Halt.to_byte()] {
        chunk.write(byte, 1);
    }
    assert_eq!(ConstantFolding.optimize(&mut chunk), 1);
    assert_eq!(chunk.constants[2], Value::Integer(15));
    assert_eq!(chunk.code, vec![0x01, 2, 0, 0xFE, 0xFE, 0xFE, 0xFE, 0xFF]);
    assert_eq!(NopRemoval.optimize(&mut chunk), 4);
    assert_eq!(chunk.code, vec![0x01, 2, 0, 0xFF]);
    assert_eq!(chunk.lines.len(), chunk.code.len());
    assert_eq!(ConstantFolding.name(), "Constant Folding");
    assert_eq!(NopRemoval.name(), "Nop Removal");
}

#[test]
fn only_what_fits_is_folded() {
    let fold = |op: OpCode, a: Value, b: Value| ConstantFolding::fold_binary(op.to_byte(), &a, &b);
    assert_eq!(fold(OpCode::Add, Value::Integer(i64::MAX), Value::Integer(1)), None);
    assert_eq!(fold(OpCode::Div, Value::Integer(1), Value::Integer(0)), None);
    assert_eq!(fold(OpCode::Div, Value::Integer(-7), Value::Integer(2)), Some(Value::Integer(-3)));
    assert_eq!(fold(OpCode::Sub, Value::Integer(1), Value::Integer(3)), Some(Value::Integer(-2)));
    assert_eq!(
        fold(OpCode::Add, Value::String("a".into()), Value::String("b".into())),
        Some(Value::String("ab".into()))
    );
    assert_eq!(fold(OpCode::Mod, Value::Integer(7), Value::Integer(2)), None);
    assert_eq!(fold(OpCode::Add, Value::Integer(1), Value::Boolean(true)), None);
}

#[test]
fn two_reals_are_folded_by_the_host() {
    let real = |x: f64| Real::from_bits(x.to_bits());
    let mut chunk = Chunk::new("test");
    chunk.add_constant(Value::Real(real(1.5)));
    chunk.add_constant(Value::Real(real(2.25)));
    for byte in [0x01, 0, 0, 0x01, 1, 0, OpCode::Sub.to_byte(), OpCode::Halt.to_byte()] {
        chunk.write(byte, 1);
    }
    assert_eq!(ConstantFolding.optimize(&mut chunk), 0);
    assert!(!ConstantFolding::fold_here(&mut chunk, 0));
    assert!(ConstantFolding::real_operands(&chunk, 1).is_none());
    match ConstantFolding::real_operands(&chunk, 0) {
        Some(RealRequest::Arithmetic(RealOp::Sub, a, b)) => {
            assert_eq!((a.to_bits(), b.to_bits()), (1.5f64.to_bits(), 2.25f64.to_bits()));
        }
        other => panic!("{:?}", other),
    }
    assert!(!ConstantFolding::fold_to(&mut chunk, 1, Value::Null));
    assert!(ConstantFolding::fold_to(&mut chunk, 0, Value::Real(real(-0.75))));
    assert_eq!(chunk.constants[2], Value::Real(real(-0.75)));
    assert_eq!(chunk.code, vec![0x01, 2, 0, 0xFE, 0xFE, 0xFE, 0xFE, 0xFF]);
    // A quotient of reals is left to the machine.
    let mut chunk = Chunk::new("test");
    chunk.add_constant(Value::Real(real(1.5)));
    for byte in [0x01, 0, 0, 0x01, 0, 0, OpCode::Div.to_byte(), OpCode::Halt.to_byte()] {
        chunk.write(byte, 1);
    }
    assert!(ConstantFolding::real_operands(&chunk, 0).is_none());
}
