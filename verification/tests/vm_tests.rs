use obfusku::bytecode::{Chunk, OpCode, Value, ValueType};
use obfusku::number::{Real, RealReply, RealRequest};
use obfusku::vm::{Computed, Context, ContextError, Effect, Runtime, RuntimeError, Stack, StackError};

#[test]
fn test_push_pop() {
    let mut stack = Stack::new();

    stack.push(Value::Integer(1)).unwrap();
    stack.push(Value::Integer(2)).unwrap();
    stack.push(Value::Integer(3)).unwrap();

    assert_eq!(stack.pop().unwrap(), Value::Integer(3));
    assert_eq!(stack.pop().unwrap(), Value::Integer(2));
    assert_eq!(stack.pop().unwrap(), Value::Integer(1));
    assert!(stack.pop().is_err());
}

#[test]
fn test_swap() {
    let mut stack = Stack::new();

    stack.push(Value::Integer(1)).unwrap();
    stack.push(Value::Integer(2)).unwrap();
    stack.swap().unwrap();

    assert_eq!(stack.pop().unwrap(), Value::Integer(1));
    assert_eq!(stack.pop().unwrap(), Value::Integer(2));
}

#[test]
fn test_rotate() {
    let mut stack = Stack::new();

    stack.push(Value::Integer(1)).unwrap(); // a
    stack.push(Value::Integer(2)).unwrap(); // b
    stack.push(Value::Integer(3)).unwrap(); // c
    stack.rotate().unwrap(); // c a b

    assert_eq!(stack.pop().unwrap(), Value::Integer(2)); // b
    assert_eq!(stack.pop().unwrap(), Value::Integer(1)); // a
    assert_eq!(stack.pop().unwrap(), Value::Integer(3)); // c
}

#[test]
fn test_variable_declaration() {
    let mut ctx = Context::new();

    ctx.declare_global("x".to_string(), Value::Integer(42), ValueType::Integer, false).unwrap();

    assert_eq!(*ctx.get_global("x").unwrap(), Value::Integer(42));
}

#[test]
fn test_accumulator() {
    let mut ctx = Context::new();

    ctx.set_accumulator(5);
    assert_eq!(ctx.accumulator(), 5);

    ctx.increment_accumulator();
    assert_eq!(ctx.accumulator(), 6);

    ctx.decrement_accumulator();
    assert_eq!(ctx.accumulator(), 5);
}

#[test]
fn test_nested_accumulator() {
    let mut ctx = Context::new();

    ctx.set_accumulator(10);
    ctx.push_accumulator(5);
    assert_eq!(ctx.accumulator(), 5);

    ctx.pop_accumulator();
    assert_eq!(ctx.accumulator(), 10);
}

fn done(computed: Computed) -> Value {
    match computed {
        Computed::Done(value) => value,
        Computed::Host(request, _) => panic!("the host is asked: {:?}", request),
    }
}

#[test]
fn test_arithmetic() {
    let runtime = Runtime::new();

    let result = done(runtime.add(Value::Integer(5), Value::Integer(3)).unwrap());
    assert_eq!(result, Value::Integer(8));

    let result = done(runtime.subtract(Value::Integer(5), Value::Integer(3)).unwrap());
    assert_eq!(result, Value::Integer(2));

    let result = done(runtime.multiply(Value::Integer(5), Value::Integer(3)).unwrap());
    assert_eq!(result, Value::Integer(15));
}

#[test]
fn test_division_by_zero() {
    let runtime = Runtime::new();

    let result = runtime.divide(Value::Integer(5), Value::Integer(0));
    assert!(matches!(result, Err(RuntimeError::DivisionByZero)));
}

#[test]
fn integer_arithmetic_is_checked_and_truncating() {
    let runtime = Runtime::new();
    assert!(matches!(
        runtime.add(Value::Integer(i64::MAX), Value::Integer(1)),
        Err(RuntimeError::ArithmeticOverflow)
    ));
    assert!(matches!(
        runtime.divide(Value::Integer(i64::MIN), Value::Integer(-1)),
        Err(RuntimeError::ArithmeticOverflow)
    ));
    assert_eq!(done(runtime.divide(Value::Integer(-7), Value::Integer(2)).unwrap()), Value::Integer(-3));
    assert_eq!(done(runtime.modulo(Value::Integer(-7), Value::Integer(2)).unwrap()), Value::Integer(-1));
    assert_eq!(done(runtime.modulo(Value::Integer(7), Value::Integer(-2)).unwrap()), Value::Integer(1));
    assert_eq!(done(runtime.power(Value::Integer(2), Value::Integer(10)).unwrap()), Value::Integer(1024));
    assert!(matches!(
        runtime.power(Value::Integer(2), Value::Integer(64)),
        Err(RuntimeError::ArithmeticOverflow)
    ));
    assert!(matches!(runtime.modulo(Value::Integer(1), Value::Integer(0)), Err(RuntimeError::DivisionByZero)));
    assert_eq!(
        done(runtime.add(Value::String("ab".into()), Value::String("cd".into())).unwrap()),
        Value::String("abcd".into())
    );
    match runtime.add(Value::Integer(1), Value::Boolean(true)) {
        Err(RuntimeError::TypeMismatch { expected, actual }) => {
            assert_eq!(expected, "compatible types");
            assert_eq!(actual, "⟁ and ☍");
        }
        other => panic!("no mismatch: {:?}", other),
    }
}

#[test]
fn reals_are_handed_to_the_host() {
    let runtime = Runtime::new();
    let x = Real::from_bits(1.5f64.to_bits());
    let y = Real::from_bits(2.0f64.to_bits());
    match runtime.add(Value::Real(x), Value::Real(y)).unwrap() {
        Computed::Host(RealRequest::Arithmetic(_, a, b), _) => {
            assert_eq!(a.to_bits(), x.to_bits());
            assert_eq!(b.to_bits(), y.to_bits());
        }
        other => panic!("not handed over: {:?}", other),
    }
    // Division by a real zero, of either sign, is refused before the host is asked.
    let zero = Real::from_bits((-0.0f64).to_bits());
    assert!(matches!(runtime.divide(Value::Real(x), Value::Real(zero)), Err(RuntimeError::DivisionByZero)));
    assert!(matches!(runtime.add(Value::Integer(1), Value::Real(x)).unwrap(), Computed::Host(RealRequest::FromInteger(1), _)));
}

#[test]
fn reals_compare_as_ieee_numbers() {
    let real = |x: f64| Real::from_bits(x.to_bits());
    let samples = [0.0, -0.0, 1.0, -1.0, 2.5, -2.5, f64::INFINITY, f64::NEG_INFINITY, f64::NAN, 1e-310, -1e-310];
    for a in samples {
        for b in samples {
            assert_eq!(real(a).equals(&real(b)), a == b, "{} == {}", a, b);
            assert_eq!(real(a).less_than(&real(b)), a < b, "{} < {}", a, b);
        }
        assert_eq!(real(a).negated().to_bits(), (-a).to_bits());
        assert_eq!(Value::Real(real(a)).is_truthy(), a != 0.0);
    }
}

#[test]
fn the_stack_is_bounded() {
    let mut stack = Stack::new();
    for i in 0..65536 {
        stack.push(Value::Integer(i)).unwrap();
    }
    assert_eq!(stack.push(Value::Null), Err(StackError::Overflow));
    assert_eq!(stack.len(), 65536);
    assert_eq!(stack.peek_at(0).unwrap(), &Value::Integer(65535));
    assert_eq!(stack.peek_at(65536), Err(StackError::InvalidAccess { index: 65536 }));
    let top = stack.pop_n(2).unwrap();
    assert_eq!(top, vec![Value::Integer(65534), Value::Integer(65535)]);
    stack.set_at(0, Value::Null).unwrap();
    assert_eq!(stack.peek().unwrap(), &Value::Null);
    *stack.peek_mut().unwrap() = Value::Boolean(true);
    stack.dup().unwrap();
    assert_eq!(stack.pop().unwrap(), Value::Boolean(true));
    stack.clear();
    assert!(stack.is_empty());
    assert_eq!(stack.swap(), Err(StackError::Underflow));
    assert_eq!(stack.rotate(), Err(StackError::Underflow));
}

#[test]
fn variables_are_typed() {
    let mut ctx = Context::new();
    ctx.declare_global("x".into(), Value::Integer(1), ValueType::Integer, false).unwrap();
    assert!(matches!(
        ctx.declare_global("x".into(), Value::Integer(2), ValueType::Integer, false),
        Err(ContextError::DuplicateVariable { .. })
    ));
    ctx.set_variable("x", Value::Integer(5)).unwrap();
    assert_eq!(*ctx.get_variable("x").unwrap(), Value::Integer(5));
    assert!(matches!(ctx.set_variable("x", Value::Null), Err(ContextError::NullAssignment { .. })));
    match ctx.set_variable("x", Value::Boolean(true)) {
        Err(ContextError::TypeMismatch { expected, actual }) => {
            assert_eq!(expected, "⟁");
            assert_eq!(actual, "☍");
        }
        other => panic!("accepted: {:?}", other),
    }
    assert!(matches!(ctx.get_variable("y"), Err(ContextError::UndeclaredVariable { .. })));
    ctx.declare_global("o".into(), Value::Null, ValueType::String, true).unwrap();
    ctx.set_variable("o", Value::String("s".into())).unwrap();
    ctx.set_variable("o", Value::Null).unwrap();
}

fn chunk_of(code: Vec<u8>, constants: Vec<Value>) -> Chunk {
    let mut chunk = Chunk::new("test");
    chunk.lines = vec![1; code.len()];
    chunk.code = code;
    chunk.constants = constants;
    chunk
}

fn steps(runtime: &mut Runtime, count: usize) {
    for _ in 0..count {
        assert!(matches!(runtime.step().unwrap(), Effect::Continue));
    }
}

#[test]
fn an_unknown_opcode_is_refused() {
    let mut runtime = Runtime::new();
    runtime.execute(chunk_of(vec![0x09], vec![])).unwrap();
    assert!(matches!(runtime.step(), Err(RuntimeError::UnknownOpcode(0x09))));
}

#[test]
fn code_that_runs_out_is_corruption() {
    let mut runtime = Runtime::new();
    runtime.execute(chunk_of(vec![OpCode::Nop.to_byte()], vec![])).unwrap();
    steps(&mut runtime, 1);
    assert!(matches!(runtime.step(), Err(RuntimeError::UniverseCorruption)));
}

#[test]
fn halt_stops_the_machine() {
    let mut runtime = Runtime::new();
    runtime.execute(chunk_of(vec![OpCode::Halt.to_byte(), 0x09], vec![])).unwrap();
    steps(&mut runtime, 1);
    assert!(matches!(runtime.step().unwrap(), Effect::Halted));
    assert!(matches!(runtime.step().unwrap(), Effect::Halted));
    assert!(runtime.context().halted);
}

#[test]
fn a_throw_unwinds_to_the_recorded_depths() {
    // Const 0; TryBegin +9; Const 1; Const 1; Const 2; Throw; (handler:) Halt
    let code = vec![
        0x01, 0, 0, // Const 0
        0xB0, 10, 0, // TryBegin: handler at 6 + 10 = 16
        0x01, 1, 0, // Const 1
        0x01, 1, 0, // Const 1
        0x01, 2, 0, // Const 2
        0xB2, // Throw
        0xFF, // handler: Halt
    ];
    let constants = vec![Value::Integer(10), Value::Integer(11), Value::String("boom".into())];
    let mut runtime = Runtime::new();
    runtime.execute(chunk_of(code, constants)).unwrap();
    steps(&mut runtime, 2);
    let depth = runtime.stack().len();
    let frames = runtime.context().call_depth();
    assert_eq!(depth, 1);
    steps(&mut runtime, 3);
    assert_eq!(runtime.stack().len(), 4);
    steps(&mut runtime, 1);
    assert_eq!(runtime.stack().len(), depth);
    assert_eq!(runtime.context().call_depth(), frames);
    assert_eq!(runtime.context().current_exception, Some(Value::String("boom".into())));
    assert_eq!(runtime.context().current_frame().unwrap().ip, 16);
    assert!(!runtime.context().has_exception_handler());
}

#[test]
fn an_unhandled_throw_is_fatal() {
    let code = vec![0x01, 0, 0, 0xB2];
    let mut runtime = Runtime::new();
    runtime.execute(chunk_of(code, vec![Value::Integer(3)])).unwrap();
    steps(&mut runtime, 1);
    match runtime.step() {
        Err(RuntimeError::UnhandledException(thrown)) => assert_eq!(thrown, Value::Integer(3)),
        other => panic!("not fatal: {:?}", other),
    }
    assert_eq!(runtime.stack().values(), &vec![Value::Integer(3)]);
}

#[test]
fn maps_keep_their_insertion_order() {
    // MakeMap of (a,1) (b,2); MapSet a := 9; MapKeys / MapValues
    let code = vec![
        0x01, 0, 0, 0x01, 1, 0, 0x01, 2, 0, 0x01, 3, 0, // a 1 b 2
        0x69, 2, 0, // MakeMap 2
        0x01, 0, 0, 0x01, 4, 0, // a 9
        0x6B, // MapSet
        0x06, // Dup
        0x6E, // MapKeys
        0x07, // Swap
        0x6F, // MapValues
    ];
    let constants = vec![
        Value::String("a".into()),
        Value::Integer(1),
        Value::String("b".into()),
        Value::Integer(2),
        Value::Integer(9),
    ];
    let mut runtime = Runtime::new();
    runtime.execute(chunk_of(code, constants)).unwrap();
    steps(&mut runtime, 12);
    let values = runtime.stack().values();
    assert_eq!(values[0], Value::Array(vec![Value::String("a".into()), Value::String("b".into())]));
    assert_eq!(values[1], Value::Array(vec![Value::Integer(9), Value::Integer(2)]));
}

#[test]
fn captures_are_snapshots() {
    // A closure over x = 1; then x := 2 outside; the closure still holds 1.
    let code = vec![
        0x01, 0, 0, // Const 1
        0x10, 0, 0, 0, // DeclareVar x: Integer
        0x11, 0, 0, // LoadVar x
        0xA0, 0, 0, 1, // MakeClosure f0, 1 capture
        0x01, 1, 0, // Const 2
        0x12, 0, 0, // StoreVar x
        0x11, 0, 0, // LoadVar x
    ];
    let mut chunk = chunk_of(code, vec![Value::Integer(1), Value::Integer(2)]);
    chunk.strings.push("x".into());
    let mut runtime = Runtime::new();
    runtime.execute(chunk).unwrap();
    steps(&mut runtime, 7);
    let values = runtime.stack().values();
    match &values[0] {
        Value::ClosureVal(closure) => assert_eq!(closure.captures, vec![Value::Integer(1)]),
        other => panic!("no closure: {:?}", other),
    }
    assert_eq!(values[1], Value::Integer(2));
}

#[test]
fn a_real_operand_is_converted_by_the_host() {
    // 1 + 2.5, where the host makes the integer a real and adds.
    let code = vec![0x01, 0, 0, 0x01, 1, 0, 0x20];
    let constants = vec![Value::Integer(1), Value::Real(Real::from_bits(2.5f64.to_bits()))];
    let mut runtime = Runtime::new();
    runtime.execute(chunk_of(code, constants)).unwrap();
    steps(&mut runtime, 2);
    match runtime.step().unwrap() {
        Effect::Real(RealRequest::FromInteger(1)) => {}
        other => panic!("{:?}", other),
    }
    // While it waits, the machine does not step.
    assert!(matches!(runtime.step(), Err(RuntimeError::InvalidInput(_))));
    runtime.provide_real(RealReply::Number(Real::from_bits(1.0f64.to_bits()))).unwrap();
    match runtime.step().unwrap() {
        Effect::Real(RealRequest::Arithmetic(_, a, b)) => {
            assert_eq!(f64::from_bits(a.to_bits()) + f64::from_bits(b.to_bits()), 3.5);
        }
        other => panic!("{:?}", other),
    }
    runtime.provide_real(RealReply::Number(Real::from_bits(3.5f64.to_bits()))).unwrap();
    assert_eq!(runtime.stack().len(), 1);
    assert_eq!(runtime.stack().peek().unwrap(), &Value::Real(Real::from_bits(3.5f64.to_bits())));
    assert!(matches!(runtime.provide_real(RealReply::Invalid), Err(RuntimeError::InvalidInput(_))));
}

#[test]
fn input_is_read_by_type() {
    let code = vec![0x01, 0, 0, 0x10, 0, 0, 3, 0x72, 0, 0, 3];
    let mut chunk = chunk_of(code, vec![Value::Boolean(false)]);
    chunk.strings.push("flag".into());
    let mut runtime = Runtime::new();
    runtime.execute(chunk).unwrap();
    steps(&mut runtime, 2);
    match runtime.step().unwrap() {
        Effect::Input { name, var_type } => {
            assert_eq!(name, "flag");
            assert_eq!(var_type, ValueType::Boolean);
        }
        other => panic!("{:?}", other),
    }
    assert!(matches!(runtime.provide_input("YES").unwrap(), Effect::Continue));
    assert_eq!(*runtime.context().get_variable("flag").unwrap(), Value::Boolean(true));
    assert!(matches!(runtime.provide_input("no"), Err(RuntimeError::InvalidInput(_))));
}

#[test]
fn a_template_is_filled_with_the_topmost_values() {
    let interpolate = OpCode::Interpolate.to_byte();
    let code = vec![0x01, 0, 0, 0x01, 1, 0, interpolate, 0, 0, 2];
    let mut chunk = chunk_of(code, vec![Value::Integer(7), Value::String("b".into())]);
    chunk.strings.push("{1} and {0}, {1}!".into());
    let mut runtime = Runtime::new();
    runtime.execute(chunk).unwrap();
    steps(&mut runtime, 3);
    assert_eq!(runtime.stack().values(), &vec![Value::String("b and 7, b!".into())]);
}

#[test]
fn an_instruction_that_lacks_operands_underflows_and_changes_nothing() {
    let mut runtime = Runtime::new();
    runtime.execute(chunk_of(vec![0x03, OpCode::Add.to_byte()], vec![])).unwrap();
    steps(&mut runtime, 1);
    assert!(matches!(runtime.step(), Err(RuntimeError::StackError(StackError::Underflow))));
    assert_eq!(runtime.stack().values(), &vec![Value::Boolean(true)]);
}

#[test]
fn an_answer_that_was_not_asked_for_is_refused() {
    let mut runtime = Runtime::new();
    runtime.execute(chunk_of(vec![OpCode::Halt.to_byte()], vec![])).unwrap();
    assert!(matches!(runtime.provide_input("1"), Err(RuntimeError::InvalidInput(_))));
    assert!(matches!(
        runtime.provide_real(RealReply::Integer(1)),
        Err(RuntimeError::InvalidInput(_))
    ));
    steps(&mut runtime, 1);
    assert!(matches!(runtime.step().unwrap(), Effect::Halted));
}

#[test]
fn a_constant_beyond_the_pool_is_invalid_bytecode() {
    let mut runtime = Runtime::new();
    runtime.execute(chunk_of(vec![0x01, 5, 0], vec![Value::Null])).unwrap();
    assert!(matches!(runtime.step(), Err(RuntimeError::InvalidBytecode { offset: 0 })));
    let mut runtime = Runtime::new();
    runtime.execute(chunk_of(vec![0x01, 0], vec![Value::Null])).unwrap();
    assert!(matches!(runtime.step(), Err(RuntimeError::InvalidBytecode { .. })));
}

#[test]
fn an_index_beyond_the_array_is_out_of_bounds() {
    let array = Value::Array(vec![Value::Integer(10), Value::Integer(20)]);
    let code = vec![0x01, 0, 0, 0x01, 1, 0, OpCode::ArrayGet.to_byte()];
    let mut runtime = Runtime::new();
    runtime.execute(chunk_of(code.clone(), vec![array.clone(), Value::Integer(-1)])).unwrap();
    steps(&mut runtime, 3);
    assert_eq!(runtime.stack().values(), &vec![Value::Integer(20)]);
    let mut runtime = Runtime::new();
    runtime.execute(chunk_of(code.clone(), vec![array.clone(), Value::Integer(2)])).unwrap();
    steps(&mut runtime, 2);
    assert!(matches!(
        runtime.step(),
        Err(RuntimeError::IndexOutOfBounds { index: 2, length: 2 })
    ));
    let mut runtime = Runtime::new();
    runtime.execute(chunk_of(code, vec![array, Value::Integer(-3)])).unwrap();
    steps(&mut runtime, 2);
    assert!(matches!(runtime.step(), Err(RuntimeError::IndexOutOfBounds { .. })));
}

#[test]
fn break_and_continue_are_refused_outside_of_a_loop() {
    let mut runtime = Runtime::new();
    runtime.execute(chunk_of(vec![OpCode::Break.to_byte()], vec![])).unwrap();
    assert!(matches!(runtime.step(), Err(RuntimeError::BreakOutsideLoop)));
    assert!(!runtime.context().break_flag);
    let mut runtime = Runtime::new();
    runtime.execute(chunk_of(vec![OpCode::Continue.to_byte()], vec![])).unwrap();
    assert!(matches!(runtime.step(), Err(RuntimeError::ContinueOutsideLoop)));
    assert!(!runtime.context().continue_flag);
}

#[test]
fn the_call_stack_has_a_bottom_and_a_top() {
    let mut context = Context::new();
    assert!(matches!(context.pop_frame(), Err(ContextError::CallStackUnderflow)));
    for depth in 0..1024 {
        context.push_frame(obfusku::vm::CallFrame::new(0, 0, format!("f{}", depth))).unwrap();
    }
    assert!(matches!(
        context.push_frame(obfusku::vm::CallFrame::new(0, 0, "one too many".into())),
        Err(ContextError::CallStackOverflow)
    ));
    assert_eq!(context.call_depth(), 1024);
}

#[test]
fn a_power_is_checked_whatever_its_exponent() {
    let runtime = Runtime::new();
    let big = Value::Integer(4_294_967_296);
    assert!(matches!(
        runtime.power(Value::Integer(2), big.clone()),
        Err(RuntimeError::ArithmeticOverflow)
    ));
    assert!(matches!(
        runtime.power(Value::Integer(-3), Value::Integer(4_294_967_297)),
        Err(RuntimeError::ArithmeticOverflow)
    ));
    assert_eq!(done(runtime.power(Value::Integer(1), big.clone()).unwrap()), Value::Integer(1));
    assert_eq!(done(runtime.power(Value::Integer(0), big.clone()).unwrap()), Value::Integer(0));
    assert_eq!(done(runtime.power(Value::Integer(-1), big).unwrap()), Value::Integer(1));
    assert_eq!(
        done(runtime.power(Value::Integer(-1), Value::Integer(4_294_967_297)).unwrap()),
        Value::Integer(-1)
    );
    assert_eq!(
        done(runtime.power(Value::Integer(2), Value::Integer(62)).unwrap()),
        Value::Integer(1 << 62)
    );
    assert!(matches!(
        runtime.power(Value::Integer(2), Value::Integer(63)),
        Err(RuntimeError::ArithmeticOverflow)
    ));
}

#[test]
fn an_integer_met_with_a_real_is_made_a_real() {
    let runtime = Runtime::new();
    let half = Value::Real(Real::from_bits(0.5f64.to_bits()));
    for result in [
        runtime.modulo(Value::Integer(7), half.clone()),
        runtime.add(Value::Integer(7), half.clone()),
    ] {
        match result.unwrap() {
            Computed::Host(RealRequest::FromInteger(7), _) => {}
            other => panic!("{:?}", other),
        }
    }
    match runtime.modulo(half.clone(), Value::Integer(2)).unwrap() {
        Computed::Host(RealRequest::FromInteger(2), _) => {}
        other => panic!("{:?}", other),
    }
    assert!(matches!(
        runtime.modulo(half.clone(), Value::Integer(0)),
        Err(RuntimeError::DivisionByZero)
    ));
    match runtime.power(half.clone(), Value::Integer(-2)).unwrap() {
        Computed::Host(RealRequest::PowerInteger(_, -2), _) => {}
        other => panic!("{:?}", other),
    }
    match runtime.power(half, Value::Integer(4_294_967_296)).unwrap() {
        Computed::Host(RealRequest::FromInteger(4_294_967_296), _) => {}
        other => panic!("{:?}", other),
    }
}

#[test]
fn a_return_without_a_value_underflows() {
    let mut runtime = Runtime::new();
    runtime.execute(chunk_of(vec![OpCode::Return.to_byte()], vec![])).unwrap();
    assert!(matches!(runtime.step(), Err(RuntimeError::StackError(StackError::Underflow))));
    assert_eq!(runtime.context().call_depth(), 1);
    assert_eq!(runtime.context().current_ip(), Some(0));
}

#[test]
fn a_run_ends_well_with_at_most_one_value_left() {
    let halt = OpCode::Halt.to_byte();
    let mut runtime = Runtime::new();
    runtime.execute(chunk_of(vec![0x03, halt], vec![])).unwrap();
    steps(&mut runtime, 2);
    assert!(matches!(runtime.step().unwrap(), Effect::Halted));
    let mut runtime = Runtime::new();
    runtime.execute(chunk_of(vec![0x03, 0x03, halt], vec![])).unwrap();
    steps(&mut runtime, 3);
    assert!(matches!(runtime.step(), Err(RuntimeError::UnbalancedStack { depth: 2 })));
}

#[test]
fn a_step_that_fails_changes_nothing() {
    // True; StoreVar of a name that is not declared.
    let mut chunk = chunk_of(vec![0x03, 0x12, 0, 0], vec![]);
    chunk.strings.push("nowhere".into());
    let mut runtime = Runtime::new();
    runtime.execute(chunk).unwrap();
    steps(&mut runtime, 1);
    assert!(matches!(runtime.step(), Err(RuntimeError::ContextError(_))));
    assert_eq!(runtime.stack().values(), &vec![Value::Boolean(true)]);
    assert_eq!(runtime.context().current_ip(), Some(1));
    // An array and a key that is no index; ArraySet.
    let code = vec![0x01, 0, 0, 0x03, 0x03, OpCode::ArraySet.to_byte()];
    let mut runtime = Runtime::new();
    runtime.execute(chunk_of(code, vec![Value::Array(vec![Value::Integer(1)])])).unwrap();
    steps(&mut runtime, 3);
    assert!(runtime.step().is_err());
    assert_eq!(runtime.stack().len(), 3);
    assert_eq!(runtime.context().current_ip(), Some(5));
    // A byte that is no instruction.
    let mut runtime = Runtime::new();
    runtime.execute(chunk_of(vec![0x03, 0x09], vec![])).unwrap();
    steps(&mut runtime, 1);
    assert!(matches!(runtime.step(), Err(RuntimeError::UnknownOpcode(0x09))));
    assert_eq!(runtime.stack().values(), &vec![Value::Boolean(true)]);
    assert_eq!(runtime.context().current_ip(), Some(1));
}
