use obfusku::bytecode::{Chunk, OpCode, Value};
use obfusku::compiler::{CompileError, Compiler, FunctionScope};
use obfusku::lexer::LexerError;
use obfusku::number::Real;
use obfusku::symbols::SymbolTable;

fn compile_source(source: &str) -> Result<Chunk, CompileError> {
    let table = SymbolTable::new();
    let mut compiler = Compiler::new(&table);
    compiler.compile(source)
}

#[test]
fn test_simple_program() {
    let result = compile_source("⟁x=5\n⚡[x]\n❧");
    assert!(result.is_ok());
}

#[test]
fn test_missing_end() {
    let result = compile_source("⟁x=5\n⚡[x]");
    assert!(matches!(result, Err(CompileError::MissingEndProgram)));
}

#[test]
fn a_simple_program_compiles_to_known_bytes() {
    let chunk = compile_source("⟁x=5\n⚡[x]\n❧").unwrap();
    assert_eq!(chunk.name, "main");
    assert_eq!(chunk.strings, vec!["x".to_string()]);
    assert_eq!(chunk.constants, vec![Value::Integer(5)]);
    assert_eq!(
        chunk.code,
        vec![
            OpCode::Const.to_byte(), 0, 0,
            OpCode::DeclareVar.to_byte(), 0, 0, 0,
            OpCode::LoadVar.to_byte(), 0, 0,
            OpCode::Print.to_byte(),
            OpCode::Halt.to_byte(),
        ]
    );
    assert_eq!(chunk.code.len(), chunk.lines.len());
    assert_eq!(chunk.lines, vec![1, 1, 1, 1, 1, 1, 1, 2, 2, 2, 2, 3]);
}

#[test]
fn precedence_climbs() {
    // 2 + 3 * 4: the product is computed first.
    let chunk = compile_source("⟁y=2✚3✱4 ❧").unwrap();
    let ops: Vec<u8> = vec![
        0x01, 0, 0, 0x01, 1, 0, 0x01, 2, 0, OpCode::Mul.to_byte(), OpCode::Add.to_byte(),
        OpCode::DeclareVar.to_byte(), 0, 0, 0, OpCode::Halt.to_byte(),
    ];
    assert_eq!(chunk.code, ops);
}

#[test]
fn break_and_continue_need_a_loop() {
    assert!(matches!(
        compile_source("⊗ ❧"),
        Err(CompileError::UnexpectedToken { ref expected, .. }) if expected == "⊗ (break) used outside of loop"
    ));
    assert!(matches!(
        compile_source("↺ ❧"),
        Err(CompileError::UnexpectedToken { ref expected, .. }) if expected == "↺ (continue) used outside of loop"
    ));
    assert!(compile_source("⟁i=0 ⊂[i◁3] ⊗ ⊃ ❧").is_ok());
    assert!(compile_source("⟁i=0 ⊂[i◁3] ⚙︎[i✚1]→i ↺ ⊃ ❧").is_ok());
}

#[test]
fn a_loop_jumps_back_to_its_condition() {
    let chunk = compile_source("⟁i=0 ⊂[i◁3] ⊗ ⊃ ❧").unwrap();
    // Const, DeclareVar | LoadVar i, Const 3, Lt, JumpIfFalse, Jump (break), Loop | Halt
    let code = chunk.code;
    assert_eq!(code[7], OpCode::LoadVar.to_byte());
    assert_eq!(code[14], OpCode::JumpIfFalse.to_byte());
    assert_eq!(code[17], OpCode::Jump.to_byte());
    assert_eq!(code[20], OpCode::Loop.to_byte());
    // The loop instruction ends at 23 and lands on the condition at 7.
    assert_eq!(u16::from_le_bytes([code[21], code[22]]), 16);
    // The exit jump and the break both land behind the loop.
    assert_eq!(17 + u16::from_le_bytes([code[15], code[16]]) as usize, 23);
    assert_eq!(20 + u16::from_le_bytes([code[18], code[19]]) as usize, 23);
    assert_eq!(code[23], OpCode::Halt.to_byte());
}

#[test]
fn return_needs_a_function() {
    assert!(matches!(compile_source("⤶[1] ❧"), Err(CompileError::ReturnOutsideFunction)));
}

#[test]
fn functions_are_entered_in_the_table() {
    let chunk = compile_source("λadd[⟁a,⟁b] ⤶[a✚b] Λ ⚡[⤷add[2,3]] ❧").unwrap();
    assert_eq!(chunk.functions.len(), 1);
    let f = &chunk.functions[0];
    assert_eq!(f.name, "add");
    assert_eq!(f.arity, 2);
    assert_eq!(f.params.len(), 2);
    assert_eq!(f.start, 3);
    // The body ends with the return of null that is always emitted.
    assert_eq!(chunk.code[f.start + f.length - 1], OpCode::Return.to_byte());
    assert_eq!(chunk.code[f.start + f.length - 2], OpCode::Null.to_byte());
    assert!(!f.is_closure());
    assert!(matches!(
        compile_source("λf[] Λ λf[] Λ ❧"),
        Err(CompileError::DuplicateFunction { ref name }) if name == "f"
    ));
}

#[test]
fn inner_functions_capture_outer_locals() {
    let chunk = compile_source("λmake[⟁n] λinner[] ⤶[n] Λ ⤶[inner] Λ ❧").unwrap();
    assert_eq!(chunk.functions.len(), 2);
    assert_eq!(chunk.functions[0].name, "inner");
    assert_eq!(chunk.functions[0].capture_names, vec!["n".to_string()]);
    assert!(chunk.functions[0].is_closure());
    assert_eq!(chunk.functions[1].name, "make");
    assert!(chunk.functions[1].capture_names.is_empty());
    let code = &chunk.code;
    assert!(code.windows(3).any(|w| w == [OpCode::LoadCapture.to_byte(), 0, 0]));
    assert!(code.windows(4).any(|w| w == [OpCode::MakeClosure.to_byte(), 0, 0, 1]));
}

#[test]
fn lexical_errors_stop_compilation() {
    assert!(matches!(
        compile_source("⟁x=\"open"),
        Err(CompileError::LexerError(LexerError::UnterminatedString { line: 1, column: 4 }))
    ));
}

#[test]
fn unexpected_tokens_carry_their_place() {
    match compile_source("⟁x=5\n⚡x]\n❧") {
        Err(CompileError::UnexpectedToken { lexeme, line, column, expected, context }) => {
            assert_eq!(lexeme, "x");
            assert_eq!((line, column), (2, 2));
            assert_eq!(expected, "[");
            assert_eq!(context, "   │ ⚡x]");
        }
        other => panic!("{:?}", other),
    }
    assert!(matches!(compile_source("⚡["), Err(CompileError::UnexpectedEof { .. })));
    assert!(matches!(compile_source("⚡[1"), Err(CompileError::UnexpectedEof { ref expected }) if expected == "]"));
}

#[test]
fn real_literals_need_their_values() {
    let table = SymbolTable::new();
    let mut compiler = Compiler::new(&table);
    assert!(matches!(
        compiler.compile("⧆r=2.5 ❧"),
        Err(CompileError::UnresolvedReal { ref text }) if text == "2.5"
    ));
    compiler.define_real("2.5", Real::from_bits(2.5f64.to_bits()));
    let chunk = compiler.compile("⧆r=2.5 ❧").unwrap();
    assert_eq!(chunk.constants, vec![Value::Real(Real::from_bits(2.5f64.to_bits()))]);
}

#[test]
fn function_scopes_track_locals_and_captures() {
    let mut scope = FunctionScope::new("f".into(), 1, vec![("a".into(), obfusku::bytecode::ValueType::Integer)], 0);
    assert!(scope.is_local("a"));
    assert!(!scope.is_local("b"));
    scope.add_local("b".into());
    scope.add_local("b".into());
    assert_eq!(scope.locals, vec!["a".to_string(), "b".to_string()]);
    assert_eq!(scope.get_capture_index("n"), None);
    assert_eq!(scope.add_capture("n".into()), 0);
    assert_eq!(scope.add_capture("m".into()), 1);
    assert_eq!(scope.add_capture("n".into()), 0);
    assert_eq!(scope.get_capture_index("m"), Some(1));
    assert!(scope.is_closure);
}

#[test]
fn a_list_that_the_source_ends_in_wants_an_expression() {
    assert!(matches!(
        compile_source("⌬a=[1, 2"),
        Err(CompileError::UnexpectedEof { ref expected }) if expected == "expression"
    ));
    assert!(matches!(
        compile_source("⌖m={\"a\"⇒1"),
        Err(CompileError::UnexpectedEof { ref expected }) if expected == "expression"
    ));
    assert!(matches!(
        compile_source("⌬a=["),
        Err(CompileError::UnexpectedEof { ref expected }) if expected == "expression"
    ));
}

#[test]
fn arrays_and_maps_count_their_items() {
    let chunk = compile_source("⌬a=[1 2, 3]\n⌖m={\"a\"⇒1⋄\"b\"⇒2}\n❧").unwrap();
    let make_array = OpCode::MakeArray.to_byte();
    let make_map = OpCode::MakeMap.to_byte();
    let at = chunk.code.iter().position(|b| *b == make_array).unwrap();
    assert_eq!(&chunk.code[at..at + 3], &[make_array, 3, 0]);
    let at = chunk.code.iter().rposition(|b| *b == make_map).unwrap();
    assert_eq!(&chunk.code[at..at + 3], &[make_map, 2, 0]);
    assert_eq!(chunk.lines.len(), chunk.code.len());
}

#[test]
fn a_try_lands_its_handler_behind_the_guarded_body() {
    let chunk = compile_source("☄ ⚠[\"boom\"] ☊[e] ⚡[e] ⟣ ❧").unwrap();
    let try_begin = OpCode::TryBegin.to_byte();
    let try_end = OpCode::TryEnd.to_byte();
    let jump = OpCode::Jump.to_byte();
    let catch = OpCode::Catch.to_byte();
    assert_eq!(chunk.code[0], try_begin);
    let handler = 3 + chunk.code[1] as usize + 256 * chunk.code[2] as usize;
    assert_eq!(chunk.code[handler], catch);
    assert_eq!(chunk.code[handler - 4], try_end);
    assert_eq!(chunk.code[handler - 3], jump);
    let end = handler + chunk.code[handler - 2] as usize + 256 * chunk.code[handler - 1] as usize;
    assert_eq!(chunk.code[end], OpCode::Halt.to_byte());
}

#[test]
fn a_function_is_defined_once() {
    assert!(matches!(
        compile_source("λf[] Λ λf[] Λ ❧"),
        Err(CompileError::DuplicateFunction { ref name }) if name == "f"
    ));
}

#[test]
fn a_call_takes_at_most_255_arguments() {
    let arguments = vec!["1"; 255].join(",");
    assert!(compile_source(&format!("λf[] Λ ⇑[⤷f[{}]] ❧", arguments)).is_ok());
    let arguments = vec!["1"; 256].join(",");
    assert!(matches!(
        compile_source(&format!("λf[] Λ ⇑[⤷f[{}]] ❧", arguments)),
        Err(CompileError::TooManyLocals)
    ));
}

#[test]
fn a_jump_spans_at_most_sixteen_bits() {
    // Each print of a pooled literal takes three bytes of code.
    let body = "✤\"x\" ".repeat(21_000);
    assert!(compile_source(&format!("⟨◉] {} ⟫ ❧", body)).is_ok());
    let body = "✤\"x\" ".repeat(22_000);
    assert!(matches!(
        compile_source(&format!("⟨◉] {} ⟫ ❧", body)),
        Err(CompileError::LoopTooDeep)
    ));
}

#[test]
fn the_constant_pool_holds_65536_constants() {
    let pushes = "⇓ ⇑[1] ".repeat(65_535);
    let chunk = compile_source(&format!("⇑[0] {} ❧", pushes)).unwrap();
    assert_eq!(chunk.constants.len(), 65_536);
    assert!(matches!(
        compile_source(&format!("⇑[0] {} ⇑[2] ❧", pushes)),
        Err(CompileError::TooManyConstants)
    ));
}
