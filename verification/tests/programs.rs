use obfusku::bytecode::{Chunk, Value};
use obfusku::compiler::{CompileError, Compiler};
use obfusku::number::{Real, RealOp, RealReply, RealRequest};
use obfusku::serialize::BytecodeSerializer;
use obfusku::symbols::SymbolTable;
use obfusku::vm::{Effect, Runtime, RuntimeError};

fn as_real(x: f64) -> Real {
    Real::from_bits(x.to_bits())
}

fn number(r: Real) -> f64 {
    f64::from_bits(r.to_bits())
}

/// The floating-point unit of the host.
fn answer(request: RealRequest) -> RealReply {
    match request {
        RealRequest::FromInteger(i) => RealReply::Number(as_real(i as f64)),
        RealRequest::ToInteger(r) => RealReply::Integer(number(r) as i64),
        RealRequest::ToText(r) => RealReply::Text(number(r).to_string()),
        RealRequest::Parse(text) => match text.parse::<f64>() {
            Ok(x) => RealReply::Number(as_real(x)),
            Err(_) => RealReply::Invalid,
        },
        RealRequest::Arithmetic(op, a, b) => {
            let (a, b) = (number(a), number(b));
            RealReply::Number(as_real(match op {
                RealOp::Add => a + b,
                RealOp::Sub => a - b,
                RealOp::Mul => a * b,
                RealOp::Div => a / b,
                RealOp::Rem => a % b,
                RealOp::Power => a.powf(b),
            }))
        }
        RealRequest::PowerInteger(a, n) => RealReply::Number(as_real(number(a).powi(n))),
    }
}

fn compile(source: &str) -> Result<Chunk, CompileError> {
    let table = SymbolTable::new();
    let mut compiler = Compiler::new(&table);
    loop {
        match compiler.compile(source) {
            Err(CompileError::UnresolvedReal { text }) => {
                let value: f64 = text.parse().unwrap();
                compiler.define_real(&text, as_real(value));
            }
            other => return other,
        }
    }
}

/// Runs a chunk to its halt and returns the lines that it printed.
fn run_chunk(chunk: Chunk, input: &[&str]) -> Result<Vec<String>, RuntimeError> {
    let mut runtime = Runtime::new();
    let mut printed = Vec::new();
    let mut input = input.iter();
    runtime.execute(chunk)?;
    for _ in 0..1_000_000 {
        match runtime.step()? {
            Effect::Continue => {}
            Effect::Halted => return Ok(printed),
            Effect::Print(line) => printed.push(line),
            Effect::Debug(_) => {}
            Effect::Input { .. } => {
                let line = input.next().expect("the program reads more than it is given");
                let mut effect = runtime.provide_input(line)?;
                while let Effect::Real(request) = effect {
                    runtime.provide_real(answer(request))?;
                    effect = Effect::Continue;
                }
            }
            Effect::Real(request) => runtime.provide_real(answer(request))?,
        }
    }
    panic!("the program does not halt");
}

fn run(source: &str) -> Vec<String> {
    run_chunk(compile(source).unwrap(), &[]).unwrap()
}

#[test]
fn literal_and_print() {
    assert_eq!(run("⟁x=5 ⚡[x] ❧"), vec!["5"]);
}

#[test]
fn arithmetic_and_precedence() {
    assert_eq!(run("⟁y=2✚3✱4 ⚡[y] ❧"), vec!["14"]);
}

#[test]
fn loop_and_accumulator() {
    assert_eq!(run("⟁i=0 ⊂[i◁3] ⚡[i] ⚙︎[i✚1]→i ⊃ ❧"), vec!["0", "1", "2"]);
}

#[test]
fn function_and_call() {
    assert_eq!(run("λadd[⟁a,⟁b] ⤶[a✚b] Λ ⚡[⤷add[2,3]] ❧"), vec!["5"]);
}

#[test]
fn closure_capture() {
    let source = "λmake[⟁n] λinner[] ⤶[n] Λ ⤶[inner] Λ ⟁f=⤷make[7] ⚡[⤷f[]] ❧";
    // The variable that holds the closure is declared as an integer; the
    // declaration does not check the type of the initial value.
    assert_eq!(run(source), vec!["7"]);
}

#[test]
fn try_throw_catch() {
    assert_eq!(run("☄ ⚠[\"boom\"] ☊[e] ⚡[e] ⟣ ❧"), vec!["boom"]);
}

#[test]
fn map_insertion_order() {
    let mut chunk = compile("⌖m={\"a\"⇒1⋄\"b\"⇒2} ❧").unwrap();
    // Replace the halt by: LoadVar m; MapKeys; Halt.
    let halt = chunk.code.pop().unwrap();
    let line = chunk.lines.pop().unwrap();
    let name = chunk.add_string("m");
    chunk.write(0x11, line);
    chunk.write_u16(name, line);
    chunk.write(0x6E, line);
    chunk.write(halt, line);
    let mut runtime = Runtime::new();
    runtime.execute(chunk).unwrap();
    loop {
        match runtime.step().unwrap() {
            Effect::Halted => break,
            _ => {}
        }
    }
    assert_eq!(
        runtime.stack().values().last().unwrap(),
        &Value::Array(vec![Value::String("a".into()), Value::String("b".into())])
    );
}

#[test]
fn printed_forms_of_values() {
    assert_eq!(
        run("⚡[◉] ⚡[◎] ⚡[∅] ⚡[\"text\"] ⚡[-7] ⌬a=[1,2,3] ⚡[a] ⌖m={1⇒2} ⚡[m] ✤\"lit\" ❧"),
        vec!["◉", "◎", "∅", "text", "-7", "⌬[3]", "⌖{1}", "lit"]
    );
}

#[test]
fn reals_go_through_the_host() {
    assert_eq!(run("⧆r=1.5 ⚡[r✚2] ⚡[r✱r] ⚡[3÷2.0] ⚡[r◁2] ⚡[2◁r] ❧"), vec!["3.5", "2.25", "1.5", "◉", "◎"]);
}

#[test]
fn conditionals_and_match() {
    assert_eq!(run("⟁x=2 ⟨x⩵2] ⚡[\"yes\"] ⟩ ⚡[\"no\"] ⟫ ❧"), vec!["yes"]);
    assert_eq!(run("⟁x=3 ⟨x⩵2] ⚡[\"yes\"] ⟩ ⚡[\"no\"] ⟫ ❧"), vec!["no"]);
    assert_eq!(
        run("⟁x=2 ⟡x] ⟢1] ⚡[\"one\"] ⟢2] ⚡[\"two\"] ⟢◇] ⚡[\"other\"] ⟣ ❧"),
        vec!["two"]
    );
}

#[test]
fn break_leaves_the_loop() {
    assert_eq!(run("⟁i=0 ⊂[◉] ⟨i⩵2] ⊗ ⟫ ⚡[i] ⚙︎[i✚1]→i ⊃ ⚡[\"out\"] ❧"), vec!["0", "1", "out"]);
}

#[test]
fn the_accumulator_counts() {
    assert_eq!(run("✹=5 ✹ ✹⊕ ✹⊖ ⚡[✹] ❧"), vec!["6"]);
}

#[test]
fn locals_do_not_outlive_their_function() {
    let chunk = compile("λf[] ⟁inner=1 ⤶[inner] Λ ⚡[⤷f[]] ⚡[inner] ❧").unwrap();
    match run_chunk(chunk, &[]) {
        Err(RuntimeError::ContextError(_)) => {}
        other => panic!("the local is still visible: {:?}", other),
    }
}

#[test]
fn runtime_errors_are_fatal() {
    let fails = |source: &str| run_chunk(compile(source).unwrap(), &[]).unwrap_err();
    assert!(matches!(fails("⚡[1÷0] ❧"), RuntimeError::DivisionByZero));
    assert!(matches!(fails("⚡[9223372036854775807✚1] ❧"), RuntimeError::ArithmeticOverflow));
    assert!(matches!(fails("⚡[1◁\"a\"] ❧"), RuntimeError::TypeMismatch { .. }));
    assert!(matches!(fails("⚡[nothing] ❧"), RuntimeError::ContextError(_)));
    assert!(matches!(fails("⟁x=1 ⟁x=2 ❧"), RuntimeError::ContextError(_)));
    assert!(matches!(fails("⇓ ❧"), RuntimeError::StackError(_)));
    assert!(matches!(
        fails("⚠[\"lost\"] ❧"),
        RuntimeError::UnhandledException(Value::String(ref text)) if text == "lost"
    ));
}

#[test]
fn input_is_assigned_to_the_variable() {
    let chunk = compile("⟁n=0 ⚓⟁n ⚡[n✚1] ⧆r=0.5 ⚓⧆r ⚡[r] ❧").unwrap();
    assert_eq!(run_chunk(chunk, &["41", "2.5"]).unwrap(), vec!["42", "2.5"]);
    let chunk = compile("⟁n=0 ⚓⟁n ❧").unwrap();
    assert!(matches!(run_chunk(chunk, &["x"]), Err(RuntimeError::InvalidInput(_))));
}

#[test]
fn a_compiled_program_survives_the_file() {
    let chunk = compile("λadd[⟁a,⟁b] ⤶[a✚b] Λ ⟁i=0 ⊂[i◁2] ⚡[⤷add[i,10]] ⚙︎[i✚1]→i ⊃ ❧").unwrap();
    let mut bytes = Vec::new();
    BytecodeSerializer::serialize(&chunk, &mut bytes).unwrap();
    let loaded = BytecodeSerializer::deserialize(&bytes).unwrap();
    assert_eq!(loaded.code, chunk.code);
    assert_eq!(loaded.constants, chunk.constants);
    assert_eq!(loaded.strings, chunk.strings);
    assert_eq!(loaded.lines, chunk.lines);
    assert_eq!(loaded.functions.len(), chunk.functions.len());
    assert_eq!(run_chunk(loaded, &[]).unwrap(), vec!["10", "11"]);
}

#[test]
fn deep_recursion_overflows_the_call_stack() {
    let chunk = compile("λf[] ⤶[⤷f[]] Λ ⚡[⤷f[]] ❧").unwrap();
    assert!(matches!(run_chunk(chunk, &[]), Err(RuntimeError::ContextError(_))));
}
