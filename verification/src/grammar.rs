use vstd::prelude::*;
use crate::bytecode::opcode::{high_byte, low_byte, ChunkView, FunctionInfoView, OpCode, ValueType};
use crate::bytecode::value::ValueView;
use crate::lexer::symbols::{TokenKindView, TokenView};
use crate::number::Real;
use crate::symbols::meaning::SymbolMeaning;

verus! {

// ---------------------------------------------------------------------------
// The language, as the code that each construct compiles to.
//
// The compiler makes one pass over the tokens. What it has made so far is a
// draft: the cursor, the code with its pools, and the loops and functions
// that are open. Each construct of the language is a function from the draft
// before it to the draft behind it, or to the fault that ends the
// compilation.
// ---------------------------------------------------------------------------

/// A loop that is open: where its condition starts, and the operands of the
/// jumps that leave it, which are patched when the loop is closed.
pub struct LoopView {
    pub start: usize,
    pub breaks: Seq<usize>,
}

/// A function that is open: its header, the names that it declares, with
/// the parameters first, and the names that it captures, in the order of
/// first use.
pub struct ScopeView {
    pub name: Seq<char>,
    pub arity: u8,
    pub params: Seq<(Seq<char>, ValueType)>,
    pub start: usize,
    pub captures: Seq<Seq<char>>,
    pub locals: Seq<Seq<char>>,
    pub is_closure: bool,
}

/// What the compiler has made of the tokens before the cursor.
pub struct Draft {
    /// The position of the token that comes next.
    pub cursor: nat,
    pub code: Seq<u8>,
    pub lines: Seq<usize>,
    pub constants: Seq<ValueView>,
    pub strings: Seq<Seq<char>>,
    pub functions: Seq<FunctionInfoView>,
    /// The open loops, innermost last.
    pub loops: Seq<LoopView>,
    /// The open functions, innermost last.
    pub scopes: Seq<ScopeView>,
    /// The functions that are defined, by name.
    pub indices: Map<Seq<char>, usize>,
    /// Whether the end of the program was met.
    pub ended: bool,
}

/// Why a source does not compile.
pub enum Fault {
    /// The token at `index` cannot stand where it stands.
    Unexpected { index: int, expected: Seq<char> },
    /// The source ends where more is wanted.
    Ended { expected: Seq<char> },
    /// The program does not hold the end-of-program glyph.
    MissingEnd,
    /// More constants, elements or functions than sixteen bits count.
    TooManyConstants,
    /// More pooled strings than sixteen bits count, or more parameters or
    /// arguments than eight bits count.
    TooManyLocals,
    /// A jump over more code than sixteen bits tell.
    TooFar,
    /// A function of this name is defined already.
    DuplicateFunction(Seq<char>),
    /// A return outside of any function.
    ReturnOutside,
    /// More captures than an instruction can name.
    Capture(Seq<char>),
    /// A real literal whose value is not known.
    UnresolvedReal(Seq<char>),
}

pub type Outcome = Result<Draft, Fault>;

/// The outcome of a list: the draft behind it and the number of its items.
pub type Counted = Result<(Draft, int), Fault>;

// ---------------------------------------------------------------------------
// The cursor
// ---------------------------------------------------------------------------

/// The kind of the token under the cursor; behind the last token there is
/// only the end.
pub open spec fn kind(t: Seq<TokenView>, d: Draft) -> TokenKindView {
    if d.cursor < t.len() {
        t[d.cursor as int].kind
    } else {
        TokenKindView::Eof
    }
}

pub open spec fn at_end(t: Seq<TokenView>, d: Draft) -> bool {
    kind(t, d) is Eof
}

/// Whether the cursor lies on the symbol of a meaning.
pub open spec fn on(t: Seq<TokenView>, d: Draft, meaning: SymbolMeaning) -> bool {
    kind(t, d) == TokenKindView::Symbol(meaning)
}

/// The number of tokens from the cursor on: what the descent descends on.
pub open spec fn remaining(t: Seq<TokenView>, d: Draft) -> nat {
    if d.cursor < t.len() {
        (t.len() - d.cursor) as nat
    } else {
        0
    }
}

/// The draft with the cursor behind the token that it lay on; the cursor
/// does not move past the end.
pub open spec fn step(t: Seq<TokenView>, d: Draft) -> Draft {
    if at_end(t, d) {
        d
    } else {
        Draft { cursor: d.cursor + 1, ..d }
    }
}

/// The draft with the cursor behind the symbol of a meaning, where it lay
/// on that symbol.
pub open spec fn skip(t: Seq<TokenView>, d: Draft, meaning: SymbolMeaning) -> Draft {
    if on(t, d, meaning) {
        step(t, d)
    } else {
        d
    }
}

/// The position of the token behind the cursor.
pub open spec fn behind(d: Draft) -> int {
    if d.cursor > 0 {
        d.cursor - 1
    } else {
        0
    }
}

/// The fault for a token that is wanted and not there.
pub open spec fn missing(t: Seq<TokenView>, d: Draft, expected: Seq<char>) -> Fault {
    if at_end(t, d) {
        Fault::Ended { expected }
    } else {
        Fault::Unexpected { index: d.cursor as int, expected }
    }
}

/// The symbol of a meaning is taken, or missed.
pub open spec fn take(
    t: Seq<TokenView>,
    d: Draft,
    meaning: SymbolMeaning,
    expected: Seq<char>,
) -> Outcome {
    if on(t, d, meaning) {
        Ok(step(t, d))
    } else {
        Err(missing(t, d, expected))
    }
}

/// The equals sign is taken, or missed.
pub open spec fn take_equals(t: Seq<TokenView>, d: Draft) -> Outcome {
    if kind(t, d) is Equals {
        Ok(step(t, d))
    } else {
        Err(missing(t, d, "="@))
    }
}

/// The name of the identifier under the cursor.
pub open spec fn identifier(t: Seq<TokenView>, d: Draft) -> Option<Seq<char>> {
    match kind(t, d) {
        TokenKindView::Identifier(name) => Some(name),
        _ => None,
    }
}

/// The text of the string literal under the cursor.
pub open spec fn literal(t: Seq<TokenView>, d: Draft) -> Option<Seq<char>> {
    match kind(t, d) {
        TokenKindView::String(text) => Some(text),
        _ => None,
    }
}

/// The type that the type glyph at `index` declares.
pub open spec fn type_at(t: Seq<TokenView>, index: int) -> Option<ValueType> {
    match t[index].kind {
        TokenKindView::Symbol(SymbolMeaning::TypeInteger) => Some(ValueType::Integer),
        TokenKindView::Symbol(SymbolMeaning::TypeReal) => Some(ValueType::Real),
        TokenKindView::Symbol(SymbolMeaning::TypeString) => Some(ValueType::String),
        TokenKindView::Symbol(SymbolMeaning::TypeBoolean) => Some(ValueType::Boolean),
        TokenKindView::Symbol(SymbolMeaning::TypeRune) => Some(ValueType::Rune),
        TokenKindView::Symbol(SymbolMeaning::TypeArray) => Some(ValueType::Array),
        TokenKindView::Symbol(SymbolMeaning::TypeMap) => Some(ValueType::Mapping),
        _ => None,
    }
}

/// The fault for a token that should be a type glyph.
pub open spec fn no_type(index: int) -> Fault {
    Fault::Unexpected { index, expected: "type symbol"@ }
}

/// The outcome with its cursor no further back than `from`: what makes the
/// descent well founded. No construct moves the cursor back, so this
/// changes no outcome; the module `descent` proves that of each construct.
pub open spec fn onward(from: nat, o: Outcome) -> Outcome {
    match o {
        Ok(d) => if d.cursor < from {
            Ok(Draft { cursor: from, ..d })
        } else {
            o
        },
        Err(_) => o,
    }
}

/// The same for an outcome that carries something with the draft.
pub open spec fn onward_with<T>(from: nat, o: Result<(Draft, T), Fault>) -> Result<
    (Draft, T),
    Fault,
> {
    match o {
        Ok((d, x)) => if d.cursor < from {
            Ok((Draft { cursor: from, ..d }, x))
        } else {
            o
        },
        Err(_) => o,
    }
}

// ---------------------------------------------------------------------------
// Code and pools
// ---------------------------------------------------------------------------

/// Bytes are added to the code, each with the line of the token behind the
/// cursor.
pub open spec fn emit(t: Seq<TokenView>, d: Draft, bytes: Seq<u8>) -> Draft {
    Draft {
        code: d.code + bytes,
        lines: d.lines + Seq::new(bytes.len(), |i: int| t[behind(d)].location.line),
        ..d
    }
}

/// An instruction without operands.
pub open spec fn op(t: Seq<TokenView>, d: Draft, o: OpCode) -> Draft {
    emit(t, d, seq![o.byte()])
}

/// An instruction with a 16-bit operand, low byte first.
pub open spec fn op16(t: Seq<TokenView>, d: Draft, o: OpCode, operand: int) -> Draft {
    emit(t, d, seq![o.byte(), low_byte(operand), high_byte(operand)])
}

/// An instruction with a byte as its operand.
pub open spec fn op8(t: Seq<TokenView>, d: Draft, o: OpCode, byte: u8) -> Draft {
    emit(t, op(t, d, o), seq![byte])
}

/// An instruction with a 16-bit operand and a byte.
pub open spec fn op16_8(t: Seq<TokenView>, d: Draft, o: OpCode, operand: int, byte: u8) -> Draft {
    emit(t, op16(t, d, o, operand), seq![byte])
}

/// A jump whose operand is patched later. Its operand lies at
/// [`site`] of the draft before.
pub open spec fn jump(t: Seq<TokenView>, d: Draft, o: OpCode) -> Draft {
    emit(t, d, seq![o.byte(), 0xFFu8, 0xFFu8])
}

/// Where the operand of a jump lies that is emitted next.
pub open spec fn site(d: Draft) -> usize {
    (d.code.len() + 1) as usize
}

/// The jump whose operand lies at `at` is patched to land at the end of
/// the code.
pub open spec fn patched(d: Draft, at: usize) -> Outcome {
    let distance = d.code.len() - at - 2;
    if distance > 65535 {
        Err(Fault::TooFar)
    } else {
        Ok(
            Draft {
                code: d.code.update(at as int, low_byte(distance)).update(
                    at + 1,
                    high_byte(distance),
                ),
                ..d
            },
        )
    }
}

/// The jumps at `sites`, from the one at `from` on, are patched in turn.
pub open spec fn patched_all(d: Draft, sites: Seq<usize>, from: int) -> Outcome
    decreases sites.len() - from,
{
    if from < 0 || from >= sites.len() {
        Ok(d)
    } else {
        match patched(d, sites[from]) {
            Ok(next) => patched_all(next, sites, from + 1),
            Err(f) => Err(f),
        }
    }
}

/// `at` is the first position of `name` among `names`.
pub open spec fn first_at(names: Seq<Seq<char>>, name: Seq<char>, at: int) -> bool {
    &&& 0 <= at < names.len()
    &&& names[at] == name
    &&& forall|j: int| 0 <= j < at ==> #[trigger] names[j] != name
}

/// The first position of `name` among `names` that hold it.
pub open spec fn place(names: Seq<Seq<char>>, name: Seq<char>) -> int {
    choose|at: int| first_at(names, name, at)
}

/// The index that a text has in the string pool: that of its first
/// occurrence, or the next free one, of which there are 65536.
pub open spec fn pool_index(strings: Seq<Seq<char>>, text: Seq<char>) -> Option<int> {
    if strings.contains(text) {
        Some(place(strings, text))
    } else if strings.len() < 65536 {
        Some(strings.len() as int)
    } else {
        None
    }
}

/// The draft whose string pool holds a text, where the pool has room.
pub open spec fn pooled(d: Draft, text: Seq<char>) -> Draft {
    if d.strings.contains(text) || d.strings.len() >= 65536 {
        d
    } else {
        Draft { strings: d.strings.push(text), ..d }
    }
}

/// An instruction that names a pooled text.
pub open spec fn by_name(t: Seq<TokenView>, d: Draft, o: OpCode, name: Seq<char>) -> Outcome {
    match pool_index(d.strings, name) {
        Some(index) => Ok(op16(t, pooled(d, name), o, index)),
        None => Err(Fault::TooManyLocals),
    }
}

/// A constant goes to the pool, and the instruction that loads it to the
/// code.
pub open spec fn constant(t: Seq<TokenView>, d: Draft, value: ValueView) -> Outcome {
    if d.constants.len() >= 65536 {
        Err(Fault::TooManyConstants)
    } else {
        Ok(
            op16(
                t,
                Draft { constants: d.constants.push(value), ..d },
                OpCode::Const,
                d.constants.len() as int,
            ),
        )
    }
}

/// The value that the host supplied for a real literal: the first under
/// the literal's text, from `from` on.
pub open spec fn real_from(k: Seq<(String, Real)>, text: Seq<char>, from: int) -> Option<Real>
    decreases k.len() - from,
{
    if from < 0 || from >= k.len() {
        None
    } else if k[from].0@ == text {
        Some(k[from].1)
    } else {
        real_from(k, text, from + 1)
    }
}

// ---------------------------------------------------------------------------
// Names
// ---------------------------------------------------------------------------

/// The innermost open function declares the name, if it does not yet.
pub open spec fn with_local(d: Draft, name: Seq<char>) -> Draft {
    if d.scopes.len() == 0 || d.scopes.last().locals.contains(name) {
        d
    } else {
        let scope = d.scopes.last();
        Draft {
            scopes: d.scopes.drop_last().push(
                ScopeView { locals: scope.locals.push(name), ..scope },
            ),
            ..d
        }
    }
}

/// Whether an open function outside the innermost declares the name.
pub open spec fn declared_outside(scopes: Seq<ScopeView>, name: Seq<char>) -> bool {
    exists|depth: int|
        0 <= depth < scopes.len() - 1 && (#[trigger] scopes[depth]).locals.contains(name)
}

/// Whether a name is loaded from a capture of the innermost open function:
/// the function does not declare it, and has captured it already or finds
/// it declared by a function around it.
pub open spec fn is_captured(scopes: Seq<ScopeView>, name: Seq<char>) -> bool {
    scopes.len() > 0 && !scopes.last().locals.contains(name) && (scopes.last().captures.contains(
        name,
    ) || declared_outside(scopes, name))
}

/// The load of a variable. A local of the innermost open function, and a
/// name that no open function declares, is loaded by name. A name that the
/// innermost function has captured is loaded from its capture. A local of
/// a function around it becomes a new capture of the innermost function,
/// and of that function only, behind those that it has.
pub open spec fn load(t: Seq<TokenView>, d: Draft, name: Seq<char>) -> Outcome {
    if is_captured(d.scopes, name) {
        let scope = d.scopes.last();
        if scope.captures.contains(name) {
            if place(scope.captures, name) > 65535 {
                Err(Fault::Capture(name))
            } else {
                Ok(op16(t, d, OpCode::LoadCapture, place(scope.captures, name)))
            }
        } else if scope.captures.len() > 65535 {
            Err(Fault::Capture(name))
        } else {
            Ok(
                op16(
                    t,
                    Draft {
                        scopes: d.scopes.drop_last().push(
                            ScopeView {
                                captures: scope.captures.push(name),
                                is_closure: true,
                                ..scope
                            },
                        ),
                        ..d
                    },
                    OpCode::LoadCapture,
                    scope.captures.len() as int,
                ),
            )
        }
    } else {
        by_name(t, d, OpCode::LoadVar, name)
    }
}

/// The loads of the names from `from` on, in turn.
pub open spec fn loads(t: Seq<TokenView>, d: Draft, names: Seq<Seq<char>>, from: int) -> Outcome
    decreases names.len() - from,
{
    if from < 0 || from >= names.len() {
        Ok(d)
    } else {
        match load(t, d, names[from]) {
            Ok(next) => loads(t, next, names, from + 1),
            Err(f) => Err(f),
        }
    }
}

/// A name used as a value. The name of a function that captures nothing
/// is a function value. The name of one that captures is a closure: the
/// captured names are loaded where the closure is made, and the closure
/// holds their values. Any other name is a variable.
pub open spec fn name_value(t: Seq<TokenView>, d: Draft, name: Seq<char>) -> Outcome {
    if d.indices.contains_key(name) {
        let position = d.indices[name];
        let captures = d.functions[position as int].capture_names;
        if captures.len() == 0 {
            Ok(op16(t, d, OpCode::LoadFunc, position as int))
        } else if captures.len() > 255 {
            Err(Fault::Capture(name))
        } else {
            match loads(t, d, captures, 0) {
                Ok(loaded) => Ok(
                    op16_8(t, loaded, OpCode::MakeClosure, position as int, captures.len() as u8),
                ),
                Err(f) => Err(f),
            }
        }
    } else {
        load(t, d, name)
    }
}

// ---------------------------------------------------------------------------
// Statements without statements or expressions in them
// ---------------------------------------------------------------------------

/// Print literal, behind its glyph: a string, in brackets or without.
pub open spec fn print_literal(t: Seq<TokenView>, d: Draft) -> Outcome {
    let inner = skip(t, d, SymbolMeaning::LeftBracket);
    match literal(t, inner) {
        None => Err(missing(t, inner, "string literal"@)),
        Some(text) => {
            let read = step(t, inner);
            match pool_index(read.strings, text) {
                None => Err(Fault::TooManyLocals),
                Some(index) => {
                    let closed = if on(t, d, SymbolMeaning::LeftBracket) {
                        take(t, pooled(read, text), SymbolMeaning::RightBracket, "]"@)
                    } else {
                        Ok(pooled(read, text))
                    };
                    match closed {
                        Ok(end) => Ok(op16(t, end, OpCode::PrintLit, index)),
                        Err(f) => Err(f),
                    }
                },
            }
        },
    }
}

/// Input, behind its glyph: a type glyph and the name of a variable.
pub open spec fn input(t: Seq<TokenView>, d: Draft) -> Outcome {
    let typed = step(t, d);
    match type_at(t, behind(typed)) {
        None => Err(no_type(behind(typed))),
        Some(var_type) => match identifier(t, typed) {
            None => Err(missing(t, typed, "variable name"@)),
            Some(name) => match pool_index(typed.strings, name) {
                None => Err(Fault::TooManyLocals),
                Some(index) => Ok(
                    op16_8(
                        t,
                        pooled(step(t, typed), name),
                        OpCode::Input,
                        index,
                        var_type.tag(),
                    ),
                ),
            },
        },
    }
}

/// Break, behind its glyph: a jump out of the innermost open loop, which
/// is patched when the loop is closed. Outside of a loop it is a fault.
pub open spec fn break_statement(t: Seq<TokenView>, d: Draft) -> Outcome {
    if d.loops.len() == 0 {
        Err(
            Fault::Unexpected {
                index: d.cursor as int,
                expected: "⊗ (break) used outside of loop"@,
            },
        )
    } else {
        let innermost = d.loops.last();
        Ok(
            Draft {
                loops: d.loops.drop_last().push(
                    LoopView { breaks: innermost.breaks.push(site(d)), ..innermost },
                ),
                ..jump(t, d, OpCode::Jump)
            },
        )
    }
}

/// Continue, behind its glyph: a jump back to the condition of the
/// innermost open loop. Outside of a loop it is a fault.
pub open spec fn continue_statement(t: Seq<TokenView>, d: Draft) -> Outcome {
    if d.loops.len() == 0 {
        Err(
            Fault::Unexpected {
                index: d.cursor as int,
                expected: "↺ (continue) used outside of loop"@,
            },
        )
    } else {
        let distance = d.code.len() - d.loops.last().start;
        if distance > 65532 {
            Err(Fault::TooFar)
        } else {
            Ok(op16(t, d, OpCode::Loop, distance + 3))
        }
    }
}

/// Import, behind its glyph: the name of a module as a string.
pub open spec fn import_statement(t: Seq<TokenView>, d: Draft) -> Outcome {
    match literal(t, d) {
        None => Err(missing(t, d, "module name"@)),
        Some(name) => by_name(t, step(t, d), OpCode::Import, name),
    }
}

/// The value that a variable has which is declared without one.
pub open spec fn default_value(t: Seq<TokenView>, d: Draft, var_type: ValueType) -> Outcome {
    match var_type {
        ValueType::Integer => constant(t, d, ValueView::Integer(0)),
        ValueType::Real => constant(t, d, ValueView::Real(Real { bits: 0 })),
        ValueType::String => constant(t, d, ValueView::String(Seq::empty())),
        ValueType::Boolean => Ok(op(t, d, OpCode::False)),
        ValueType::Rune => constant(t, d, ValueView::Rune('\0')),
        _ => Ok(op(t, d, OpCode::Null)),
    }
}

/// The parameters of a function, in brackets: each a type glyph and a
/// name, with commas between them.
pub open spec fn parameters(t: Seq<TokenView>, d: Draft) -> Result<
    (Draft, Seq<(Seq<char>, ValueType)>),
    Fault,
> {
    if on(t, d, SymbolMeaning::RightBracket) {
        Ok((d, Seq::empty()))
    } else {
        parameters_from(t, d, Seq::empty())
    }
}

pub open spec fn parameters_from(
    t: Seq<TokenView>,
    d: Draft,
    before: Seq<(Seq<char>, ValueType)>,
) -> Result<(Draft, Seq<(Seq<char>, ValueType)>), Fault>
    decreases remaining(t, d),
{
    let typed = step(t, d);
    match type_at(t, behind(typed)) {
        None => Err(no_type(behind(typed))),
        Some(param_type) => match identifier(t, typed) {
            None => Err(missing(t, typed, "parameter name"@)),
            Some(name) => {
                let named = step(t, typed);
                let params = before.push((name, param_type));
                if on(t, named, SymbolMeaning::Separator) {
                    parameters_from(t, step(t, named), params)
                } else {
                    Ok((named, params))
                }
            },
        },
    }
}

/// The names of parameters, in order.
pub open spec fn names_of(params: Seq<(Seq<char>, ValueType)>) -> Seq<Seq<char>> {
    Seq::new(params.len(), |i: int| params[i].0)
}

// ---------------------------------------------------------------------------
// Expressions
// ---------------------------------------------------------------------------

/// A call, behind its glyph: the name and the arguments in brackets, with
/// commas between them. A function that is defined is called by its
/// index; any other name is loaded as a variable, above the arguments, and
/// applied.
pub open spec fn function_call(t: Seq<TokenView>, k: Seq<(String, Real)>, d: Draft) -> Outcome
    decreases remaining(t, d), 0int,
{
    match identifier(t, d) {
        None => Err(missing(t, d, "function name"@)),
        Some(name) => match take(t, step(t, d), SymbolMeaning::LeftBracket, "["@) {
            Err(f) => Err(f),
            Ok(open) => {
                let listed: Counted = if on(t, open, SymbolMeaning::RightBracket) {
                    Ok((open, 0))
                } else {
                    arguments(t, k, open, 0)
                };
                match listed {
                    Err(f) => Err(f),
                    Ok((last, count)) => match take(t, last, SymbolMeaning::RightBracket, "]"@) {
                        Err(f) => Err(f),
                        Ok(closed) => if closed.indices.contains_key(name) {
                            Ok(
                                op16_8(
                                    t,
                                    closed,
                                    OpCode::Call,
                                    closed.indices[name] as int,
                                    count as u8,
                                ),
                            )
                        } else {
                            match load(t, closed, name) {
                                Err(f) => Err(f),
                                Ok(loaded) => Ok(
                                    op8(t, loaded, OpCode::CallClosure, count as u8),
                                ),
                            }
                        },
                    },
                }
            },
        },
    }
}

/// The arguments of a call, of which `count` came before; there are at
/// most 255.
pub open spec fn arguments(
    t: Seq<TokenView>,
    k: Seq<(String, Real)>,
    d: Draft,
    count: int,
) -> Counted
    decreases remaining(t, d), 22int,
{
    match onward(d.cursor + 1, expression(t, k, d)) {
        Err(f) => Err(f),
        Ok(next) => if count >= 255 {
            Err(Fault::TooManyLocals)
        } else if on(t, next, SymbolMeaning::Separator) {
            arguments(t, k, step(t, next), count + 1)
        } else {
            Ok((next, count + 1))
        },
    }
}

/// A primary expression: a literal, a special value, the accumulator, a
/// call, an expression in parentheses, or a name, which a type glyph may
/// precede.
pub open spec fn primary(t: Seq<TokenView>, k: Seq<(String, Real)>, d: Draft) -> Outcome
    decreases remaining(t, d), 1int,
{
    let unexpected = Err(Fault::Unexpected { index: d.cursor as int, expected: "expression"@ });
    let read = step(t, d);
    match kind(t, d) {
        TokenKindView::Eof => Err(Fault::Ended { expected: "expression"@ }),
        TokenKindView::Integer(i) => constant(t, read, ValueView::Integer(i)),
        TokenKindView::Float(text) => match real_from(k, text, 0) {
            Some(value) => constant(t, read, ValueView::Real(value)),
            None => Err(Fault::UnresolvedReal(text)),
        },
        TokenKindView::String(text) => constant(t, read, ValueView::String(text)),
        TokenKindView::Boolean(b) => Ok(
            op(
                t,
                read,
                if b {
                    OpCode::True
                } else {
                    OpCode::False
                },
            ),
        ),
        TokenKindView::Identifier(name) => name_value(t, read, name),
        TokenKindView::Symbol(meaning) => match meaning {
            SymbolMeaning::Null => Ok(op(t, read, OpCode::Null)),
            SymbolMeaning::True => Ok(op(t, read, OpCode::True)),
            SymbolMeaning::False => Ok(op(t, read, OpCode::False)),
            SymbolMeaning::Accumulator => Ok(op(t, read, OpCode::LoadAcc)),
            SymbolMeaning::Call => function_call(t, k, read),
            SymbolMeaning::LeftParen => match expression(t, k, read) {
                Ok(inner) => take(t, inner, SymbolMeaning::RightParen, ")"@),
                Err(f) => Err(f),
            },
            SymbolMeaning::TypeInteger
            | SymbolMeaning::TypeReal
            | SymbolMeaning::TypeString
            | SymbolMeaning::TypeBoolean => match identifier(t, read) {
                Some(name) => by_name(t, step(t, read), OpCode::LoadVar, name),
                None => Err(missing(t, read, "variable name"@)),
            },
            _ => unexpected,
        },
        _ => unexpected,
    }
}

/// A unary expression: a negation, logical or arithmetic, of a unary
/// expression, or a primary expression.
pub open spec fn unary(t: Seq<TokenView>, k: Seq<(String, Real)>, d: Draft) -> Outcome
    decreases remaining(t, d), 2int,
{
    if on(t, d, SymbolMeaning::Not) {
        match unary(t, k, step(t, d)) {
            Ok(operand) => Ok(op(t, operand, OpCode::Not)),
            Err(f) => Err(f),
        }
    } else if on(t, d, SymbolMeaning::Subtract) {
        match unary(t, k, step(t, d)) {
            Ok(operand) => Ok(op(t, operand, OpCode::Neg)),
            Err(f) => Err(f),
        }
    } else {
        primary(t, k, d)
    }
}

/// The instruction of an operator of a level of precedence, counted from
/// the operators that bind most.
pub open spec fn operator(level: int, meaning: SymbolMeaning) -> Option<OpCode> {
    if level == 0 {
        match meaning {
            SymbolMeaning::Multiply => Some(OpCode::Mul),
            SymbolMeaning::Divide => Some(OpCode::Div),
            SymbolMeaning::Modulo => Some(OpCode::Mod),
            _ => None,
        }
    } else if level == 1 {
        match meaning {
            SymbolMeaning::Add => Some(OpCode::Add),
            SymbolMeaning::Subtract => Some(OpCode::Sub),
            _ => None,
        }
    } else if level == 2 {
        match meaning {
            SymbolMeaning::LessThan => Some(OpCode::Lt),
            SymbolMeaning::GreaterThan => Some(OpCode::Gt),
            SymbolMeaning::LessOrEqual => Some(OpCode::Le),
            SymbolMeaning::GreaterOrEqual => Some(OpCode::Ge),
            _ => None,
        }
    } else if level == 3 {
        match meaning {
            SymbolMeaning::Equal => Some(OpCode::Eq),
            SymbolMeaning::NotEqual => Some(OpCode::Ne),
            _ => None,
        }
    } else if level == 4 {
        match meaning {
            SymbolMeaning::And => Some(OpCode::And),
            _ => None,
        }
    } else if level == 5 {
        match meaning {
            SymbolMeaning::Or => Some(OpCode::Or),
            _ => None,
        }
    } else {
        None
    }
}

/// The instruction of the operator of a level under the cursor.
pub open spec fn operator_here(t: Seq<TokenView>, d: Draft, level: int) -> Option<OpCode> {
    match kind(t, d) {
        TokenKindView::Symbol(meaning) => operator(level, meaning),
        _ => None,
    }
}

/// An expression of a level of precedence: operands of the level below,
/// or unary expressions at the lowest, with the operators of the level
/// between them. The operators associate to the left: each is applied
/// when its right operand is compiled.
pub open spec fn binary(
    t: Seq<TokenView>,
    k: Seq<(String, Real)>,
    d: Draft,
    level: nat,
) -> Outcome
    decreases remaining(t, d), 5 + 3 * level,
{
    match onward(d.cursor, operand(t, k, d, level)) {
        Ok(left) => rest(t, k, left, level),
        Err(f) => Err(f),
    }
}

/// An operand of a level of precedence.
pub open spec fn operand(
    t: Seq<TokenView>,
    k: Seq<(String, Real)>,
    d: Draft,
    level: nat,
) -> Outcome
    decreases remaining(t, d), 4 + 3 * level,
{
    if level == 0 {
        unary(t, k, d)
    } else {
        binary(t, k, d, (level - 1) as nat)
    }
}

/// What follows the first operand of an expression of a level: operators
/// of the level, each with its right operand.
pub open spec fn rest(t: Seq<TokenView>, k: Seq<(String, Real)>, d: Draft, level: nat) -> Outcome
    decreases remaining(t, d), 3 + 3 * level,
{
    match operator_here(t, d, level as int) {
        None => Ok(d),
        Some(o) => match onward(d.cursor + 1, operand(t, k, step(t, d), level)) {
            Ok(right) => rest(t, k, op(t, right, o), level),
            Err(f) => Err(f),
        },
    }
}

/// An expression: the code that leaves its value on the stack.
pub open spec fn expression(t: Seq<TokenView>, k: Seq<(String, Real)>, d: Draft) -> Outcome
    decreases remaining(t, d), 21int,
{
    binary(t, k, d, 5)
}

// ---------------------------------------------------------------------------
// Statements
// ---------------------------------------------------------------------------

/// Whether the cursor lies on one of the symbols that end a block.
pub open spec fn at_stop(
    t: Seq<TokenView>,
    d: Draft,
    first: SymbolMeaning,
    second: Option<SymbolMeaning>,
    third: Option<SymbolMeaning>,
) -> bool {
    on(t, d, first) || (second matches Some(meaning) && on(t, d, meaning)) || (third matches Some(
        meaning,
    ) && on(t, d, meaning))
}

/// The statements up to one of the symbols that end the block, or to the
/// end of the source.
pub open spec fn block(
    t: Seq<TokenView>,
    k: Seq<(String, Real)>,
    d: Draft,
    first: SymbolMeaning,
    second: Option<SymbolMeaning>,
    third: Option<SymbolMeaning>,
) -> Outcome
    decreases remaining(t, d), 31int,
{
    if at_stop(t, d, first, second, third) || at_end(t, d) {
        Ok(d)
    } else {
        match onward(d.cursor + 1, statement(t, k, d)) {
            Ok(next) => block(t, k, next, first, second, third),
            Err(f) => Err(f),
        }
    }
}

/// An expression in brackets.
pub open spec fn in_brackets(t: Seq<TokenView>, k: Seq<(String, Real)>, d: Draft) -> Outcome
    decreases remaining(t, d), 22int,
{
    match take(t, d, SymbolMeaning::LeftBracket, "["@) {
        Err(f) => Err(f),
        Ok(open) => match expression(t, k, open) {
            Err(f) => Err(f),
            Ok(inner) => take(t, inner, SymbolMeaning::RightBracket, "]"@),
        },
    }
}

/// A glyph with an expression in brackets, behind the glyph, and the
/// instruction that takes the expression's value, if one does.
pub open spec fn bracketed(
    t: Seq<TokenView>,
    k: Seq<(String, Real)>,
    d: Draft,
    o: Option<OpCode>,
) -> Outcome
    decreases remaining(t, d), 23int,
{
    match in_brackets(t, k, d) {
        Err(f) => Err(f),
        Ok(closed) => match o {
            Some(o) => Ok(op(t, closed, o)),
            None => Ok(closed),
        },
    }
}

/// The declaration of a variable, behind its type glyph: an optional null
/// glyph, which makes the variable optional; the name; and an optional
/// initializer. Without an initializer an optional variable is null, and
/// any other has the default of its type.
pub open spec fn variable_declaration(
    t: Seq<TokenView>,
    k: Seq<(String, Real)>,
    d: Draft,
) -> Outcome
    decreases remaining(t, d), 23int,
{
    match type_at(t, behind(d)) {
        None => Err(no_type(behind(d))),
        Some(var_type) => {
            let marked = skip(t, d, SymbolMeaning::Null);
            match identifier(t, marked) {
                None => Err(missing(t, marked, "variable name"@)),
                Some(name) => match pool_index(marked.strings, name) {
                    None => Err(Fault::TooManyLocals),
                    Some(index) => {
                        let named = with_local(pooled(step(t, marked), name), name);
                        let value = if kind(t, named) is Equals {
                            expression(t, k, step(t, named))
                        } else if on(t, d, SymbolMeaning::Null) {
                            Ok(op(t, named, OpCode::Null))
                        } else {
                            default_value(t, named, var_type)
                        };
                        match value {
                            Err(f) => Err(f),
                            Ok(valued) => Ok(
                                op16_8(t, valued, OpCode::DeclareVar, index, var_type.tag()),
                            ),
                        }
                    },
                },
            }
        },
    }
}

/// The target of an assignment, behind the arrow: the accumulator, or a
/// name, which a type glyph may precede.
pub open spec fn target(t: Seq<TokenView>, d: Draft) -> Outcome {
    if on(t, d, SymbolMeaning::Accumulator) {
        Ok(op(t, step(t, d), OpCode::StoreAcc))
    } else {
        let typed = if on(t, d, SymbolMeaning::TypeInteger) || on(t, d, SymbolMeaning::TypeReal)
            || on(t, d, SymbolMeaning::TypeString) || on(t, d, SymbolMeaning::TypeBoolean) {
            step(t, d)
        } else {
            d
        };
        match identifier(t, typed) {
            None => Err(missing(t, typed, "variable name"@)),
            Some(name) => by_name(t, step(t, typed), OpCode::StoreVar, name),
        }
    }
}

/// An assignment, behind its glyph: an expression in brackets, the arrow,
/// and the target.
pub open spec fn assignment(t: Seq<TokenView>, k: Seq<(String, Real)>, d: Draft) -> Outcome
    decreases remaining(t, d), 23int,
{
    match in_brackets(t, k, d) {
        Err(f) => Err(f),
        Ok(closed) => match take(t, closed, SymbolMeaning::Arrow, "→"@) {
            Err(f) => Err(f),
            Ok(pointed) => target(t, pointed),
        },
    }
}

/// A simple assignment: a name, the equals sign and an expression.
pub open spec fn simple_assignment(
    t: Seq<TokenView>,
    k: Seq<(String, Real)>,
    d: Draft,
) -> Outcome
    decreases remaining(t, d), 23int,
{
    match identifier(t, d) {
        None => Err(missing(t, d, "variable name"@)),
        Some(name) => match pool_index(d.strings, name) {
            None => Err(Fault::TooManyLocals),
            Some(index) => match take_equals(t, pooled(step(t, d), name)) {
                Err(f) => Err(f),
                Ok(assigned) => match expression(t, k, assigned) {
                    Err(f) => Err(f),
                    Ok(valued) => Ok(op16(t, valued, OpCode::StoreVar, index)),
                },
            },
        },
    }
}

/// A statement of the accumulator, behind its glyph: with an equals sign
/// and an expression it stores the expression's value; with the decrement
/// glyph it counts down; with the increment glyph, or alone, it counts up.
pub open spec fn accumulator_statement(
    t: Seq<TokenView>,
    k: Seq<(String, Real)>,
    d: Draft,
) -> Outcome
    decreases remaining(t, d), 23int,
{
    if kind(t, d) is Equals {
        match expression(t, k, step(t, d)) {
            Err(f) => Err(f),
            Ok(valued) => Ok(op(t, valued, OpCode::StoreAcc)),
        }
    } else if on(t, d, SymbolMeaning::Decrement) {
        Ok(op(t, step(t, d), OpCode::DecAcc))
    } else {
        Ok(op(t, skip(t, d, SymbolMeaning::Increment), OpCode::IncAcc))
    }
}

/// A return, behind its glyph: with an expression in brackets, or without
/// one, which returns null. Outside of a function it is a fault.
pub open spec fn return_statement(
    t: Seq<TokenView>,
    k: Seq<(String, Real)>,
    d: Draft,
) -> Outcome
    decreases remaining(t, d), 24int,
{
    if d.scopes.len() == 0 {
        Err(Fault::ReturnOutside)
    } else if on(t, d, SymbolMeaning::LeftBracket) {
        match expression(t, k, step(t, d)) {
            Err(f) => Err(f),
            Ok(valued) => match take(t, valued, SymbolMeaning::RightBracket, "]"@) {
                Err(f) => Err(f),
                Ok(closed) => Ok(op(t, closed, OpCode::Return)),
            },
        }
    } else {
        Ok(op(t, op(t, d, OpCode::Null), OpCode::Return))
    }
}

/// The elements of an array, of which `count` came before, with or
/// without commas between them; there are at most 65535. A list that the
/// source ends in wants its next element.
pub open spec fn elements(
    t: Seq<TokenView>,
    k: Seq<(String, Real)>,
    d: Draft,
    count: int,
) -> Counted
    decreases remaining(t, d), 22int,
{
    match onward(d.cursor + 1, expression(t, k, d)) {
        Err(f) => Err(f),
        Ok(next) => if count >= 65535 {
            Err(Fault::TooManyConstants)
        } else if on(t, next, SymbolMeaning::RightBracket) {
            Ok((next, count + 1))
        } else if at_end(t, skip(t, next, SymbolMeaning::Separator)) {
            Err(Fault::Ended { expected: "expression"@ })
        } else {
            elements(t, k, skip(t, next, SymbolMeaning::Separator), count + 1)
        },
    }
}

/// The declaration of an array, behind its glyph: the name, the equals
/// sign, and the elements in brackets.
pub open spec fn array_declaration(
    t: Seq<TokenView>,
    k: Seq<(String, Real)>,
    d: Draft,
) -> Outcome
    decreases remaining(t, d), 23int,
{
    match identifier(t, d) {
        None => Err(missing(t, d, "array name"@)),
        Some(name) => match pool_index(d.strings, name) {
            None => Err(Fault::TooManyLocals),
            Some(index) => match take_equals(t, pooled(step(t, d), name)) {
                Err(f) => Err(f),
                Ok(assigned) => match take(t, assigned, SymbolMeaning::LeftBracket, "["@) {
                    Err(f) => Err(f),
                    Ok(open) => {
                        let listed: Counted = if on(t, open, SymbolMeaning::RightBracket) {
                            Ok((open, 0))
                        } else {
                            elements(t, k, open, 0)
                        };
                        match listed {
                            Err(f) => Err(f),
                            Ok((last, count)) => match take(
                                t,
                                last,
                                SymbolMeaning::RightBracket,
                                "]"@,
                            ) {
                                Err(f) => Err(f),
                                Ok(closed) => Ok(
                                    op16_8(
                                        t,
                                        op16(t, closed, OpCode::MakeArray, count),
                                        OpCode::DeclareVar,
                                        index,
                                        ValueType::Array.tag(),
                                    ),
                                ),
                            },
                        }
                    },
                },
            },
        },
    }
}

/// The draft behind the separator of two pairs of a map, if there is one:
/// the map separator, or a comma.
pub open spec fn past_separator(t: Seq<TokenView>, d: Draft) -> Draft {
    if on(t, d, SymbolMeaning::MapSeparator) {
        step(t, d)
    } else {
        skip(t, d, SymbolMeaning::Separator)
    }
}

/// The pairs of a map, of which `count` came before: each a key, the map
/// arrow and a value; there are at most 65535. A list that the source ends
/// in wants its next key.
pub open spec fn pairs(t: Seq<TokenView>, k: Seq<(String, Real)>, d: Draft, count: int) -> Counted
    decreases remaining(t, d), 22int,
{
    match onward(d.cursor + 1, expression(t, k, d)) {
        Err(f) => Err(f),
        Ok(key) => match take(t, key, SymbolMeaning::MapArrow, "⇒"@) {
            Err(f) => Err(f),
            Ok(pointed) => match onward(pointed.cursor, expression(t, k, pointed)) {
                Err(f) => Err(f),
                Ok(next) => if count >= 65535 {
                    Err(Fault::TooManyConstants)
                } else if on(t, next, SymbolMeaning::RightBrace) {
                    Ok((next, count + 1))
                } else if at_end(t, past_separator(t, next)) {
                    Err(Fault::Ended { expected: "expression"@ })
                } else {
                    pairs(t, k, past_separator(t, next), count + 1)
                },
            },
        },
    }
}

/// The declaration of a map, behind its glyph: the name, the equals sign,
/// and the pairs in braces.
pub open spec fn map_declaration(t: Seq<TokenView>, k: Seq<(String, Real)>, d: Draft) -> Outcome
    decreases remaining(t, d), 23int,
{
    match identifier(t, d) {
        None => Err(missing(t, d, "map name"@)),
        Some(name) => match pool_index(d.strings, name) {
            None => Err(Fault::TooManyLocals),
            Some(index) => match take_equals(t, pooled(step(t, d), name)) {
                Err(f) => Err(f),
                Ok(assigned) => match take(t, assigned, SymbolMeaning::LeftBrace, "{"@) {
                    Err(f) => Err(f),
                    Ok(open) => {
                        let listed: Counted = if on(t, open, SymbolMeaning::RightBrace) {
                            Ok((open, 0))
                        } else {
                            pairs(t, k, open, 0)
                        };
                        match listed {
                            Err(f) => Err(f),
                            Ok((last, count)) => match take(
                                t,
                                last,
                                SymbolMeaning::RightBrace,
                                "}"@,
                            ) {
                                Err(f) => Err(f),
                                Ok(closed) => Ok(
                                    op16_8(
                                        t,
                                        op16(t, closed, OpCode::MakeMap, count),
                                        OpCode::DeclareVar,
                                        index,
                                        ValueType::Mapping.tag(),
                                    ),
                                ),
                            },
                        }
                    },
                },
            },
        },
    }
}

/// A loop, behind its glyph: the condition in brackets, the body, and the
/// loop end. The condition is tested before each pass, and a false one
/// jumps behind the loop, where the jumps of the breaks in the body land
/// too; the end of the body jumps back to the condition.
pub open spec fn loop_statement(t: Seq<TokenView>, k: Seq<(String, Real)>, d: Draft) -> Outcome
    decreases remaining(t, d), 32int,
{
    match onward(d.cursor, in_brackets(t, k, d)) {
        Err(f) => Err(f),
        Ok(tested) => {
            let entered = Draft {
                loops: tested.loops.push(
                    LoopView { start: d.code.len() as usize, breaks: Seq::empty() },
                ),
                ..jump(t, tested, OpCode::JumpIfFalse)
            };
            match block(t, k, entered, SymbolMeaning::LoopEnd, None, None) {
                Err(f) => Err(f),
                Ok(body) => match take(t, body, SymbolMeaning::LoopEnd, "⊃"@) {
                    Err(f) => Err(f),
                    Ok(closed) => {
                        let left = op(
                            t,
                            Draft { loops: closed.loops.drop_last(), ..closed },
                            OpCode::Loop,
                        );
                        let distance = left.code.len() - d.code.len();
                        if distance > 65533 {
                            Err(Fault::TooFar)
                        } else {
                            match patched(
                                emit(
                                    t,
                                    left,
                                    seq![low_byte(distance + 2), high_byte(distance + 2)],
                                ),
                                site(tested),
                            ) {
                                Err(f) => Err(f),
                                Ok(out) => patched_all(out, closed.loops.last().breaks, 0),
                            }
                        }
                    },
                },
            }
        },
    }
}

/// A conditional, behind its glyph: the condition, closed by a bracket;
/// the branch that runs where it holds; an optional else branch; and the
/// end glyph.
pub open spec fn if_statement(t: Seq<TokenView>, k: Seq<(String, Real)>, d: Draft) -> Outcome
    decreases remaining(t, d), 32int,
{
    match onward(d.cursor, expression(t, k, d)) {
        Err(f) => Err(f),
        Ok(tested) => match take(t, tested, SymbolMeaning::RightBracket, "]"@) {
            Err(f) => Err(f),
            Ok(closed) => match onward(
                closed.cursor,
                block(
                    t,
                    k,
                    jump(t, closed, OpCode::JumpIfFalse),
                    SymbolMeaning::Else,
                    Some(SymbolMeaning::IfEnd),
                    None,
                ),
            ) {
                Err(f) => Err(f),
                Ok(then) => {
                    let joined = if on(t, then, SymbolMeaning::Else) {
                        let other = step(t, then);
                        match patched(jump(t, other, OpCode::Jump), site(closed)) {
                            Err(f) => Err(f),
                            Ok(landed) => match block(
                                t,
                                k,
                                landed,
                                SymbolMeaning::IfEnd,
                                None,
                                None,
                            ) {
                                Err(f) => Err(f),
                                Ok(otherwise) => patched(otherwise, site(other)),
                            },
                        }
                    } else {
                        patched(then, site(closed))
                    };
                    match joined {
                        Err(f) => Err(f),
                        Ok(end) => take(t, end, SymbolMeaning::IfEnd, "⟫"@),
                    }
                },
            },
        },
    }
}

/// The definition of a function, behind its glyph: the name, the
/// parameters in brackets, the body, and the end glyph. The body stands in
/// place, behind a jump that skips it, and ends with a return of null.
/// The function goes to the function table with the names that its body
/// captured.
pub open spec fn function_definition(
    t: Seq<TokenView>,
    k: Seq<(String, Real)>,
    d: Draft,
) -> Outcome
    decreases remaining(t, d), 32int,
{
    match identifier(t, d) {
        None => Err(missing(t, d, "function name"@)),
        Some(name) => if d.indices.contains_key(name) {
            Err(Fault::DuplicateFunction(name))
        } else {
            match take(t, step(t, d), SymbolMeaning::LeftBracket, "["@) {
                Err(f) => Err(f),
                Ok(open) => match onward_with(open.cursor, parameters(t, open)) {
                    Err(f) => Err(f),
                    Ok((listed, params)) => match take(
                        t,
                        listed,
                        SymbolMeaning::RightBracket,
                        "]"@,
                    ) {
                        Err(f) => Err(f),
                        Ok(closed) => if params.len() > 255 {
                            Err(Fault::TooManyLocals)
                        } else {
                            let skipped = jump(t, closed, OpCode::Jump);
                            let start = skipped.code.len() as usize;
                            let entered = Draft {
                                scopes: skipped.scopes.push(
                                    ScopeView {
                                        name,
                                        arity: params.len() as u8,
                                        params,
                                        start,
                                        captures: Seq::empty(),
                                        locals: names_of(params),
                                        is_closure: false,
                                    },
                                ),
                                ..skipped
                            };
                            match block(t, k, entered, SymbolMeaning::FunctionEnd, None, None) {
                                Err(f) => Err(f),
                                Ok(body) => match take(
                                    t,
                                    Draft { scopes: body.scopes.drop_last(), ..body },
                                    SymbolMeaning::FunctionEnd,
                                    "Λ"@,
                                ) {
                                    Err(f) => Err(f),
                                    Ok(ended) => {
                                        let returned = op(
                                            t,
                                            op(t, ended, OpCode::Null),
                                            OpCode::Return,
                                        );
                                        match patched(returned, site(closed)) {
                                            Err(f) => Err(f),
                                            Ok(whole) => if whole.functions.len() >= 65536 {
                                                Err(Fault::TooManyConstants)
                                            } else {
                                                Ok(
                                                    Draft {
                                                        functions: whole.functions.push(
                                                            FunctionInfoView {
                                                                name,
                                                                arity: params.len() as u8,
                                                                params,
                                                                start,
                                                                length: (returned.code.len()
                                                                    - start) as usize,
                                                                capture_names:
                                                                    body.scopes.last().captures,
                                                            },
                                                        ),
                                                        indices: whole.indices.insert(
                                                            name,
                                                            whole.functions.len() as usize,
                                                        ),
                                                        ..whole
                                                    },
                                                )
                                            },
                                        }
                                    },
                                },
                            }
                        },
                    },
                },
            }
        },
    }
}

/// The arms of a match, with the jumps that leave the arms before them.
/// Each arm holds a pattern, or the wildcard, closed by a bracket, and a
/// body. The value that is matched is copied and compared with the
/// pattern, and the body runs where they are equal; the wildcard runs its
/// body at once. Behind its body each arm jumps behind the match.
pub open spec fn arms(
    t: Seq<TokenView>,
    k: Seq<(String, Real)>,
    d: Draft,
    ends: Seq<usize>,
) -> Result<(Draft, Seq<usize>), Fault>
    decreases remaining(t, d), 25int,
{
    if !on(t, d, SymbolMeaning::MatchArm) {
        Ok((d, ends))
    } else {
        let copied = op(t, step(t, d), OpCode::Dup);
        if on(t, copied, SymbolMeaning::Wildcard) {
            match take(
                t,
                op(t, step(t, copied), OpCode::Pop),
                SymbolMeaning::RightBracket,
                "]"@,
            ) {
                Err(f) => Err(f),
                Ok(closed) => match onward(
                    closed.cursor,
                    block(
                        t,
                        k,
                        closed,
                        SymbolMeaning::MatchArm,
                        Some(SymbolMeaning::MatchEnd),
                        None,
                    ),
                ) {
                    Err(f) => Err(f),
                    Ok(body) => arms(t, k, jump(t, body, OpCode::Jump), ends.push(site(body))),
                },
            }
        } else {
            match onward(copied.cursor, expression(t, k, copied)) {
                Err(f) => Err(f),
                Ok(pattern) => {
                    let compared = op(t, pattern, OpCode::Eq);
                    match take(
                        t,
                        jump(t, compared, OpCode::JumpIfFalse),
                        SymbolMeaning::RightBracket,
                        "]"@,
                    ) {
                        Err(f) => Err(f),
                        Ok(closed) => match onward(
                            closed.cursor,
                            block(
                                t,
                                k,
                                closed,
                                SymbolMeaning::MatchArm,
                                Some(SymbolMeaning::MatchEnd),
                                None,
                            ),
                        ) {
                            Err(f) => Err(f),
                            Ok(body) => match patched(
                                jump(t, body, OpCode::Jump),
                                site(compared),
                            ) {
                                Err(f) => Err(f),
                                Ok(landed) => arms(t, k, landed, ends.push(site(body))),
                            },
                        },
                    }
                },
            }
        }
    }
}

/// A match, behind its glyph: the value that is matched, closed by a
/// bracket; the arms; and the end glyph, where the value is dropped. The
/// arms are tried in their order, and the first that matches runs.
pub open spec fn match_statement(t: Seq<TokenView>, k: Seq<(String, Real)>, d: Draft) -> Outcome
    decreases remaining(t, d), 32int,
{
    match onward(d.cursor, expression(t, k, d)) {
        Err(f) => Err(f),
        Ok(valued) => match take(t, valued, SymbolMeaning::RightBracket, "]"@) {
            Err(f) => Err(f),
            Ok(closed) => match arms(t, k, closed, Seq::empty()) {
                Err(f) => Err(f),
                Ok((last, ends)) => match take(t, last, SymbolMeaning::MatchEnd, "⟣"@) {
                    Err(f) => Err(f),
                    Ok(ended) => patched_all(op(t, ended, OpCode::Pop), ends, 0),
                },
            },
        },
    }
}

/// The catch block of a try, if it has one: the glyph; an optional name
/// in brackets, to which the exception is bound; and the block.
pub open spec fn catch_part(t: Seq<TokenView>, k: Seq<(String, Real)>, d: Draft) -> Outcome
    decreases remaining(t, d), 25int,
{
    if !on(t, d, SymbolMeaning::CatchBlock) {
        Ok(d)
    } else {
        let caught = step(t, d);
        let bound = if on(t, caught, SymbolMeaning::LeftBracket) {
            let open = step(t, caught);
            match identifier(t, open) {
                None => Err(missing(t, open, "exception variable"@)),
                Some(name) => match by_name(t, step(t, open), OpCode::Catch, name) {
                    Err(f) => Err(f),
                    Ok(named) => take(t, named, SymbolMeaning::RightBracket, "]"@),
                },
            }
        } else {
            Ok(caught)
        };
        match bound {
            Err(f) => Err(f),
            Ok(inner) => block(
                t,
                k,
                inner,
                SymbolMeaning::FinallyBlock,
                Some(SymbolMeaning::MatchEnd),
                None,
            ),
        }
    }
}

/// The finally block of a try, if it has one: the glyph, its marker in the
/// code, and the block.
pub open spec fn finally_part(t: Seq<TokenView>, k: Seq<(String, Real)>, d: Draft) -> Outcome
    decreases remaining(t, d), 25int,
{
    if !on(t, d, SymbolMeaning::FinallyBlock) {
        Ok(d)
    } else {
        block(t, k, op(t, step(t, d), OpCode::Finally), SymbolMeaning::MatchEnd, None, None)
    }
}

/// A try, behind its glyph: the protected body; an optional catch block;
/// an optional finally block; and the end glyph. A handler is installed
/// before the body and removed behind it, where a jump skips what
/// follows; the handler continues behind that jump.
pub open spec fn try_statement(t: Seq<TokenView>, k: Seq<(String, Real)>, d: Draft) -> Outcome
    decreases remaining(t, d), 32int,
{
    match onward(
        d.cursor,
        block(
            t,
            k,
            jump(t, d, OpCode::TryBegin),
            SymbolMeaning::CatchBlock,
            Some(SymbolMeaning::FinallyBlock),
            Some(SymbolMeaning::MatchEnd),
        ),
    ) {
        Err(f) => Err(f),
        Ok(body) => {
            let guarded = op(t, body, OpCode::TryEnd);
            match patched(jump(t, guarded, OpCode::Jump), site(d)) {
                Err(f) => Err(f),
                Ok(handled) => match onward(handled.cursor, catch_part(t, k, handled)) {
                    Err(f) => Err(f),
                    Ok(caught) => match finally_part(t, k, caught) {
                        Err(f) => Err(f),
                        Ok(last) => match take(t, last, SymbolMeaning::MatchEnd, "⟣"@) {
                            Err(f) => Err(f),
                            Ok(ended) => patched(ended, site(guarded)),
                        },
                    },
                },
            }
        },
    }
}

/// The statement that a symbol begins, behind the symbol, which lies at
/// `index`.
pub open spec fn begun(
    t: Seq<TokenView>,
    k: Seq<(String, Real)>,
    d: Draft,
    meaning: SymbolMeaning,
    index: int,
) -> Outcome
    decreases remaining(t, d), 33int,
{
    match meaning {
        SymbolMeaning::TypeInteger
        | SymbolMeaning::TypeReal
        | SymbolMeaning::TypeString
        | SymbolMeaning::TypeBoolean
        | SymbolMeaning::TypeRune => variable_declaration(t, k, d),
        SymbolMeaning::Assign => assignment(t, k, d),
        SymbolMeaning::Output => bracketed(t, k, d, Some(OpCode::Print)),
        SymbolMeaning::Print => print_literal(t, d),
        SymbolMeaning::Input => input(t, d),
        SymbolMeaning::LoopStart => loop_statement(t, k, d),
        SymbolMeaning::IfStart => if_statement(t, k, d),
        SymbolMeaning::Break => break_statement(t, d),
        SymbolMeaning::Continue => continue_statement(t, d),
        SymbolMeaning::Accumulator => accumulator_statement(t, k, d),
        SymbolMeaning::EndProgram => Ok(Draft { ended: true, ..op(t, d, OpCode::Halt) }),
        SymbolMeaning::FunctionStart => function_definition(t, k, d),
        SymbolMeaning::Return => return_statement(t, k, d),
        SymbolMeaning::TypeArray => array_declaration(t, k, d),
        SymbolMeaning::TypeMap => map_declaration(t, k, d),
        SymbolMeaning::MatchStart => match_statement(t, k, d),
        SymbolMeaning::TryStart => try_statement(t, k, d),
        SymbolMeaning::Throw => bracketed(t, k, d, Some(OpCode::Throw)),
        SymbolMeaning::Import => import_statement(t, d),
        SymbolMeaning::Push => bracketed(t, k, d, None),
        SymbolMeaning::Pop => Ok(op(t, d, OpCode::Pop)),
        _ => Err(Fault::Unexpected { index, expected: "statement"@ }),
    }
}

/// One statement, which the token under the cursor selects: a symbol
/// begins the statement of its meaning, and a name followed by an equals
/// sign a simple assignment. At the end of the source there is nothing to
/// compile.
pub open spec fn statement(t: Seq<TokenView>, k: Seq<(String, Real)>, d: Draft) -> Outcome
    decreases remaining(t, d), 30int,
{
    match kind(t, d) {
        TokenKindView::Eof => Ok(d),
        TokenKindView::Identifier(_) => if kind(t, step(t, d)) is Equals {
            simple_assignment(t, k, d)
        } else {
            Err(Fault::Unexpected { index: d.cursor as int, expected: "Unexpected identifier"@ })
        },
        TokenKindView::Symbol(meaning) => begun(t, k, step(t, d), meaning, d.cursor as int),
        _ => Err(Fault::Unexpected { index: d.cursor as int, expected: "statement"@ }),
    }
}

/// The statements of a program, to the end of the source.
pub open spec fn statements(t: Seq<TokenView>, k: Seq<(String, Real)>, d: Draft) -> Outcome
    decreases remaining(t, d), 34int,
{
    if at_end(t, d) {
        Ok(d)
    } else {
        match onward(d.cursor + 1, statement(t, k, d)) {
            Ok(next) => statements(t, k, next),
            Err(f) => Err(f),
        }
    }
}

/// The draft that a compilation starts from.
pub open spec fn blank() -> Draft {
    Draft {
        cursor: 0,
        code: Seq::empty(),
        lines: Seq::empty(),
        constants: Seq::empty(),
        strings: Seq::empty(),
        functions: Seq::empty(),
        loops: Seq::empty(),
        scopes: Seq::empty(),
        indices: Map::empty(),
        ended: false,
    }
}

/// The chunk that a program compiles to: the code of its statements,
/// named `main`. A program without the end-of-program glyph does not
/// compile.
pub open spec fn program(t: Seq<TokenView>, k: Seq<(String, Real)>) -> Result<ChunkView, Fault> {
    match statements(t, k, blank()) {
        Err(f) => Err(f),
        Ok(d) => if d.ended {
            Ok(
                ChunkView {
                    code: d.code,
                    constants: d.constants,
                    strings: d.strings,
                    lines: d.lines,
                    name: "main"@,
                    functions: d.functions,
                },
            )
        } else {
            Err(Fault::MissingEnd)
        },
    }
}

// ---------------------------------------------------------------------------
// What holds of every program
// ---------------------------------------------------------------------------

/// Break and continue are scoped: one that no open loop surrounds does not
/// compile.
pub proof fn lemma_break_needs_loop(t: Seq<TokenView>, k: Seq<(String, Real)>, d: Draft)
    requires
        on(t, d, SymbolMeaning::Break) || on(t, d, SymbolMeaning::Continue),
        d.loops.len() == 0,
    ensures
        statement(t, k, d) is Err,
{
    if on(t, d, SymbolMeaning::Break) {
        assert(statement(t, k, d) == begun(
            t,
            k,
            step(t, d),
            SymbolMeaning::Break,
            d.cursor as int,
        ));
    } else {
        assert(statement(t, k, d) == begun(
            t,
            k,
            step(t, d),
            SymbolMeaning::Continue,
            d.cursor as int,
        ));
    }
}

/// A return that no open function surrounds does not compile.
pub proof fn lemma_return_needs_function(t: Seq<TokenView>, k: Seq<(String, Real)>, d: Draft)
    requires
        on(t, d, SymbolMeaning::Return),
        d.scopes.len() == 0,
    ensures
        statement(t, k, d) == Err::<Draft, Fault>(Fault::ReturnOutside),
{
    assert(statement(t, k, d) == begun(t, k, step(t, d), SymbolMeaning::Return, d.cursor as int));
    assert(begun(t, k, step(t, d), SymbolMeaning::Return, d.cursor as int) == return_statement(
        t,
        k,
        step(t, d),
    ));
}

} // verus!
