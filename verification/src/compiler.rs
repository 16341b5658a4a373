use vstd::prelude::*;
use vstd::string::StringExecFns;
use crate::bytecode::opcode::{
    clone_params, function_views_of, high_byte, low_byte, params_of, texts_of, Chunk,
    FunctionInfo, OpCode, ValueType,
};
use crate::bytecode::value::{group_value_views, lemma_views_of_push, views_of, Value};
use crate::grammar::{
    accumulator_statement, arguments, arms, array_declaration, assignment, at_end, at_stop,
    begun, behind, binary, blank, block, bracketed, break_statement, catch_part, constant,
    continue_statement, declared_outside, elements, emit, expression, finally_part, first_at,
    function_call, function_definition, identifier, if_statement, import_statement, in_brackets,
    input, jump, kind, literal, load, loads, loop_statement, map_declaration, match_statement,
    missing, name_value, names_of, no_type, on, op, operand, pairs, parameters, parameters_from,
    patched, patched_all, place, pool_index, pooled, primary, print_literal, program, real_from,
    remaining, rest, return_statement, simple_assignment, site, skip, statement, statements,
    step, take, take_equals, target, try_statement, type_at, unary, variable_declaration,
    with_local, Draft, Fault, LoopView, Outcome, ScopeView,
};
use crate::index::{name_index_entries, no_entries, NameIndex};
use crate::lexer::symbols::{
    lex, token_views_of, Lexer, LexerError, LexerErrorView, Token, TokenKind, TokenKindView,
    TokenView,
};
use crate::number::Real;
use crate::source_map::{line_starts_of, line_text, SourceMap};
use crate::symbols::meaning::{SymbolMeaning, SymbolTable};
use crate::text::{concat, str_eq};

verus! {

broadcast use {vstd::std_specs::vec::group_vec_axioms, group_value_views};

/// Compilation errors with source context.
#[derive(Debug)]
#[allow(inconsistent_fields)]
pub enum CompileError {
    /// The source does not lex.
    LexerError(LexerError),
    /// A token that the grammar does not allow where it stands.
    UnexpectedToken { lexeme: String, line: usize, column: usize, expected: String, context: String },
    /// The source ends where the grammar wants more.
    UnexpectedEof { expected: String },
    InvalidExpression { line: usize, context: String },
    /// The program does not end with the end-of-program glyph.
    MissingEndProgram,
    /// The constant pool, or a literal's element count, exceeds 16 bits.
    TooManyConstants,
    /// The string pool, or a parameter or argument count, exceeds its width.
    TooManyLocals,
    /// A jump spans more code than 16 bits can tell.
    LoopTooDeep,
    DuplicateFunction { name: String },
    UndefinedFunction { name: String },
    ReturnOutsideFunction,
    WrongArity { name: String, expected: u8, got: u8 },
    UndefinedVariable { name: String },
    CaptureError { name: String },
    /// A real literal whose value the host has not supplied.
    UnresolvedReal { text: String },
}

pub type CompileResult<T> = Result<T, CompileError>;

/// Loop information for break/continue handling.
struct LoopInfo {
    /// Where the loop's condition starts.
    start: usize,
    /// The operands of the jumps that leave the loop, to be patched.
    break_jumps: Vec<usize>,
}

impl View for LoopInfo {
    type V = LoopView;

    closed spec fn view(&self) -> LoopView {
        LoopView { start: self.start, breaks: self.break_jumps@ }
    }
}

/// The state of one function that is being compiled: what it declares and
/// what it captures.
pub struct FunctionScope {
    /// Function name.
    pub name: String,
    /// Number of parameters.
    pub arity: u8,
    /// Parameter names and types.
    pub params: Vec<(String, ValueType)>,
    /// Bytecode offset where function body starts.
    pub start_offset: usize,
    /// Variables captured from outer functions, in the order of first use.
    pub captures: Vec<String>,
    /// Local variables declared in this function; the parameters come first.
    pub locals: Vec<String>,
    /// Whether this function has captures.
    pub is_closure: bool,
}

impl View for FunctionScope {
    type V = ScopeView;

    open spec fn view(&self) -> ScopeView {
        ScopeView {
            name: self.name@,
            arity: self.arity,
            params: params_of(self.params@),
            start: self.start_offset,
            captures: texts_of(self.captures@),
            locals: texts_of(self.locals@),
            is_closure: self.is_closure,
        }
    }
}

/// Whether the text `name` occurs among `names`.
pub open spec fn has_name(names: Seq<String>, name: Seq<char>) -> bool {
    exists|i: int| 0 <= i < names.len() && (#[trigger] names[i])@ == name
}

/// `at` is the first position of the text `name` among `names`.
pub open spec fn first_name(names: Seq<String>, name: Seq<char>, at: int) -> bool {
    &&& 0 <= at < names.len()
    &&& names[at]@ == name
    &&& forall|j: int| 0 <= j < at ==> (#[trigger] names[j])@ != name
}

/// Names occur among strings as their texts occur among the texts.
pub proof fn lemma_names(names: Seq<String>, name: Seq<char>)
    ensures
        has_name(names, name) == texts_of(names).contains(name),
        forall|at: int| first_name(names, name, at) == first_at(texts_of(names), name, at),
{
    let texts = texts_of(names);
    if has_name(names, name) {
        let i = choose|i: int| 0 <= i < names.len() && (#[trigger] names[i])@ == name;
        assert(texts[i] == name);
    }
    if texts.contains(name) {
        let i = choose|i: int| 0 <= i < texts.len() && texts[i] == name;
        assert(names[i]@ == name);
    }
    assert forall|at: int| first_name(names, name, at) == first_at(texts, name, at) by {
        if first_name(names, name, at) {
            assert forall|j: int| 0 <= j < at implies #[trigger] texts[j] != name by {
                assert(names[j]@ != name);
            }
        }
        if first_at(texts, name, at) {
            assert forall|j: int| 0 <= j < at implies (#[trigger] names[j])@ != name by {
                assert(texts[j] != name);
            }
        }
    }
}

/// A name has one first position.
pub proof fn lemma_place(names: Seq<Seq<char>>, name: Seq<char>, at: int)
    requires
        first_at(names, name, at),
    ensures
        place(names, name) == at,
        names.contains(name),
{
    let chosen = place(names, name);
    assert(first_at(names, name, chosen));
    if chosen < at {
        assert(names[chosen] != name);
    } else if at < chosen {
        assert(names[at] != name);
    }
}

/// The position of a name among names, if it occurs.
pub fn find_name(names: &Vec<String>, name: &str) -> (r: Option<usize>)
    ensures
        match r {
            Some(at) => first_name(names@, name@, at as int),
            None => !has_name(names@, name@),
        },
{
    let mut i: usize = 0;
    while i < names.len()
        invariant
            i <= names.len(),
            forall|j: int| 0 <= j < i ==> (#[trigger] names@[j])@ != name@,
        decreases names.len() - i,
    {
        if str_eq(names[i].as_str(), name) {
            return Some(i);
        }
        i += 1;
    }
    None
}

impl FunctionScope {
    /// A scope whose locals are the parameters, and which captures nothing
    /// yet.
    pub fn new(name: String, arity: u8, params: Vec<(String, ValueType)>, start_offset: usize) -> (r:
        Self)
        ensures
            r.name == name,
            r.arity == arity,
            r.params == params,
            r.start_offset == start_offset,
            r.captures@.len() == 0,
            !r.is_closure,
            r.locals@.len() == params@.len(),
            forall|i: int| 0 <= i < params@.len() ==> (#[trigger] r.locals@[i])@ == params@[i].0@,
            r@ == (ScopeView {
                name: name@,
                arity,
                params: params_of(params@),
                start: start_offset,
                captures: Seq::empty(),
                locals: names_of(params_of(params@)),
                is_closure: false,
            }),
    {
        let mut locals: Vec<String> = Vec::new();
        let mut i: usize = 0;
        while i < params.len()
            invariant
                i <= params.len(),
                locals@.len() == i,
                forall|j: int| 0 <= j < i ==> (#[trigger] locals@[j])@ == params@[j].0@,
            decreases params.len() - i,
        {
            locals.push(params[i].0.clone());
            i += 1;
        }
        let r = Self {
            name,
            arity,
            params,
            start_offset,
            captures: Vec::new(),
            locals,
            is_closure: false,
        };
        proof {
            assert(r@.captures =~= Seq::empty());
            assert(r@.locals =~= names_of(params_of(params@)));
        }
        r
    }

    /// Check if a variable is local to this function.
    pub fn is_local(&self, name: &str) -> (b: bool)
        ensures
            b == has_name(self.locals@, name@),
            b == self@.locals.contains(name@),
    {
        proof {
            lemma_names(self.locals@, name@);
        }
        find_name(&self.locals, name).is_some()
    }

    /// Add a local variable; one that is declared already is not added
    /// again.
    pub fn add_local(&mut self, name: String)
        ensures
            has_name(old(self).locals@, name@) ==> *final(self) == *old(self),
            !has_name(old(self).locals@, name@) ==> final(self).locals@ == old(self).locals@.push(
                name,
            ),
            final(self).captures == old(self).captures,
            final(self).is_closure == old(self).is_closure,
            final(self).params == old(self).params,
            final(self).name == old(self).name,
            final(self).arity == old(self).arity,
            final(self).start_offset == old(self).start_offset,
            has_name(final(self).locals@, name@),
            final(self)@ == (if old(self)@.locals.contains(name@) {
                old(self)@
            } else {
                ScopeView { locals: old(self)@.locals.push(name@), ..old(self)@ }
            }),
    {
        proof {
            lemma_names(self.locals@, name@);
        }
        if find_name(&self.locals, name.as_str()).is_none() {
            self.locals.push(name);
            proof {
                assert(self.locals@[self.locals@.len() - 1]@ == name@);
                assert(self@.locals =~= old(self)@.locals.push(name@));
            }
        }
    }

    /// Add a captured variable and return its index. A name that is captured
    /// already keeps its index; a new one goes to the end.
    pub fn add_capture(&mut self, name: String) -> (index: usize)
        ensures
            final(self).locals == old(self).locals,
            final(self).params == old(self).params,
            final(self).name == old(self).name,
            final(self).arity == old(self).arity,
            final(self).start_offset == old(self).start_offset,
            !has_name(old(self).captures@, name@) ==> final(self).captures@ == old(self).captures@.push(name) && index == old(self).captures@.len() && final(self).is_closure,
            has_name(old(self).captures@, name@) ==> *final(self) == *old(self) && first_name(
                old(self).captures@,
                name@,
                index as int,
            ),
            index < final(self).captures@.len(),
            final(self).captures@[index as int]@ == name@,
            final(self)@ == (if old(self)@.captures.contains(name@) {
                old(self)@
            } else {
                ScopeView {
                    captures: old(self)@.captures.push(name@),
                    is_closure: true,
                    ..old(self)@
                }
            }),
    {
        proof {
            lemma_names(self.captures@, name@);
        }
        match find_name(&self.captures, name.as_str()) {
            Some(index) => index,
            None => {
                let index = self.captures.len();
                self.captures.push(name);
                self.is_closure = true;
                proof {
                    assert(self@.captures =~= old(self)@.captures.push(name@));
                }
                index
            },
        }
    }

    /// Get capture index if variable is captured.
    pub fn get_capture_index(&self, name: &str) -> (r: Option<usize>)
        ensures
            match r {
                Some(at) => first_name(self.captures@, name@, at as int) && at == place(
                    self@.captures,
                    name@,
                ) && self@.captures.contains(name@),
                None => !has_name(self.captures@, name@) && !self@.captures.contains(name@),
            },
    {
        proof {
            lemma_names(self.captures@, name@);
        }
        let r = find_name(&self.captures, name);
        proof {
            if let Some(at) = r {
                lemma_place(self@.captures, name@, at as int);
            }
        }
        r
    }
}

/// The views of the open loops, in order.
spec fn loop_views_of(loops: Seq<LoopInfo>) -> Seq<LoopView> {
    Seq::new(loops.len(), |i: int| loops[i]@)
}

/// The views of the open functions, in order.
pub open spec fn scope_views_of(scopes: Seq<FunctionScope>) -> Seq<ScopeView> {
    Seq::new(scopes.len(), |i: int| scopes[i]@)
}

/// The operand sites of a loop lie in the code.
spec fn loop_ok(info: LoopInfo, code_len: nat) -> bool {
    &&& info.start <= code_len
    &&& forall|j: int| 0 <= j < info.break_jumps@.len() ==> (#[trigger] info.break_jumps@[j]) + 2
        <= code_len
}

/// The text that accompanies an error: the source line behind a bar, or
/// nothing where the source has no such line.
pub open spec fn context_in(source: Seq<char>, line: usize) -> Seq<char> {
    if 1 <= line <= line_starts_of(source, source.len() as int).len() {
        "   │ "@ + line_text(source, line - 1)
    } else {
        Seq::empty()
    }
}

/// `e` reports `token` as unexpected where `expected` was wanted.
pub open spec fn is_unexpected(
    e: CompileError,
    token: TokenView,
    expected: Seq<char>,
    source: Seq<char>,
) -> bool {
    e matches CompileError::UnexpectedToken { lexeme, line, column, expected: wanted, context }
        && lexeme@ == token.lexeme && line == token.location.line && column
        == token.location.column && wanted@ == expected && context@ == context_in(
        source,
        token.location.line,
    )
}

/// `e` is the error that reports a fault of the compilation of `source`,
/// whose tokens are `t`.
pub open spec fn reports(e: CompileError, f: Fault, t: Seq<TokenView>, source: Seq<char>) -> bool {
    match f {
        Fault::Unexpected { index, expected } => is_unexpected(e, t[index], expected, source),
        Fault::Ended { expected } => e matches CompileError::UnexpectedEof { expected: wanted }
            && wanted@ == expected,
        Fault::MissingEnd => e matches CompileError::MissingEndProgram,
        Fault::TooManyConstants => e matches CompileError::TooManyConstants,
        Fault::TooManyLocals => e matches CompileError::TooManyLocals,
        Fault::TooFar => e matches CompileError::LoopTooDeep,
        Fault::DuplicateFunction(name) => e matches CompileError::DuplicateFunction { name: n }
            && n@ == name,
        Fault::ReturnOutside => e matches CompileError::ReturnOutsideFunction,
        Fault::Capture(name) => e matches CompileError::CaptureError { name: n } && n@ == name,
        Fault::UnresolvedReal(text) => e matches CompileError::UnresolvedReal { text: x } && x@
            == text,
    }
}

/// Bytes that are emitted one after the other are emitted together.
pub proof fn lemma_emit_twice(t: Seq<TokenView>, d: Draft, a: Seq<u8>, b: Seq<u8>)
    ensures
        emit(t, emit(t, d, a), b) == emit(t, d, a + b),
{
    let once = emit(t, d, a + b);
    let twice = emit(t, emit(t, d, a), b);
    assert(twice.code =~= once.code);
    assert(twice.lines =~= once.lines);
}

/// The compiler: one pass over the tokens, emitting bytecode into a chunk.
pub struct Compiler<'a> {
    symbol_table: &'a SymbolTable,
    tokens: Vec<Token>,
    current: usize,
    chunk: Chunk,
    loops: Vec<LoopInfo>,
    had_end_program: bool,
    /// The functions being compiled, innermost last.
    function_stack: Vec<FunctionScope>,
    /// Function name to index mapping.
    function_indices: NameIndex,
    /// Source map for error reporting.
    source_map: Option<SourceMap>,
    /// The values of real literals, as the host supplied them.
    reals: Vec<(String, Real)>,
}

impl<'a> Compiler<'a> {
    /// The compiler can be handed a source: its symbol table is well formed.
    pub closed spec fn ready(&self) -> bool {
        self.symbol_table.well_formed()
    }

    /// The symbols that the compiler's lexer recognises, by glyph.
    pub closed spec fn table(&self) -> Map<Seq<char>, crate::symbols::meaning::Symbol> {
        self.symbol_table@
    }

    /// The number of code points that the lexer looks ahead for a symbol.
    pub closed spec fn lookahead(&self) -> nat {
        self.symbol_table.longest()
    }

    /// The real literals whose values the compiler knows, with the values.
    pub closed spec fn known_reals(&self) -> Seq<(String, Real)> {
        self.reals@
    }

    /// The tokens of the source that is being compiled.
    spec fn toks(&self) -> Seq<TokenView> {
        token_views_of(self.tokens@)
    }

    /// The text of the source that is being compiled.
    spec fn text(&self) -> Seq<char> {
        match self.source_map {
            Some(map) => map.text(),
            None => Seq::empty(),
        }
    }

    /// What the compiler has made of the tokens before the cursor.
    spec fn draft(&self) -> Draft {
        Draft {
            cursor: self.current as nat,
            code: self.chunk.code@,
            lines: self.chunk.lines@,
            constants: views_of(self.chunk.constants@),
            strings: texts_of(self.chunk.strings@),
            functions: function_views_of(self.chunk.functions@),
            loops: loop_views_of(self.loops@),
            scopes: scope_views_of(self.function_stack@),
            indices: name_index_entries(self.function_indices.map),
            ended: self.had_end_program,
        }
    }

    /// The invariant of a compilation in progress.
    spec fn inv(&self) -> bool {
        &&& self.symbol_table.well_formed()
        &&& self.tokens@.len() > 0
        &&& self.tokens@.last()@.kind is Eof
        &&& self.current < self.tokens@.len()
        &&& self.chunk.well_formed()
        &&& self.chunk.constants@.len() <= 65536
        &&& self.chunk.strings@.len() <= 65536
        &&& self.chunk.functions@.len() <= 65536
        &&& (self.source_map matches Some(m) && m.well_formed())
        &&& forall|i: int|
            0 <= i < self.loops@.len() ==> loop_ok(#[trigger] self.loops@[i], self.chunk.code@.len())
        &&& forall|name: Seq<char>|
            (#[trigger] name_index_entries(self.function_indices.map).contains_key(name))
                ==> name_index_entries(self.function_indices.map)[name] < self.chunk.functions@.len()
        &&& self.had_end_program ==> exists|i: int|
            0 <= i < self.current && (#[trigger] self.tokens@[i])@.kind == TokenKindView::Symbol(
                SymbolMeaning::EndProgram,
            )
    }

    /// What a step of the compilation keeps: the invariant, the tokens and
    /// the tables; the cursor and the code only grow; the loops and the
    /// functions in progress stay as many.
    spec fn follows(&self, before: &Self) -> bool {
        &&& self.inv()
        &&& self.tokens == before.tokens
        &&& self.symbol_table == before.symbol_table
        &&& self.source_map == before.source_map
        &&& self.reals == before.reals
        &&& self.current >= before.current
        &&& self.chunk.code@.len() >= before.chunk.code@.len()
        &&& self.chunk.name == before.chunk.name
        &&& self.loops@.len() == before.loops@.len()
        &&& self.function_stack@.len() == before.function_stack@.len()
        &&& forall|i: int|
            0 <= i < self.loops@.len() - 1 ==> (#[trigger] self.loops@[i]) == before.loops@[i]
        &&& self.loops@.len() > 0 ==> self.loops@.last().start == before.loops@.last().start
    }

    /// A step of the compilation comes to what the grammar says: the draft
    /// behind it, or the error that reports the fault.
    spec fn yields(&self, before: &Self, r: CompileResult<()>, o: Outcome) -> bool {
        &&& self.follows(before)
        &&& match o {
            Ok(d) => r is Ok && self.draft() == d,
            Err(f) => r matches Err(e) && reports(e, f, before.toks(), before.text()),
        }
    }

    /// A step that changes nothing but what its draft tells.
    spec fn drafted(&self, before: &Self, d: Draft) -> bool {
        &&& self.follows(before)
        &&& self.draft() == d
    }

    /// A step that only emits code: nothing else changes.
    spec fn emitted(&self, before: &Self, bytes: Seq<u8>) -> bool {
        &&& self.follows(before)
        &&& self.draft() == emit(before.toks(), before.draft(), bytes)
        &&& self.current == before.current
        &&& self.chunk.code@ == before.chunk.code@ + bytes
        &&& self.chunk.constants == before.chunk.constants
        &&& self.chunk.strings == before.chunk.strings
        &&& self.chunk.functions == before.chunk.functions
        &&& self.loops == before.loops
        &&& self.function_stack == before.function_stack
        &&& self.function_indices == before.function_indices
        &&& self.had_end_program == before.had_end_program
    }

    /// A step that only moves the cursor.
    spec fn moved(&self, before: &Self, to: int) -> bool {
        &&& self.follows(before)
        &&& self.draft() == (Draft { cursor: to as nat, ..before.draft() })
        &&& self.current == to
        &&& self.chunk == before.chunk
        &&& self.loops == before.loops
        &&& self.function_stack == before.function_stack
        &&& self.function_indices == before.function_indices
        &&& self.had_end_program == before.had_end_program
    }

    spec fn at_end(&self) -> bool {
        self.tokens@[self.current as int]@.kind is Eof
    }

    /// Create a new compiler.
    pub fn new(symbol_table: &'a SymbolTable) -> (r: Self)
        requires
            symbol_table.well_formed(),
        ensures
            r.ready(),
            r.table() == symbol_table@,
            r.lookahead() == symbol_table.longest(),
            r.known_reals().len() == 0,
    {
        Self {
            symbol_table,
            tokens: Vec::new(),
            current: 0,
            chunk: Chunk::new("main"),
            loops: Vec::new(),
            had_end_program: false,
            function_stack: Vec::new(),
            function_indices: NameIndex::new(),
            source_map: None,
            reals: Vec::new(),
        }
    }

    /// Tells the compiler the value of a real literal. The library does not
    /// convert decimal text to reals: the host supplies the value of each
    /// literal that a source holds before the source is compiled.
    pub fn define_real(&mut self, text: &str, value: Real)
        requires
            old(self).ready(),
        ensures
            final(self).ready(),
            final(self).table() == old(self).table(),
            final(self).lookahead() == old(self).lookahead(),
            final(self).known_reals().len() == old(self).known_reals().len() + 1,
            final(self).known_reals().drop_last() == old(self).known_reals(),
            final(self).known_reals().last().0@ == text@,
            final(self).known_reals().last().1 == value,
    {
        self.reals.push((String::from_str(text), value));
        proof {
            assert(self.reals@.drop_last() =~= old(self).reals@);
        }
    }

    // -----------------------------------------------------------------------
    // Token helpers
    // -----------------------------------------------------------------------
    fn is_at_end(&self) -> (b: bool)
        requires
            self.inv(),
        ensures
            b == self.at_end(),
            b == at_end(self.toks(), self.draft()),
    {
        self.tokens[self.current].is_eof()
    }

    /// Moves past the current token, unless it is the last, and returns the
    /// position of the token that then lies behind the cursor.
    fn advance(&mut self) -> (index: usize)
        requires
            old(self).inv(),
        ensures
            !old(self).at_end() ==> final(self).moved(old(self), old(self).current + 1) && index
                == old(self).current,
            old(self).at_end() ==> final(self).moved(old(self), old(self).current as int) && index
                == (if old(self).current > 0 {
                (old(self).current - 1) as usize
            } else {
                0
            }),
            index < final(self).tokens@.len(),
            final(self).draft() == step(old(self).toks(), old(self).draft()),
            index == behind(final(self).draft()),
    {
        let count = self.tokens.len();
        if !self.is_at_end() && self.current < count {
            self.current = self.current + 1;
            self.current - 1
        } else if self.current > 0 {
            self.current - 1
        } else {
            0
        }
    }

    fn check_symbol(&self, meaning: SymbolMeaning) -> (b: bool)
        requires
            self.inv(),
        ensures
            b == (self.tokens@[self.current as int]@.kind == TokenKindView::Symbol(meaning)),
            b == on(self.toks(), self.draft(), meaning),
            b ==> !self.at_end(),
    {
        self.tokens[self.current].is_symbol(meaning)
    }

    fn check_equals(&self) -> (b: bool)
        requires
            self.inv(),
        ensures
            b == (self.tokens@[self.current as int]@.kind is Equals),
            b == (kind(self.toks(), self.draft()) is Equals),
            b ==> !self.at_end(),
    {
        match &self.tokens[self.current].kind {
            TokenKind::Equals => true,
            _ => false,
        }
    }

    fn check_next_equals(&self) -> (b: bool)
        requires
            self.inv(),
        ensures
            b == (self.current + 1 < self.tokens@.len() && self.tokens@[self.current
                + 1]@.kind is Equals),
            !self.at_end() ==> b == (kind(self.toks(), step(self.toks(), self.draft())) is Equals),
    {
        let count = self.tokens.len();
        if self.current >= count - 1 {
            return false;
        }
        match &self.tokens[self.current + 1].kind {
            TokenKind::Equals => true,
            _ => false,
        }
    }

    fn match_equals(&mut self) -> (b: bool)
        requires
            old(self).inv(),
        ensures
            b == (old(self).tokens@[old(self).current as int]@.kind is Equals),
            b == (kind(old(self).toks(), old(self).draft()) is Equals),
            b ==> final(self).moved(old(self), old(self).current + 1) && final(self).draft()
                == step(old(self).toks(), old(self).draft()),
            !b ==> final(self).moved(old(self), old(self).current as int) && final(self).draft()
                == old(self).draft(),
    {
        if self.check_equals() {
            let _ = self.advance();
            true
        } else {
            false
        }
    }

    fn match_symbol(&mut self, meaning: SymbolMeaning) -> (b: bool)
        requires
            old(self).inv(),
        ensures
            b == (old(self).tokens@[old(self).current as int]@.kind == TokenKindView::Symbol(
                meaning,
            )),
            b == on(old(self).toks(), old(self).draft(), meaning),
            b ==> final(self).moved(old(self), old(self).current + 1),
            !b ==> final(self).moved(old(self), old(self).current as int),
            final(self).draft() == skip(old(self).toks(), old(self).draft(), meaning),
    {
        if self.check_symbol(meaning) {
            let _ = self.advance();
            true
        } else {
            false
        }
    }

    /// Get source context for error messages.
    fn get_source_context(&self, line: usize) -> (r: String)
        requires
            self.inv(),
        ensures
            r@ == context_in(self.text(), line),
    {
        match &self.source_map {
            Some(map) => {
                proof {
                    map.lemma_byte_starts();
                }
                match map.get_line(line) {
                    Some(text) => {
                        let r = concat("   │ ", text);
                        r
                    },
                    None => String::new(),
                }
            },
            None => String::new(),
        }
    }

    /// The error that reports the token at `index` as unexpected.
    fn unexpected(&self, index: usize, expected: &str) -> (e: CompileError)
        requires
            self.inv(),
            index < self.tokens@.len(),
        ensures
            is_unexpected(e, self.tokens@[index as int]@, expected@, self.text()),
            reports(
                e,
                Fault::Unexpected { index: index as int, expected: expected@ },
                self.toks(),
                self.text(),
            ),
    {
        let token = &self.tokens[index];
        let context = self.get_source_context(token.location.line);
        CompileError::UnexpectedToken {
            lexeme: token.lexeme.clone(),
            line: token.location.line,
            column: token.location.column,
            expected: String::from_str(expected),
            context,
        }
    }

    /// The error for a token that is wanted and not there: the end of the
    /// source, or the token that stands in its place.
    fn missing(&self, expected: &str) -> (e: CompileError)
        requires
            self.inv(),
        ensures
            reports(e, missing(self.toks(), self.draft(), expected@), self.toks(), self.text()),
    {
        if self.is_at_end() {
            CompileError::UnexpectedEof { expected: String::from_str(expected) }
        } else {
            self.unexpected(self.current, expected)
        }
    }

    fn consume_equals(&mut self) -> (r: CompileResult<()>)
        requires
            old(self).inv(),
        ensures
            final(self).yields(old(self), r, take_equals(old(self).toks(), old(self).draft())),
            r is Ok ==> final(self).moved(old(self), old(self).current + 1),
    {
        if self.check_equals() {
            let _ = self.advance();
            Ok(())
        } else {
            Err(self.missing("="))
        }
    }

    fn consume_symbol(&mut self, meaning: SymbolMeaning, expected: &str) -> (r: CompileResult<()>)
        requires
            old(self).inv(),
        ensures
            final(self).yields(
                old(self),
                r,
                take(old(self).toks(), old(self).draft(), meaning, expected@),
            ),
            r is Ok ==> final(self).moved(old(self), old(self).current + 1),
    {
        if self.check_symbol(meaning) {
            let _ = self.advance();
            Ok(())
        } else {
            Err(self.missing(expected))
        }
    }

    /// Takes an identifier and returns its name.
    fn consume_identifier(&mut self, expected: &str) -> (r: CompileResult<String>)
        requires
            old(self).inv(),
        ensures
            final(self).follows(old(self)),
            match identifier(old(self).toks(), old(self).draft()) {
                Some(name) => (r matches Ok(s) && s@ == name) && final(self).moved(
                    old(self),
                    old(self).current + 1,
                ) && final(self).draft() == step(old(self).toks(), old(self).draft()),
                None => r matches Err(e) && reports(
                    e,
                    missing(old(self).toks(), old(self).draft(), expected@),
                    old(self).toks(),
                    old(self).text(),
                ),
            },
    {
        let name = match &self.tokens[self.current].kind {
            TokenKind::Identifier(s) => Some(s.clone()),
            _ => None,
        };
        match name {
            Some(s) => {
                let _ = self.advance();
                Ok(s)
            },
            None => Err(self.missing(expected)),
        }
    }

    /// Takes a string literal and returns its contents.
    fn consume_string(&mut self, expected: &str) -> (r: CompileResult<String>)
        requires
            old(self).inv(),
        ensures
            final(self).follows(old(self)),
            match literal(old(self).toks(), old(self).draft()) {
                Some(text) => (r matches Ok(s) && s@ == text) && final(self).moved(
                    old(self),
                    old(self).current + 1,
                ) && final(self).draft() == step(old(self).toks(), old(self).draft()),
                None => r matches Err(e) && reports(
                    e,
                    missing(old(self).toks(), old(self).draft(), expected@),
                    old(self).toks(),
                    old(self).text(),
                ),
            },
    {
        let text = match &self.tokens[self.current].kind {
            TokenKind::String(s) => Some(s.clone()),
            _ => None,
        };
        match text {
            Some(s) => {
                let _ = self.advance();
                Ok(s)
            },
            None => Err(self.missing(expected)),
        }
    }

    /// The type that a type glyph declares.
    fn token_to_value_type(&self, index: usize) -> (r: CompileResult<ValueType>)
        requires
            self.inv(),
            index < self.tokens@.len(),
        ensures
            match type_at(self.toks(), index as int) {
                Some(declared) => r == Ok::<ValueType, CompileError>(declared),
                None => r matches Err(e) && reports(
                    e,
                    no_type(index as int),
                    self.toks(),
                    self.text(),
                ),
            },
    {
        match &self.tokens[index].kind {
            TokenKind::Symbol(SymbolMeaning::TypeInteger) => Ok(ValueType::Integer),
            TokenKind::Symbol(SymbolMeaning::TypeReal) => Ok(ValueType::Real),
            TokenKind::Symbol(SymbolMeaning::TypeString) => Ok(ValueType::String),
            TokenKind::Symbol(SymbolMeaning::TypeBoolean) => Ok(ValueType::Boolean),
            TokenKind::Symbol(SymbolMeaning::TypeRune) => Ok(ValueType::Rune),
            TokenKind::Symbol(SymbolMeaning::TypeArray) => Ok(ValueType::Array),
            TokenKind::Symbol(SymbolMeaning::TypeMap) => Ok(ValueType::Mapping),
            _ => Err(self.unexpected(index, "type symbol")),
        }
    }

    // -----------------------------------------------------------------------
    // Emit helpers
    // -----------------------------------------------------------------------
    /// The line of the token behind the cursor.
    fn previous_line(&self) -> (line: usize)
        requires
            self.inv(),
        ensures
            line == self.toks()[behind(self.draft())].location.line,
    {
        let index = if self.current > 0 {
            self.current - 1
        } else {
            0
        };
        self.tokens[index].location.line
    }

    fn emit_byte(&mut self, byte: u8)
        requires
            old(self).inv(),
        ensures
            final(self).emitted(old(self), seq![byte]),
    {
        let line = self.previous_line();
        self.chunk.write(byte, line);
        proof {
            assert(self.chunk.code@ =~= old(self).chunk.code@ + seq![byte]);
            assert forall|i: int| 0 <= i < self.loops@.len() implies loop_ok(
                #[trigger] self.loops@[i],
                self.chunk.code@.len(),
            ) by {
                assert(loop_ok(old(self).loops@[i], old(self).chunk.code@.len()));
            }
            let d = emit(old(self).toks(), old(self).draft(), seq![byte]);
            assert(self.draft().lines =~= d.lines);
        }
    }

    fn emit_op(&mut self, op: OpCode)
        requires
            old(self).inv(),
        ensures
            final(self).emitted(old(self), seq![op.byte()]),
    {
        self.emit_byte(op.to_byte());
    }

    fn emit_u16(&mut self, value: u16)
        requires
            old(self).inv(),
        ensures
            final(self).emitted(
                old(self),
                seq![low_byte(value as int), high_byte(value as int)],
            ),
    {
        self.emit_byte((value % 256) as u8);
        self.emit_byte((value / 256) as u8);
        proof {
            let a = seq![low_byte(value as int)];
            let b = seq![high_byte(value as int)];
            lemma_emit_twice(old(self).toks(), old(self).draft(), a, b);
            assert(a + b =~= seq![low_byte(value as int), high_byte(value as int)]);
            assert(self.chunk.code@ =~= old(self).chunk.code@ + seq![
                low_byte(value as int),
                high_byte(value as int),
            ]);
        }
    }

    /// An instruction with a 16-bit operand.
    fn emit_with_u16(&mut self, op: OpCode, value: u16)
        requires
            old(self).inv(),
        ensures
            final(self).emitted(
                old(self),
                seq![op.byte(), low_byte(value as int), high_byte(value as int)],
            ),
    {
        self.emit_op(op);
        self.emit_u16(value);
        proof {
            let a = seq![op.byte()];
            let b = seq![low_byte(value as int), high_byte(value as int)];
            lemma_emit_twice(old(self).toks(), old(self).draft(), a, b);
            assert(a + b =~= seq![op.byte(), low_byte(value as int), high_byte(value as int)]);
            assert(self.chunk.code@ =~= old(self).chunk.code@ + seq![
                op.byte(),
                low_byte(value as int),
                high_byte(value as int),
            ]);
        }
    }

    /// A jump whose operand is patched later; returns where the operand
    /// lies.
    fn emit_jump(&mut self, op: OpCode) -> (at: usize)
        requires
            old(self).inv(),
        ensures
            final(self).emitted(old(self), seq![op.byte(), 0xFFu8, 0xFFu8]),
            at == old(self).chunk.code@.len() + 1,
            at == site(old(self).draft()),
            at + 2 <= final(self).chunk.code@.len(),
    {
        self.emit_op(op);
        let at = self.chunk.current_offset();
        self.emit_u16(0xFFFF);
        proof {
            let a = seq![op.byte()];
            let b = seq![0xFFu8, 0xFFu8];
            lemma_emit_twice(old(self).toks(), old(self).draft(), a, b);
            assert(a + b =~= seq![op.byte(), 0xFFu8, 0xFFu8]);
            assert(self.chunk.code@ =~= old(self).chunk.code@ + seq![op.byte(), 0xFFu8, 0xFFu8]);
        }
        at
    }

    /// Adds a constant to the pool and emits the instruction that loads it.
    fn emit_constant(&mut self, value: Value) -> (r: CompileResult<()>)
        requires
            old(self).inv(),
        ensures
            final(self).yields(
                old(self),
                r,
                constant(old(self).toks(), old(self).draft(), value@),
            ),
            final(self).current == old(self).current,
    {
        if self.chunk.constants.len() >= 65536 {
            return Err(CompileError::TooManyConstants);
        }
        proof {
            lemma_views_of_push(self.chunk.constants@, value);
        }
        let index = self.chunk.add_constant(value);
        self.emit_with_u16(OpCode::Const, index);
        Ok(())
    }

    /// The index of a name in the string pool, which gains the name where it
    /// does not hold it.
    fn add_name(&mut self, name: &str) -> (r: CompileResult<u16>)
        requires
            old(self).inv(),
        ensures
            final(self).follows(old(self)),
            final(self).current == old(self).current,
            match pool_index(old(self).draft().strings, name@) {
                Some(index) => r == Ok::<u16, CompileError>(index as u16) && 0 <= index <= 65535
                    && final(self).draft() == pooled(old(self).draft(), name@),
                None => r matches Err(CompileError::TooManyLocals),
            },
    {
        proof {
            lemma_names(self.chunk.strings@, name@);
        }
        if self.chunk.strings.len() >= 65536 {
            match find_name(&self.chunk.strings, name) {
                Some(at) => {
                    proof {
                        lemma_place(texts_of(self.chunk.strings@), name@, at as int);
                    }
                    return Ok((at % 65536) as u16);
                },
                None => {
                    return Err(CompileError::TooManyLocals);
                },
            }
        }
        let ghost before = self.chunk.strings@;
        let index = self.chunk.add_string(name);
        proof {
            if crate::bytecode::opcode::absent(before, name@) {
                assert(self.chunk.strings@.drop_last() == before);
                assert(self.chunk.strings@.last()@ == name@);
                assert(!has_name(before, name@));
                assert(texts_of(self.chunk.strings@) =~= texts_of(before).push(name@));
            } else {
                let p = choose|p: int| #[trigger]
                    crate::bytecode::opcode::first_position(before, name@, p) && index == p
                        % 65536;
                assert(index == p);
                assert(first_name(before, name@, p));
                lemma_place(texts_of(before), name@, p);
            }
        }
        Ok(index)
    }

    /// Patches the jump whose operand lies at `at` to land at the end of
    /// the code.
    fn patch(&mut self, at: usize) -> (r: CompileResult<()>)
        requires
            old(self).inv(),
            at + 2 <= old(self).chunk.code@.len(),
        ensures
            final(self).yields(old(self), r, patched(old(self).draft(), at)),
            final(self).current == old(self).current,
            final(self).chunk.code@.len() == old(self).chunk.code@.len(),
            final(self).loops == old(self).loops,
    {
        if self.chunk.code.len() - at - 2 > 65535 {
            return Err(CompileError::LoopTooDeep);
        }
        self.chunk.patch_jump(at);
        proof {
            assert forall|i: int| 0 <= i < self.loops@.len() implies loop_ok(
                #[trigger] self.loops@[i],
                self.chunk.code@.len(),
            ) by {
                assert(loop_ok(old(self).loops@[i], old(self).chunk.code@.len()));
            }
            assert(self.draft().code =~= patched(old(self).draft(), at)->Ok_0.code);
        }
        Ok(())
    }

    /// Register a local variable in the current function scope.
    fn register_local(&mut self, name: &str)
        requires
            old(self).inv(),
        ensures
            final(self).drafted(old(self), with_local(old(self).draft(), name@)),
            final(self).current == old(self).current,
    {
        match self.function_stack.pop() {
            Some(scope) => {
                let mut scope = scope;
                scope.add_local(String::from_str(name));
                self.function_stack.push(scope);
                proof {
                    let before = old(self).draft().scopes;
                    let after = with_local(old(self).draft(), name@).scopes;
                    assert(self.draft().scopes =~= after) by {
                        assert(self.function_stack@.len() == before.len());
                        assert forall|i: int| 0 <= i < before.len() implies (
                        #[trigger] self.draft().scopes[i]) == after[i] by {
                            if i < before.len() - 1 {
                                assert(self.function_stack@[i] == old(self).function_stack@[i]);
                            }
                        }
                    }
                }
            },
            None => {},
        }
    }
}

impl<'a> Compiler<'a> {
    // -----------------------------------------------------------------------
    // Variable resolution with closure capture
    // -----------------------------------------------------------------------
    /// Emit bytecode to load a variable, handling closure captures.
    fn emit_variable_load(&mut self, name: &str) -> (r: CompileResult<()>)
        requires
            old(self).inv(),
        ensures
            final(self).yields(old(self), r, load(old(self).toks(), old(self).draft(), name@)),
            final(self).current == old(self).current,
    {
        let ghost scopes = scope_views_of(self.function_stack@);
        let depth = self.function_stack.len();
        if depth > 0 {
            if !self.function_stack[depth - 1].is_local(name) {
                let captured = self.function_stack[depth - 1].get_capture_index(name);
                let mut found_in_outer = false;
                let mut outer: usize = depth - 1;
                while outer > 0 && !found_in_outer
                    invariant
                        outer <= depth - 1,
                        depth == self.function_stack@.len(),
                        *self == *old(self),
                        scopes == scope_views_of(self.function_stack@),
                        found_in_outer ==> declared_outside(scopes, name@),
                        !found_in_outer ==> forall|d: int|
                            outer <= d < depth - 1 ==> !(#[trigger] scopes[d]).locals.contains(
                                name@,
                            ),
                    decreases outer,
                {
                    outer = outer - 1;
                    if self.function_stack[outer].is_local(name) {
                        found_in_outer = true;
                        proof {
                            assert(scopes[outer as int].locals.contains(name@));
                        }
                    }
                }
                let index = match captured {
                    Some(index) => Some(index),
                    None => {
                        if found_in_outer {
                            let mut scope = match self.function_stack.pop() {
                                Some(scope) => scope,
                                None => {
                                    return Err(
                                        CompileError::CaptureError { name: String::from_str(name) },
                                    );
                                },
                            };
                            let index = scope.add_capture(String::from_str(name));
                            self.function_stack.push(scope);
                            proof {
                                let innermost = scopes.last();
                                assert(scope_views_of(self.function_stack@) =~= scopes.drop_last().push(
                                    ScopeView {
                                        captures: innermost.captures.push(name@),
                                        is_closure: true,
                                        ..innermost
                                    },
                                )) by {
                                    assert forall|i: int| 0 <= i < depth - 1 implies (
                                    #[trigger] self.function_stack@[i]) == old(self).function_stack@[i] by {}
                                }
                            }
                            Some(index)
                        } else {
                            None
                        }
                    },
                };
                match index {
                    Some(index) => {
                        if index > 65535 {
                            return Err(CompileError::CaptureError { name: String::from_str(name) });
                        }
                        self.emit_with_u16(OpCode::LoadCapture, index as u16);
                        return Ok(());
                    },
                    None => {},
                }
            }
        }
        let index = self.add_name(name)?;
        self.emit_with_u16(OpCode::LoadVar, index);
        Ok(())
    }

    // -----------------------------------------------------------------------
    // Statements that hold no statement and no expression
    // -----------------------------------------------------------------------
    /// Print literal: the glyph, then a string, with or without brackets.
    fn print_literal(&mut self) -> (r: CompileResult<()>)
        requires
            old(self).inv(),
            !old(self).at_end(),
        ensures
            final(self).yields(
                old(self),
                r,
                print_literal(old(self).toks(), step(old(self).toks(), old(self).draft())),
            ),
            r is Ok ==> final(self).current > old(self).current,
    {
        let _ = self.advance();
        let has_bracket = self.match_symbol(SymbolMeaning::LeftBracket);
        let text = self.consume_string("string literal")?;
        let index = self.add_name(text.as_str())?;
        if has_bracket {
            self.consume_symbol(SymbolMeaning::RightBracket, "]")?;
        }
        self.emit_with_u16(OpCode::PrintLit, index);
        Ok(())
    }

    /// Input: the glyph, a type glyph and a variable name.
    fn input(&mut self) -> (r: CompileResult<()>)
        requires
            old(self).inv(),
            !old(self).at_end(),
        ensures
            final(self).yields(
                old(self),
                r,
                input(old(self).toks(), step(old(self).toks(), old(self).draft())),
            ),
            r is Ok ==> final(self).current > old(self).current,
    {
        let _ = self.advance();
        let type_index = self.advance();
        let var_type = self.token_to_value_type(type_index)?;
        let name = self.consume_identifier("variable name")?;
        let index = self.add_name(name.as_str())?;
        self.emit_with_u16(OpCode::Input, index);
        self.emit_byte(var_type.to_byte());
        Ok(())
    }

    /// Break statement: a jump out of the innermost loop, patched when the
    /// loop ends. Outside of a loop it is an error.
    fn break_statement(&mut self) -> (r: CompileResult<()>)
        requires
            old(self).inv(),
            !old(self).at_end(),
        ensures
            final(self).yields(
                old(self),
                r,
                break_statement(old(self).toks(), step(old(self).toks(), old(self).draft())),
            ),
            r is Ok ==> final(self).current > old(self).current,
    {
        let _ = self.advance();
        if self.loops.len() == 0 {
            return Err(self.unexpected(self.current, "⊗ (break) used outside of loop"));
        }
        let ghost entry = self.draft();
        let at = self.emit_jump(OpCode::Jump);
        let mut info = match self.loops.pop() {
            Some(info) => info,
            None => {
                return Ok(());
            },
        };
        let ghost before = info;
        info.break_jumps.push(at);
        proof {
            assert(loop_ok(before, self.chunk.code@.len()));
            assert forall|j: int| 0 <= j < info.break_jumps@.len() implies (
            #[trigger] info.break_jumps@[j]) + 2 <= self.chunk.code@.len() by {
                if j < before.break_jumps@.len() {
                    assert(info.break_jumps@[j] == before.break_jumps@[j]);
                }
            }
        }
        self.loops.push(info);
        proof {
            let innermost = entry.loops.last();
            assert(loop_views_of(self.loops@) =~= entry.loops.drop_last().push(
                LoopView { breaks: innermost.breaks.push(at), ..innermost },
            ));
        }
        Ok(())
    }

    /// Continue statement: a jump back to the start of the innermost loop.
    /// Outside of a loop it is an error.
    fn continue_statement(&mut self) -> (r: CompileResult<()>)
        requires
            old(self).inv(),
            !old(self).at_end(),
        ensures
            final(self).yields(
                old(self),
                r,
                continue_statement(old(self).toks(), step(old(self).toks(), old(self).draft())),
            ),
            r is Ok ==> final(self).current > old(self).current,
    {
        let _ = self.advance();
        let depth = self.loops.len();
        if depth == 0 {
            return Err(self.unexpected(self.current, "↺ (continue) used outside of loop"));
        }
        let loop_start = self.loops[depth - 1].start;
        proof {
            assert(loop_ok(self.loops@[depth - 1], self.chunk.code@.len()));
        }
        let distance = self.chunk.current_offset() - loop_start;
        if distance > 65535 - 3 {
            return Err(CompileError::LoopTooDeep);
        }
        self.emit_with_u16(OpCode::Loop, (distance + 3) as u16);
        Ok(())
    }

    /// Import statement: the glyph and the module's name as a string.
    fn import_statement(&mut self) -> (r: CompileResult<()>)
        requires
            old(self).inv(),
            !old(self).at_end(),
        ensures
            final(self).yields(
                old(self),
                r,
                import_statement(old(self).toks(), step(old(self).toks(), old(self).draft())),
            ),
            r is Ok ==> final(self).current > old(self).current,
    {
        let _ = self.advance();
        let module_name = self.consume_string("module name")?;
        let index = self.add_name(module_name.as_str())?;
        self.emit_with_u16(OpCode::Import, index);
        Ok(())
    }

    /// The value of a real literal, as the host supplied it.
    fn real_of(&self, text: &str) -> (r: Option<Real>)
        ensures
            r == real_from(self.reals@, text@, 0),
    {
        let mut i: usize = 0;
        while i < self.reals.len()
            invariant
                i <= self.reals.len(),
                real_from(self.reals@, text@, 0) == real_from(self.reals@, text@, i as int),
            decreases self.reals.len() - i,
        {
            if str_eq(self.reals[i].0.as_str(), text) {
                return Some(self.reals[i].1);
            }
            i += 1;
        }
        None
    }

    /// The number of tokens from the cursor on: what the recursive descent
    /// descends on.
    spec fn remaining(&self) -> int {
        self.tokens@.len() - self.current
    }

    /// Whether the cursor lies on one of the given symbols.
    fn at_stop(
        &self,
        first: SymbolMeaning,
        second: Option<SymbolMeaning>,
        third: Option<SymbolMeaning>,
    ) -> (b: bool)
        requires
            self.inv(),
        ensures
            b == at_stop(self.toks(), self.draft(), first, second, third),
    {
        if self.check_symbol(first) {
            return true;
        }
        match second {
            Some(meaning) => {
                if self.check_symbol(meaning) {
                    return true;
                }
            },
            None => {},
        }
        match third {
            Some(meaning) => {
                if self.check_symbol(meaning) {
                    return true;
                }
            },
            None => {},
        }
        false
    }

    /// Compiles statements up to one of the given symbols, or to the end of
    /// the source.
    fn block(
        &mut self,
        first: SymbolMeaning,
        second: Option<SymbolMeaning>,
        third: Option<SymbolMeaning>,
    ) -> (r: CompileResult<()>)
        requires
            old(self).inv(),
        ensures
            final(self).yields(
                old(self),
                r,
                block(old(self).toks(), old(self).reals@, old(self).draft(), first, second, third),
            ),
        decreases old(self).remaining(), 21int,
    {
        let ghost t = self.toks();
        let ghost k = self.reals@;
        let ghost goal = block(t, k, self.draft(), first, second, third);
        loop
            invariant
                self.follows(old(self)),
                t == self.toks(),
                k == self.reals@,
                t == old(self).toks(),
                k == old(self).reals@,
                self.text() == old(self).text(),
                goal == block(t, k, self.draft(), first, second, third),
                goal == block(t, k, old(self).draft(), first, second, third),
            ensures
                goal == Ok::<Draft, Fault>(self.draft()),
            decreases self.remaining(),
        {
            if self.at_stop(first, second, third) || self.is_at_end() {
                break ;
            }
            self.statement()?;
        }
        Ok(())
    }

    // -----------------------------------------------------------------------
    // Statement compilation
    // -----------------------------------------------------------------------
    /// Compiles one statement, which the token under the cursor selects.
    fn statement(&mut self) -> (r: CompileResult<()>)
        requires
            old(self).inv(),
        ensures
            final(self).yields(
                old(self),
                r,
                statement(old(self).toks(), old(self).reals@, old(self).draft()),
            ),
            r is Ok && !old(self).at_end() ==> final(self).current > old(self).current,
        decreases old(self).remaining(), 20int,
    {
        let ghost t = self.toks();
        let ghost k = self.reals@;
        let ghost entry = self.draft();
        let meaning = match &self.tokens[self.current].kind {
            TokenKind::Symbol(meaning) => Some(*meaning),
            TokenKind::Identifier(_) => {
                if self.check_next_equals() {
                    return self.simple_assignment();
                } else {
                    return Err(self.unexpected(self.current, "Unexpected identifier"));
                }
            },
            TokenKind::Eof => {
                return Ok(());
            },
            _ => None,
        };
        proof {
            if let Some(m) = meaning {
                assert(statement(t, k, entry) == begun(
                    t,
                    k,
                    step(t, entry),
                    m,
                    entry.cursor as int,
                ));
            }
        }
        match meaning {
            Some(SymbolMeaning::TypeInteger)
            | Some(SymbolMeaning::TypeReal)
            | Some(SymbolMeaning::TypeString)
            | Some(SymbolMeaning::TypeBoolean)
            | Some(SymbolMeaning::TypeRune) => self.variable_declaration(),
            Some(SymbolMeaning::Assign) => self.assignment(),
            Some(SymbolMeaning::Output) => self.bracketed(Some(OpCode::Print)),
            Some(SymbolMeaning::Print) => self.print_literal(),
            Some(SymbolMeaning::Input) => self.input(),
            Some(SymbolMeaning::LoopStart) => self.loop_statement(),
            Some(SymbolMeaning::IfStart) => self.if_statement(),
            Some(SymbolMeaning::Break) => self.break_statement(),
            Some(SymbolMeaning::Continue) => self.continue_statement(),
            Some(SymbolMeaning::Accumulator) => self.accumulator_statement(),
            Some(SymbolMeaning::EndProgram) => {
                let _ = self.advance();
                self.emit_op(OpCode::Halt);
                self.had_end_program = true;
                proof {
                    assert(self.tokens@[old(self).current as int]@.kind == TokenKindView::Symbol(
                        SymbolMeaning::EndProgram,
                    ));
                }
                Ok(())
            },
            Some(SymbolMeaning::FunctionStart) => self.function_definition(),
            Some(SymbolMeaning::Return) => self.return_statement(),
            Some(SymbolMeaning::TypeArray) => self.array_declaration(),
            Some(SymbolMeaning::TypeMap) => self.map_declaration(),
            Some(SymbolMeaning::MatchStart) => self.match_expression(),
            Some(SymbolMeaning::TryStart) => self.try_statement(),
            Some(SymbolMeaning::Throw) => self.bracketed(Some(OpCode::Throw)),
            Some(SymbolMeaning::Import) => self.import_statement(),
            Some(SymbolMeaning::Push) => self.bracketed(None),
            Some(SymbolMeaning::Pop) => {
                let _ = self.advance();
                self.emit_op(OpCode::Pop);
                Ok(())
            },
            _ => {
                let index = self.advance();
                Err(self.unexpected(index, "statement"))
            },
        }
    }

    /// Variable declaration: a type glyph, an optional null glyph that marks
    /// the variable as optional, a name, and an optional initializer.
    fn variable_declaration(&mut self) -> (r: CompileResult<()>)
        requires
            old(self).inv(),
            !old(self).at_end(),
        ensures
            final(self).yields(
                old(self),
                r,
                variable_declaration(
                    old(self).toks(),
                    old(self).reals@,
                    step(old(self).toks(), old(self).draft()),
                ),
            ),
            r is Ok ==> final(self).current > old(self).current,
        decreases old(self).remaining(), 19int,
    {
        let type_index = self.advance();
        let var_type = self.token_to_value_type(type_index)?;
        let optional = self.match_symbol(SymbolMeaning::Null);
        let name = self.consume_identifier("variable name")?;
        let index = self.add_name(name.as_str())?;
        self.register_local(name.as_str());
        if self.match_equals() {
            self.expression()?;
        } else if optional {
            self.emit_op(OpCode::Null);
        } else {
            match var_type {
                ValueType::Integer => self.emit_constant(Value::Integer(0))?,
                ValueType::Real => self.emit_constant(Value::Real(Real { bits: 0 }))?,
                ValueType::String => self.emit_constant(Value::String(String::new()))?,
                ValueType::Boolean => self.emit_op(OpCode::False),
                ValueType::Rune => self.emit_constant(Value::Rune('\0'))?,
                _ => self.emit_op(OpCode::Null),
            }
        }
        self.emit_with_u16(OpCode::DeclareVar, index);
        self.emit_byte(var_type.to_byte());
        Ok(())
    }

    /// An expression in brackets.
    fn in_brackets(&mut self) -> (r: CompileResult<()>)
        requires
            old(self).inv(),
        ensures
            final(self).yields(
                old(self),
                r,
                in_brackets(old(self).toks(), old(self).reals@, old(self).draft()),
            ),
            r is Ok ==> final(self).current > old(self).current,
        decreases old(self).remaining(), 10int,
    {
        self.consume_symbol(SymbolMeaning::LeftBracket, "[")?;
        self.expression()?;
        self.consume_symbol(SymbolMeaning::RightBracket, "]")?;
        Ok(())
    }

    /// The target of an assignment: the accumulator, or a name that a type
    /// glyph may precede.
    fn target(&mut self) -> (r: CompileResult<()>)
        requires
            old(self).inv(),
        ensures
            final(self).yields(old(self), r, target(old(self).toks(), old(self).draft())),
    {
        if self.match_symbol(SymbolMeaning::Accumulator) {
            self.emit_op(OpCode::StoreAcc);
            return Ok(());
        }
        if self.check_symbol(SymbolMeaning::TypeInteger) || self.check_symbol(
            SymbolMeaning::TypeReal,
        ) || self.check_symbol(SymbolMeaning::TypeString) || self.check_symbol(
            SymbolMeaning::TypeBoolean,
        ) {
            let _ = self.advance();
        }
        let name = self.consume_identifier("variable name")?;
        let index = self.add_name(name.as_str())?;
        self.emit_with_u16(OpCode::StoreVar, index);
        Ok(())
    }

    /// Assignment: the glyph, an expression in brackets, the arrow, and the
    /// target.
    fn assignment(&mut self) -> (r: CompileResult<()>)
        requires
            old(self).inv(),
            !old(self).at_end(),
        ensures
            final(self).yields(
                old(self),
                r,
                assignment(
                    old(self).toks(),
                    old(self).reals@,
                    step(old(self).toks(), old(self).draft()),
                ),
            ),
            r is Ok ==> final(self).current > old(self).current,
        decreases old(self).remaining(), 19int,
    {
        let _ = self.advance();
        self.in_brackets()?;
        self.consume_symbol(SymbolMeaning::Arrow, "→")?;
        self.target()
    }

    /// Simple assignment: a name, the equals sign and an expression.
    fn simple_assignment(&mut self) -> (r: CompileResult<()>)
        requires
            old(self).inv(),
            old(self).tokens@[old(self).current as int]@.kind is Identifier,
        ensures
            final(self).yields(
                old(self),
                r,
                simple_assignment(old(self).toks(), old(self).reals@, old(self).draft()),
            ),
            r is Ok ==> final(self).current > old(self).current,
        decreases old(self).remaining(), 19int,
    {
        let name = self.consume_identifier("variable name")?;
        let index = self.add_name(name.as_str())?;
        self.consume_equals()?;
        self.expression()?;
        self.emit_with_u16(OpCode::StoreVar, index);
        Ok(())
    }

    /// A glyph with an expression in brackets, and the instruction that
    /// takes the expression's value: output prints it, throw raises it, and
    /// push leaves it on the stack.
    fn bracketed(&mut self, op: Option<OpCode>) -> (r: CompileResult<()>)
        requires
            old(self).inv(),
            !old(self).at_end(),
        ensures
            final(self).yields(
                old(self),
                r,
                bracketed(
                    old(self).toks(),
                    old(self).reals@,
                    step(old(self).toks(), old(self).draft()),
                    op,
                ),
            ),
            r is Ok ==> final(self).current > old(self).current,
        decreases old(self).remaining(), 19int,
    {
        let _ = self.advance();
        self.in_brackets()?;
        match op {
            Some(op) => self.emit_op(op),
            None => {},
        }
        Ok(())
    }

    /// Patches the jumps whose operands lie at `sites` to land at the end
    /// of the code.
    fn patch_all(&mut self, sites: &Vec<usize>) -> (r: CompileResult<()>)
        requires
            old(self).inv(),
            forall|j: int| 0 <= j < sites@.len() ==> (#[trigger] sites@[j]) + 2 <= old(self).chunk.code@.len(),
        ensures
            final(self).yields(old(self), r, patched_all(old(self).draft(), sites@, 0)),
            final(self).current == old(self).current,
    {
        let ghost goal = patched_all(self.draft(), sites@, 0);
        let mut i: usize = 0;
        while i < sites.len()
            invariant
                i <= sites@.len(),
                self.follows(old(self)),
                self.current == old(self).current,
                self.chunk.code@.len() == old(self).chunk.code@.len(),
                goal == patched_all(self.draft(), sites@, i as int),
                goal == patched_all(old(self).draft(), sites@, 0),
                self.toks() == old(self).toks(),
                self.text() == old(self).text(),
                forall|j: int| 0 <= j < sites@.len() ==> (#[trigger] sites@[j]) + 2 <= old(self).chunk.code@.len(),
            decreases sites.len() - i,
        {
            self.patch(sites[i])?;
            i += 1;
        }
        Ok(())
    }

    /// Loop: the condition in brackets, the body, and the loop end. The
    /// condition is tested before each pass; the jumps of the breaks in the
    /// body land behind the loop.
    fn loop_statement(&mut self) -> (r: CompileResult<()>)
        requires
            old(self).inv(),
            !old(self).at_end(),
        ensures
            final(self).yields(
                old(self),
                r,
                loop_statement(
                    old(self).toks(),
                    old(self).reals@,
                    step(old(self).toks(), old(self).draft()),
                ),
            ),
            r is Ok ==> final(self).current > old(self).current,
        decreases old(self).remaining(), 19int,
    {
        let _ = self.advance();
        let loop_start = self.chunk.current_offset();
        self.in_brackets()?;
        let exit_jump = self.emit_jump(OpCode::JumpIfFalse);
        let ghost head_loops = self.loops@;
        let ghost head_code = self.chunk.code@.len();
        self.loops.push(LoopInfo { start: loop_start, break_jumps: Vec::new() });
        proof {
            assert forall|i: int| 0 <= i < self.loops@.len() implies loop_ok(
                #[trigger] self.loops@[i],
                self.chunk.code@.len(),
            ) by {
                if i < head_loops.len() {
                    assert(self.loops@[i] == head_loops[i]);
                    assert(loop_ok(head_loops[i], head_code));
                }
            }
            assert(loop_views_of(self.loops@) =~= loop_views_of(head_loops).push(
                LoopView { start: loop_start, breaks: Seq::empty() },
            ));
        }
        let body = self.block(SymbolMeaning::LoopEnd, None, None);
        let closed = match body {
            Ok(()) => self.consume_symbol(SymbolMeaning::LoopEnd, "⊃"),
            Err(e) => Err(e),
        };
        let ghost inner = self.draft();
        proof {
            assert(loop_ok(self.loops@[self.loops@.len() - 1], self.chunk.code@.len()));
        }
        let info = match self.loops.pop() {
            Some(info) => info,
            None => LoopInfo { start: loop_start, break_jumps: Vec::new() },
        };
        proof {
            assert forall|i: int| 0 <= i < self.loops@.len() implies (#[trigger] self.loops@[i])
                == head_loops[i] by {}
            assert(loop_views_of(self.loops@) =~= inner.loops.drop_last());
            assert(info@ == inner.loops.last());
        }
        closed?;
        self.emit_op(OpCode::Loop);
        let distance = self.chunk.current_offset() - loop_start;
        if distance > 65535 - 2 {
            return Err(CompileError::LoopTooDeep);
        }
        self.emit_u16((distance + 2) as u16);
        self.patch(exit_jump)?;
        self.patch_all(&info.break_jumps)
    }

    /// Conditional: the condition, closed by a bracket; the branch that runs
    /// when it holds; an optional else branch; and the end glyph.
    fn if_statement(&mut self) -> (r: CompileResult<()>)
        requires
            old(self).inv(),
            !old(self).at_end(),
        ensures
            final(self).yields(
                old(self),
                r,
                if_statement(
                    old(self).toks(),
                    old(self).reals@,
                    step(old(self).toks(), old(self).draft()),
                ),
            ),
            r is Ok ==> final(self).current > old(self).current,
        decreases old(self).remaining(), 19int,
    {
        let _ = self.advance();
        self.expression()?;
        self.consume_symbol(SymbolMeaning::RightBracket, "]")?;
        let then_jump = self.emit_jump(OpCode::JumpIfFalse);
        self.block(SymbolMeaning::Else, Some(SymbolMeaning::IfEnd), None)?;
        if self.match_symbol(SymbolMeaning::Else) {
            let else_jump = self.emit_jump(OpCode::Jump);
            self.patch(then_jump)?;
            self.block(SymbolMeaning::IfEnd, None, None)?;
            self.patch(else_jump)?;
        } else {
            self.patch(then_jump)?;
        }
        self.consume_symbol(SymbolMeaning::IfEnd, "⟫")?;
        Ok(())
    }

    /// Accumulator statement: the glyph alone or with the increment glyph
    /// adds one, with the decrement glyph subtracts one, and with an equals
    /// sign and an expression stores the expression's value.
    fn accumulator_statement(&mut self) -> (r: CompileResult<()>)
        requires
            old(self).inv(),
            !old(self).at_end(),
        ensures
            final(self).yields(
                old(self),
                r,
                accumulator_statement(
                    old(self).toks(),
                    old(self).reals@,
                    step(old(self).toks(), old(self).draft()),
                ),
            ),
            r is Ok ==> final(self).current > old(self).current,
        decreases old(self).remaining(), 19int,
    {
        let _ = self.advance();
        if self.match_equals() {
            self.expression()?;
            self.emit_op(OpCode::StoreAcc);
        } else if self.match_symbol(SymbolMeaning::Decrement) {
            self.emit_op(OpCode::DecAcc);
        } else {
            let _ = self.match_symbol(SymbolMeaning::Increment);
            self.emit_op(OpCode::IncAcc);
        }
        Ok(())
    }

    /// The parameters of a function definition, between the brackets: each a
    /// type glyph and a name, separated by commas.
    fn parameters(&mut self) -> (r: CompileResult<Vec<(String, ValueType)>>)
        requires
            old(self).inv(),
        ensures
            final(self).follows(old(self)),
            match parameters(old(self).toks(), old(self).draft()) {
                Ok((d, listed)) => (r matches Ok(params) && params_of(params@) == listed)
                    && final(self).draft() == d,
                Err(f) => r matches Err(e) && reports(e, f, old(self).toks(), old(self).text()),
            },
    {
        let ghost t = self.toks();
        let ghost goal = parameters(t, self.draft());
        let mut params: Vec<(String, ValueType)> = Vec::new();
        proof {
            assert(params_of(params@) =~= Seq::empty());
        }
        if !self.check_symbol(SymbolMeaning::RightBracket) {
            loop
                invariant_except_break
                    goal == parameters_from(t, self.draft(), params_of(params@)),
            invariant
                    self.moved(old(self), self.current as int),
                    t == self.toks(),
                    t == old(self).toks(),
                    self.text() == old(self).text(),
                    goal == parameters(t, old(self).draft()),
                ensures
                    goal == Ok::<(Draft, Seq<(Seq<char>, ValueType)>), Fault>(
                        (self.draft(), params_of(params@)),
                    ),
                decreases self.remaining(),
            {
                let type_index = self.advance();
                let param_type = self.token_to_value_type(type_index)?;
                let param_name = self.consume_identifier("parameter name")?;
                let ghost before = params_of(params@);
                let ghost name = param_name@;
                params.push((param_name, param_type));
                proof {
                    assert(params_of(params@) =~= before.push((name, param_type)));
                }
                if !self.match_symbol(SymbolMeaning::Separator) {
                    break ;
                }
            }
        }
        Ok(params)
    }

    /// Function definition: the name, the parameters in brackets, the body,
    /// and the end glyph. The body is emitted in place, behind a jump that
    /// skips it, and ends with a return of null. The function is entered in
    /// the function table with the names that its body captured.
    fn function_definition(&mut self) -> (r: CompileResult<()>)
        requires
            old(self).inv(),
            !old(self).at_end(),
        ensures
            final(self).yields(
                old(self),
                r,
                function_definition(
                    old(self).toks(),
                    old(self).reals@,
                    step(old(self).toks(), old(self).draft()),
                ),
            ),
            r is Ok ==> final(self).current > old(self).current,
        decreases old(self).remaining(), 19int,
    {
        let _ = self.advance();
        let name = self.consume_identifier("function name")?;
        if self.function_indices.get(name.as_str()).is_some() {
            return Err(CompileError::DuplicateFunction { name });
        }
        self.consume_symbol(SymbolMeaning::LeftBracket, "[")?;
        let params = self.parameters()?;
        self.consume_symbol(SymbolMeaning::RightBracket, "]")?;
        if params.len() > 255 {
            return Err(CompileError::TooManyLocals);
        }
        let arity = params.len() as u8;
        let ghost listed = params_of(params@);
        let jump_over = self.emit_jump(OpCode::Jump);
        let func_start = self.chunk.current_offset();
        let ghost outer = self.function_stack@;
        let copied = clone_params(&params);
        proof {
            assert(params_of(copied@) =~= listed);
        }
        self.function_stack.push(FunctionScope::new(name.clone(), arity, copied, func_start));
        proof {
            assert(scope_views_of(self.function_stack@) =~= scope_views_of(outer).push(
                ScopeView {
                    name: name@,
                    arity,
                    params: listed,
                    start: func_start,
                    captures: Seq::empty(),
                    locals: names_of(listed),
                    is_closure: false,
                },
            ));
        }
        let body = self.block(SymbolMeaning::FunctionEnd, None, None);
        let ghost inner = self.draft();
        let scope = match self.function_stack.pop() {
            Some(scope) => scope,
            None => FunctionScope::new(name.clone(), arity, Vec::new(), func_start),
        };
        proof {
            assert(scope_views_of(self.function_stack@) =~= inner.scopes.drop_last());
            assert(scope@ == inner.scopes.last());
        }
        body?;
        self.consume_symbol(SymbolMeaning::FunctionEnd, "Λ")?;
        self.emit_op(OpCode::Null);
        self.emit_op(OpCode::Return);
        let func_length = self.chunk.current_offset() - func_start;
        self.patch(jump_over)?;
        if self.chunk.functions.len() >= 65536 {
            return Err(CompileError::TooManyConstants);
        }
        let mut info = FunctionInfo::new(name.clone(), arity, params, func_start, func_length);
        info.capture_names = scope.captures;
        let position = self.chunk.functions.len();
        let ghost before = self.chunk.functions@;
        let ghost made = info@;
        let _ = self.chunk.add_function(info);
        self.function_indices.insert(name.as_str(), position);
        proof {
            assert(function_views_of(self.chunk.functions@) =~= function_views_of(before).push(
                made,
            ));
        }
        Ok(())
    }

    /// Return statement: the glyph, with an expression in brackets or
    /// without; outside of a function it is an error.
    fn return_statement(&mut self) -> (r: CompileResult<()>)
        requires
            old(self).inv(),
            !old(self).at_end(),
        ensures
            final(self).yields(
                old(self),
                r,
                return_statement(
                    old(self).toks(),
                    old(self).reals@,
                    step(old(self).toks(), old(self).draft()),
                ),
            ),
            r is Ok ==> final(self).current > old(self).current,
        decreases old(self).remaining(), 19int,
    {
        let _ = self.advance();
        if self.function_stack.len() == 0 {
            return Err(CompileError::ReturnOutsideFunction);
        }
        if self.match_symbol(SymbolMeaning::LeftBracket) {
            self.expression()?;
            self.consume_symbol(SymbolMeaning::RightBracket, "]")?;
        } else {
            self.emit_op(OpCode::Null);
        }
        self.emit_op(OpCode::Return);
        Ok(())
    }

    /// The elements of an array literal, with or without commas between
    /// them; returns their number.
    fn elements(&mut self) -> (r: CompileResult<u16>)
        requires
            old(self).inv(),
        ensures
            final(self).follows(old(self)),
            match elements(old(self).toks(), old(self).reals@, old(self).draft(), 0) {
                Ok((d, count)) => r == Ok::<u16, CompileError>(count as u16) && 0 <= count
                    <= 65535 && final(self).draft() == d,
                Err(f) => r matches Err(e) && reports(e, f, old(self).toks(), old(self).text()),
            },
        decreases old(self).remaining(), 10int,
    {
        let ghost t = self.toks();
        let ghost k = self.reals@;
        let ghost goal = elements(t, k, self.draft(), 0);
        let mut count: u16 = 0;
        loop
            invariant_except_break
                goal == elements(t, k, self.draft(), count as int),
            invariant
                self.follows(old(self)),
                t == self.toks(),
                k == self.reals@,
                t == old(self).toks(),
                k == old(self).reals@,
                self.text() == old(self).text(),
                goal == elements(t, k, old(self).draft(), 0),
            ensures
                self.follows(old(self)),
                goal == Ok::<(Draft, int), Fault>((self.draft(), count as int)),
            decreases self.remaining(),
        {
            proof {
                lemma_expression_at_end(t, k, self.draft());
            }
            self.expression()?;
            if count == 65535 {
                return Err(CompileError::TooManyConstants);
            }
            count = count + 1;
            if self.check_symbol(SymbolMeaning::RightBracket) {
                break ;
            }
            let _ = self.match_symbol(SymbolMeaning::Separator);
            proof {
                lemma_elements_at_end(t, k, self.draft(), count as int);
            }
        }
        Ok(count)
    }

    /// Array declaration: the name, the equals sign, and the elements in
    /// brackets, with or without commas between them.
    fn array_declaration(&mut self) -> (r: CompileResult<()>)
        requires
            old(self).inv(),
            !old(self).at_end(),
        ensures
            final(self).yields(
                old(self),
                r,
                array_declaration(
                    old(self).toks(),
                    old(self).reals@,
                    step(old(self).toks(), old(self).draft()),
                ),
            ),
            r is Ok ==> final(self).current > old(self).current,
        decreases old(self).remaining(), 19int,
    {
        let _ = self.advance();
        let name = self.consume_identifier("array name")?;
        let index = self.add_name(name.as_str())?;
        self.consume_equals()?;
        self.consume_symbol(SymbolMeaning::LeftBracket, "[")?;
        let count = if self.check_symbol(SymbolMeaning::RightBracket) {
            0
        } else {
            self.elements()?
        };
        self.consume_symbol(SymbolMeaning::RightBracket, "]")?;
        self.emit_with_u16(OpCode::MakeArray, count);
        self.emit_with_u16(OpCode::DeclareVar, index);
        self.emit_byte(ValueType::Array.to_byte());
        Ok(())
    }

    /// The pairs of a map literal, each a key, the map arrow and a value,
    /// with or without a separator between them; returns their number.
    fn pairs(&mut self) -> (r: CompileResult<u16>)
        requires
            old(self).inv(),
        ensures
            final(self).follows(old(self)),
            match pairs(old(self).toks(), old(self).reals@, old(self).draft(), 0) {
                Ok((d, count)) => r == Ok::<u16, CompileError>(count as u16) && 0 <= count
                    <= 65535 && final(self).draft() == d,
                Err(f) => r matches Err(e) && reports(e, f, old(self).toks(), old(self).text()),
            },
        decreases old(self).remaining(), 10int,
    {
        let ghost t = self.toks();
        let ghost k = self.reals@;
        let ghost goal = pairs(t, k, self.draft(), 0);
        let mut count: u16 = 0;
        loop
            invariant_except_break
                goal == pairs(t, k, self.draft(), count as int),
            invariant
                self.follows(old(self)),
                t == self.toks(),
                k == self.reals@,
                t == old(self).toks(),
                k == old(self).reals@,
                self.text() == old(self).text(),
                goal == pairs(t, k, old(self).draft(), 0),
            ensures
                self.follows(old(self)),
                goal == Ok::<(Draft, int), Fault>((self.draft(), count as int)),
            decreases self.remaining(),
        {
            proof {
                lemma_expression_at_end(t, k, self.draft());
            }
            self.expression()?;
            self.consume_symbol(SymbolMeaning::MapArrow, "⇒")?;
            self.expression()?;
            if count == 65535 {
                return Err(CompileError::TooManyConstants);
            }
            count = count + 1;
            if self.check_symbol(SymbolMeaning::RightBrace) {
                break ;
            }
            if !self.match_symbol(SymbolMeaning::MapSeparator) {
                let _ = self.match_symbol(SymbolMeaning::Separator);
            }
            proof {
                lemma_pairs_at_end(t, k, self.draft(), count as int);
            }
        }
        Ok(count)
    }

    /// Map declaration: the name, the equals sign, and in braces the pairs
    /// of key, arrow and value, with or without a separator between them.
    fn map_declaration(&mut self) -> (r: CompileResult<()>)
        requires
            old(self).inv(),
            !old(self).at_end(),
        ensures
            final(self).yields(
                old(self),
                r,
                map_declaration(
                    old(self).toks(),
                    old(self).reals@,
                    step(old(self).toks(), old(self).draft()),
                ),
            ),
            r is Ok ==> final(self).current > old(self).current,
        decreases old(self).remaining(), 19int,
    {
        let _ = self.advance();
        let name = self.consume_identifier("map name")?;
        let index = self.add_name(name.as_str())?;
        self.consume_equals()?;
        self.consume_symbol(SymbolMeaning::LeftBrace, "{")?;
        let count = if self.check_symbol(SymbolMeaning::RightBrace) {
            0
        } else {
            self.pairs()?
        };
        self.consume_symbol(SymbolMeaning::RightBrace, "}")?;
        self.emit_with_u16(OpCode::MakeMap, count);
        self.emit_with_u16(OpCode::DeclareVar, index);
        self.emit_byte(ValueType::Mapping.to_byte());
        Ok(())
    }

    /// The arms of a match; returns where the operands of the jumps lie
    /// that leave the arms.
    fn arms(&mut self) -> (r: CompileResult<Vec<usize>>)
        requires
            old(self).inv(),
        ensures
            final(self).follows(old(self)),
            match arms(old(self).toks(), old(self).reals@, old(self).draft(), Seq::empty()) {
                Ok((d, ends)) => (r matches Ok(sites) && sites@ == ends) && final(self).draft()
                    == d,
                Err(f) => r matches Err(e) && reports(e, f, old(self).toks(), old(self).text()),
            },
            r matches Ok(sites) ==> forall|j: int|
                0 <= j < sites@.len() ==> (#[trigger] sites@[j]) + 2 <= final(self).chunk.code@.len(),
        decreases old(self).remaining(), 18int,
    {
        let ghost t = self.toks();
        let ghost k = self.reals@;
        let ghost goal = arms(t, k, self.draft(), Seq::empty());
        let mut end_jumps: Vec<usize> = Vec::new();
        loop
            invariant
                self.follows(old(self)),
                t == self.toks(),
                k == self.reals@,
                t == old(self).toks(),
                k == old(self).reals@,
                self.text() == old(self).text(),
                goal == arms(t, k, self.draft(), end_jumps@),
                goal == arms(t, k, old(self).draft(), Seq::empty()),
                forall|j: int|
                    0 <= j < end_jumps@.len() ==> (#[trigger] end_jumps@[j]) + 2
                        <= self.chunk.code@.len(),
            ensures
                self.follows(old(self)),
                goal == Ok::<(Draft, Seq<usize>), Fault>((self.draft(), end_jumps@)),
                forall|j: int|
                    0 <= j < end_jumps@.len() ==> (#[trigger] end_jumps@[j]) + 2
                        <= self.chunk.code@.len(),
            decreases self.remaining(),
        {
            if !self.match_symbol(SymbolMeaning::MatchArm) {
                break ;
            }
            self.emit_op(OpCode::Dup);
            if self.match_symbol(SymbolMeaning::Wildcard) {
                self.emit_op(OpCode::Pop);
                self.consume_symbol(SymbolMeaning::RightBracket, "]")?;
                self.block(SymbolMeaning::MatchArm, Some(SymbolMeaning::MatchEnd), None)?;
                let at = self.emit_jump(OpCode::Jump);
                end_jumps.push(at);
            } else {
                self.expression()?;
                self.emit_op(OpCode::Eq);
                let no_match_jump = self.emit_jump(OpCode::JumpIfFalse);
                self.consume_symbol(SymbolMeaning::RightBracket, "]")?;
                self.block(SymbolMeaning::MatchArm, Some(SymbolMeaning::MatchEnd), None)?;
                let at = self.emit_jump(OpCode::Jump);
                end_jumps.push(at);
                self.patch(no_match_jump)?;
            }
        }
        Ok(end_jumps)
    }

    /// Match: the scrutinee, closed by a bracket; the arms, each a pattern
    /// or the wildcard, closed by a bracket, and a body; and the end glyph.
    /// The arms are tested in their order, and the first that matches runs.
    fn match_expression(&mut self) -> (r: CompileResult<()>)
        requires
            old(self).inv(),
            !old(self).at_end(),
        ensures
            final(self).yields(
                old(self),
                r,
                match_statement(
                    old(self).toks(),
                    old(self).reals@,
                    step(old(self).toks(), old(self).draft()),
                ),
            ),
            r is Ok ==> final(self).current > old(self).current,
        decreases old(self).remaining(), 19int,
    {
        let _ = self.advance();
        self.expression()?;
        self.consume_symbol(SymbolMeaning::RightBracket, "]")?;
        let end_jumps = self.arms()?;
        self.consume_symbol(SymbolMeaning::MatchEnd, "⟣")?;
        self.emit_op(OpCode::Pop);
        self.patch_all(&end_jumps)
    }

    /// The catch block of a try, if it has one.
    fn catch_part(&mut self) -> (r: CompileResult<()>)
        requires
            old(self).inv(),
        ensures
            final(self).yields(
                old(self),
                r,
                catch_part(old(self).toks(), old(self).reals@, old(self).draft()),
            ),
        decreases old(self).remaining(), 18int,
    {
        if self.match_symbol(SymbolMeaning::CatchBlock) {
            if self.match_symbol(SymbolMeaning::LeftBracket) {
                let var_name = self.consume_identifier("exception variable")?;
                let index = self.add_name(var_name.as_str())?;
                self.emit_with_u16(OpCode::Catch, index);
                self.consume_symbol(SymbolMeaning::RightBracket, "]")?;
            }
            self.block(SymbolMeaning::FinallyBlock, Some(SymbolMeaning::MatchEnd), None)?;
        }
        Ok(())
    }

    /// The finally block of a try, if it has one.
    fn finally_part(&mut self) -> (r: CompileResult<()>)
        requires
            old(self).inv(),
        ensures
            final(self).yields(
                old(self),
                r,
                finally_part(old(self).toks(), old(self).reals@, old(self).draft()),
            ),
        decreases old(self).remaining(), 18int,
    {
        if self.match_symbol(SymbolMeaning::FinallyBlock) {
            self.emit_op(OpCode::Finally);
            self.block(SymbolMeaning::MatchEnd, None, None)?;
        }
        Ok(())
    }

    /// Try: the protected body; an optional catch block, which may bind the
    /// exception to a name in brackets; an optional finally block; and the
    /// end glyph.
    fn try_statement(&mut self) -> (r: CompileResult<()>)
        requires
            old(self).inv(),
            !old(self).at_end(),
        ensures
            final(self).yields(
                old(self),
                r,
                try_statement(
                    old(self).toks(),
                    old(self).reals@,
                    step(old(self).toks(), old(self).draft()),
                ),
            ),
            r is Ok ==> final(self).current > old(self).current,
        decreases old(self).remaining(), 19int,
    {
        let _ = self.advance();
        let handler_jump = self.emit_jump(OpCode::TryBegin);
        self.block(
            SymbolMeaning::CatchBlock,
            Some(SymbolMeaning::FinallyBlock),
            Some(SymbolMeaning::MatchEnd),
        )?;
        self.emit_op(OpCode::TryEnd);
        let end_jump = self.emit_jump(OpCode::Jump);
        self.patch(handler_jump)?;
        self.catch_part()?;
        self.finally_part()?;
        self.consume_symbol(SymbolMeaning::MatchEnd, "⟣")?;
        self.patch(end_jump)?;
        Ok(())
    }

    // -----------------------------------------------------------------------
    // Expression compilation
    // -----------------------------------------------------------------------
    /// An operand of a level is an expression of the level below, or a
    /// unary expression at the lowest.
    proof fn lemma_operand(&self, level: nat)
        ensures
            operand(self.toks(), self.reals@, self.draft(), level) == (if level == 0 {
                unary(self.toks(), self.reals@, self.draft())
            } else {
                binary(self.toks(), self.reals@, self.draft(), (level - 1) as nat)
            }),
    {
    }

    /// Compiles an expression: the code that leaves its value on the stack.
    fn expression(&mut self) -> (r: CompileResult<()>)
        requires
            old(self).inv(),
        ensures
            final(self).yields(
                old(self),
                r,
                expression(old(self).toks(), old(self).reals@, old(self).draft()),
            ),
            r is Ok ==> final(self).current > old(self).current,
        decreases old(self).remaining(), 9int,
    {
        self.or_expression()
    }

    fn or_expression(&mut self) -> (r: CompileResult<()>)
        requires
            old(self).inv(),
        ensures
            final(self).yields(
                old(self),
                r,
                binary(old(self).toks(), old(self).reals@, old(self).draft(), 5),
            ),
            r is Ok ==> final(self).current > old(self).current,
        decreases old(self).remaining(), 8int,
    {
        let ghost t = self.toks();
        let ghost k = self.reals@;
        let ghost goal = binary(t, k, self.draft(), 5);
        proof {
            self.lemma_operand(5);
        }
        self.and_expression()?;
        loop
            invariant
                self.follows(old(self)),
                self.current > old(self).current,
                t == self.toks(),
                k == self.reals@,
                t == old(self).toks(),
                k == old(self).reals@,
                self.text() == old(self).text(),
                goal == rest(t, k, self.draft(), 5),
                goal == binary(t, k, old(self).draft(), 5),
            ensures
                self.follows(old(self)),
                self.current > old(self).current,
                goal == Ok::<Draft, Fault>(self.draft()),
            decreases self.remaining(),
        {
            if !self.match_symbol(SymbolMeaning::Or) {
                break ;
            }
            proof {
                self.lemma_operand(5);
            }
            self.and_expression()?;
            self.emit_op(OpCode::Or);
        }
        Ok(())
    }

    fn and_expression(&mut self) -> (r: CompileResult<()>)
        requires
            old(self).inv(),
        ensures
            final(self).yields(
                old(self),
                r,
                binary(old(self).toks(), old(self).reals@, old(self).draft(), 4),
            ),
            r is Ok ==> final(self).current > old(self).current,
        decreases old(self).remaining(), 7int,
    {
        let ghost t = self.toks();
        let ghost k = self.reals@;
        let ghost goal = binary(t, k, self.draft(), 4);
        proof {
            self.lemma_operand(4);
        }
        self.equality_expression()?;
        loop
            invariant
                self.follows(old(self)),
                self.current > old(self).current,
                t == self.toks(),
                k == self.reals@,
                t == old(self).toks(),
                k == old(self).reals@,
                self.text() == old(self).text(),
                goal == rest(t, k, self.draft(), 4),
                goal == binary(t, k, old(self).draft(), 4),
            ensures
                self.follows(old(self)),
                self.current > old(self).current,
                goal == Ok::<Draft, Fault>(self.draft()),
            decreases self.remaining(),
        {
            if !self.match_symbol(SymbolMeaning::And) {
                break ;
            }
            proof {
                self.lemma_operand(4);
            }
            self.equality_expression()?;
            self.emit_op(OpCode::And);
        }
        Ok(())
    }

    fn equality_expression(&mut self) -> (r: CompileResult<()>)
        requires
            old(self).inv(),
        ensures
            final(self).yields(
                old(self),
                r,
                binary(old(self).toks(), old(self).reals@, old(self).draft(), 3),
            ),
            r is Ok ==> final(self).current > old(self).current,
        decreases old(self).remaining(), 6int,
    {
        let ghost t = self.toks();
        let ghost k = self.reals@;
        let ghost goal = binary(t, k, self.draft(), 3);
        proof {
            self.lemma_operand(3);
        }
        self.comparison_expression()?;
        loop
            invariant
                self.follows(old(self)),
                self.current > old(self).current,
                t == self.toks(),
                k == self.reals@,
                t == old(self).toks(),
                k == old(self).reals@,
                self.text() == old(self).text(),
                goal == rest(t, k, self.draft(), 3),
                goal == binary(t, k, old(self).draft(), 3),
            ensures
                self.follows(old(self)),
                self.current > old(self).current,
                goal == Ok::<Draft, Fault>(self.draft()),
            decreases self.remaining(),
        {
            if self.match_symbol(SymbolMeaning::Equal) {
                proof {
                    self.lemma_operand(3);
                }
                self.comparison_expression()?;
                self.emit_op(OpCode::Eq);
            } else if self.match_symbol(SymbolMeaning::NotEqual) {
                proof {
                    self.lemma_operand(3);
                }
                self.comparison_expression()?;
                self.emit_op(OpCode::Ne);
            } else {
                break ;
            }
        }
        Ok(())
    }

    fn comparison_expression(&mut self) -> (r: CompileResult<()>)
        requires
            old(self).inv(),
        ensures
            final(self).yields(
                old(self),
                r,
                binary(old(self).toks(), old(self).reals@, old(self).draft(), 2),
            ),
            r is Ok ==> final(self).current > old(self).current,
        decreases old(self).remaining(), 5int,
    {
        let ghost t = self.toks();
        let ghost k = self.reals@;
        let ghost goal = binary(t, k, self.draft(), 2);
        proof {
            self.lemma_operand(2);
        }
        self.additive_expression()?;
        loop
            invariant
                self.follows(old(self)),
                self.current > old(self).current,
                t == self.toks(),
                k == self.reals@,
                t == old(self).toks(),
                k == old(self).reals@,
                self.text() == old(self).text(),
                goal == rest(t, k, self.draft(), 2),
                goal == binary(t, k, old(self).draft(), 2),
            ensures
                self.follows(old(self)),
                self.current > old(self).current,
                goal == Ok::<Draft, Fault>(self.draft()),
            decreases self.remaining(),
        {
            if self.match_symbol(SymbolMeaning::LessThan) {
                proof {
                    self.lemma_operand(2);
                }
                self.additive_expression()?;
                self.emit_op(OpCode::Lt);
            } else if self.match_symbol(SymbolMeaning::GreaterThan) {
                proof {
                    self.lemma_operand(2);
                }
                self.additive_expression()?;
                self.emit_op(OpCode::Gt);
            } else if self.match_symbol(SymbolMeaning::LessOrEqual) {
                proof {
                    self.lemma_operand(2);
                }
                self.additive_expression()?;
                self.emit_op(OpCode::Le);
            } else if self.match_symbol(SymbolMeaning::GreaterOrEqual) {
                proof {
                    self.lemma_operand(2);
                }
                self.additive_expression()?;
                self.emit_op(OpCode::Ge);
            } else {
                break ;
            }
        }
        Ok(())
    }

    fn additive_expression(&mut self) -> (r: CompileResult<()>)
        requires
            old(self).inv(),
        ensures
            final(self).yields(
                old(self),
                r,
                binary(old(self).toks(), old(self).reals@, old(self).draft(), 1),
            ),
            r is Ok ==> final(self).current > old(self).current,
        decreases old(self).remaining(), 4int,
    {
        let ghost t = self.toks();
        let ghost k = self.reals@;
        let ghost goal = binary(t, k, self.draft(), 1);
        proof {
            self.lemma_operand(1);
        }
        self.multiplicative_expression()?;
        loop
            invariant
                self.follows(old(self)),
                self.current > old(self).current,
                t == self.toks(),
                k == self.reals@,
                t == old(self).toks(),
                k == old(self).reals@,
                self.text() == old(self).text(),
                goal == rest(t, k, self.draft(), 1),
                goal == binary(t, k, old(self).draft(), 1),
            ensures
                self.follows(old(self)),
                self.current > old(self).current,
                goal == Ok::<Draft, Fault>(self.draft()),
            decreases self.remaining(),
        {
            if self.match_symbol(SymbolMeaning::Add) {
                proof {
                    self.lemma_operand(1);
                }
                self.multiplicative_expression()?;
                self.emit_op(OpCode::Add);
            } else if self.match_symbol(SymbolMeaning::Subtract) {
                proof {
                    self.lemma_operand(1);
                }
                self.multiplicative_expression()?;
                self.emit_op(OpCode::Sub);
            } else {
                break ;
            }
        }
        Ok(())
    }

    fn multiplicative_expression(&mut self) -> (r: CompileResult<()>)
        requires
            old(self).inv(),
        ensures
            final(self).yields(
                old(self),
                r,
                binary(old(self).toks(), old(self).reals@, old(self).draft(), 0),
            ),
            r is Ok ==> final(self).current > old(self).current,
        decreases old(self).remaining(), 3int,
    {
        let ghost t = self.toks();
        let ghost k = self.reals@;
        let ghost goal = binary(t, k, self.draft(), 0);
        proof {
            self.lemma_operand(0);
        }
        self.unary_expression()?;
        loop
            invariant
                self.follows(old(self)),
                self.current > old(self).current,
                t == self.toks(),
                k == self.reals@,
                t == old(self).toks(),
                k == old(self).reals@,
                self.text() == old(self).text(),
                goal == rest(t, k, self.draft(), 0),
                goal == binary(t, k, old(self).draft(), 0),
            ensures
                self.follows(old(self)),
                self.current > old(self).current,
                goal == Ok::<Draft, Fault>(self.draft()),
            decreases self.remaining(),
        {
            if self.match_symbol(SymbolMeaning::Multiply) {
                proof {
                    self.lemma_operand(0);
                }
                self.unary_expression()?;
                self.emit_op(OpCode::Mul);
            } else if self.match_symbol(SymbolMeaning::Divide) {
                proof {
                    self.lemma_operand(0);
                }
                self.unary_expression()?;
                self.emit_op(OpCode::Div);
            } else if self.match_symbol(SymbolMeaning::Modulo) {
                proof {
                    self.lemma_operand(0);
                }
                self.unary_expression()?;
                self.emit_op(OpCode::Mod);
            } else {
                break ;
            }
        }
        Ok(())
    }

    fn unary_expression(&mut self) -> (r: CompileResult<()>)
        requires
            old(self).inv(),
        ensures
            final(self).yields(
                old(self),
                r,
                unary(old(self).toks(), old(self).reals@, old(self).draft()),
            ),
            r is Ok ==> final(self).current > old(self).current,
        decreases old(self).remaining(), 2int,
    {
        if self.match_symbol(SymbolMeaning::Not) {
            self.unary_expression()?;
            self.emit_op(OpCode::Not);
        } else if self.match_symbol(SymbolMeaning::Subtract) {
            self.unary_expression()?;
            self.emit_op(OpCode::Neg);
        } else {
            self.primary()?;
        }
        Ok(())
    }

    /// A primary expression: a literal, a special value, the accumulator, a
    /// function call, an expression in parentheses, or a name, which a type
    /// glyph may precede.
    fn primary(&mut self) -> (r: CompileResult<()>)
        requires
            old(self).inv(),
        ensures
            final(self).yields(
                old(self),
                r,
                primary(old(self).toks(), old(self).reals@, old(self).draft()),
            ),
            r is Ok ==> final(self).current > old(self).current,
        decreases old(self).remaining(), 1int,
    {
        if self.is_at_end() {
            return Err(CompileError::UnexpectedEof { expected: String::from_str("expression") });
        }
        let index = self.advance();
        match &self.tokens[index].kind {
            TokenKind::Integer(i) => {
                let value = Value::Integer(*i);
                self.emit_constant(value)
            },
            TokenKind::Float(text) => {
                let text = text.clone();
                match self.real_of(text.as_str()) {
                    Some(value) => self.emit_constant(Value::Real(value)),
                    None => Err(CompileError::UnresolvedReal { text }),
                }
            },
            TokenKind::String(s) => {
                let value = Value::String(s.clone());
                self.emit_constant(value)
            },
            TokenKind::Boolean(b) => {
                if *b {
                    self.emit_op(OpCode::True);
                } else {
                    self.emit_op(OpCode::False);
                }
                Ok(())
            },
            TokenKind::Identifier(name) => {
                let name = name.clone();
                self.name_value(name.as_str())
            },
            TokenKind::Symbol(meaning) => {
                let meaning = *meaning;
                match meaning {
                    SymbolMeaning::Null => {
                        self.emit_op(OpCode::Null);
                        Ok(())
                    },
                    SymbolMeaning::True => {
                        self.emit_op(OpCode::True);
                        Ok(())
                    },
                    SymbolMeaning::False => {
                        self.emit_op(OpCode::False);
                        Ok(())
                    },
                    SymbolMeaning::Accumulator => {
                        self.emit_op(OpCode::LoadAcc);
                        Ok(())
                    },
                    SymbolMeaning::Call => self.function_call(),
                    SymbolMeaning::LeftParen => {
                        self.expression()?;
                        self.consume_symbol(SymbolMeaning::RightParen, ")")
                    },
                    SymbolMeaning::TypeInteger
                    | SymbolMeaning::TypeReal
                    | SymbolMeaning::TypeString
                    | SymbolMeaning::TypeBoolean => {
                        let name = self.consume_identifier("variable name")?;
                        let position = self.add_name(name.as_str())?;
                        self.emit_with_u16(OpCode::LoadVar, position);
                        Ok(())
                    },
                    _ => Err(self.unexpected(index, "expression")),
                }
            },
            _ => Err(self.unexpected(index, "expression")),
        }
    }

    /// A name used as a value: a known function becomes a function value,
    /// or a closure made of the values that it captures; any other name is
    /// a variable.
    fn name_value(&mut self, name: &str) -> (r: CompileResult<()>)
        requires
            old(self).inv(),
        ensures
            final(self).yields(
                old(self),
                r,
                name_value(old(self).toks(), old(self).draft(), name@),
            ),
            final(self).current == old(self).current,
    {
        let ghost t = self.toks();
        match self.function_indices.get(name) {
            Some(position) => {
                let captures = clone_names(&self.chunk.functions[position].capture_names);
                proof {
                    assert(texts_of(captures@) =~= self.draft().functions[position as int].capture_names);
                    assert(texts_of(captures@).len() == captures@.len());
                }
                if captures.len() > 0 {
                    if captures.len() > 255 {
                        return Err(CompileError::CaptureError { name: String::from_str(name) });
                    }
                    let ghost goal = loads(t, self.draft(), texts_of(captures@), 0);
                    let mut i: usize = 0;
                    while i < captures.len()
                        invariant
                            i <= captures.len(),
                            self.follows(old(self)),
                            self.current == old(self).current,
                            t == self.toks(),
                            t == old(self).toks(),
                            self.text() == old(self).text(),
                            goal == loads(t, self.draft(), texts_of(captures@), i as int),
                            goal == loads(t, old(self).draft(), texts_of(captures@), 0),
                            old(self).draft().indices.contains_key(name@),
                            position == old(self).draft().indices[name@],
                            texts_of(captures@) == old(self).draft().functions[position as int].capture_names,
                            0 < captures@.len() <= 255,
                            self.draft().indices == old(self).draft().indices,
                            self.draft().functions == old(self).draft().functions,
                        decreases captures.len() - i,
                    {
                        self.emit_variable_load(captures[i].as_str())?;
                        i += 1;
                    }
                    self.emit_with_u16(OpCode::MakeClosure, position as u16);
                    self.emit_byte(captures.len() as u8);
                } else {
                    self.emit_with_u16(OpCode::LoadFunc, position as u16);
                }
                Ok(())
            },
            None => self.emit_variable_load(name),
        }
    }

    /// The arguments of a call, separated by commas; returns their number.
    fn arguments(&mut self) -> (r: CompileResult<u8>)
        requires
            old(self).inv(),
        ensures
            final(self).follows(old(self)),
            match arguments(old(self).toks(), old(self).reals@, old(self).draft(), 0) {
                Ok((d, count)) => r == Ok::<u8, CompileError>(count as u8) && 0 <= count <= 255
                    && final(self).draft() == d,
                Err(f) => r matches Err(e) && reports(e, f, old(self).toks(), old(self).text()),
            },
        decreases old(self).remaining(), 10int,
    {
        let ghost t = self.toks();
        let ghost k = self.reals@;
        let ghost goal = arguments(t, k, self.draft(), 0);
        let mut count: u8 = 0;
        loop
            invariant_except_break
                goal == arguments(t, k, self.draft(), count as int),
            invariant
                self.follows(old(self)),
                t == self.toks(),
                k == self.reals@,
                t == old(self).toks(),
                k == old(self).reals@,
                self.text() == old(self).text(),
                goal == arguments(t, k, old(self).draft(), 0),
            ensures
                self.follows(old(self)),
                goal == Ok::<(Draft, int), Fault>((self.draft(), count as int)),
            decreases self.remaining(),
        {
            self.expression()?;
            if count == 255 {
                return Err(CompileError::TooManyLocals);
            }
            count = count + 1;
            if !self.match_symbol(SymbolMeaning::Separator) {
                break ;
            }
        }
        Ok(count)
    }

    /// Function call: the name and the arguments in brackets, separated by
    /// commas. A known function is called directly; any other name is
    /// loaded as a variable and applied.
    fn function_call(&mut self) -> (r: CompileResult<()>)
        requires
            old(self).inv(),
            old(self).current > 0,
        ensures
            final(self).yields(
                old(self),
                r,
                function_call(old(self).toks(), old(self).reals@, old(self).draft()),
            ),
            r is Ok ==> final(self).current > old(self).current,
        decreases old(self).remaining(), 0int,
    {
        let name = self.consume_identifier("function name")?;
        self.consume_symbol(SymbolMeaning::LeftBracket, "[")?;
        let arg_count = if self.check_symbol(SymbolMeaning::RightBracket) {
            0
        } else {
            self.arguments()?
        };
        self.consume_symbol(SymbolMeaning::RightBracket, "]")?;
        match self.function_indices.get(name.as_str()) {
            Some(position) => {
                self.emit_with_u16(OpCode::Call, position as u16);
                self.emit_byte(arg_count);
            },
            None => {
                self.emit_variable_load(name.as_str())?;
                self.emit_op(OpCode::CallClosure);
                self.emit_byte(arg_count);
            },
        }
        Ok(())
    }
}

/// A copy of each name of `names`, in order.
pub fn clone_names(names: &Vec<String>) -> (r: Vec<String>)
    ensures
        r@.len() == names@.len(),
        forall|i: int| 0 <= i < r@.len() ==> (#[trigger] r@[i])@ == names@[i]@,
{
    let mut out: Vec<String> = Vec::new();
    let mut i: usize = 0;
    while i < names.len()
        invariant
            i <= names.len(),
            out@.len() == i,
            forall|j: int| 0 <= j < i ==> (#[trigger] out@[j])@ == names@[j]@,
        decreases names.len() - i,
    {
        out.push(names[i].clone());
        i += 1;
    }
    out
}

/// An expression cannot start at the end of the source.
pub proof fn lemma_operand_at_end(t: Seq<TokenView>, k: Seq<(String, Real)>, d: Draft, level: nat)
    requires
        at_end(t, d),
    ensures
        operand(t, k, d, level) == Err::<Draft, Fault>(Fault::Ended { expected: "expression"@ }),
        binary(t, k, d, level) == Err::<Draft, Fault>(Fault::Ended { expected: "expression"@ }),
    decreases level,
{
    if level > 0 {
        lemma_operand_at_end(t, k, d, (level - 1) as nat);
    } else {
        assert(unary(t, k, d) == primary(t, k, d));
    }
}

/// An expression cannot start at the end of the source.
pub proof fn lemma_expression_at_end(t: Seq<TokenView>, k: Seq<(String, Real)>, d: Draft)
    ensures
        at_end(t, d) ==> expression(t, k, d) == Err::<Draft, Fault>(
            Fault::Ended { expected: "expression"@ },
        ),
{
    if at_end(t, d) {
        lemma_operand_at_end(t, k, d, 5);
    }
}

/// A list of elements cannot go on at the end of the source.
pub proof fn lemma_elements_at_end(
    t: Seq<TokenView>,
    k: Seq<(String, Real)>,
    d: Draft,
    count: int,
)
    ensures
        at_end(t, d) ==> elements(t, k, d, count) == Err::<(Draft, int), Fault>(
            Fault::Ended { expected: "expression"@ },
        ),
{
    lemma_expression_at_end(t, k, d);
}

/// A list of pairs cannot go on at the end of the source.
pub proof fn lemma_pairs_at_end(t: Seq<TokenView>, k: Seq<(String, Real)>, d: Draft, count: int)
    ensures
        at_end(t, d) ==> pairs(t, k, d, count) == Err::<(Draft, int), Fault>(
            Fault::Ended { expected: "expression"@ },
        ),
{
    lemma_expression_at_end(t, k, d);
}

/// Whether the end-of-program glyph is among the tokens.
pub open spec fn has_end_program(tokens: Seq<TokenView>) -> bool {
    exists|i: int|
        0 <= i < tokens.len() && (#[trigger] tokens[i]).kind == TokenKindView::Symbol(
            SymbolMeaning::EndProgram,
        )
}

impl<'a> Compiler<'a> {
    /// Compile source code into bytecode.
    ///
    /// A source that does not lex is refused with the lexer's error. The
    /// tokens of one that does compile to the chunk that the grammar gives
    /// for them, or are refused with the error that reports the grammar's
    /// fault. A program compiles only if it holds the end-of-program glyph.
    pub fn compile(&mut self, source: &str) -> (r: CompileResult<Chunk>)
        requires
            old(self).ready(),
            4 * source@.len() < usize::MAX,
        ensures
            final(self).ready(),
            final(self).table() == old(self).table(),
            final(self).lookahead() == old(self).lookahead(),
            final(self).known_reals() == old(self).known_reals(),
            match lex(source@, old(self).table(), old(self).lookahead()) {
                Err(e) => r matches Err(CompileError::LexerError(x)) && x@ == e,
                Ok(tokens) => {
                    &&& match program(tokens, old(self).known_reals()) {
                        Ok(compiled) => r matches Ok(chunk) && chunk@ == compiled
                            && chunk.well_formed(),
                        Err(f) => r matches Err(e) && reports(e, f, tokens, source@),
                    }
                    &&& r is Ok ==> has_end_program(tokens)
                },
            },
    {
        self.source_map = Some(SourceMap::new(source));
        let mut lexer = Lexer::new(source, self.symbol_table);
        let tokens = match lexer.tokenize() {
            Ok(tokens) => tokens,
            Err(e) => {
                return Err(CompileError::LexerError(e));
            },
        };
        let ghost views = token_views_of(tokens@);
        self.tokens = tokens;
        self.current = 0;
        self.chunk = Chunk::new("main");
        self.loops = Vec::new();
        self.had_end_program = false;
        self.function_stack = Vec::new();
        self.function_indices.clear();
        proof {
            assert(name_index_entries(self.function_indices.map) == no_entries());
            let d = self.draft();
            assert(d.constants =~= Seq::empty());
            assert(d.strings =~= Seq::empty());
            assert(d.functions =~= Seq::empty());
            assert(d.loops =~= Seq::empty());
            assert(d.scopes =~= Seq::empty());
            assert(d.code =~= Seq::empty());
            assert(d.lines =~= Seq::empty());
            assert(d == blank());
        }
        let ghost start = *self;
        let ghost k = self.reals@;
        let ghost goal = statements(views, k, blank());
        loop
            invariant
                self.follows(&start),
                self.symbol_table == old(self).symbol_table,
                self.reals == old(self).reals,
                k == self.reals@,
                views == self.toks(),
                self.text() == source@,
                lex(source@, old(self).table(), old(self).lookahead()) == Ok::<
                    Seq<TokenView>,
                    LexerErrorView,
                >(views),
                self.chunk.name@ == "main"@,
                goal == statements(views, k, self.draft()),
                goal == statements(views, k, blank()),
            ensures
                self.follows(&start),
                self.symbol_table == old(self).symbol_table,
                self.reals == old(self).reals,
                views == self.toks(),
                self.chunk.name@ == "main"@,
                lex(source@, old(self).table(), old(self).lookahead()) == Ok::<
                    Seq<TokenView>,
                    LexerErrorView,
                >(views),
                goal == Ok::<Draft, Fault>(self.draft()),
                goal == statements(views, k, blank()),
                k == old(self).reals@,
                self.text() == source@,
            decreases self.remaining(),
        {
            if self.is_at_end() {
                break ;
            }
            match self.statement() {
                Ok(()) => {},
                Err(e) => {
                    return Err(e);
                },
            }
        }
        if !self.had_end_program {
            return Err(CompileError::MissingEndProgram);
        }
        proof {
            let i = choose|i: int|
                0 <= i < self.current && (#[trigger] self.tokens@[i])@.kind
                    == TokenKindView::Symbol(SymbolMeaning::EndProgram);
            assert(views[i].kind == TokenKindView::Symbol(SymbolMeaning::EndProgram));
        }
        let mut chunk = Chunk::new("main");
        std::mem::swap(&mut self.chunk, &mut chunk);
        Ok(chunk)
    }
}

} // verus!
