use vstd::prelude::*;
use crate::bytecode::opcode::{Chunk, ValueType};
use crate::bytecode::value::{group_value_views, views_of, Closure, Value, ValueView};
use crate::index::{name_index_entries, no_entries, NameIndex};

verus! {

broadcast use {vstd::std_specs::vec::group_vec_axioms, group_value_views};

/// Context-related errors.
#[derive(Debug, Clone)]
pub enum ContextError {
    /// No scope in reach declares the variable.
    UndeclaredVariable { name: String },
    /// The scope already declares the variable.
    DuplicateVariable { name: String },
    /// The value's type is not the variable's declared type; both are given
    /// by their glyphs.
    TypeMismatch { expected: String, actual: String },
    /// Null was assigned to a variable that is not optional.
    NullAssignment { name: String },
    /// The call stack already holds as many frames as it may.
    CallStackOverflow,
    /// There is no frame to leave.
    CallStackUnderflow,
    /// No function is registered under the name.
    FunctionNotFound { name: String },
}

/// Variable information.
#[derive(Debug)]
pub struct Variable {
    pub value: Value,
    pub var_type: ValueType,
    pub optional: bool,
    pub mutable: bool,
}

/// The mathematical content of a [`Variable`].
pub struct VariableView {
    pub value: ValueView,
    pub var_type: ValueType,
    pub optional: bool,
    pub mutable: bool,
}

impl View for Variable {
    type V = VariableView;

    open spec fn view(&self) -> VariableView {
        VariableView {
            value: self.value@,
            var_type: self.var_type,
            optional: self.optional,
            mutable: self.mutable,
        }
    }
}

impl Variable {
    pub fn new(value: Value, var_type: ValueType, optional: bool) -> (r: Self)
        ensures
            r.value == value,
            r.var_type == var_type,
            r.optional == optional,
            r.mutable,
    {
        Self { value, var_type, optional, mutable: true }
    }

    pub fn immutable(value: Value, var_type: ValueType) -> (r: Self)
        ensures
            r.value == value,
            r.var_type == var_type,
            !r.optional,
            !r.mutable,
    {
        Self { value, var_type, optional: false, mutable: false }
    }
}

/// Whether a variable accepts a value: null only where the variable is
/// optional, and otherwise only a value of the declared type.
pub open spec fn accepts(variable: VariableView, value: ValueView) -> bool {
    if value is Null {
        variable.optional
    } else {
        value.value_type() == variable.var_type
    }
}

/// The variable after `value` was assigned to it.
pub open spec fn assigned(variable: VariableView, value: ValueView) -> VariableView {
    VariableView { value, ..variable }
}

/// `e` is the error that refuses the assignment of `value` to `variable`,
/// which is declared under `name`.
pub open spec fn refusal(
    variable: VariableView,
    value: ValueView,
    name: Seq<char>,
    e: ContextError,
) -> bool {
    if value is Null {
        e matches ContextError::NullAssignment { name: n } && n@ == name
    } else {
        e matches ContextError::TypeMismatch { expected, actual } && expected@
            == variable.var_type.glyph_text() && actual@ == value.value_type().glyph_text()
    }
}

/// `e` says that nothing declares `name`.
pub open spec fn undeclared(name: Seq<char>, e: ContextError) -> bool {
    e matches ContextError::UndeclaredVariable { name: n } && n@ == name
}

/// A scope: the variables of one call frame, or the globals, in the order of
/// their declaration.
#[derive(Debug)]
pub struct Scope {
    names: Vec<String>,
    variables: Vec<Variable>,
    index: NameIndex,
}

impl View for Scope {
    type V = Map<Seq<char>, VariableView>;

    /// The variables of the scope, by name.
    closed spec fn view(&self) -> Map<Seq<char>, VariableView> {
        Map::new(
            |name: Seq<char>| name_index_entries(self.index.map).contains_key(name),
            |name: Seq<char>| self.variables@[name_index_entries(self.index.map)[name] as int]@,
        )
    }
}

impl Scope {
    /// The names of the scope in the order of their declaration.
    pub closed spec fn declared(&self) -> Seq<Seq<char>> {
        Seq::new(self.names@.len(), |i: int| self.names@[i]@)
    }

    /// The table of positions agrees with the list of declarations.
    pub closed spec fn well_formed(&self) -> bool {
        &&& self.names@.len() == self.variables@.len()
        &&& forall|i: int|
            0 <= i < self.names@.len() ==> name_index_entries(self.index.map).contains_key(
                (#[trigger] self.names@[i])@,
            ) && name_index_entries(self.index.map)[self.names@[i]@] == i
        &&& forall|name: Seq<char>|
            (#[trigger] name_index_entries(self.index.map).contains_key(name)) ==> name_index_entries(self.index.map)[name]
                < self.names@.len() && self.names@[name_index_entries(self.index.map)[name] as int]@ == name
    }

    /// The declared names are exactly the names of the variables, each once.
    pub proof fn lemma_declared(&self)
        requires
            self.well_formed(),
        ensures
            self.declared().no_duplicates(),
            forall|name: Seq<char>| self@.contains_key(name) <==> self.declared().contains(name),
    {
        assert forall|name: Seq<char>| self@.contains_key(name) implies self.declared().contains(
            name,
        ) by {
            let p = name_index_entries(self.index.map)[name] as int;
            assert(self.declared()[p] == name);
        }
        assert forall|name: Seq<char>| self.declared().contains(name) implies self@.contains_key(
            name,
        ) by {
            let i = choose|i: int| 0 <= i < self.declared().len() && self.declared()[i] == name;
            assert(self.names@[i]@ == name);
        }
        assert forall|i: int, j: int|
            0 <= i < self.declared().len() && 0 <= j < self.declared().len() && i
                != j implies self.declared()[i] != self.declared()[j] by {
            assert(name_index_entries(self.index.map)[self.names@[i]@] == i);
            assert(name_index_entries(self.index.map)[self.names@[j]@] == j);
        }
    }

    pub fn new() -> (r: Self)
        ensures
            r.well_formed(),
            r@ == Map::<Seq<char>, VariableView>::empty(),
            r.declared().len() == 0,
    {
        let r = Self { names: Vec::new(), variables: Vec::new(), index: NameIndex::new() };
        proof {
            assert(name_index_entries(r.index.map) == no_entries());
            assert(r@ =~= Map::<Seq<char>, VariableView>::empty());
        }
        r
    }

    /// Declares a variable. A name can be declared once in a scope.
    pub fn declare(&mut self, name: String, var: Variable) -> (r: Result<(), ContextError>)
        requires
            old(self).well_formed(),
        ensures
            final(self).well_formed(),
            old(self)@.contains_key(name@) ==> (r matches Err(
                ContextError::DuplicateVariable { name: n },
            ) && n@ == name@ && final(self)@ == old(self)@ && final(self).declared() == old(self).declared()),
            !old(self)@.contains_key(name@) ==> r is Ok && final(self)@ == old(self)@.insert(
                name@,
                var@,
            ) && final(self).declared() == old(self).declared().push(name@),
    {
        if self.index.get(name.as_str()).is_some() {
            return Err(ContextError::DuplicateVariable { name });
        }
        let position = self.names.len();
        self.index.insert(name.as_str(), position);
        self.names.push(name);
        self.variables.push(var);
        proof {
            assert(self@ =~= old(self)@.insert(name@, var@));
            assert(self.declared() =~= old(self).declared().push(name@));
        }
        Ok(())
    }

    pub fn get(&self, name: &str) -> (r: Option<&Variable>)
        requires
            self.well_formed(),
        ensures
            self@.contains_key(name@) ==> (r matches Some(v) && v@ == self@[name@]),
            !self@.contains_key(name@) ==> r is None,
    {
        match self.index.get(name) {
            Some(position) => Some(&self.variables[position]),
            None => None,
        }
    }

    pub fn get_mut(&mut self, name: &str) -> (r: Option<&mut Variable>)
        requires
            old(self).well_formed(),
        ensures
            final(self).well_formed(),
            final(self).declared() == old(self).declared(),
            !old(self)@.contains_key(name@) ==> r is None && final(self)@ == old(self)@,
            old(self)@.contains_key(name@) ==> (r matches Some(v) && v@ == old(self)@[name@]
                && final(self)@ == old(self)@.insert(name@, final(v)@)),
    {
        match self.index.get(name) {
            Some(position) => {
                Some(&mut self.variables[position])
            },
            None => None,
        }
    }

    pub fn contains(&self, name: &str) -> (b: bool)
        ensures
            b == self@.contains_key(name@),
    {
        self.index.get(name).is_some()
    }

    /// Assigns to a declared variable, under the rule of [`accepts`].
    pub fn set(&mut self, name: &str, value: Value) -> (r: Result<(), ContextError>)
        requires
            old(self).well_formed(),
        ensures
            final(self).well_formed(),
            final(self).declared() == old(self).declared(),
            !old(self)@.contains_key(name@) ==> (r matches Err(e) && undeclared(name@, e)
                && final(self)@ == old(self)@),
            old(self)@.contains_key(name@) && accepts(old(self)@[name@], value@) ==> r is Ok
                && final(self)@ == old(self)@.insert(name@, assigned(old(self)@[name@], value@)),
            old(self)@.contains_key(name@) && !accepts(old(self)@[name@], value@) ==> (
            r matches Err(e) && refusal(old(self)@[name@], value@, name@, e) && final(self)@
                == old(self)@),
    {
        match self.index.get(name) {
            None => Err(ContextError::UndeclaredVariable { name: name.to_owned() }),
            Some(position) => {
                let is_null = match value {
                    Value::Null => true,
                    _ => false,
                };
                if is_null {
                    if !self.variables[position].optional {
                        return Err(ContextError::NullAssignment { name: name.to_owned() });
                    }
                } else if self.variables[position].var_type != value.value_type() {
                    return Err(
                        ContextError::TypeMismatch {
                            expected: self.variables[position].var_type.glyph(),
                            actual: value.value_type().glyph(),
                        },
                    );
                }
                let var_type = self.variables[position].var_type;
                let optional = self.variables[position].optional;
                let mutable = self.variables[position].mutable;
                self.variables[position] = Variable { value, var_type, optional, mutable };
                proof {
                    assert(self@ =~= old(self)@.insert(
                        name@,
                        assigned(old(self)@[name@], value@),
                    ));
                }
                Ok(())
            },
        }
    }
}

impl Default for Scope {
    fn default() -> (r: Self)
        ensures
            r.well_formed(),
            r@ == Map::<Seq<char>, VariableView>::empty(),
    {
        Self::new()
    }
}


/// A call frame: one function invocation in progress.
#[derive(Debug)]
pub struct CallFrame {
    /// The bytecode chunk being executed.
    pub chunk_index: usize,
    /// Instruction pointer within the chunk.
    pub ip: usize,
    /// Length of the operand stack when the frame was entered.
    pub base_pointer: usize,
    /// Local scope for this frame.
    pub scope: Scope,
    /// Name of the function.
    pub name: String,
    /// The closure being applied, if the frame applies one.
    pub closure: Option<Closure>,
}

/// The mathematical content of a [`CallFrame`].
pub struct FrameView {
    pub chunk_index: usize,
    pub ip: usize,
    pub base_pointer: usize,
    pub scope: Map<Seq<char>, VariableView>,
    pub name: Seq<char>,
    pub closure: Option<(usize, Seq<ValueView>)>,
}

impl View for CallFrame {
    type V = FrameView;

    open spec fn view(&self) -> FrameView {
        FrameView {
            chunk_index: self.chunk_index,
            ip: self.ip,
            base_pointer: self.base_pointer,
            scope: self.scope@,
            name: self.name@,
            closure: match self.closure {
                Some(c) => Some((c.function_index, views_of(c.captures@))),
                None => None,
            },
        }
    }
}

impl CallFrame {
    pub open spec fn well_formed(&self) -> bool {
        self.scope.well_formed()
    }

    pub fn new(chunk_index: usize, base_pointer: usize, name: String) -> (r: Self)
        ensures
            r.well_formed(),
            r.closure is None,
            r.name == name,
            r@ == (FrameView {
                chunk_index,
                ip: 0,
                base_pointer,
                scope: Map::empty(),
                name: name@,
                closure: None,
            }),
    {
        Self { chunk_index, ip: 0, base_pointer, scope: Scope::new(), name, closure: None }
    }

    /// Create a new call frame for a closure.
    pub fn with_closure(
        chunk_index: usize,
        base_pointer: usize,
        name: String,
        closure: Closure,
    ) -> (r: Self)
        ensures
            r.well_formed(),
            r.closure == Some(closure),
            r.name == name,
            r@ == (FrameView {
                chunk_index,
                ip: 0,
                base_pointer,
                scope: Map::empty(),
                name: name@,
                closure: Some((closure.function_index, views_of(closure.captures@))),
            }),
    {
        Self {
            chunk_index,
            ip: 0,
            base_pointer,
            scope: Scope::new(),
            name,
            closure: Some(closure),
        }
    }

    /// Replaces the captured value at `index` of the closure that the frame
    /// applies.
    pub fn set_capture(&mut self, index: usize, value: Value)
        requires
            old(self).well_formed(),
            old(self)@.closure matches Some(c) && index < c.1.len(),
        ensures
            final(self).well_formed(),
            final(self)@ == (FrameView {
                closure: with_capture(old(self)@.closure, index as int, value@),
                ..old(self)@
            }),
    {
        let mut held: Option<Closure> = None;
        std::mem::swap(&mut self.closure, &mut held);
        if let Some(mut closure) = held {
            let ghost before = closure.captures@;
            closure.captures.set(index, value);
            proof {
                assert(views_of(closure.captures@) =~= views_of(before).update(
                    index as int,
                    value@,
                ));
            }
            self.closure = Some(closure);
        }
    }
}

/// The closure of a frame after the captured value at `index` was replaced.
pub open spec fn with_capture(
    closure: Option<(usize, Seq<ValueView>)>,
    index: int,
    value: ValueView,
) -> Option<(usize, Seq<ValueView>)> {
    match closure {
        Some((function, captures)) => Some((function, captures.update(index, value))),
        None => None,
    }
}

/// Maximum call stack depth.
pub const MAX_CALL_DEPTH: usize = 1024;

/// What a `TryBegin` records, so that a later throw can unwind to it.
#[derive(Debug, Clone, Copy)]
pub struct ExceptionHandler {
    /// Where execution continues when an exception arrives.
    pub handler_ip: usize,
    /// Where the finally block starts, if there is one.
    pub finally_ip: Option<usize>,
    /// Length of the operand stack to restore.
    pub stack_depth: usize,
    /// Number of call frames to restore.
    pub frame_depth: usize,
    /// The chunk that holds the handler.
    pub chunk_index: usize,
}

impl ExceptionHandler {
    pub fn new(handler_ip: usize, stack_depth: usize, frame_depth: usize, chunk_index: usize) -> (r:
        Self)
        ensures
            r == (ExceptionHandler {
                handler_ip,
                finally_ip: None,
                stack_depth,
                frame_depth,
                chunk_index,
            }),
    {
        Self { handler_ip, finally_ip: None, stack_depth, frame_depth, chunk_index }
    }

    pub fn with_finally(self, finally_ip: usize) -> (r: Self)
        ensures
            r == (ExceptionHandler { finally_ip: Some(finally_ip), ..self }),
    {
        let mut handler = self;
        handler.finally_ip = Some(finally_ip);
        handler
    }
}

/// The views of the frames of a call stack, outermost first.
pub open spec fn frame_views_of(frames: Seq<CallFrame>) -> Seq<FrameView> {
    Seq::new(frames.len(), |i: int| frames[i]@)
}

/// The innermost frame that declares `name`, if any does.
pub open spec fn innermost(frames: Seq<FrameView>, name: Seq<char>) -> Option<int>
    decreases frames.len(),
{
    if frames.len() == 0 {
        None
    } else if frames.last().scope.contains_key(name) {
        Some(frames.len() - 1)
    } else {
        innermost(frames.drop_last(), name)
    }
}

/// The variable that `name` resolves to: that of the innermost frame that
/// declares it, else the global of that name.
pub open spec fn resolve(context: ContextView, name: Seq<char>) -> Option<VariableView> {
    match innermost(context.frames, name) {
        Some(i) => Some(context.frames[i].scope[name]),
        None => if context.globals.contains_key(name) {
            Some(context.globals[name])
        } else {
            None
        },
    }
}

/// The frames with the scope of frame `i` replaced.
pub open spec fn with_scope(
    frames: Seq<FrameView>,
    i: int,
    scope: Map<Seq<char>, VariableView>,
) -> Seq<FrameView> {
    frames.update(i, FrameView { scope, ..frames[i] })
}

/// The context after a variable was declared in the current scope: that of
/// the innermost frame, or the global scope while there is no frame. A name
/// that the scope holds already cannot be declared.
pub open spec fn declare_in(
    context: ContextView,
    name: Seq<char>,
    variable: VariableView,
) -> Option<ContextView> {
    if context.frames.len() > 0 {
        let scope = context.frames.last().scope;
        if scope.contains_key(name) {
            None
        } else {
            Some(
                ContextView {
                    frames: with_scope(
                        context.frames,
                        context.frames.len() - 1,
                        scope.insert(name, variable),
                    ),
                    ..context
                },
            )
        }
    } else if context.globals.contains_key(name) {
        None
    } else {
        Some(ContextView { globals: context.globals.insert(name, variable), ..context })
    }
}

/// What an assignment to a name comes to.
pub enum Assignment {
    /// The variable holds the value now.
    Assigned(ContextView),
    /// No scope in reach declares the name.
    Undeclared,
    /// The variable does not accept the value.
    Refused(VariableView),
}

/// The assignment of a value to a name: the innermost frame that declares
/// the name is assigned to, else the global of that name.
pub open spec fn assign_in(context: ContextView, name: Seq<char>, value: ValueView) -> Assignment {
    match innermost(context.frames, name) {
        Some(i) => {
            let variable = context.frames[i].scope[name];
            if accepts(variable, value) {
                Assignment::Assigned(
                    ContextView {
                        frames: with_scope(
                            context.frames,
                            i,
                            context.frames[i].scope.insert(name, assigned(variable, value)),
                        ),
                        ..context
                    },
                )
            } else {
                Assignment::Refused(variable)
            }
        },
        None => assign_global(context, name, value),
    }
}

/// The assignment of a value to a global.
pub open spec fn assign_global(
    context: ContextView,
    name: Seq<char>,
    value: ValueView,
) -> Assignment {
    if !context.globals.contains_key(name) {
        Assignment::Undeclared
    } else if accepts(context.globals[name], value) {
        Assignment::Assigned(
            ContextView {
                globals: context.globals.insert(name, assigned(context.globals[name], value)),
                ..context
            },
        )
    } else {
        Assignment::Refused(context.globals[name])
    }
}

/// `r` is what an assignment that comes to `outcome` returns.
pub open spec fn assignment_result(
    r: Result<(), ContextError>,
    outcome: Assignment,
    name: Seq<char>,
    value: ValueView,
) -> bool {
    match outcome {
        Assignment::Assigned(_) => r is Ok,
        Assignment::Undeclared => r matches Err(e) && undeclared(name, e),
        Assignment::Refused(variable) => r matches Err(e) && refusal(variable, value, name, e),
    }
}

/// `e` says that the scope holds `name` already.
pub open spec fn duplicate(name: Seq<char>, e: ContextError) -> bool {
    e matches ContextError::DuplicateVariable { name: n } && n@ == name
}

/// Execution context for the VM: the call stack, the globals, the loaded
/// chunks, the accumulator and the exception handlers.
#[derive(Debug)]
pub struct Context {
    frames: Vec<CallFrame>,
    globals: Scope,
    chunks: Vec<Chunk>,
    functions: NameIndex,
    accumulator: i64,
    accumulator_stack: Vec<i64>,
    /// Set by `Halt`.
    pub halted: bool,
    /// Break flag for loop control.
    pub break_flag: bool,
    /// Continue flag for loop control.
    pub continue_flag: bool,
    loop_depth: usize,
    exception_handlers: Vec<ExceptionHandler>,
    /// The exception in flight, between a throw and the catch that binds it.
    pub current_exception: Option<Value>,
}

/// The mathematical content of a [`Context`].
pub struct ContextView {
    pub frames: Seq<FrameView>,
    pub globals: Map<Seq<char>, VariableView>,
    pub chunks: Seq<Chunk>,
    pub functions: Map<Seq<char>, usize>,
    pub accumulator: i64,
    pub saved_accumulators: Seq<i64>,
    pub halted: bool,
    pub break_flag: bool,
    pub continue_flag: bool,
    pub loop_depth: usize,
    pub handlers: Seq<ExceptionHandler>,
    pub current_exception: Option<ValueView>,
}

impl View for Context {
    type V = ContextView;

    closed spec fn view(&self) -> ContextView {
        ContextView {
            frames: frame_views_of(self.frames@),
            globals: self.globals@,
            chunks: self.chunks@,
            functions: name_index_entries(self.functions.map),
            accumulator: self.accumulator,
            saved_accumulators: self.accumulator_stack@,
            halted: self.halted,
            break_flag: self.break_flag,
            continue_flag: self.continue_flag,
            loop_depth: self.loop_depth,
            handlers: self.exception_handlers@,
            current_exception: match self.current_exception {
                Some(v) => Some(v@),
                None => None,
            },
        }
    }
}

pub proof fn lemma_innermost_in_range(frames: Seq<FrameView>, name: Seq<char>)
    ensures
        innermost(frames, name) matches Some(i) ==> 0 <= i < frames.len()
            && frames[i].scope.contains_key(name),
    decreases frames.len(),
{
    if frames.len() > 0 && !frames.last().scope.contains_key(name) {
        lemma_innermost_in_range(frames.drop_last(), name);
    }
}

/// A variable of a frame that has returned cannot be reached any more: names
/// resolve in the caller's frames as they did before the call.
pub proof fn lemma_returned_scope_is_gone(context: ContextView, callee: FrameView, name: Seq<char>)
    ensures
        resolve(
            ContextView { frames: context.frames.push(callee).drop_last(), ..context },
            name,
        ) == resolve(context, name),
{
    assert(context.frames.push(callee).drop_last() =~= context.frames);
}

/// Frames that do not declare `name` do not matter to where it resolves.
pub proof fn lemma_innermost_skips(frames: Seq<FrameView>, name: Seq<char>, i: int)
    requires
        0 <= i <= frames.len(),
        forall|j: int| i <= j < frames.len() ==> !(#[trigger] frames[j]).scope.contains_key(name),
    ensures
        innermost(frames, name) == innermost(frames.take(i), name),
    decreases frames.len() - i,
{
    if i == frames.len() {
        assert(frames.take(i) =~= frames);
    } else {
        assert(!frames[frames.len() - 1].scope.contains_key(name));
        let shorter = frames.drop_last();
        assert forall|j: int| i <= j < shorter.len() implies !(#[trigger] shorter[j]).scope.contains_key(
            name,
        ) by {
            assert(shorter[j] == frames[j]);
        }
        lemma_innermost_skips(shorter, name, i);
        assert(shorter.take(i) =~= frames.take(i));
    }
}

impl Context {
    /// Every scope of the context is well formed.
    pub closed spec fn well_formed(&self) -> bool {
        &&& self.globals.well_formed()
        &&& forall|i: int| 0 <= i < self.frames@.len() ==> (#[trigger] self.frames@[i]).well_formed()
    }

    pub fn new() -> (r: Self)
        ensures
            r.well_formed(),
            r@ == (ContextView {
                frames: Seq::empty(),
                globals: Map::empty(),
                chunks: Seq::empty(),
                functions: Map::empty(),
                accumulator: 0,
                saved_accumulators: Seq::empty(),
                halted: false,
                break_flag: false,
                continue_flag: false,
                loop_depth: 0,
                handlers: Seq::empty(),
                current_exception: None,
            }),
    {
        let r = Self {
            frames: Vec::with_capacity(64),
            globals: Scope::new(),
            chunks: Vec::new(),
            functions: NameIndex::new(),
            accumulator: 0,
            accumulator_stack: Vec::new(),
            halted: false,
            break_flag: false,
            continue_flag: false,
            loop_depth: 0,
            exception_handlers: Vec::new(),
            current_exception: None,
        };
        proof {
            assert(r@.frames =~= Seq::empty());
            assert(no_entries() == Map::<Seq<char>, usize>::empty());
        }
        r
    }

    // -----------------------------------------------------------------------
    // Exception handlers
    // -----------------------------------------------------------------------
    /// Push an exception handler.
    pub fn push_exception_handler(&mut self, handler: ExceptionHandler)
        ensures
            final(self)@ == (ContextView { handlers: old(self)@.handlers.push(handler), ..old(self)@ }),
            final(self).well_formed() == old(self).well_formed(),
    {
        self.exception_handlers.push(handler);
    }

    /// Pop the current exception handler.
    pub fn pop_exception_handler(&mut self) -> (r: Option<ExceptionHandler>)
        ensures
            final(self).well_formed() == old(self).well_formed(),
            old(self)@.handlers.len() == 0 ==> r is None && final(self)@ == old(self)@,
            old(self)@.handlers.len() > 0 ==> r == Some(old(self)@.handlers.last()) && final(self)@
                == (ContextView { handlers: old(self)@.handlers.drop_last(), ..old(self)@ }),
    {
        self.exception_handlers.pop()
    }

    /// Get the current exception handler (if any).
    pub fn current_exception_handler(&self) -> (r: Option<&ExceptionHandler>)
        ensures
            self@.handlers.len() == 0 ==> r is None,
            self@.handlers.len() > 0 ==> r == Some(&self@.handlers.last()),
    {
        let n = self.exception_handlers.len();
        if n == 0 {
            None
        } else {
            Some(&self.exception_handlers[n - 1])
        }
    }

    /// Check if we have an active exception handler.
    pub fn has_exception_handler(&self) -> (b: bool)
        ensures
            b == (self@.handlers.len() > 0),
    {
        self.exception_handlers.len() != 0
    }

    /// Records the exception in flight, or clears the record.
    pub fn set_current_exception(&mut self, exception: Option<Value>)
        ensures
            final(self).well_formed() == old(self).well_formed(),
            final(self)@ == (ContextView {
                current_exception: match exception {
                    Some(v) => Some(v@),
                    None => None,
                },
                ..old(self)@
            }),
    {
        self.current_exception = exception;
    }

    /// The exception in flight, if there is one.
    pub fn exception_in_flight(&self) -> (r: Option<&Value>)
        ensures
            match r {
                Some(v) => self@.current_exception == Some(v@),
                None => self@.current_exception is None,
            },
    {
        self.current_exception.as_ref()
    }

    /// Takes the exception in flight, leaving none.
    pub fn take_current_exception(&mut self) -> (r: Option<Value>)
        ensures
            final(self).well_formed() == old(self).well_formed(),
            final(self)@ == (ContextView { current_exception: None, ..old(self)@ }),
            match r {
                Some(v) => old(self)@.current_exception == Some(v@),
                None => old(self)@.current_exception is None,
            },
    {
        self.current_exception.take()
    }

    /// Stops the machine.
    pub fn halt(&mut self)
        ensures
            final(self).well_formed() == old(self).well_formed(),
            final(self)@ == (ContextView { halted: true, ..old(self)@ }),
    {
        self.halted = true;
    }

    pub fn is_halted(&self) -> (b: bool)
        ensures
            b == self@.halted,
    {
        self.halted
    }

    /// Raises the break flag.
    pub fn request_break(&mut self)
        ensures
            final(self).well_formed() == old(self).well_formed(),
            final(self)@ == (ContextView { break_flag: true, ..old(self)@ }),
    {
        self.break_flag = true;
    }

    /// Raises the continue flag.
    pub fn request_continue(&mut self)
        ensures
            final(self).well_formed() == old(self).well_formed(),
            final(self)@ == (ContextView { continue_flag: true, ..old(self)@ }),
    {
        self.continue_flag = true;
    }

    // -----------------------------------------------------------------------
    // Chunks
    // -----------------------------------------------------------------------
    /// Add a chunk and return its index.
    pub fn add_chunk(&mut self, chunk: Chunk) -> (index: usize)
        ensures
            final(self).well_formed() == old(self).well_formed(),
            index == old(self)@.chunks.len(),
            final(self)@ == (ContextView { chunks: old(self)@.chunks.push(chunk), ..old(self)@ }),
    {
        let index = self.chunks.len();
        self.chunks.push(chunk);
        index
    }

    /// Get a chunk by index.
    pub fn get_chunk(&self, index: usize) -> (r: Option<&Chunk>)
        ensures
            index < self@.chunks.len() ==> r == Some(&self@.chunks[index as int]),
            index >= self@.chunks.len() ==> r is None,
    {
        if index < self.chunks.len() {
            Some(&self.chunks[index])
        } else {
            None
        }
    }

    /// Get the chunk that the current frame executes.
    pub fn current_chunk(&self) -> (r: Option<&Chunk>)
        ensures
            self@.frames.len() > 0 && self@.frames.last().chunk_index < self@.chunks.len() ==> r
                == Some(&self@.chunks[self@.frames.last().chunk_index as int]),
            self@.frames.len() == 0 || self@.frames.last().chunk_index >= self@.chunks.len() ==> r
                is None,
    {
        let n = self.frames.len();
        if n == 0 {
            return None;
        }
        let index = self.frames[n - 1].chunk_index;
        self.get_chunk(index)
    }

    // -----------------------------------------------------------------------
    // Call frames
    // -----------------------------------------------------------------------
    /// Push a new call frame. The call stack holds at most
    /// [`MAX_CALL_DEPTH`] frames.
    pub fn push_frame(&mut self, frame: CallFrame) -> (r: Result<(), ContextError>)
        requires
            frame.well_formed(),
        ensures
            final(self).well_formed() == old(self).well_formed(),
            old(self)@.frames.len() >= MAX_CALL_DEPTH ==> (r matches Err(
                ContextError::CallStackOverflow,
            )) && final(self)@ == old(self)@,
            old(self)@.frames.len() < MAX_CALL_DEPTH ==> r is Ok && final(self)@ == (ContextView {
                frames: old(self)@.frames.push(frame@),
                ..old(self)@
            }),
    {
        if self.frames.len() >= MAX_CALL_DEPTH {
            return Err(ContextError::CallStackOverflow);
        }
        self.frames.push(frame);
        proof {
            assert(self@.frames =~= old(self)@.frames.push(frame@));
            if old(self).well_formed() {
                assert forall|i: int| 0 <= i < self.frames@.len() implies (
                #[trigger] self.frames@[i]).well_formed() by {
                    if i < old(self).frames@.len() {
                        assert(old(self).frames@[i].well_formed());
                    }
                }
            } else {
                if self.well_formed() {
                    assert forall|i: int| 0 <= i < old(self).frames@.len() implies (
                    #[trigger] old(self).frames@[i]).well_formed() by {
                        assert(self.frames@[i].well_formed());
                    }
                }
            }
        }
        Ok(())
    }

    /// Pop the current call frame.
    pub fn pop_frame(&mut self) -> (r: Result<CallFrame, ContextError>)
        ensures
            old(self).well_formed() ==> final(self).well_formed(),
            old(self)@.frames.len() == 0 ==> (r matches Err(ContextError::CallStackUnderflow))
                && final(self)@ == old(self)@,
            old(self)@.frames.len() > 0 ==> (r matches Ok(frame) && frame@ == old(self)@.frames.last() && (old(self).well_formed() ==> frame.well_formed())) && final(self)@
                == (ContextView { frames: old(self)@.frames.drop_last(), ..old(self)@ }),
    {
        match self.frames.pop() {
            Some(frame) => {
                proof {
                    assert(self@.frames =~= old(self)@.frames.drop_last());
                    if old(self).well_formed() {
                        assert(old(self).frames@[old(self).frames@.len() - 1].well_formed());
                        assert forall|i: int| 0 <= i < self.frames@.len() implies (
                        #[trigger] self.frames@[i]).well_formed() by {
                            assert(old(self).frames@[i].well_formed());
                        }
                    }
                }
                Ok(frame)
            },
            None => Err(ContextError::CallStackUnderflow),
        }
    }

    /// Get the current call frame.
    pub fn current_frame(&self) -> (r: Option<&CallFrame>)
        ensures
            self@.frames.len() == 0 ==> r is None,
            self@.frames.len() > 0 ==> (r matches Some(frame) && frame@ == self@.frames.last() && (
            self.well_formed() ==> frame.well_formed())),
    {
        let n = self.frames.len();
        if n == 0 {
            None
        } else {
            proof {
                if self.well_formed() {
                    assert(self.frames@[n - 1].well_formed());
                }
            }
            Some(&self.frames[n - 1])
        }
    }

    /// Get mutable reference to current frame.
    pub fn current_frame_mut(&mut self) -> (r: Option<&mut CallFrame>)
        requires
            old(self).well_formed(),
        ensures
            old(self)@.frames.len() == 0 ==> r is None && final(self)@ == old(self)@ && final(self).well_formed(),
            old(self)@.frames.len() > 0 ==> (r matches Some(frame) && frame@ == old(self)@.frames.last() && frame.well_formed() && final(self)@.frames == old(self)@.frames.drop_last().push(final(frame)@) && (final(frame).well_formed() ==> final(self).well_formed())),
            final(self)@ == (ContextView { frames: final(self)@.frames, ..old(self)@ }),
    {
        let n = self.frames.len();
        if n == 0 {
            None
        } else {
            proof {
                assert(self.frames@[n - 1].well_formed());
            }
            Some(&mut self.frames[n - 1])
        }
    }

    /// Drops the frames above `depth`; a call stack that holds no more is
    /// left as it is.
    pub fn unwind_frames(&mut self, depth: usize)
        ensures
            old(self).well_formed() ==> final(self).well_formed(),
            depth < old(self)@.frames.len() ==> final(self)@ == (ContextView {
                frames: old(self)@.frames.take(depth as int),
                ..old(self)@
            }),
            depth >= old(self)@.frames.len() ==> final(self)@ == old(self)@,
    {
        if depth < self.frames.len() {
            self.frames.truncate(depth);
            proof {
                assert(self@.frames =~= old(self)@.frames.take(depth as int));
                if old(self).well_formed() {
                    assert forall|i: int| 0 <= i < self.frames@.len() implies (
                    #[trigger] self.frames@[i]).well_formed() by {
                        assert(old(self).frames@[i].well_formed());
                    }
                }
            }
        }
    }

    /// Get call stack depth.
    pub fn call_depth(&self) -> (n: usize)
        ensures
            n == self@.frames.len(),
    {
        self.frames.len()
    }

    /// The instruction pointer of the current frame.
    pub fn current_ip(&self) -> (r: Option<usize>)
        ensures
            self@.frames.len() == 0 ==> r is None,
            self@.frames.len() > 0 ==> r == Some(self@.frames.last().ip),
    {
        let n = self.frames.len();
        if n == 0 {
            None
        } else {
            Some(self.frames[n - 1].ip)
        }
    }

    /// Moves the instruction pointer of the current frame. Without a frame
    /// nothing happens.
    pub fn set_ip(&mut self, ip: usize)
        ensures
            final(self).well_formed() == old(self).well_formed(),
            old(self)@.frames.len() == 0 ==> final(self)@ == old(self)@,
            old(self)@.frames.len() > 0 ==> final(self)@ == (ContextView {
                frames: old(self)@.frames.update(
                    old(self)@.frames.len() - 1,
                    FrameView { ip, ..old(self)@.frames.last() },
                ),
                ..old(self)@
            }),
    {
        let n = self.frames.len();
        if n > 0 {
            self.frames[n - 1].ip = ip;
            proof {
                assert(self@.frames =~= old(self)@.frames.update(
                    old(self)@.frames.len() - 1,
                    FrameView { ip, ..old(self)@.frames.last() },
                ));
                assert forall|i: int| 0 <= i < n implies self.frames@[i].well_formed()
                    == old(self).frames@[i].well_formed() by {}
            }
        }
    }

    // -----------------------------------------------------------------------
    // Accumulator
    // -----------------------------------------------------------------------
    /// Get the current accumulator value.
    pub fn accumulator(&self) -> (value: i64)
        ensures
            value == self@.accumulator,
    {
        self.accumulator
    }

    /// Set the accumulator value.
    pub fn set_accumulator(&mut self, value: i64)
        ensures
            final(self).well_formed() == old(self).well_formed(),
            final(self)@ == (ContextView { accumulator: value, ..old(self)@ }),
    {
        self.accumulator = value;
    }

    /// Increment the accumulator.
    pub fn increment_accumulator(&mut self)
        requires
            old(self)@.accumulator < i64::MAX,
        ensures
            final(self).well_formed() == old(self).well_formed(),
            final(self)@ == (ContextView {
                accumulator: (old(self)@.accumulator + 1) as i64,
                ..old(self)@
            }),
    {
        self.accumulator = self.accumulator + 1;
    }

    /// Decrement the accumulator.
    pub fn decrement_accumulator(&mut self)
        requires
            old(self)@.accumulator > i64::MIN,
        ensures
            final(self).well_formed() == old(self).well_formed(),
            final(self)@ == (ContextView {
                accumulator: (old(self)@.accumulator - 1) as i64,
                ..old(self)@
            }),
    {
        self.accumulator = self.accumulator - 1;
    }

    /// Save the accumulator and start a nested one at `initial`.
    pub fn push_accumulator(&mut self, initial: i64)
        ensures
            final(self).well_formed() == old(self).well_formed(),
            final(self)@ == (ContextView {
                accumulator: initial,
                saved_accumulators: old(self)@.saved_accumulators.push(old(self)@.accumulator),
                ..old(self)@
            }),
    {
        self.accumulator_stack.push(self.accumulator);
        self.accumulator = initial;
    }

    /// Restore the accumulator saved last; with none saved nothing happens.
    pub fn pop_accumulator(&mut self)
        ensures
            final(self).well_formed() == old(self).well_formed(),
            old(self)@.saved_accumulators.len() == 0 ==> final(self)@ == old(self)@,
            old(self)@.saved_accumulators.len() > 0 ==> final(self)@ == (ContextView {
                accumulator: old(self)@.saved_accumulators.last(),
                saved_accumulators: old(self)@.saved_accumulators.drop_last(),
                ..old(self)@
            }),
    {
        match self.accumulator_stack.pop() {
            Some(previous) => {
                self.accumulator = previous;
            },
            None => {},
        }
    }

    // -----------------------------------------------------------------------
    // Loops
    // -----------------------------------------------------------------------
    /// Enter a loop.
    pub fn enter_loop(&mut self)
        requires
            old(self)@.loop_depth < usize::MAX,
        ensures
            final(self).well_formed() == old(self).well_formed(),
            final(self)@ == (ContextView {
                loop_depth: (old(self)@.loop_depth + 1) as usize,
                ..old(self)@
            }),
    {
        self.loop_depth = self.loop_depth + 1;
    }

    /// Exit a loop: one level less, and both loop flags cleared.
    pub fn exit_loop(&mut self)
        ensures
            final(self).well_formed() == old(self).well_formed(),
            final(self)@ == (ContextView {
                loop_depth: if old(self)@.loop_depth > 0 {
                    (old(self)@.loop_depth - 1) as usize
                } else {
                    0
                },
                break_flag: false,
                continue_flag: false,
                ..old(self)@
            }),
    {
        if self.loop_depth > 0 {
            self.loop_depth = self.loop_depth - 1;
        }
        self.break_flag = false;
        self.continue_flag = false;
    }

    /// Check if we're inside a loop.
    pub fn in_loop(&self) -> (b: bool)
        ensures
            b == (self@.loop_depth > 0),
    {
        self.loop_depth > 0
    }

    // -----------------------------------------------------------------------
    // Functions
    // -----------------------------------------------------------------------
    /// Register a function under a name.
    pub fn register_function(&mut self, name: String, chunk_index: usize)
        ensures
            final(self).well_formed() == old(self).well_formed(),
            final(self)@ == (ContextView {
                functions: old(self)@.functions.insert(name@, chunk_index),
                ..old(self)@
            }),
    {
        self.functions.insert(name.as_str(), chunk_index);
    }

    /// Get a function's chunk index.
    pub fn get_function(&self, name: &str) -> (r: Result<usize, ContextError>)
        ensures
            self@.functions.contains_key(name@) ==> r == Ok::<usize, ContextError>(
                self@.functions[name@],
            ),
            !self@.functions.contains_key(name@) ==> (r matches Err(
                ContextError::FunctionNotFound { name: n },
            ) && n@ == name@),
    {
        match self.functions.get(name) {
            Some(index) => Ok(index),
            None => Err(ContextError::FunctionNotFound { name: name.to_owned() }),
        }
    }
    // -----------------------------------------------------------------------
    // Variables
    // -----------------------------------------------------------------------
    /// Declare a variable in the current scope: that of the innermost frame,
    /// or the global scope while there is no frame.
    pub fn declare_variable(
        &mut self,
        name: String,
        value: Value,
        var_type: ValueType,
        optional: bool,
    ) -> (r: Result<(), ContextError>)
        requires
            old(self).well_formed(),
        ensures
            final(self).well_formed(),
            final(self)@.frames.len() == old(self)@.frames.len(),
            match declare_in(
                old(self)@,
                name@,
                VariableView { value: value@, var_type, optional, mutable: true },
            ) {
                Some(context) => r is Ok && final(self)@ == context,
                None => (r matches Err(e) && duplicate(name@, e)) && final(self)@ == old(self)@,
            },
    {
        let var = Variable::new(value, var_type, optional);
        let n = self.frames.len();
        if n > 0 {
            let ghost before = self@;
            proof {
                assert(self.frames@[n - 1].well_formed());
            }
            let r = self.frames[n - 1].scope.declare(name, var);
            proof {
                assert forall|i: int| 0 <= i < n implies (#[trigger] self.frames@[i]).well_formed() by {
                    if i < n - 1 {
                        assert(old(self).frames@[i].well_formed());
                    }
                }
                if r is Ok {
                    assert(self@.frames =~= with_scope(
                        before.frames,
                        n - 1,
                        before.frames.last().scope.insert(name@, var@),
                    ));
                } else {
                    assert(self@.frames =~= before.frames);
                }
            }
            r
        } else {
            self.globals.declare(name, var)
        }
    }

    /// Get a variable value, searching scopes from innermost to global.
    pub fn get_variable(&self, name: &str) -> (r: Result<&Value, ContextError>)
        requires
            self.well_formed(),
        ensures
            match resolve(self@, name@) {
                Some(variable) => r matches Ok(value) && value@ == variable.value,
                None => r matches Err(e) && undeclared(name@, e),
            },
    {
        let n = self.frames.len();
        let mut i: usize = n;
        while i > 0
            invariant
                i <= n,
                n == self.frames@.len(),
                self.well_formed(),
                forall|j: int|
                    i <= j < n ==> !(#[trigger] frame_views_of(self.frames@)[j]).scope.contains_key(
                        name@,
                    ),
            decreases i,
        {
            i -= 1;
            proof {
                assert(self.frames@[i as int].well_formed());
            }
            match self.frames[i].scope.get(name) {
                Some(var) => {
                    proof {
                        let views = frame_views_of(self.frames@);
                        lemma_innermost_skips(views, name@, i + 1);
                        assert(views.take(i + 1).last() == views[i as int]);
                    }
                    return Ok(&var.value);
                },
                None => {},
            }
        }
        proof {
            let views = frame_views_of(self.frames@);
            lemma_innermost_skips(views, name@, 0);
            assert(views.take(0).len() == 0);
        }
        match self.globals.get(name) {
            Some(var) => Ok(&var.value),
            None => Err(ContextError::UndeclaredVariable { name: name.to_owned() }),
        }
    }

    /// Set a variable value: the innermost frame that declares the name is
    /// assigned to, else the global of that name. The assignment is refused
    /// where the variable does not accept the value.
    pub fn set_variable(&mut self, name: &str, value: Value) -> (r: Result<(), ContextError>)
        requires
            old(self).well_formed(),
        ensures
            final(self).well_formed(),
            final(self)@.frames.len() == old(self)@.frames.len(),
            assignment_result(r, assign_in(old(self)@, name@, value@), name@, value@),
            match assign_in(old(self)@, name@, value@) {
                Assignment::Assigned(context) => final(self)@ == context,
                _ => final(self)@ == old(self)@,
            },
    {
        let n = self.frames.len();
        let ghost before = self@;
        let mut i: usize = n;
        while i > 0
            invariant
                i <= n,
                n == self.frames@.len(),
                self.well_formed(),
                *self == *old(self),
                before == self@,
                forall|j: int|
                    i <= j < n ==> !(#[trigger] frame_views_of(self.frames@)[j]).scope.contains_key(
                        name@,
                    ),
            decreases i,
        {
            i -= 1;
            proof {
                assert(self.frames@[i as int].well_formed());
            }
            if self.frames[i].scope.contains(name) {
                proof {
                    let views = frame_views_of(self.frames@);
                    lemma_innermost_skips(views, name@, i + 1);
                    assert(views.take(i + 1).last() == views[i as int]);
                }
                let r = self.frames[i].scope.set(name, value);
                proof {
                    assert forall|k: int| 0 <= k < n implies (#[trigger] self.frames@[k]).well_formed() by {
                        if k != i {
                            assert(old(self).frames@[k].well_formed());
                        }
                    }
                    if r is Ok {
                        assert(self@.frames =~= with_scope(
                            before.frames,
                            i as int,
                            before.frames[i as int].scope.insert(
                                name@,
                                assigned(before.frames[i as int].scope[name@], value@),
                            ),
                        ));
                    } else {
                        assert(self@.frames =~= before.frames);
                    }
                }
                return r;
            }
        }
        proof {
            let views = frame_views_of(self.frames@);
            lemma_innermost_skips(views, name@, 0);
            assert(views.take(0).len() == 0);
        }
        self.globals.set(name, value)
    }

    /// Declare a global variable.
    pub fn declare_global(
        &mut self,
        name: String,
        value: Value,
        var_type: ValueType,
        optional: bool,
    ) -> (r: Result<(), ContextError>)
        requires
            old(self).well_formed(),
        ensures
            final(self).well_formed(),
            old(self)@.globals.contains_key(name@) ==> (r matches Err(
                ContextError::DuplicateVariable { name: n },
            ) && n@ == name@) && final(self)@ == old(self)@,
            !old(self)@.globals.contains_key(name@) ==> r is Ok && final(self)@ == (ContextView {
                globals: old(self)@.globals.insert(
                    name@,
                    VariableView { value: value@, var_type, optional, mutable: true },
                ),
                ..old(self)@
            }),
    {
        let var = Variable::new(value, var_type, optional);
        self.globals.declare(name, var)
    }

    /// Get a global variable.
    pub fn get_global(&self, name: &str) -> (r: Result<&Value, ContextError>)
        requires
            self.well_formed(),
        ensures
            self@.globals.contains_key(name@) ==> (r matches Ok(value) && value@
                == self@.globals[name@].value),
            !self@.globals.contains_key(name@) ==> (r matches Err(e) && undeclared(name@, e)),
    {
        match self.globals.get(name) {
            Some(var) => Ok(&var.value),
            None => Err(ContextError::UndeclaredVariable { name: name.to_owned() }),
        }
    }

    /// Set a global variable, where it accepts the value.
    pub fn set_global(&mut self, name: &str, value: Value) -> (r: Result<(), ContextError>)
        requires
            old(self).well_formed(),
        ensures
            final(self).well_formed(),
            assignment_result(r, assign_global(old(self)@, name@, value@), name@, value@),
            match assign_global(old(self)@, name@, value@) {
                Assignment::Assigned(context) => final(self)@ == context,
                _ => final(self)@ == old(self)@,
            },
    {
        self.globals.set(name, value)
    }
}

impl Default for Context {
    fn default() -> (r: Self)
        ensures
            r.well_formed(),
            r@ == (ContextView {
                frames: Seq::empty(),
                globals: Map::empty(),
                chunks: Seq::empty(),
                functions: Map::empty(),
                accumulator: 0,
                saved_accumulators: Seq::empty(),
                halted: false,
                break_flag: false,
                continue_flag: false,
                loop_depth: 0,
                handlers: Seq::empty(),
                current_exception: None,
            }),
    {
        Self::new()
    }
}

} // verus!
