use vstd::prelude::*;
use crate::bytecode::opcode::{high_byte, low_byte, OpCode, ValueType};
use crate::grammar::{
    accumulator_statement, arguments, arms, array_declaration, assignment, at_end, at_stop,
    begun, behind, binary, block, bracketed, by_name, catch_part, elements, emit, expression,
    finally_part, function_call, function_definition, identifier, if_statement, in_brackets,
    jump, kind, load, loads, loop_statement, map_declaration, match_statement, missing,
    name_value, names_of, on, onward, onward_with, op, operand, operator_here, pairs, parameters,
    parameters_from, past_separator, patched, patched_all, pooled, primary, remaining, rest,
    return_statement, simple_assignment, site, skip, statement, statements, step, take,
    take_equals, try_statement, type_at, unary, variable_declaration, with_local, Draft, Fault,
    LoopView, Outcome, ScopeView,
};
use crate::lexer::symbols::{TokenKindView, TokenView};
use crate::number::Real;
use crate::symbols::meaning::SymbolMeaning;

verus! {

// ---------------------------------------------------------------------------
// The cursor never moves back.
//
// The grammar keeps the cursor of each part of a construct no further back
// than where the part began; that is what makes its descent well founded.
// The lemmas of this module show that each construct ends where it began or
// behind it, so that nothing is changed by that.
// ---------------------------------------------------------------------------

/// An outcome that is a draft has its cursor at `at` or behind it.
pub open spec fn reaches(o: Outcome, at: nat) -> bool {
    o matches Ok(d) ==> d.cursor >= at
}

/// The same for an outcome that carries something with the draft.
pub open spec fn reaches_with<T>(o: Result<(Draft, T), Fault>, at: nat) -> bool {
    o matches Ok((d, _)) ==> d.cursor >= at
}

/// Loads do not move the cursor.
pub proof fn lemma_loads(t: Seq<TokenView>, d: Draft, names: Seq<Seq<char>>, from: int)
    ensures
        loads(t, d, names, from) matches Ok(n) ==> n.cursor == d.cursor,
    decreases names.len() - from,
{
    if 0 <= from < names.len() {
        match load(t, d, names[from]) {
            Ok(next) => lemma_loads(t, next, names, from + 1),
            Err(_) => {},
        }
    }
}

/// A name used as a value does not move the cursor.
pub proof fn lemma_name_value(t: Seq<TokenView>, d: Draft, name: Seq<char>)
    ensures
        name_value(t, d, name) matches Ok(n) ==> n.cursor == d.cursor,
{
    if d.indices.contains_key(name) {
        lemma_loads(t, d, d.functions[d.indices[name] as int].capture_names, 0);
    }
}

/// Patches do not move the cursor.
pub proof fn lemma_patched_all(d: Draft, sites: Seq<usize>, from: int)
    ensures
        patched_all(d, sites, from) matches Ok(n) ==> n.cursor == d.cursor,
    decreases sites.len() - from,
{
    if 0 <= from < sites.len() {
        match patched(d, sites[from]) {
            Ok(next) => lemma_patched_all(next, sites, from + 1),
            Err(_) => {},
        }
    }
}

/// Parameters end where they begin or behind it.
pub proof fn lemma_parameters_from(
    t: Seq<TokenView>,
    d: Draft,
    before: Seq<(Seq<char>, ValueType)>,
)
    ensures
        reaches_with(parameters_from(t, d, before), d.cursor),
    decreases remaining(t, d),
{
    let typed = step(t, d);
    if type_at(t, behind(typed)) is Some {
        match identifier(t, typed) {
            Some(name) => {
                let named = step(t, typed);
                if on(t, named, SymbolMeaning::Separator) {
                    lemma_parameters_from(
                        t,
                        step(t, named),
                        before.push(
                            (
                                name,
                                type_at(t, behind(typed))->0,
                            ),
                        ),
                    );
                }
            },
            None => {},
        }
    }
}

pub proof fn lemma_parameters(t: Seq<TokenView>, d: Draft)
    ensures
        reaches_with(parameters(t, d), d.cursor),
{
    if !on(t, d, SymbolMeaning::RightBracket) {
        lemma_parameters_from(t, d, Seq::empty());
    }
}

/// A call ends behind where it begins.
pub proof fn lemma_function_call(t: Seq<TokenView>, k: Seq<(String, Real)>, d: Draft)
    ensures
        reaches(function_call(t, k, d), d.cursor + 1),
    decreases remaining(t, d), 0int,
{
    if identifier(t, d) is Some {
        match take(t, step(t, d), SymbolMeaning::LeftBracket, "["@) {
            Ok(open) => {
                if !on(t, open, SymbolMeaning::RightBracket) {
                    lemma_arguments(t, k, open, 0);
                }
            },
            Err(_) => {},
        }
    }
}

pub proof fn lemma_arguments(t: Seq<TokenView>, k: Seq<(String, Real)>, d: Draft, count: int)
    ensures
        reaches_with(arguments(t, k, d, count), d.cursor + 1),
    decreases remaining(t, d), 22int,
{
    lemma_expression(t, k, d);
    match onward(d.cursor + 1, expression(t, k, d)) {
        Ok(next) => {
            if count < 255 && on(t, next, SymbolMeaning::Separator) {
                lemma_arguments(t, k, step(t, next), count + 1);
            }
        },
        Err(_) => {},
    }
}

/// A primary expression ends behind where it begins.
pub proof fn lemma_primary(t: Seq<TokenView>, k: Seq<(String, Real)>, d: Draft)
    ensures
        reaches(primary(t, k, d), d.cursor + 1),
    decreases remaining(t, d), 1int,
{
    let read = step(t, d);
    match kind(t, d) {
        TokenKindView::Identifier(name) => {
            lemma_name_value(t, read, name);
        },
        TokenKindView::Symbol(SymbolMeaning::Call) => {
            lemma_function_call(t, k, read);
        },
        TokenKindView::Symbol(SymbolMeaning::LeftParen) => {
            lemma_expression(t, k, read);
        },
        _ => {},
    }
}

pub proof fn lemma_unary(t: Seq<TokenView>, k: Seq<(String, Real)>, d: Draft)
    ensures
        reaches(unary(t, k, d), d.cursor + 1),
    decreases remaining(t, d), 2int,
{
    if on(t, d, SymbolMeaning::Not) || on(t, d, SymbolMeaning::Subtract) {
        lemma_unary(t, k, step(t, d));
    } else {
        lemma_primary(t, k, d);
    }
}

pub proof fn lemma_binary(t: Seq<TokenView>, k: Seq<(String, Real)>, d: Draft, level: nat)
    ensures
        reaches(binary(t, k, d, level), d.cursor + 1),
    decreases remaining(t, d), 5 + 3 * level,
{
    lemma_operand(t, k, d, level);
    match onward(d.cursor, operand(t, k, d, level)) {
        Ok(left) => lemma_rest(t, k, left, level),
        Err(_) => {},
    }
}

pub proof fn lemma_operand(t: Seq<TokenView>, k: Seq<(String, Real)>, d: Draft, level: nat)
    ensures
        reaches(operand(t, k, d, level), d.cursor + 1),
    decreases remaining(t, d), 4 + 3 * level,
{
    if level == 0 {
        lemma_unary(t, k, d);
    } else {
        lemma_binary(t, k, d, (level - 1) as nat);
    }
}

pub proof fn lemma_rest(t: Seq<TokenView>, k: Seq<(String, Real)>, d: Draft, level: nat)
    ensures
        reaches(rest(t, k, d, level), d.cursor),
    decreases remaining(t, d), 3 + 3 * level,
{
    match operator_here(t, d, level as int) {
        Some(o) => {
            lemma_operand(t, k, step(t, d), level);
            match onward(d.cursor + 1, operand(t, k, step(t, d), level)) {
                Ok(right) => lemma_rest(t, k, op(t, right, o), level),
                Err(_) => {},
            }
        },
        None => {},
    }
}

/// An expression ends behind where it begins.
pub proof fn lemma_expression(t: Seq<TokenView>, k: Seq<(String, Real)>, d: Draft)
    ensures
        reaches(expression(t, k, d), d.cursor + 1),
    decreases remaining(t, d), 21int,
{
    lemma_binary(t, k, d, 5);
}

pub proof fn lemma_in_brackets(t: Seq<TokenView>, k: Seq<(String, Real)>, d: Draft)
    ensures
        reaches(in_brackets(t, k, d), d.cursor + 1),
    decreases remaining(t, d), 22int,
{
    match take(t, d, SymbolMeaning::LeftBracket, "["@) {
        Ok(open) => lemma_expression(t, k, open),
        Err(_) => {},
    }
}

pub proof fn lemma_bracketed(
    t: Seq<TokenView>,
    k: Seq<(String, Real)>,
    d: Draft,
    o: Option<OpCode>,
)
    ensures
        reaches(bracketed(t, k, d, o), d.cursor),
    decreases remaining(t, d), 23int,
{
    lemma_in_brackets(t, k, d);
}

pub proof fn lemma_variable_declaration(t: Seq<TokenView>, k: Seq<(String, Real)>, d: Draft)
    ensures
        reaches(variable_declaration(t, k, d), d.cursor),
    decreases remaining(t, d), 23int,
{
    let marked = skip(t, d, SymbolMeaning::Null);
    match identifier(t, marked) {
        Some(name) => {
            let named = with_local(pooled(step(t, marked), name), name);
            if kind(t, named) is Equals {
                lemma_expression(t, k, step(t, named));
            }
        },
        None => {},
    }
}

pub proof fn lemma_assignment(t: Seq<TokenView>, k: Seq<(String, Real)>, d: Draft)
    ensures
        reaches(assignment(t, k, d), d.cursor),
    decreases remaining(t, d), 23int,
{
    lemma_in_brackets(t, k, d);
}

pub proof fn lemma_simple_assignment(t: Seq<TokenView>, k: Seq<(String, Real)>, d: Draft)
    ensures
        reaches(simple_assignment(t, k, d), d.cursor + 1),
    decreases remaining(t, d), 23int,
{
    match identifier(t, d) {
        Some(name) => match take_equals(t, pooled(step(t, d), name)) {
            Ok(assigned) => lemma_expression(t, k, assigned),
            Err(_) => {},
        },
        None => {},
    }
}

pub proof fn lemma_accumulator_statement(t: Seq<TokenView>, k: Seq<(String, Real)>, d: Draft)
    ensures
        reaches(accumulator_statement(t, k, d), d.cursor),
    decreases remaining(t, d), 23int,
{
    if kind(t, d) is Equals {
        lemma_expression(t, k, step(t, d));
    }
}

pub proof fn lemma_return_statement(t: Seq<TokenView>, k: Seq<(String, Real)>, d: Draft)
    ensures
        reaches(return_statement(t, k, d), d.cursor),
    decreases remaining(t, d), 24int,
{
    if on(t, d, SymbolMeaning::LeftBracket) {
        lemma_expression(t, k, step(t, d));
    }
}

pub proof fn lemma_elements(t: Seq<TokenView>, k: Seq<(String, Real)>, d: Draft, count: int)
    ensures
        reaches_with(elements(t, k, d, count), d.cursor + 1),
    decreases remaining(t, d), 22int,
{
    lemma_expression(t, k, d);
    match onward(d.cursor + 1, expression(t, k, d)) {
        Ok(next) => {
            let past = skip(t, next, SymbolMeaning::Separator);
            if count < 65535 && !on(t, next, SymbolMeaning::RightBracket) && !at_end(t, past) {
                lemma_elements(t, k, past, count + 1);
            }
        },
        Err(_) => {},
    }
}

pub proof fn lemma_array_declaration(t: Seq<TokenView>, k: Seq<(String, Real)>, d: Draft)
    ensures
        reaches(array_declaration(t, k, d), d.cursor),
    decreases remaining(t, d), 23int,
{
    match identifier(t, d) {
        Some(name) => match take_equals(t, pooled(step(t, d), name)) {
            Ok(assigned) => match take(t, assigned, SymbolMeaning::LeftBracket, "["@) {
                Ok(open) => {
                    if !on(t, open, SymbolMeaning::RightBracket) {
                        lemma_elements(t, k, open, 0);
                    }
                },
                Err(_) => {},
            },
            Err(_) => {},
        },
        None => {},
    }
}

pub proof fn lemma_pairs(t: Seq<TokenView>, k: Seq<(String, Real)>, d: Draft, count: int)
    ensures
        reaches_with(pairs(t, k, d, count), d.cursor + 1),
    decreases remaining(t, d), 22int,
{
    lemma_expression(t, k, d);
    match onward(d.cursor + 1, expression(t, k, d)) {
        Ok(key) => match take(t, key, SymbolMeaning::MapArrow, "⇒"@) {
            Ok(pointed) => {
                lemma_expression(t, k, pointed);
                match onward(pointed.cursor, expression(t, k, pointed)) {
                    Ok(next) => {
                        let past = past_separator(t, next);
                        if count < 65535 && !on(t, next, SymbolMeaning::RightBrace) && !at_end(
                            t,
                            past,
                        ) {
                            lemma_pairs(t, k, past, count + 1);
                        }
                    },
                    Err(_) => {},
                }
            },
            Err(_) => {},
        },
        Err(_) => {},
    }
}

pub proof fn lemma_map_declaration(t: Seq<TokenView>, k: Seq<(String, Real)>, d: Draft)
    ensures
        reaches(map_declaration(t, k, d), d.cursor),
    decreases remaining(t, d), 23int,
{
    match identifier(t, d) {
        Some(name) => match take_equals(t, pooled(step(t, d), name)) {
            Ok(assigned) => match take(t, assigned, SymbolMeaning::LeftBrace, "{"@) {
                Ok(open) => {
                    if !on(t, open, SymbolMeaning::RightBrace) {
                        lemma_pairs(t, k, open, 0);
                    }
                },
                Err(_) => {},
            },
            Err(_) => {},
        },
        None => {},
    }
}

pub proof fn lemma_loop_statement(t: Seq<TokenView>, k: Seq<(String, Real)>, d: Draft)
    ensures
        reaches(loop_statement(t, k, d), d.cursor),
    decreases remaining(t, d), 32int,
{
    lemma_in_brackets(t, k, d);
    match onward(d.cursor, in_brackets(t, k, d)) {
        Ok(tested) => {
            let entered = Draft {
                loops: tested.loops.push(
                    LoopView { start: d.code.len() as usize, breaks: Seq::empty() },
                ),
                ..jump(t, tested, OpCode::JumpIfFalse)
            };
            lemma_block(t, k, entered, SymbolMeaning::LoopEnd, None, None);
            match block(t, k, entered, SymbolMeaning::LoopEnd, None, None) {
                Ok(body) => match take(t, body, SymbolMeaning::LoopEnd, "⊃"@) {
                    Ok(closed) => {
                        let left = op(
                            t,
                            Draft { loops: closed.loops.drop_last(), ..closed },
                            OpCode::Loop,
                        );
                        let distance = left.code.len() - d.code.len();
                        match patched(
                            emit(
                                t,
                                left,
                                seq![
                                    low_byte(distance + 2),
                                    high_byte(distance + 2),
                                ],
                            ),
                            site(tested),
                        ) {
                            Ok(out) => lemma_patched_all(out, closed.loops.last().breaks, 0),
                            Err(_) => {},
                        }
                    },
                    Err(_) => {},
                },
                Err(_) => {},
            }
        },
        Err(_) => {},
    }
}

pub proof fn lemma_if_statement(t: Seq<TokenView>, k: Seq<(String, Real)>, d: Draft)
    ensures
        reaches(if_statement(t, k, d), d.cursor),
    decreases remaining(t, d), 32int,
{
    lemma_expression(t, k, d);
    match onward(d.cursor, expression(t, k, d)) {
        Ok(tested) => match take(t, tested, SymbolMeaning::RightBracket, "]"@) {
            Ok(closed) => {
                let entered = jump(t, closed, OpCode::JumpIfFalse);
                lemma_block(t, k, entered, SymbolMeaning::Else, Some(SymbolMeaning::IfEnd), None);
                match onward(
                    closed.cursor,
                    block(t, k, entered, SymbolMeaning::Else, Some(SymbolMeaning::IfEnd), None),
                ) {
                    Ok(then) => {
                        if on(t, then, SymbolMeaning::Else) {
                            let other = step(t, then);
                            match patched(jump(t, other, OpCode::Jump), site(closed)) {
                                Ok(landed) => lemma_block(
                                    t,
                                    k,
                                    landed,
                                    SymbolMeaning::IfEnd,
                                    None,
                                    None,
                                ),
                                Err(_) => {},
                            }
                        }
                    },
                    Err(_) => {},
                }
            },
            Err(_) => {},
        },
        Err(_) => {},
    }
}

pub proof fn lemma_function_definition(t: Seq<TokenView>, k: Seq<(String, Real)>, d: Draft)
    ensures
        reaches(function_definition(t, k, d), d.cursor),
    decreases remaining(t, d), 32int,
{
    match identifier(t, d) {
        Some(name) => match take(t, step(t, d), SymbolMeaning::LeftBracket, "["@) {
            Ok(open) => {
                lemma_parameters(t, open);
                match onward_with(open.cursor, parameters(t, open)) {
                    Ok((listed, params)) => match take(
                        t,
                        listed,
                        SymbolMeaning::RightBracket,
                        "]"@,
                    ) {
                        Ok(closed) => {
                            let skipped = jump(t, closed, OpCode::Jump);
                            let entered = Draft {
                                scopes: skipped.scopes.push(
                                    ScopeView {
                                        name,
                                        arity: params.len() as u8,
                                        params,
                                        start: skipped.code.len() as usize,
                                        captures: Seq::empty(),
                                        locals: names_of(params),
                                        is_closure: false,
                                    },
                                ),
                                ..skipped
                            };
                            if params.len() <= 255 && !d.indices.contains_key(name) {
                                lemma_block(
                                    t,
                                    k,
                                    entered,
                                    SymbolMeaning::FunctionEnd,
                                    None,
                                    None,
                                );
                            }
                        },
                        Err(_) => {},
                    },
                    Err(_) => {},
                }
            },
            Err(_) => {},
        },
        None => {},
    }
}

pub proof fn lemma_arms(t: Seq<TokenView>, k: Seq<(String, Real)>, d: Draft, ends: Seq<usize>)
    ensures
        reaches_with(arms(t, k, d, ends), d.cursor),
    decreases remaining(t, d), 25int,
{
    if on(t, d, SymbolMeaning::MatchArm) {
        let copied = op(t, step(t, d), OpCode::Dup);
        if on(t, copied, SymbolMeaning::Wildcard) {
            match take(
                t,
                op(t, step(t, copied), OpCode::Pop),
                SymbolMeaning::RightBracket,
                "]"@,
            ) {
                Ok(closed) => {
                    lemma_block(
                        t,
                        k,
                        closed,
                        SymbolMeaning::MatchArm,
                        Some(SymbolMeaning::MatchEnd),
                        None,
                    );
                    match onward(
                        closed.cursor,
                        block(
                            t,
                            k,
                            closed,
                            SymbolMeaning::MatchArm,
                            Some(SymbolMeaning::MatchEnd),
                            None,
                        ),
                    ) {
                        Ok(body) => lemma_arms(
                            t,
                            k,
                            jump(t, body, OpCode::Jump),
                            ends.push(site(body)),
                        ),
                        Err(_) => {},
                    }
                },
                Err(_) => {},
            }
        } else {
            lemma_expression(t, k, copied);
            match onward(copied.cursor, expression(t, k, copied)) {
                Ok(pattern) => {
                    let compared = op(t, pattern, OpCode::Eq);
                    match take(
                        t,
                        jump(t, compared, OpCode::JumpIfFalse),
                        SymbolMeaning::RightBracket,
                        "]"@,
                    ) {
                        Ok(closed) => {
                            lemma_block(
                                t,
                                k,
                                closed,
                                SymbolMeaning::MatchArm,
                                Some(SymbolMeaning::MatchEnd),
                                None,
                            );
                            match onward(
                                closed.cursor,
                                block(
                                    t,
                                    k,
                                    closed,
                                    SymbolMeaning::MatchArm,
                                    Some(SymbolMeaning::MatchEnd),
                                    None,
                                ),
                            ) {
                                Ok(body) => match patched(
                                    jump(t, body, OpCode::Jump),
                                    site(compared),
                                ) {
                                    Ok(landed) => lemma_arms(t, k, landed, ends.push(site(body))),
                                    Err(_) => {},
                                },
                                Err(_) => {},
                            }
                        },
                        Err(_) => {},
                    }
                },
                Err(_) => {},
            }
        }
    }
}

pub proof fn lemma_match_statement(t: Seq<TokenView>, k: Seq<(String, Real)>, d: Draft)
    ensures
        reaches(match_statement(t, k, d), d.cursor),
    decreases remaining(t, d), 32int,
{
    lemma_expression(t, k, d);
    match onward(d.cursor, expression(t, k, d)) {
        Ok(valued) => match take(t, valued, SymbolMeaning::RightBracket, "]"@) {
            Ok(closed) => {
                lemma_arms(t, k, closed, Seq::empty());
                match arms(t, k, closed, Seq::empty()) {
                    Ok((last, ends)) => match take(t, last, SymbolMeaning::MatchEnd, "⟣"@) {
                        Ok(ended) => lemma_patched_all(op(t, ended, OpCode::Pop), ends, 0),
                        Err(_) => {},
                    },
                    Err(_) => {},
                }
            },
            Err(_) => {},
        },
        Err(_) => {},
    }
}

pub proof fn lemma_catch_part(t: Seq<TokenView>, k: Seq<(String, Real)>, d: Draft)
    ensures
        reaches(catch_part(t, k, d), d.cursor),
    decreases remaining(t, d), 25int,
{
    if on(t, d, SymbolMeaning::CatchBlock) {
        let caught = step(t, d);
        let bound = if on(t, caught, SymbolMeaning::LeftBracket) {
            let open = step(t, caught);
            match identifier(t, open) {
                None => Err(missing(t, open, "exception variable"@)),
                Some(name) => match by_name(
                    t,
                    step(t, open),
                    OpCode::Catch,
                    name,
                ) {
                    Err(f) => Err(f),
                    Ok(named) => take(t, named, SymbolMeaning::RightBracket, "]"@),
                },
            }
        } else {
            Ok(caught)
        };
        match bound {
            Ok(inner) => lemma_block(
                t,
                k,
                inner,
                SymbolMeaning::FinallyBlock,
                Some(SymbolMeaning::MatchEnd),
                None,
            ),
            Err(_) => {},
        }
    }
}

pub proof fn lemma_finally_part(t: Seq<TokenView>, k: Seq<(String, Real)>, d: Draft)
    ensures
        reaches(finally_part(t, k, d), d.cursor),
    decreases remaining(t, d), 25int,
{
    if on(t, d, SymbolMeaning::FinallyBlock) {
        lemma_block(
            t,
            k,
            op(t, step(t, d), OpCode::Finally),
            SymbolMeaning::MatchEnd,
            None,
            None,
        );
    }
}

pub proof fn lemma_try_statement(t: Seq<TokenView>, k: Seq<(String, Real)>, d: Draft)
    ensures
        reaches(try_statement(t, k, d), d.cursor),
    decreases remaining(t, d), 32int,
{
    let entered = jump(t, d, OpCode::TryBegin);
    lemma_block(
        t,
        k,
        entered,
        SymbolMeaning::CatchBlock,
        Some(SymbolMeaning::FinallyBlock),
        Some(SymbolMeaning::MatchEnd),
    );
    match onward(
        d.cursor,
        block(
            t,
            k,
            entered,
            SymbolMeaning::CatchBlock,
            Some(SymbolMeaning::FinallyBlock),
            Some(SymbolMeaning::MatchEnd),
        ),
    ) {
        Ok(body) => {
            let guarded = op(t, body, OpCode::TryEnd);
            match patched(jump(t, guarded, OpCode::Jump), site(d)) {
                Ok(handled) => {
                    lemma_catch_part(t, k, handled);
                    match onward(handled.cursor, catch_part(t, k, handled)) {
                        Ok(caught) => lemma_finally_part(t, k, caught),
                        Err(_) => {},
                    }
                },
                Err(_) => {},
            }
        },
        Err(_) => {},
    }
}

pub proof fn lemma_begun(
    t: Seq<TokenView>,
    k: Seq<(String, Real)>,
    d: Draft,
    meaning: SymbolMeaning,
    index: int,
)
    ensures
        reaches(begun(t, k, d, meaning, index), d.cursor),
    decreases remaining(t, d), 33int,
{
    match meaning {
        SymbolMeaning::TypeInteger
        | SymbolMeaning::TypeReal
        | SymbolMeaning::TypeString
        | SymbolMeaning::TypeBoolean
        | SymbolMeaning::TypeRune => lemma_variable_declaration(t, k, d),
        SymbolMeaning::Assign => lemma_assignment(t, k, d),
        SymbolMeaning::Output => lemma_bracketed(t, k, d, Some(OpCode::Print)),
        SymbolMeaning::LoopStart => lemma_loop_statement(t, k, d),
        SymbolMeaning::IfStart => lemma_if_statement(t, k, d),
        SymbolMeaning::Accumulator => lemma_accumulator_statement(t, k, d),
        SymbolMeaning::FunctionStart => lemma_function_definition(t, k, d),
        SymbolMeaning::Return => lemma_return_statement(t, k, d),
        SymbolMeaning::TypeArray => lemma_array_declaration(t, k, d),
        SymbolMeaning::TypeMap => lemma_map_declaration(t, k, d),
        SymbolMeaning::MatchStart => lemma_match_statement(t, k, d),
        SymbolMeaning::TryStart => lemma_try_statement(t, k, d),
        SymbolMeaning::Throw => lemma_bracketed(t, k, d, Some(OpCode::Throw)),
        SymbolMeaning::Push => lemma_bracketed(t, k, d, None),
        _ => {},
    }
}

/// A statement ends behind where it begins; at the end of the source it
/// ends where it begins.
pub proof fn lemma_statement(t: Seq<TokenView>, k: Seq<(String, Real)>, d: Draft)
    ensures
        reaches(
            statement(t, k, d),
            if at_end(t, d) {
                d.cursor
            } else {
                d.cursor + 1
            },
        ),
    decreases remaining(t, d), 30int,
{
    match kind(t, d) {
        TokenKindView::Identifier(_) => {
            lemma_simple_assignment(t, k, d);
        },
        TokenKindView::Symbol(meaning) => {
            lemma_begun(t, k, step(t, d), meaning, d.cursor as int);
        },
        _ => {},
    }
}

/// A block ends where it begins or behind it.
pub proof fn lemma_block(
    t: Seq<TokenView>,
    k: Seq<(String, Real)>,
    d: Draft,
    first: SymbolMeaning,
    second: Option<SymbolMeaning>,
    third: Option<SymbolMeaning>,
)
    ensures
        reaches(block(t, k, d, first, second, third), d.cursor),
    decreases remaining(t, d), 31int,
{
    if !(at_stop(t, d, first, second, third) || at_end(t, d)) {
        lemma_statement(t, k, d);
        match onward(d.cursor + 1, statement(t, k, d)) {
            Ok(next) => lemma_block(t, k, next, first, second, third),
            Err(_) => {},
        }
    }
}

/// The statements of a program end where they begin or behind it.
pub proof fn lemma_statements(t: Seq<TokenView>, k: Seq<(String, Real)>, d: Draft)
    ensures
        reaches(statements(t, k, d), d.cursor),
    decreases remaining(t, d), 34int,
{
    if !at_end(t, d) {
        lemma_statement(t, k, d);
        match onward(d.cursor + 1, statement(t, k, d)) {
            Ok(next) => lemma_statements(t, k, next),
            Err(_) => {},
        }
    }
}

} // verus!
