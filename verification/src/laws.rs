//! What holds of the interpreter as a whole.

use vstd::prelude::*;
use crate::ast::{ASTNode, Node};
use crate::common::ErrorView;
use crate::errors::type_error;
use crate::grammar::parse_tokens;
use crate::host::{answered, Arith, Awaiting, RequestView, ResponseView};
use crate::number::Number;
use crate::ops::{operated, Operator};
use crate::stdlib::{array_applied, Builtin, OutcomeView};
use crate::store::{
    assigned, declared, field, field_index, field_index_from, home, home_bounds, lookup,
    with_field, Fields, ScopeView, StoreView,
};
use crate::tokenizer::lex;
use crate::treewalk::evaluator::{
    failed as walk_failed, performed, planned, pushed, Task, WalkView,
};
use crate::value::{truthy, ValueView};
use crate::virtual_machine::bytecode::{FunctionView, Instruction};
use crate::virtual_machine::interpreter::{
    executed, failed as machine_failed, reframed, CallFrame, MachineView,
};

verus! {

/// What reading a source text gives: the syntax tree or the errors of the
/// parser, or nothing where the lexer fails.
pub open spec fn parsed(source: Seq<char>) -> Option<Result<Node, Seq<ErrorView>>> {
    match lex(source) {
        Ok(tokens) => Some(parse_tokens(tokens)),
        Err(_) => None,
    }
}

/// Lexing and parsing one source text twice gives equal tokens and equal
/// trees: both are functions of the characters of the text alone.
pub proof fn parsing_is_deterministic(first: Seq<char>, second: Seq<char>)
    requires
        first == second,
    ensures
        lex(first) == lex(second),
        parsed(first) == parsed(second),
{
}

/// An `if` whose condition is a boolean evaluates its first branch if the
/// condition counts as true, and its second branch if it does not.
pub proof fn if_takes_the_branch_of_its_condition<'a>(
    m: WalkView<'a>,
    consequence: &'a ASTNode,
    alternative: &'a ASTNode,
    condition: bool,
)
    requires
        m.stack.len() > 0,
        m.stack.last() == ValueView::Boolean(condition),
    ensures
        truthy(m.stack.last()) ==> performed(m, Task::Branch(consequence, Some(alternative)))
            == planned(
            WalkView { stack: m.stack.drop_last(), ..m },
            seq![Task::Eval(consequence)],
        ),
        !truthy(m.stack.last()) ==> performed(m, Task::Branch(consequence, Some(alternative)))
            == planned(
            WalkView { stack: m.stack.drop_last(), ..m },
            seq![Task::Eval(alternative)],
        ),
{
}

/// An `if` whose condition is no boolean fails with a type error, and
/// evaluates neither branch.
pub proof fn if_refuses_a_condition_that_is_no_boolean<'a>(
    m: WalkView<'a>,
    consequence: &'a ASTNode,
    alternative: Option<&'a ASTNode>,
)
    requires
        m.stack.len() > 0,
        !(m.stack.last() is Boolean),
    ensures
        performed(m, Task::Branch(consequence, alternative)) == walk_failed(
            WalkView { stack: m.stack.drop_last(), ..m },
            type_error("Condition must be a boolean"@),
        ),
{
}

/// The jump of an `if` is taken if and only if the condition is false; on
/// true the machine goes on with the first branch, and on a value that is
/// no boolean it fails with a type error, as the evaluator does. Either way
/// the value is taken off the stack.
pub proof fn the_jump_of_an_if_needs_a_boolean(
    program: Seq<FunctionView>,
    m: MachineView,
    frame: CallFrame,
    to: usize,
)
    requires
        m.stack.len() > 0,
        m.frames.len() > 0,
    ensures
        executed(program, m, Instruction::JumpIfFalse(to), frame) == (match m.stack.last() {
            ValueView::Boolean(false) => (
                reframed(
                    MachineView { stack: m.stack.drop_last(), ..m },
                    CallFrame { ip: to, ..frame },
                ),
                None,
            ),
            ValueView::Boolean(true) => (MachineView { stack: m.stack.drop_last(), ..m }, None),
            _ => machine_failed(
                MachineView { stack: m.stack.drop_last(), ..m },
                type_error("Condition must be a boolean"@),
            ),
        }),
{
}

/// A jump of a loop or of `&&` and `||` is taken if and only if the value
/// on top of the stack counts as true, for `JumpWhen`, or does not, for
/// `JumpUnless`, whatever kind of value it is; either way the value is
/// taken off the stack.
pub proof fn jumps_follow_truthiness(
    program: Seq<FunctionView>,
    m: MachineView,
    frame: CallFrame,
    to: usize,
)
    requires
        m.stack.len() > 0,
        m.frames.len() > 0,
    ensures
        executed(program, m, Instruction::JumpWhen(to), frame).0 == (if truthy(m.stack.last()) {
            reframed(MachineView { stack: m.stack.drop_last(), ..m }, CallFrame { ip: to, ..frame })
        } else {
            MachineView { stack: m.stack.drop_last(), ..m }
        }),
        executed(program, m, Instruction::JumpUnless(to), frame).0 == (if truthy(m.stack.last()) {
            MachineView { stack: m.stack.drop_last(), ..m }
        } else {
            reframed(MachineView { stack: m.stack.drop_last(), ..m }, CallFrame { ip: to, ..frame })
        }),
{
}

/// A loop goes on if and only if its condition counts as true, whatever
/// kind of value the condition is: the body is then evaluated and the
/// condition once more, and else the loop is over and nothing is planned.
pub proof fn loops_go_on_while_the_condition_counts_as_true<'a>(
    m: WalkView<'a>,
    condition: &'a ASTNode,
    body: &'a ASTNode,
)
    requires
        m.stack.len() > 0,
    ensures
        performed(m, Task::WhileTest(condition, body)) == (if truthy(m.stack.last()) {
            planned(
                WalkView { stack: m.stack.drop_last(), ..m },
                seq![
                    Task::WhileTest(condition, body),
                    Task::Eval(condition),
                    Task::Eval(body),
                    Task::Discard,
                ],
            )
        } else {
            (WalkView { stack: m.stack.drop_last(), ..m }, None)
        }),
{
}

/// The arithmetic operation that an operator stands for.
pub open spec fn arithmetic_of(op: Operator) -> Option<Arith> {
    match op {
        Operator::Add => Some(Arith::Add),
        Operator::Sub => Some(Arith::Sub),
        Operator::Mul => Some(Arith::Mul),
        Operator::Div => Some(Arith::Div),
        Operator::Mod => Some(Arith::Rem),
        _ => None,
    }
}

/// Arithmetic on two numbers is that of the host: the operation is asked of
/// the host with exactly the two operands, whatever they are (a division by
/// zero is asked like any other and is no error), and the number that the
/// host answers is the value.
pub proof fn arithmetic_is_that_of_the_host(
    op: Operator,
    left: Number,
    right: Number,
    store: StoreView,
    result: Number,
)
    requires
        arithmetic_of(op) is Some,
    ensures
        operated(op, ValueView::Number(left), ValueView::Number(right)) == (OutcomeView::Ask {
            request: RequestView::Binary { op: arithmetic_of(op)->0, left, right },
            awaiting: Awaiting::Number,
        }),
        answered(store, Awaiting::Number, ResponseView::Number(result)) == (
            Ok::<ValueView, crate::errors::EvalErrorView>(ValueView::Number(result)),
            store,
        ),
{
}

/// `+` on two strings joins them.
pub proof fn plus_joins_strings(left: Seq<char>, right: Seq<char>)
    ensures
        operated(Operator::Add, ValueView::String(left), ValueView::String(right))
            == OutcomeView::Value(ValueView::String(left + right)),
{
}

proof fn index_after_update(fields: Fields, name: Seq<char>, value: ValueView, from: int, at: int)
    requires
        0 <= from <= at < fields.len(),
        field_index_from(fields, name, from) == Some(at),
    ensures
        field_index_from(fields.update(at, (name, value)), name, from) == Some(at),
    decreases at - from,
{
    if from < at {
        crate::store::field_index_bounds(fields, name, from);
        if fields[from].0 == name {
            assert(false);
        }
        index_after_update(fields, name, value, from + 1, at);
    }
}

proof fn index_after_push(fields: Fields, name: Seq<char>, value: ValueView, from: int)
    requires
        0 <= from <= fields.len(),
        field_index_from(fields, name, from) is None,
    ensures
        field_index_from(fields.push((name, value)), name, from) == Some(fields.len() as int),
    decreases fields.len() - from,
{
    if from < fields.len() {
        index_after_push(fields, name, value, from + 1);
    }
}

/// A name has the value that it was last given.
pub proof fn field_holds_what_was_put(fields: Fields, name: Seq<char>, value: ValueView)
    ensures
        field(with_field(fields, name, value), name) == Some(value),
{
    crate::store::field_index_bounds(fields, name, 0);
    match field_index(fields, name) {
        Some(at) => index_after_update(fields, name, value, 0, at),
        None => index_after_push(fields, name, value, 0),
    }
}

/// Closures see later assignments: after an assignment to a variable, made
/// from any scope, every scope that finds the variable in the same place
/// reads the new value. A function keeps the scope it was declared in, and
/// the scope of each of its calls lies inside that scope; so what is
/// assigned to a variable around the function after it was declared is what
/// the function reads.
pub proof fn assignment_is_seen_from_every_scope(
    scopes: Seq<ScopeView>,
    writer: nat,
    reader: nat,
    name: Seq<char>,
    value: ValueView,
)
    requires
        home(scopes, writer, name) is Some,
        home(scopes, reader, name) == home(scopes, writer, name),
    ensures
        lookup(assigned(scopes, writer, name, value), reader, name) == Some(value),
    decreases reader,
{
    home_bounds(scopes, writer, name);
    let place = home(scopes, writer, name)->0;
    let after = assigned(scopes, writer, name, value);
    assert(after == declared(scopes, place, name, value));
    if field_index(scopes[reader as int].variables, name) is Some {
        field_holds_what_was_put(scopes[reader as int].variables, name, value);
    } else {
        assert(reader != place);
        assert(after[reader as int] == scopes[reader as int]);
        let parent = scopes[reader as int].parent->0;
        assignment_is_seen_from_every_scope(scopes, writer, parent, name, value);
    }
}

/// `&&` does not evaluate its right side where the left side does not count
/// as true, and `||` does not where it does: the result is there at once,
/// and nothing more is planned.
pub proof fn short_circuit_skips_the_right_side<'a>(m: WalkView<'a>, right: &'a ASTNode)
    requires
        m.stack.len() > 0,
    ensures
        !truthy(m.stack.last()) ==> performed(m, Task::AndRight(right)) == pushed(
            WalkView { stack: m.stack.drop_last(), ..m },
            ValueView::Boolean(false),
        ),
        truthy(m.stack.last()) ==> performed(m, Task::OrRight(right)) == pushed(
            WalkView { stack: m.stack.drop_last(), ..m },
            ValueView::Boolean(true),
        ),
{
}

/// An array is shared by all who hold it: what is pushed through one
/// reference is there for every reference to the same array.
pub proof fn pushed_elements_are_seen_by_every_holder(store: StoreView, array: nat, value: ValueView)
    requires
        array < store.arrays.len(),
    ensures
        array_applied(store, Builtin::ArrayPush, array, seq![value]).0 == OutcomeView::Value(
            ValueView::Null,
        ),
        array_applied(
            array_applied(store, Builtin::ArrayPush, array, seq![value]).1,
            Builtin::ArrayLength,
            array,
            Seq::empty(),
        ).0 == OutcomeView::Value(
            ValueView::Number(Number::of_count(store.arrays[array as int].len() + 1)),
        ),
{
}

/// A function keeps the scope in which it is declared: the function value
/// that evaluating a declaration makes holds the scope at hand.
pub proof fn functions_keep_the_scope_of_their_declaration<'a>(
    m: WalkView<'a>,
    parameters: &'a Vec<String>,
    body: &'a ASTNode,
)
    ensures
        crate::treewalk::evaluator::evaluated_function(m, &None, parameters, body).0.closures
            == m.closures.push(
            crate::treewalk::evaluator::FunctionValue { parameters, body, env: m.env },
        ),
        crate::treewalk::evaluator::evaluated_function(m, &None, parameters, body).0.stack
            == m.stack.push(ValueView::Function(m.closures.len())),
{
}

/// A call runs inside the scope of the declaration: the scope of the call is
/// a new scope, and the scope around it is the one that the function keeps,
/// whatever the scope of the caller is.
pub proof fn calls_run_inside_the_scope_of_the_declaration<'a>(
    m: WalkView<'a>,
    function: nat,
    args: Seq<ValueView>,
)
    requires
        function < m.closures.len(),
        m.closures[function as int].parameters@.len() == args.len(),
        m.store.scopes.len() < usize::MAX,
        m.stack.len() <= usize::MAX,
    ensures
        crate::treewalk::evaluator::called(m, ValueView::Function(function), args).0.env
            == m.store.scopes.len(),
        crate::treewalk::evaluator::called(
            m,
            ValueView::Function(function),
            args,
        ).0.store.scopes.last().parent == Some(m.closures[function as int].env as nat),
{
}

} // verus!
