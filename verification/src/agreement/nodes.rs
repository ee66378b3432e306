//! The nodes of the tree, one kind after the other: what the machine does
//! where the evaluator evaluates the node.

use vstd::prelude::*;
use crate::agreement::code::{
    each_unfolds, entries_unfold, function_at, function_stands, sequence_unfolds, size, size_each,
    size_entries, size_program, size_sequence, stands, stands_each, stands_entries,
    stands_sequence,
};
use crate::agreement::relation::{closures_agree, continues, continues_with_more_scopes};
use crate::agreement::steps::{plan, ran_more};
use crate::agreement::tasks::{
    agrees, moved, next_fits, one_step, poised, related_after, related_at, related_waiting,
    stepped_to,
};
use crate::ast::ASTNode;
use crate::ops::operator_of;
use crate::store::{ScopeView, StoreView};
use crate::tokenizer::TokenKind;
use crate::treewalk::evaluator::{
    each_tasks, entry_tasks, sequence_tasks, walked, FunctionValue, Task, WalkView,
};
use crate::value::ValueView;
use crate::virtual_machine::bytecode::{FunctionView};
use crate::virtual_machine::interpreter::{ran, stepped, CallFrame, Closure, MachineView};

verus! {

/// The tasks of a sequence of statements are what the machine does where
/// the code of the statements stands.
pub proof fn sequence_continues<'a>(
    program: Seq<FunctionView>,
    scopes: Seq<ScopeView>,
    lower: Seq<CallFrame>,
    f: int,
    base: usize,
    ip: int,
    env: usize,
    rest: Seq<Task<'a>>,
    nodes: &'a Vec<ASTNode>,
    from: int,
)
    requires
        0 <= from < nodes@.len(),
        stands_sequence(program, f, ip, nodes@, from),
        continues(program, scopes, lower, f, base, ip + size_sequence(nodes@, from), env, rest),
    ensures
        continues(program, scopes, lower, f, base, ip, env, rest + sequence_tasks(nodes, from)),
    decreases nodes@.len() - from,
{
    sequence_unfolds(program, f, ip, nodes@, from);
    let node = &nodes@[from];
    if from == nodes@.len() - 1 {
        plan(program, scopes, lower, f, base, ip, env, rest, Task::Eval(node));
        assert(rest.push(Task::Eval(node)) =~= rest + sequence_tasks(nodes, from));
    } else {
        let behind = ip + size(nodes@[from]) + 1;
        sequence_continues(program, scopes, lower, f, base, behind, env, rest, nodes, from + 1);
        let r0 = rest + sequence_tasks(nodes, from + 1);
        plan(program, scopes, lower, f, base, behind - 1, env, r0, Task::Discard);
        plan(program, scopes, lower, f, base, ip, env, r0.push(Task::Discard), Task::Eval(node));
        assert(r0.push(Task::Discard).push(Task::Eval(node)) =~= rest + sequence_tasks(
            nodes,
            from,
        ));
    }
}

/// The tasks of a row of nodes are what the machine does where the code of
/// the nodes stands.
pub proof fn each_continues<'a>(
    program: Seq<FunctionView>,
    scopes: Seq<ScopeView>,
    lower: Seq<CallFrame>,
    f: int,
    base: usize,
    ip: int,
    env: usize,
    rest: Seq<Task<'a>>,
    nodes: &'a Vec<ASTNode>,
    from: int,
)
    requires
        0 <= from <= nodes@.len(),
        stands_each(program, f, ip, nodes@, from),
        continues(program, scopes, lower, f, base, ip + size_each(nodes@, from), env, rest),
    ensures
        continues(program, scopes, lower, f, base, ip, env, rest + each_tasks(nodes, from)),
    decreases nodes@.len() - from,
{
    each_unfolds(program, f, ip, nodes@, from);
    if from < nodes@.len() {
        let node = &nodes@[from];
        let behind = ip + size(nodes@[from]);
        each_continues(program, scopes, lower, f, base, behind, env, rest, nodes, from + 1);
        let r0 = rest + each_tasks(nodes, from + 1);
        plan(program, scopes, lower, f, base, ip, env, r0, Task::Eval(node));
        assert(r0.push(Task::Eval(node)) =~= rest + each_tasks(nodes, from));
    } else {
        assert(rest + each_tasks(nodes, from) =~= rest);
    }
}

/// The tasks of the entries of an object literal are what the machine does
/// where the code of the entries stands.
pub proof fn entries_continue<'a>(
    program: Seq<FunctionView>,
    scopes: Seq<ScopeView>,
    lower: Seq<CallFrame>,
    f: int,
    base: usize,
    ip: int,
    env: usize,
    rest: Seq<Task<'a>>,
    entries: &'a Vec<(String, ASTNode)>,
    from: int,
)
    requires
        0 <= from <= entries@.len(),
        stands_entries(program, f, ip, entries@, from),
        continues(program, scopes, lower, f, base, ip + size_entries(entries@, from), env, rest),
    ensures
        continues(program, scopes, lower, f, base, ip, env, rest + entry_tasks(entries, from)),
    decreases entries@.len() - from,
{
    entries_unfold(program, f, ip, entries@, from);
    if from < entries@.len() {
        let key = &entries@[from].0;
        let value = &entries@[from].1;
        let behind = ip + 3 + size(entries@[from].1);
        entries_continue(program, scopes, lower, f, base, behind, env, rest, entries, from + 1);
        let r0 = rest + entry_tasks(entries, from + 1);
        plan(program, scopes, lower, f, base, behind - 2, env, r0, Task::SetEntry(key));
        let r1 = r0.push(Task::SetEntry(key));
        plan(program, scopes, lower, f, base, ip + 1, env, r1, Task::Eval(value));
        let r2 = r1.push(Task::Eval(value));
        plan(program, scopes, lower, f, base, ip, env, r2, Task::Duplicate);
        assert(r2.push(Task::Duplicate) =~= rest + entry_tasks(entries, from));
    } else {
        assert(rest + entry_tasks(entries, from) =~= rest);
    }
}

/// The node that the task on top evaluates.
pub open spec fn node_of<'a>(w: WalkView<'a>) -> &'a ASTNode {
    w.tasks.last()->Eval_0
}

/// Where the evaluator only plans, the machine stays where it is.
proof fn planned_agrees<'a>(
    program: Seq<FunctionView>,
    w: WalkView<'a>,
    m: MachineView,
    tasks: Seq<Task<'a>>,
)
    requires
        poised(program, w, m),
        walked(w) == (WalkView { tasks, ..w }, None::<crate::signal::SignalView>),
        continues(
            program,
            w.store.scopes,
            m.frames.drop_last(),
            m.frames.last().function as int,
            m.frames.last().base,
            m.frames.last().ip as int,
            w.env,
            tasks,
        ),
    ensures
        agrees(program, walked(w), ran(program, m, 0)),
{
    related_at(program, w, m, m.frames.last().ip as int, tasks, w.stack, w.store);
    assert(moved(m, m.frames.last().ip as int, w.stack, w.store).frames =~= m.frames);
}

pub proof fn does_literal<'a>(program: Seq<FunctionView>, w: WalkView<'a>, m: MachineView)
    requires
        poised(program, w, m),
        w.tasks.last() is Eval,
        node_of(w) is NumberLiteral || node_of(w) is StringLiteral || node_of(w)
            is BooleanLiteral || node_of(w) is NullLiteral || node_of(w) is Variable,
    ensures
        agrees(program, walked(w), ran(program, m, 1)),
{
    reveal_with_fuel(stands, 1);
    next_fits(program, w, m);
    ran_more(program, m, 1);
    match *node_of(w) {
        ASTNode::NumberLiteral(s) => {
            related_after(program, w, m, w.stack, w.store);
            related_waiting(
                program,
                WalkView { tasks: w.tasks.drop_last(), ..w },
                stepped_to(m, w.stack, w.store),
                Some(crate::host::Awaiting::Number),
            );
            assert(stepped(program, m).0.frames =~= stepped_to(m, w.stack, w.store).frames);
        },
        ASTNode::StringLiteral(s) => {
            let stack = w.stack.push(ValueView::String(s@));
            related_after(program, w, m, stack, w.store);
            one_step(program, m, stack, w.store);
        },
        ASTNode::BooleanLiteral(b) => {
            let stack = w.stack.push(ValueView::Boolean(b));
            related_after(program, w, m, stack, w.store);
            one_step(program, m, stack, w.store);
        },
        ASTNode::NullLiteral => {
            let stack = w.stack.push(ValueView::Null);
            related_after(program, w, m, stack, w.store);
            one_step(program, m, stack, w.store);
        },
        ASTNode::Variable(name) => {
            match crate::store::lookup(w.store.scopes, w.env as nat, name@) {
                Some(v) => {
                    let stack = w.stack.push(v);
                    related_after(program, w, m, stack, w.store);
                    one_step(program, m, stack, w.store);
                },
                None => {},
            }
        },
        _ => {},
    }
}

pub proof fn does_program<'a>(program: Seq<FunctionView>, w: WalkView<'a>, m: MachineView)
    requires
        poised(program, w, m),
        w.tasks.last() is Eval,
        node_of(w) is Program,
    ensures
        node_of(w)->Program_0@.len() == 0 ==> agrees(program, walked(w), ran(program, m, 1)),
        node_of(w)->Program_0@.len() > 0 ==> agrees(program, walked(w), ran(program, m, 0)),
{
    reveal_with_fuel(stands, 1);
    next_fits(program, w, m);
    ran_more(program, m, 1);
    match node_of(w) {
        ASTNode::Program(v) => {
            sequence_unfolds(
                program,
                m.frames.last().function as int,
                m.frames.last().ip as int,
                v@,
                0,
            );
            if v@.len() == 0 {
                let stack = w.stack.push(ValueView::Null);
                related_after(program, w, m, stack, w.store);
                one_step(program, m, stack, w.store);
            } else {
                let rest = w.tasks.drop_last();
                sequence_continues(
                    program,
                    w.store.scopes,
                    m.frames.drop_last(),
                    m.frames.last().function as int,
                    m.frames.last().base,
                    m.frames.last().ip as int,
                    w.env,
                    rest,
                    v,
                    0,
                );
                planned_agrees(program, w, m, rest + sequence_tasks(v, 0));
            }
        },
        _ => {},
    }
}

pub proof fn does_array<'a>(program: Seq<FunctionView>, w: WalkView<'a>, m: MachineView)
    requires
        poised(program, w, m),
        w.tasks.last() is Eval,
        node_of(w) is ArrayLiteral,
    ensures
        agrees(program, walked(w), ran(program, m, 0)),
{
    reveal_with_fuel(stands, 1);
    next_fits(program, w, m);
    let f = m.frames.last().function as int;
    let ip = m.frames.last().ip as int;
    let rest = w.tasks.drop_last();
    match node_of(w) {
        ASTNode::ArrayLiteral(v) => {
            let make = Task::MakeArray(v@.len() as usize);
            plan(
                program,
                w.store.scopes,
                m.frames.drop_last(),
                f,
                m.frames.last().base,
                ip + size_each(v@, 0),
                w.env,
                rest,
                make,
            );
            each_continues(
                program,
                w.store.scopes,
                m.frames.drop_last(),
                f,
                m.frames.last().base,
                ip,
                w.env,
                rest.push(make),
                v,
                0,
            );
            assert(rest.push(make) + each_tasks(v, 0) =~= rest + (seq![make] + each_tasks(v, 0)));
            planned_agrees(program, w, m, rest + (seq![make] + each_tasks(v, 0)));
        },
        _ => {},
    }
}

pub proof fn does_call_node<'a>(program: Seq<FunctionView>, w: WalkView<'a>, m: MachineView)
    requires
        poised(program, w, m),
        w.tasks.last() is Eval,
        node_of(w) is FunctionCall,
    ensures
        agrees(program, walked(w), ran(program, m, 0)),
{
    reveal_with_fuel(stands, 1);
    next_fits(program, w, m);
    let f = m.frames.last().function as int;
    let ip = m.frames.last().ip as int;
    let rest = w.tasks.drop_last();
    let lower = m.frames.drop_last();
    let base = m.frames.last().base;
    match node_of(w) {
        ASTNode::FunctionCall { callee, arguments } => {
            let invoke = Task::Invoke(arguments@.len() as usize);
            let behind = ip + size(**callee);
            plan(
                program,
                w.store.scopes,
                lower,
                f,
                base,
                behind + size_each(arguments@, 0),
                w.env,
                rest,
                invoke,
            );
            each_continues(
                program,
                w.store.scopes,
                lower,
                f,
                base,
                behind,
                w.env,
                rest.push(invoke),
                arguments,
                0,
            );
            let r1 = rest.push(invoke) + each_tasks(arguments, 0);
            plan(program, w.store.scopes, lower, f, base, ip, w.env, r1, Task::Eval(&**callee));
            let tasks = rest + (seq![invoke] + each_tasks(arguments, 0)).push(
                Task::Eval(&**callee),
            );
            assert(r1.push(Task::Eval(&**callee)) =~= tasks);
            assert(walked(w).0.tasks =~= tasks);
            planned_agrees(program, w, m, tasks);
        },
        _ => {},
    }
}

pub proof fn does_assignment<'a>(program: Seq<FunctionView>, w: WalkView<'a>, m: MachineView)
    requires
        poised(program, w, m),
        w.tasks.last() is Eval,
        node_of(w) is BinaryOp,
        node_of(w)->BinaryOp_op == TokenKind::Assign,
    ensures
        agrees(program, walked(w), ran(program, m, 0)),
{
    reveal_with_fuel(stands, 1);
    next_fits(program, w, m);
    let f = m.frames.last().function as int;
    let ip = m.frames.last().ip as int;
    let rest = w.tasks.drop_last();
    let lower = m.frames.drop_last();
    let base = m.frames.last().base;
    let scopes = w.store.scopes;
    let env = w.env;
    match node_of(w) {
        ASTNode::BinaryOp { left, op, right } => match &**left {
            ASTNode::MemberAccess { object, member } => {
                let t1 = Task::AssignMember(member);
                let mid = ip + size(**object);
                plan(program, scopes, lower, f, base, mid + size(**right), env, rest, t1);
                plan(program, scopes, lower, f, base, mid, env, rest.push(t1), Task::Eval(&**right));
                plan(
                    program,
                    scopes,
                    lower,
                    f,
                    base,
                    ip,
                    env,
                    rest.push(t1).push(Task::Eval(&**right)),
                    Task::Eval(&**object),
                );
                let tasks = rest + seq![t1, Task::Eval(&**right), Task::Eval(&**object)];
                assert(rest.push(t1).push(Task::Eval(&**right)).push(Task::Eval(&**object))
                    =~= tasks);
                assert(walked(w).0.tasks =~= tasks);
                planned_agrees(program, w, m, tasks);
            },
            other => {
                let t1 = match other {
                    ASTNode::Variable(name) => Task::AssignVar(name),
                    _ => Task::Unsupported,
                };
                plan(program, scopes, lower, f, base, ip + size(**right), env, rest, t1);
                plan(program, scopes, lower, f, base, ip, env, rest.push(t1), Task::Eval(&**right));
                let tasks = rest + seq![t1, Task::Eval(&**right)];
                assert(rest.push(t1).push(Task::Eval(&**right)) =~= tasks);
                assert(walked(w).0.tasks =~= tasks);
                planned_agrees(program, w, m, tasks);
            },
        },
        _ => {},
    }
}

pub proof fn does_short_circuit_node<'a>(
    program: Seq<FunctionView>,
    w: WalkView<'a>,
    m: MachineView,
)
    requires
        poised(program, w, m),
        w.tasks.last() is Eval,
        node_of(w) is BinaryOp,
        node_of(w)->BinaryOp_op == TokenKind::And || node_of(w)->BinaryOp_op == TokenKind::Or,
    ensures
        agrees(program, walked(w), ran(program, m, 0)),
{
    reveal_with_fuel(stands, 1);
    next_fits(program, w, m);
    let f = m.frames.last().function as int;
    let ip = m.frames.last().ip as int;
    let rest = w.tasks.drop_last();
    let lower = m.frames.drop_last();
    let base = m.frames.last().base;
    let scopes = w.store.scopes;
    let env = w.env;
    match node_of(w) {
        ASTNode::BinaryOp { left, op, right } => {
            let t1 = if *op == TokenKind::Or {
                Task::OrRight(&**right)
            } else {
                Task::AndRight(&**right)
            };
            plan(program, scopes, lower, f, base, ip + size(**left), env, rest, t1);
            plan(program, scopes, lower, f, base, ip, env, rest.push(t1), Task::Eval(&**left));
            let tasks = rest + seq![t1, Task::Eval(&**left)];
            assert(rest.push(t1).push(Task::Eval(&**left)) =~= tasks);
            assert(walked(w).0.tasks =~= tasks);
            planned_agrees(program, w, m, tasks);
        },
        _ => {},
    }
}

pub proof fn does_binary<'a>(program: Seq<FunctionView>, w: WalkView<'a>, m: MachineView)
    requires
        poised(program, w, m),
        w.tasks.last() is Eval,
        node_of(w) is BinaryOp,
        node_of(w)->BinaryOp_op != TokenKind::Assign,
        node_of(w)->BinaryOp_op != TokenKind::And,
        node_of(w)->BinaryOp_op != TokenKind::Or,
    ensures
        agrees(program, walked(w), ran(program, m, 0)),
{
    reveal_with_fuel(stands, 1);
    next_fits(program, w, m);
    let f = m.frames.last().function as int;
    let ip = m.frames.last().ip as int;
    let rest = w.tasks.drop_last();
    let lower = m.frames.drop_last();
    let base = m.frames.last().base;
    let scopes = w.store.scopes;
    let env = w.env;
    match node_of(w) {
        ASTNode::BinaryOp { left, op, right } => {
            let t1 = match operator_of(*op) {
                Some(o) => Task::Operate(o),
                None => Task::Unsupported,
            };
            let mid = ip + size(**left);
            plan(program, scopes, lower, f, base, mid + size(**right), env, rest, t1);
            plan(program, scopes, lower, f, base, mid, env, rest.push(t1), Task::Eval(&**right));
            plan(
                program,
                scopes,
                lower,
                f,
                base,
                ip,
                env,
                rest.push(t1).push(Task::Eval(&**right)),
                Task::Eval(&**left),
            );
            let tasks = rest + seq![t1, Task::Eval(&**right), Task::Eval(&**left)];
            assert(rest.push(t1).push(Task::Eval(&**right)).push(Task::Eval(&**left)) =~= tasks);
            assert(walked(w).0.tasks =~= tasks);
            planned_agrees(program, w, m, tasks);
        },
        _ => {},
    }
}

pub proof fn does_wrapped<'a>(program: Seq<FunctionView>, w: WalkView<'a>, m: MachineView)
    requires
        poised(program, w, m),
        w.tasks.last() is Eval,
        node_of(w) is UnaryOp || node_of(w) is VariableDeclaration || node_of(w)
            is ReturnStatement || node_of(w) is MemberAccess || node_of(w) is IfStatement,
    ensures
        agrees(program, walked(w), ran(program, m, 0)),
{
    reveal_with_fuel(stands, 1);
    next_fits(program, w, m);
    let f = m.frames.last().function as int;
    let ip = m.frames.last().ip as int;
    let rest = w.tasks.drop_last();
    let lower = m.frames.drop_last();
    let base = m.frames.last().base;
    let scopes = w.store.scopes;
    let env = w.env;
    let (t1, inner): (Task<'a>, &'a ASTNode) = match node_of(w) {
        ASTNode::UnaryOp { op, operand } => (
            match op {
                TokenKind::Minus => Task::Negate,
                TokenKind::Bang => Task::Invert,
                _ => Task::Unsupported,
            },
            &**operand,
        ),
        ASTNode::VariableDeclaration { name, value } => (Task::Declare(name), &**value),
        ASTNode::ReturnStatement(e) => (Task::Return, &**e),
        ASTNode::MemberAccess { object, member } => (Task::Member(member), &**object),
        ASTNode::IfStatement { condition, consequence, alternative } => (
            Task::Branch(
                &**consequence,
                match alternative {
                    Some(a) => Some(&**a),
                    None => None,
                },
            ),
            &**condition,
        ),
        _ => arbitrary(),
    };
    plan(program, scopes, lower, f, base, ip + size(*inner), env, rest, t1);
    plan(program, scopes, lower, f, base, ip, env, rest.push(t1), Task::Eval(inner));
    let tasks = rest + seq![t1, Task::Eval(inner)];
    assert(rest.push(t1).push(Task::Eval(inner)) =~= tasks);
    assert(walked(w).0.tasks =~= tasks);
    planned_agrees(program, w, m, tasks);
}

/// The tasks that a `for` plans.
pub open spec fn for_tasks<'a>(node: &'a ASTNode) -> Seq<Task<'a>> {
    match node {
        ASTNode::ForStatement { start, condition, iter, body } => seq![
            Task::ForTest(&**condition, &**iter, &**body),
            Task::Eval(&**condition),
            Task::PushNull,
            Task::Discard,
            Task::Eval(&**start),
        ],
        _ => Seq::empty(),
    }
}

/// The tasks that a `for` plans are what the machine does where the code of
/// the `for` stands.
#[verifier::rlimit(60)]
proof fn for_continues<'a>(
    program: Seq<FunctionView>,
    scopes: Seq<ScopeView>,
    lower: Seq<CallFrame>,
    f: int,
    base: usize,
    ip: int,
    env: usize,
    rest: Seq<Task<'a>>,
    node: &'a ASTNode,
)
    requires
        node is ForStatement,
        stands(program, f, ip, *node),
        continues(program, scopes, lower, f, base, ip + size(*node), env, rest),
    ensures
        continues(program, scopes, lower, f, base, ip, env, rest + for_tasks(node)),
{
    reveal_with_fuel(stands, 1);
    match node {
        ASTNode::ForStatement { start, condition, iter, body } => {
            let again = ip + size(**start) + 2;
            let test = again + size(**condition);
            let t1 = Task::ForTest(&**condition, &**iter, &**body);
            plan(program, scopes, lower, f, base, test, env, rest, t1);
            let r1 = rest.push(t1);
            plan(program, scopes, lower, f, base, again, env, r1, Task::Eval(&**condition));
            let r2 = r1.push(Task::Eval(&**condition));
            plan(program, scopes, lower, f, base, again - 1, env, r2, Task::PushNull);
            let r3 = r2.push(Task::PushNull);
            plan(program, scopes, lower, f, base, again - 2, env, r3, Task::Discard);
            let r4 = r3.push(Task::Discard);
            plan(program, scopes, lower, f, base, ip, env, r4, Task::Eval(&**start));
            assert(r4.push(Task::Eval(&**start)) =~= rest + for_tasks(node));
        },
        _ => {},
    }
}

pub proof fn does_for<'a>(program: Seq<FunctionView>, w: WalkView<'a>, m: MachineView)
    requires
        poised(program, w, m),
        w.tasks.last() is Eval,
        node_of(w) is ForStatement,
    ensures
        agrees(program, walked(w), ran(program, m, 0)),
{
    next_fits(program, w, m);
    let rest = w.tasks.drop_last();
    for_continues(
        program,
        w.store.scopes,
        m.frames.drop_last(),
        m.frames.last().function as int,
        m.frames.last().base,
        m.frames.last().ip as int,
        w.env,
        rest,
        node_of(w),
    );
    let tasks = rest + for_tasks(node_of(w));
    assert(walked(w).0.tasks =~= tasks);
    planned_agrees(program, w, m, tasks);
}

pub proof fn does_while<'a>(program: Seq<FunctionView>, w: WalkView<'a>, m: MachineView)
    requires
        poised(program, w, m),
        w.tasks.last() is Eval,
        node_of(w) is WhileStatement,
    ensures
        agrees(program, walked(w), ran(program, m, 1)),
{
    reveal_with_fuel(stands, 1);
    next_fits(program, w, m);
    ran_more(program, m, 1);
    let f = m.frames.last().function as int;
    let ip = m.frames.last().ip as int;
    let rest = w.tasks.drop_last();
    let lower = m.frames.drop_last();
    let base = m.frames.last().base;
    let scopes = w.store.scopes;
    let env = w.env;
    match node_of(w) {
        ASTNode::WhileStatement { condition, body } => {
            let test = ip + 1 + size(**condition);
            let t1 = Task::WhileTest(&**condition, &**body);
            plan(program, scopes, lower, f, base, test, env, rest, t1);
            plan(
                program,
                scopes,
                lower,
                f,
                base,
                ip + 1,
                env,
                rest.push(t1),
                Task::Eval(&**condition),
            );
            let tasks = rest + seq![t1, Task::Eval(&**condition)];
            assert(rest.push(t1).push(Task::Eval(&**condition)) =~= tasks);
            let stack = w.stack.push(ValueView::Null);
            related_at(program, w, m, ip + 1, tasks, stack, w.store);
            one_step(program, m, stack, w.store);
        },
        _ => {},
    }
}

pub proof fn does_object<'a>(program: Seq<FunctionView>, w: WalkView<'a>, m: MachineView)
    requires
        poised(program, w, m),
        w.tasks.last() is Eval,
        node_of(w) is ObjectLiteral,
    ensures
        agrees(program, walked(w), ran(program, m, 1)),
{
    reveal_with_fuel(stands, 1);
    next_fits(program, w, m);
    ran_more(program, m, 1);
    let ip = m.frames.last().ip as int;
    let rest = w.tasks.drop_last();
    match node_of(w) {
        ASTNode::ObjectLiteral(v) => {
            entries_continue(
                program,
                w.store.scopes,
                m.frames.drop_last(),
                m.frames.last().function as int,
                m.frames.last().base,
                ip + 1,
                w.env,
                rest,
                v,
                0,
            );
            let store = StoreView { objects: w.store.objects.push(Seq::empty()), ..w.store };
            let stack = w.stack.push(ValueView::Object(w.store.objects.len()));
            related_at(program, w, m, ip + 1, rest + entry_tasks(v, 0), stack, store);
            one_step(program, m, stack, store);
        },
        _ => {},
    }
}

/// The machine, one instruction further in another scope.
pub open spec fn entered(m: MachineView, env: usize, stack: Seq<ValueView>, store: StoreView) -> MachineView {
    MachineView {
        frames: m.frames.update(
            m.frames.len() - 1,
            CallFrame { ip: (m.frames.last().ip + 1) as usize, env, ..m.frames.last() },
        ),
        stack,
        store,
        ..m
    }
}

pub proof fn does_block<'a>(program: Seq<FunctionView>, w: WalkView<'a>, m: MachineView)
    requires
        poised(program, w, m),
        w.tasks.last() is Eval,
        node_of(w) is Block,
    ensures
        agrees(program, walked(w), ran(program, m, 1)),
{
    reveal_with_fuel(stands, 1);
    next_fits(program, w, m);
    ran_more(program, m, 1);
    let f = m.frames.last().function as int;
    let ip = m.frames.last().ip as int;
    let rest = w.tasks.drop_last();
    let lower = m.frames.drop_last();
    let base = m.frames.last().base;
    match node_of(w) {
        ASTNode::Block(v) => {
            sequence_unfolds(program, f, ip + 1, v@, 0);
            if w.store.scopes.len() < usize::MAX {
                let inner = w.store.scopes.len() as usize;
                let store = StoreView {
                    scopes: w.store.scopes.push(
                        ScopeView { variables: Seq::empty(), parent: Some(w.env as nat) },
                    ),
                    ..w.store
                };
                let leave = Task::LeaveScope(w.env);
                continues_with_more_scopes(
                    program,
                    w.store.scopes,
                    store.scopes,
                    lower,
                    f,
                    base,
                    ip + size(*node_of(w)),
                    w.env,
                    rest,
                );
                plan(
                    program,
                    store.scopes,
                    lower,
                    f,
                    base,
                    ip + 1 + size_program(v@),
                    inner,
                    rest,
                    leave,
                );
                let r1 = rest.push(leave);
                let tasks = if v@.len() == 0 {
                    rest + seq![leave, Task::PushNull]
                } else {
                    rest + (seq![leave] + sequence_tasks(v, 0))
                };
                if v@.len() == 0 {
                    plan(program, store.scopes, lower, f, base, ip + 1, inner, r1, Task::PushNull);
                    assert(r1.push(Task::PushNull) =~= tasks);
                } else {
                    sequence_continues(program, store.scopes, lower, f, base, ip + 1, inner, r1, v, 0);
                    assert(r1 + sequence_tasks(v, 0) =~= tasks);
                }
                let after = stepped(program, m).0;
                assert(after.frames =~= entered(m, inner, w.stack, store).frames);
                assert(after.frames.drop_last() =~= lower);
                assert(walked(w).0.tasks =~= tasks);
            }
        },
        _ => {},
    }
}

/// The function values of both backends with one more function, made by
/// both in the same scope.
proof fn closures_grow<'a>(
    program: Seq<FunctionView>,
    walk: Seq<FunctionValue<'a>>,
    machine: Seq<Closure>,
    made: FunctionValue<'a>,
    g: usize,
)
    requires
        closures_agree(program, walk, machine),
        function_stands(program, g as int, made.parameters@, *made.body),
    ensures
        closures_agree(
            program,
            walk.push(made),
            machine.push(Closure { function: g, env: made.env }),
        ),
{
    let closure = Closure { function: g, env: made.env };
    assert forall|i: int| 0 <= i < walk.push(made).len() implies (#[trigger] machine.push(
        closure,
    )[i]).env == walk.push(made)[i].env && function_stands(
        program,
        machine.push(closure)[i].function as int,
        walk.push(made)[i].parameters@,
        *walk.push(made)[i].body,
    ) by {
        if i < walk.len() {
            assert(machine[i].env == walk[i].env);
        }
    }
}

pub proof fn does_function<'a>(program: Seq<FunctionView>, w: WalkView<'a>, m: MachineView)
    requires
        poised(program, w, m),
        w.tasks.last() is Eval,
        node_of(w) is FunctionDeclaration,
    ensures
        node_of(w)->FunctionDeclaration_name is None ==> agrees(
            program,
            walked(w),
            ran(program, m, 1),
        ),
        node_of(w)->FunctionDeclaration_name is Some ==> agrees(
            program,
            walked(w),
            ran(program, m, 2),
        ),
{
    reveal_with_fuel(stands, 1);
    next_fits(program, w, m);
    ran_more(program, m, 1);
    ran_more(program, m, 2);
    let f = m.frames.last().function as int;
    let ip = m.frames.last().ip as int;
    match node_of(w) {
        ASTNode::FunctionDeclaration { name, parameters, body } => {
            let g = function_at(program, f, ip)->0;
            let made = FunctionValue { parameters, body: &**body, env: w.env };
            closures_grow(program, w.closures, m.closures, made, g);
            let value = ValueView::Function(w.closures.len());
            let m1 = stepped(program, m).0;
            assert(m1.frames =~= stepped_to(m, w.stack.push(value), w.store).frames);
            let grown = WalkView { closures: w.closures.push(made), ..w };
            let machine = MachineView {
                closures: m.closures.push(Closure { function: g, env: w.env }),
                ..m
            };
            assert(poised(program, grown, machine));
            match name {
                None => {
                    related_after(program, grown, machine, w.stack.push(value), w.store);
                },
                Some(n) => {
                    ran_more(program, m1, 1);
                    if w.env < w.store.scopes.len() {
                        let store = StoreView {
                            scopes: crate::store::declared(w.store.scopes, w.env as nat, n@, value),
                            ..w.store
                        };
                        assert(w.stack.push(value).drop_last() =~= w.stack);
                        let m2 = stepped(program, m1).0;
                        let stack = w.stack.push(ValueView::Null);
                        related_after(program, grown, machine, stack, store);
                        assert(m2.frames =~= moved(machine, ip + 2, stack, store).frames);
                    }
                },
            }
        },
        _ => {},
    }
}

} // verus!
