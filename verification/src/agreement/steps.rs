//! How the machine gets from one point of a run to the next one.

use vstd::prelude::*;
use crate::agreement::code::{op_at, stands, stands_each, stands_program};
use crate::agreement::relation::{
    continues, continues_unfolds, direct, direct_unfolds, next_env, next_ip, room, shape,
};
use crate::ast::ASTNode;
use crate::signal::SignalView;
use crate::store::ScopeView;
use crate::tokenizer::TokenKind;
use crate::treewalk::evaluator::Task;
use crate::virtual_machine::bytecode::{FunctionView, Instruction};
use crate::virtual_machine::interpreter::{ran, stepped, CallFrame, MachineView};

verus! {

/// Running steps is making one step and running the rest.
pub proof fn ran_more(program: Seq<FunctionView>, m: MachineView, fuel: nat)
    requires
        fuel > 0,
    ensures
        ran(program, m, fuel) == (match stepped(program, m).1 {
            Some(signal) => (stepped(program, m).0, signal),
            None => ran(program, stepped(program, m).0, (fuel - 1) as nat),
        }),
{
}

/// Running `a + b` steps is running `a` steps and then, unless the machine
/// has stopped, `b` more.
pub proof fn ran_sum(program: Seq<FunctionView>, m: MachineView, a: nat, b: nat)
    ensures
        ran(program, m, a + b) == (if ran(program, m, a).1 == SignalView::Paused {
            ran(program, ran(program, m, a).0, b)
        } else {
            ran(program, m, a)
        }),
    decreases a,
{
    if a > 0 {
        match stepped(program, m).1 {
            Some(signal) => {
                assert(ran(program, m, a + b) == (stepped(program, m).0, signal));
            },
            None => {
                ran_sum(program, stepped(program, m).0, (a - 1) as nat, b);
                assert(ran(program, m, a + b) == ran(
                    program,
                    stepped(program, m).0,
                    (a + b - 1) as nat,
                ));
            },
        }
    } else {
        assert(ran(program, m, 0 + b) == ran(program, m, b));
    }
}

/// A state of the machine whose topmost frame stands at the given address.
pub open spec fn at_address(m: MachineView, ip: int) -> MachineView {
    MachineView {
        frames: m.frames.update(
            m.frames.len() - 1,
            CallFrame { ip: ip as usize, ..m.frames.last() },
        ),
        ..m
    }
}

/// How many jumps stand in the way at an address.
pub open spec fn hops(program: Seq<FunctionView>, f: int, ip: int) -> nat
    decreases room(program, f, ip),
{
    match op_at(program, f, ip) {
        Some(Instruction::Jmp(to)) => if to > ip {
            1 + hops(program, f, to as int)
        } else {
            1
        },
        _ => 0,
    }
}

/// The address that the jumps which stand in the way at an address lead
/// to.
pub open spec fn landing(program: Seq<FunctionView>, f: int, ip: int) -> int
    decreases room(program, f, ip),
{
    match op_at(program, f, ip) {
        Some(Instruction::Jmp(to)) => if to > ip {
            landing(program, f, to as int)
        } else {
            to as int
        },
        _ => ip,
    }
}

/// What is left to do at an address is left to do, with nothing in the way,
/// at the address that the jumps lead to.
pub proof fn continues_lands<'a>(
    program: Seq<FunctionView>,
    scopes: Seq<ScopeView>,
    lower: Seq<CallFrame>,
    f: int,
    base: usize,
    ip: int,
    env: usize,
    tasks: Seq<Task<'a>>,
)
    ensures
        continues(program, scopes, lower, f, base, ip, env, tasks) == direct(
            program,
            scopes,
            lower,
            f,
            base,
            landing(program, f, ip),
            env,
            tasks,
        ),
        0 <= landing(program, f, ip) <= usize::MAX || landing(program, f, ip) == ip,
    decreases room(program, f, ip),
{
    continues_unfolds(program, scopes, lower, f, base, ip, env, tasks);
    match op_at(program, f, ip) {
        Some(Instruction::Jmp(to)) => if to > ip {
            continues_lands(program, scopes, lower, f, base, to as int, env, tasks);
        },
        _ => {},
    }
}

/// The machine follows the jumps that stand in the way: after as many steps
/// as there are jumps it stands at the address that they lead to, and
/// nothing else has changed.
pub proof fn machine_lands(program: Seq<FunctionView>, m: MachineView)
    requires
        m.awaiting is None,
        m.frames.len() > 0,
    ensures
        ran(
            program,
            m,
            hops(program, m.frames.last().function as int, m.frames.last().ip as int),
        ) == (
            at_address(
                m,
                landing(program, m.frames.last().function as int, m.frames.last().ip as int),
            ),
            SignalView::Paused,
        ),
    decreases room(program, m.frames.last().function as int, m.frames.last().ip as int),
{
    let f = m.frames.last().function as int;
    let ip = m.frames.last().ip as int;
    match op_at(program, f, ip) {
        Some(Instruction::Jmp(to)) => {
            let next = stepped(program, m).0;
            assert(next.frames =~= m.frames.update(
                m.frames.len() - 1,
                CallFrame { ip: to, ..m.frames.last() },
            ));
            if to > ip {
                machine_lands(program, next);
                ran_more(program, m, hops(program, f, ip));
                assert(at_address(next, landing(program, f, to as int)).frames =~= at_address(
                    m,
                    landing(program, f, ip),
                ).frames);
            } else {
                ran_more(program, m, 1);
                assert(at_address(m, to as int).frames =~= next.frames);
            }
        },
        _ => {
            assert(at_address(m, ip).frames =~= m.frames);
        },
    }
}

/// The code of a node starts with an instruction, and that is no jump.
pub proof fn stands_starts(program: Seq<FunctionView>, f: int, ip: int, node: ASTNode)
    requires
        stands(program, f, ip, node),
    ensures
        op_at(program, f, ip) is Some,
        !(op_at(program, f, ip)->0 is Jmp),
    decreases node, 0nat,
{
    reveal_with_fuel(stands, 1);
    match node {
        ASTNode::Program(v) => program_starts(program, f, ip, v@),
        ASTNode::ArrayLiteral(v) => {
            if v@.len() > 0 {
                assert(stands_each(program, f, ip, v@, 0));
                assert(stands(program, f, ip, v@[0]));
                stands_starts(program, f, ip, v@[0]);
            }
        },
        ASTNode::BinaryOp { left, op, right } => match op {
            TokenKind::Assign => match *left {
                ASTNode::MemberAccess { object, member } => stands_starts(
                    program,
                    f,
                    ip,
                    *object,
                ),
                _ => stands_starts(program, f, ip, *right),
            },
            _ => stands_starts(program, f, ip, *left),
        },
        ASTNode::UnaryOp { op, operand } => stands_starts(program, f, ip, *operand),
        ASTNode::VariableDeclaration { name, value } => stands_starts(program, f, ip, *value),
        ASTNode::IfStatement { condition, consequence, alternative } => stands_starts(
            program,
            f,
            ip,
            *condition,
        ),
        ASTNode::FunctionCall { callee, arguments } => stands_starts(program, f, ip, *callee),
        ASTNode::ReturnStatement(e) => stands_starts(program, f, ip, *e),
        ASTNode::ForStatement { start, condition, iter, body } => stands_starts(
            program,
            f,
            ip,
            *start,
        ),
        ASTNode::MemberAccess { object, member } => stands_starts(program, f, ip, *object),
        _ => {},
    }
}

proof fn program_starts(program: Seq<FunctionView>, f: int, ip: int, nodes: Seq<ASTNode>)
    requires
        stands_program(program, f, ip, nodes),
    ensures
        op_at(program, f, ip) is Some,
        !(op_at(program, f, ip)->0 is Jmp),
    decreases nodes, nodes.len() + 1,
{
    reveal_with_fuel(stands, 1);
    if nodes.len() > 0 {
        stands_starts(program, f, ip, nodes[0]);
    }
}

/// The code of a task starts with an instruction, and that is no jump.
pub proof fn shape_starts<'a>(
    program: Seq<FunctionView>,
    scopes: Seq<ScopeView>,
    f: int,
    ip: int,
    env: usize,
    task: Task<'a>,
)
    requires
        shape(program, scopes, f, ip, env, task),
    ensures
        op_at(program, f, ip) is Some,
        !(op_at(program, f, ip)->0 is Jmp),
{
    match task {
        Task::Eval(node) => stands_starts(program, f, ip, *node),
        _ => {},
    }
}

/// What is left to do with nothing in the way is left to do.
pub proof fn direct_continues<'a>(
    program: Seq<FunctionView>,
    scopes: Seq<ScopeView>,
    lower: Seq<CallFrame>,
    f: int,
    base: usize,
    ip: int,
    env: usize,
    tasks: Seq<Task<'a>>,
)
    requires
        tasks.len() > 0,
        direct(program, scopes, lower, f, base, ip, env, tasks),
    ensures
        continues(program, scopes, lower, f, base, ip, env, tasks),
{
    direct_unfolds(program, scopes, lower, f, base, ip, env, tasks);
    continues_unfolds(program, scopes, lower, f, base, ip, env, tasks);
    shape_starts(program, scopes, f, ip, env, tasks.last());
}

/// One more task: where the code of a task stands at an address, and the
/// machine does behind it what the tasks say, it does from the address on
/// what the tasks with that task on top say.
pub proof fn plan<'a>(
    program: Seq<FunctionView>,
    scopes: Seq<ScopeView>,
    lower: Seq<CallFrame>,
    f: int,
    base: usize,
    ip: int,
    env: usize,
    tasks: Seq<Task<'a>>,
    task: Task<'a>,
)
    requires
        !(task is EndCall),
        shape(program, scopes, f, ip, env, task),
        continues(
            program,
            scopes,
            lower,
            f,
            base,
            next_ip(ip, task),
            next_env(env, task),
            tasks,
        ),
    ensures
        direct(program, scopes, lower, f, base, ip, env, tasks.push(task)),
        continues(program, scopes, lower, f, base, ip, env, tasks.push(task)),
{
    assert(tasks.push(task).last() == task);
    assert(tasks.push(task).drop_last() =~= tasks);
    direct_unfolds(program, scopes, lower, f, base, ip, env, tasks.push(task));
    assert(direct(program, scopes, lower, f, base, ip, env, tasks.push(task)));
    direct_continues(program, scopes, lower, f, base, ip, env, tasks.push(task));
}

} // verus!
