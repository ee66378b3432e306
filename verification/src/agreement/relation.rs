//! When a state of the evaluator and a state of the machine stand for the
//! same point of the same run.
//!
//! The two hold the same stack and the same store. What the evaluator has
//! left to do, task by task, is what the code at hand does from the
//! instruction at hand on: the code of each task stands where the code of
//! the task above it ends, and the tasks of a call that is under way are the
//! code of the function from its frame's address on.

use vstd::prelude::*;
use crate::agreement::code::{
    const_at, epilogue_at, function_stands, jump_at, jump_if_at, op_at, size, stands, test_at,
};
use crate::store::ScopeView;
use crate::treewalk::evaluator::{FunctionValue, Task, WalkView};
use crate::virtual_machine::bytecode::{program_fits, Constant, FunctionView, Instruction};
use crate::virtual_machine::codegen::instruction_of;
use crate::virtual_machine::interpreter::{CallFrame, Closure, MachineView};

verus! {

/// Whether the end of `&&` (`stop_on` false) or `||` (`stop_on` true)
/// stands at the address: the jump that leaves when the right side decides
/// the result, and the two constants of which one is the result.
pub open spec fn decision_at(program: Seq<FunctionView>, f: int, ip: int, stop_on: bool) -> bool {
    &&& jump_if_at(program, f, ip, stop_on, ip + 3)
    &&& const_at(program, f, ip + 1, Constant::Boolean(!stop_on))
    &&& jump_at(program, f, ip + 2, ip + 4)
    &&& const_at(program, f, ip + 3, Constant::Boolean(stop_on))
}

/// Whether the code of a task stands at the address. `env` is the scope at
/// hand when the task is done.
pub open spec fn shape<'a>(
    program: Seq<FunctionView>,
    scopes: Seq<ScopeView>,
    f: int,
    ip: int,
    env: usize,
    task: Task<'a>,
) -> bool {
    match task {
        Task::Eval(node) => stands(program, f, ip, *node),
        Task::Discard => op_at(program, f, ip) == Some(Instruction::Pop),
        Task::PushNull => const_at(program, f, ip, Constant::Null),
        Task::Declare(name) => op_at(program, f, ip) == Some(Instruction::DeclareVar(*name)),
        Task::AssignVar(name) => op_at(program, f, ip) == Some(Instruction::StoreVar(*name)),
        Task::AssignMember(name) => op_at(program, f, ip) == Some(
            Instruction::SetProperty(*name),
        ),
        Task::SetEntry(name) => op_at(program, f, ip) == Some(Instruction::SetProperty(*name))
            && op_at(program, f, ip + 1) == Some(Instruction::Pop),
        Task::Duplicate => op_at(program, f, ip) == Some(Instruction::Dup),
        Task::Operate(op) => op_at(program, f, ip) == Some(instruction_of(op)),
        Task::Negate => op_at(program, f, ip) == Some(Instruction::Negate),
        Task::Invert => op_at(program, f, ip) == Some(Instruction::Not),
        Task::Unsupported => op_at(program, f, ip) == Some(Instruction::Unknown),
        Task::AndRight(right) => {
            &&& jump_if_at(program, f, ip, false, ip + size(*right) + 4)
            &&& stands(program, f, ip + 1, *right)
            &&& decision_at(program, f, ip + 1 + size(*right), false)
        },
        Task::OrRight(right) => {
            &&& jump_if_at(program, f, ip, true, ip + size(*right) + 4)
            &&& stands(program, f, ip + 1, *right)
            &&& decision_at(program, f, ip + 1 + size(*right), true)
        },
        Task::ToBoolean => decision_at(program, f, ip, false) || decision_at(
            program,
            f,
            ip,
            true,
        ),
        Task::Member(name) => op_at(program, f, ip) == Some(Instruction::GetProperty(*name)),
        Task::Branch(consequence, alternative) => {
            let leave = ip + 1 + size(*consequence);
            &&& test_at(program, f, ip, leave + 1)
            &&& stands(program, f, ip + 1, *consequence)
            &&& jump_at(program, f, leave, next_ip(ip, task))
            &&& match alternative {
                Some(a) => stands(program, f, leave + 1, *a),
                None => const_at(program, f, leave + 1, Constant::Null),
            }
        },
        Task::WhileTest(condition, body) => {
            let back = ip + 2 + size(*body);
            &&& jump_if_at(program, f, ip, false, back + 1)
            &&& op_at(program, f, ip + 1) == Some(Instruction::Pop)
            &&& stands(program, f, ip + 2, *body)
            &&& jump_at(program, f, back, ip - size(*condition))
            &&& stands(program, f, ip - size(*condition), *condition)
        },
        Task::ForTest(condition, iter, body) => {
            let step = ip + 2 + size(*body);
            let back = step + size(*iter) + 1;
            &&& jump_if_at(program, f, ip, false, back + 1)
            &&& op_at(program, f, ip + 1) == Some(Instruction::Pop)
            &&& stands(program, f, ip + 2, *body)
            &&& stands(program, f, step, *iter)
            &&& op_at(program, f, back - 1) == Some(Instruction::Pop)
            &&& jump_at(program, f, back, ip - size(*condition))
            &&& stands(program, f, ip - size(*condition), *condition)
        },
        Task::LeaveScope(outer) => {
            &&& op_at(program, f, ip) == Some(Instruction::ExitScope)
            &&& env < scopes.len()
            &&& scopes[env as int].parent == Some(outer as nat)
        },
        Task::Invoke(argc) => op_at(program, f, ip) == Some(Instruction::Call(argc)),
        Task::EndCall { .. } => epilogue_at(program, f, ip),
        Task::Return => op_at(program, f, ip) == Some(Instruction::Return),
        Task::MakeArray(count) => op_at(program, f, ip) == Some(Instruction::BuildArray(count)),
    }
}

/// The address behind the code of a task that stands at `ip`.
pub open spec fn next_ip<'a>(ip: int, task: Task<'a>) -> int {
    match task {
        Task::Eval(node) => ip + size(*node),
        Task::SetEntry(_) => ip + 2,
        Task::AndRight(right) | Task::OrRight(right) => ip + size(*right) + 5,
        Task::ToBoolean => ip + 4,
        Task::Branch(consequence, alternative) => ip + size(*consequence) + 2 + (match alternative {
            Some(a) => size(*a),
            None => 1,
        }),
        Task::WhileTest(_, body) => ip + size(*body) + 3,
        Task::ForTest(_, iter, body) => ip + size(*body) + size(*iter) + 4,
        Task::EndCall { .. } => ip + 3,
        _ => ip + 1,
    }
}

/// The scope at hand after a task that is done in the scope `env`.
pub open spec fn next_env<'a>(env: usize, task: Task<'a>) -> usize {
    match task {
        Task::LeaveScope(outer) => outer,
        _ => env,
    }
}

/// How many instructions lie at or behind an address of a function.
pub open spec fn room(program: Seq<FunctionView>, f: int, ip: int) -> nat {
    if 0 <= f < program.len() && 0 <= ip < program[f].instructions.len() {
        (program[f].instructions.len() - ip) as nat
    } else {
        0
    }
}

/// Whether the machine, from the address `ip` of the function `f` on, does
/// what the tasks say, the last of them first. Jumps forward that stand in
/// the way are followed. `lower` are the frames of the calls around the
/// call at hand, `base` is the height of the stack at its start, and `env`
/// is the scope at hand.
#[verifier::opaque]
pub open spec fn continues<'a>(
    program: Seq<FunctionView>,
    scopes: Seq<ScopeView>,
    lower: Seq<CallFrame>,
    f: int,
    base: usize,
    ip: int,
    env: usize,
    tasks: Seq<Task<'a>>,
) -> bool
    decreases tasks.len(), 1nat, room(program, f, ip),
{
    match op_at(program, f, ip) {
        Some(Instruction::Jmp(to)) => if to > ip {
            continues(program, scopes, lower, f, base, to as int, env, tasks)
        } else {
            direct(program, scopes, lower, f, base, to as int, env, tasks)
        },
        _ => direct(program, scopes, lower, f, base, ip, env, tasks),
    }
}

/// Whether the machine, from the address `ip` of the function `f` on, does
/// what the tasks say, the code of the last task standing at `ip` itself.
#[verifier::opaque]
pub open spec fn direct<'a>(
    program: Seq<FunctionView>,
    scopes: Seq<ScopeView>,
    lower: Seq<CallFrame>,
    f: int,
    base: usize,
    ip: int,
    env: usize,
    tasks: Seq<Task<'a>>,
) -> bool
    decreases tasks.len(), 0nat, 0nat,
{
    if tasks.len() == 0 {
        lower.len() == 0 && op_at(program, f, ip) == Some(Instruction::Halt)
    } else {
        &&& shape(program, scopes, f, ip, env, tasks.last())
        &&& match tasks.last() {
            Task::EndCall { env: outer, height } => {
                &&& lower.len() > 0
                &&& height == base
                &&& lower.last().env == outer
                &&& continues(
                    program,
                    scopes,
                    lower.drop_last(),
                    lower.last().function as int,
                    lower.last().base,
                    lower.last().ip as int,
                    outer,
                    tasks.drop_last(),
                )
            },
            task => continues(
                program,
                scopes,
                lower,
                f,
                base,
                next_ip(ip, task),
                next_env(env, task),
                tasks.drop_last(),
            ),
        }
    }
}

/// Whether the function values of the evaluator and of the machine are the
/// same functions, one by one: the function of the program is the compiled
/// function of the evaluator, and both were made in the same scope.
pub open spec fn closures_agree<'a>(
    program: Seq<FunctionView>,
    walk: Seq<FunctionValue<'a>>,
    machine: Seq<Closure>,
) -> bool {
    &&& walk.len() == machine.len()
    &&& forall|i: int|
        0 <= i < walk.len() ==> (#[trigger] machine[i]).env == walk[i].env && function_stands(
            program,
            machine[i].function as int,
            walk[i].parameters@,
            *walk[i].body,
        )
}

/// Whether a state of the evaluator and a state of the machine stand for
/// the same point of the same run of the program.
pub open spec fn related<'a>(program: Seq<FunctionView>, w: WalkView<'a>, m: MachineView) -> bool {
    &&& program_fits(program)
    &&& w.stack == m.stack
    &&& w.store == m.store
    &&& w.awaiting == m.awaiting
    &&& m.frames.len() > 0
    &&& w.env == m.frames.last().env
    &&& closures_agree(program, w.closures, m.closures)
    &&& continues(
        program,
        w.store.scopes,
        m.frames.drop_last(),
        m.frames.last().function as int,
        m.frames.last().base,
        m.frames.last().ip as int,
        w.env,
        w.tasks,
    )
}

/// Whether the scopes `after` are the scopes `before`, with the same scope
/// around each, and maybe more.
pub open spec fn same_parents(before: Seq<ScopeView>, after: Seq<ScopeView>) -> bool {
    &&& before.len() <= after.len()
    &&& forall|i: int| 0 <= i < before.len() ==> (#[trigger] after[i]).parent == before[i].parent
}

/// What is left to do stays what it is when the variables of the scopes
/// change and scopes are added.
pub proof fn continues_with_more_scopes<'a>(
    program: Seq<FunctionView>,
    before: Seq<ScopeView>,
    after: Seq<ScopeView>,
    lower: Seq<CallFrame>,
    f: int,
    base: usize,
    ip: int,
    env: usize,
    tasks: Seq<Task<'a>>,
)
    requires
        same_parents(before, after),
        continues(program, before, lower, f, base, ip, env, tasks),
    ensures
        continues(program, after, lower, f, base, ip, env, tasks),
    decreases tasks.len(), 1nat, room(program, f, ip),
{
    reveal_with_fuel(continues, 1);
    reveal_with_fuel(direct, 1);
    match op_at(program, f, ip) {
        Some(Instruction::Jmp(to)) => if to > ip {
            continues_with_more_scopes(
                program,
                before,
                after,
                lower,
                f,
                base,
                to as int,
                env,
                tasks,
            );
        } else {
            direct_with_more_scopes(program, before, after, lower, f, base, to as int, env, tasks);
        },
        _ => direct_with_more_scopes(program, before, after, lower, f, base, ip, env, tasks),
    }
}

proof fn direct_with_more_scopes<'a>(
    program: Seq<FunctionView>,
    before: Seq<ScopeView>,
    after: Seq<ScopeView>,
    lower: Seq<CallFrame>,
    f: int,
    base: usize,
    ip: int,
    env: usize,
    tasks: Seq<Task<'a>>,
)
    requires
        same_parents(before, after),
        direct(program, before, lower, f, base, ip, env, tasks),
    ensures
        direct(program, after, lower, f, base, ip, env, tasks),
    decreases tasks.len(), 0nat, 0nat,
{
    reveal_with_fuel(continues, 1);
    reveal_with_fuel(direct, 1);
    if tasks.len() > 0 {
        match tasks.last() {
            Task::EndCall { env: outer, height } => continues_with_more_scopes(
                program,
                before,
                after,
                lower.drop_last(),
                lower.last().function as int,
                lower.last().base,
                lower.last().ip as int,
                outer,
                tasks.drop_last(),
            ),
            task => continues_with_more_scopes(
                program,
                before,
                after,
                lower,
                f,
                base,
                next_ip(ip, task),
                next_env(env, task),
                tasks.drop_last(),
            ),
        }
    }
}

/// What it is for the machine to do what the tasks say, the code of the
/// task on top standing at the address itself.
pub proof fn direct_unfolds<'a>(
    program: Seq<FunctionView>,
    scopes: Seq<ScopeView>,
    lower: Seq<CallFrame>,
    f: int,
    base: usize,
    ip: int,
    env: usize,
    tasks: Seq<Task<'a>>,
)
    ensures
        direct(program, scopes, lower, f, base, ip, env, tasks) == (if tasks.len() == 0 {
            lower.len() == 0 && op_at(program, f, ip) == Some(Instruction::Halt)
        } else {
            &&& shape(program, scopes, f, ip, env, tasks.last())
            &&& match tasks.last() {
                Task::EndCall { env: outer, height } => {
                    &&& lower.len() > 0
                    &&& height == base
                    &&& lower.last().env == outer
                    &&& continues(
                        program,
                        scopes,
                        lower.drop_last(),
                        lower.last().function as int,
                        lower.last().base,
                        lower.last().ip as int,
                        outer,
                        tasks.drop_last(),
                    )
                },
                task => continues(
                    program,
                    scopes,
                    lower,
                    f,
                    base,
                    next_ip(ip, task),
                    next_env(env, task),
                    tasks.drop_last(),
                ),
            }
        }),
{
    reveal_with_fuel(direct, 2);
    reveal_with_fuel(continues, 2);
}

/// What it is for the machine to do what the tasks say: jumps that stand in
/// the way are followed.
pub proof fn continues_unfolds<'a>(
    program: Seq<FunctionView>,
    scopes: Seq<ScopeView>,
    lower: Seq<CallFrame>,
    f: int,
    base: usize,
    ip: int,
    env: usize,
    tasks: Seq<Task<'a>>,
)
    ensures
        continues(program, scopes, lower, f, base, ip, env, tasks) == (match op_at(
            program,
            f,
            ip,
        ) {
            Some(Instruction::Jmp(to)) => if to > ip {
                continues(program, scopes, lower, f, base, to as int, env, tasks)
            } else {
                direct(program, scopes, lower, f, base, to as int, env, tasks)
            },
            _ => direct(program, scopes, lower, f, base, ip, env, tasks),
        }),
{
    reveal_with_fuel(direct, 2);
    reveal_with_fuel(continues, 2);
}

} // verus!
