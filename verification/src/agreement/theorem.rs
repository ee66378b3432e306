//! The agreement of the backends.
//!
//! The machine that runs the compiled program and the evaluator that walks
//! the program start at the same point; where the evaluator gets by its
//! steps, the machine gets by steps of its own; and what the one asks of the
//! host, or ends in, the other does too. So the two give the same requests in
//! the same order, and with them the same output, as long as they are given
//! the same answers.

use vstd::prelude::*;
use crate::agreement::calls::{does_call, does_end_call, does_library_call, does_return};
use crate::agreement::code::{
    compiled_stands, size, stands,
};
use crate::agreement::nodes::{
    does_array, does_assignment, does_binary, does_block, does_call_node, does_for,
    does_function, does_literal, does_object, does_program, does_short_circuit_node,
    does_while, does_wrapped,
};
use crate::agreement::relation::{
    continues_unfolds, continues_with_more_scopes, direct_unfolds, related, same_parents,
};
use crate::agreement::steps::{
    at_address, continues_lands, hops, landing, machine_lands, plan, ran_more, ran_sum,
};
use crate::agreement::tasks::{
    agrees, does_assign_member, does_assign_var, does_branch, does_declare, does_discard,
    does_duplicate, does_leave_scope, does_loop_test, does_make_array, does_operate,
    does_push_null, does_set_entry, does_short_circuit, does_to_boolean, does_unary, poised,
};
use crate::ast::ASTNode;
use crate::host::{answered, ResponseView};
use crate::signal::SignalView;
use crate::store::Fields;
use crate::tokenizer::TokenKind;
use crate::treewalk::evaluator::{walked, Task, WalkView};
use crate::value::ValueView;
use crate::virtual_machine::bytecode::{program_fits, FunctionView};
use crate::virtual_machine::codegen::compiled;
use crate::virtual_machine::interpreter::{ran, MachineView};

verus! {

/// How many instructions the machine executes where the evaluator does the
/// task on top.
pub open spec fn cost<'a>(w: WalkView<'a>) -> nat {
    match w.tasks.last() {
        Task::Eval(node) => match *node {
            ASTNode::Program(v) => if v@.len() == 0 {
                1
            } else {
                0
            },
            ASTNode::FunctionDeclaration { name, parameters, body } => if name is Some {
                2
            } else {
                1
            },
            ASTNode::NumberLiteral(_)
            | ASTNode::StringLiteral(_)
            | ASTNode::BooleanLiteral(_)
            | ASTNode::NullLiteral
            | ASTNode::Variable(_)
            | ASTNode::Block(_)
            | ASTNode::ObjectLiteral(_)
            | ASTNode::WhileStatement { .. } => 1,
            _ => 0,
        },
        Task::SetEntry(_) | Task::ToBoolean => 2,
        Task::AndRight(_) => if w.stack.len() >= 1 && !crate::value::truthy(w.stack.last()) {
            2
        } else {
            1
        },
        Task::OrRight(_) => if w.stack.len() >= 1 && crate::value::truthy(w.stack.last()) {
            2
        } else {
            1
        },
        Task::Branch(_, alternative) => if w.stack.len() >= 1 && w.stack.last()
            == ValueView::Boolean(false) && alternative is None {
            2
        } else {
            1
        },
        Task::EndCall { .. } => 3,
        _ => 1,
    }
}

/// One step of the evaluator, from a state in which no jump stands in the
/// way of the machine: the machine gets to the same point by executing the
/// instructions of the task.
pub proof fn poised_step<'a>(program: Seq<FunctionView>, w: WalkView<'a>, m: MachineView)
    requires
        poised(program, w, m),
    ensures
        agrees(program, walked(w), ran(program, m, cost(w))),
{
    match w.tasks.last() {
        Task::Eval(node) => match *node {
            ASTNode::NumberLiteral(_)
            | ASTNode::StringLiteral(_)
            | ASTNode::BooleanLiteral(_)
            | ASTNode::NullLiteral
            | ASTNode::Variable(_) => does_literal(program, w, m),
            ASTNode::Program(_) => does_program(program, w, m),
            ASTNode::Block(_) => does_block(program, w, m),
            ASTNode::ObjectLiteral(_) => does_object(program, w, m),
            ASTNode::ArrayLiteral(_) => does_array(program, w, m),
            ASTNode::BinaryOp { left, op, right } => match op {
                TokenKind::Assign => does_assignment(program, w, m),
                TokenKind::And | TokenKind::Or => does_short_circuit_node(program, w, m),
                _ => does_binary(program, w, m),
            },
            ASTNode::FunctionCall { .. } => does_call_node(program, w, m),
            ASTNode::FunctionDeclaration { .. } => does_function(program, w, m),
            ASTNode::WhileStatement { .. } => does_while(program, w, m),
            ASTNode::ForStatement { .. } => does_for(program, w, m),
            _ => does_wrapped(program, w, m),
        },
        Task::Discard => does_discard(program, w, m),
        Task::PushNull => does_push_null(program, w, m),
        Task::Declare(_) => does_declare(program, w, m),
        Task::AssignVar(_) => does_assign_var(program, w, m),
        Task::AssignMember(_) => does_assign_member(program, w, m),
        Task::SetEntry(_) => does_set_entry(program, w, m),
        Task::Duplicate => does_duplicate(program, w, m),
        Task::Operate(_) => does_operate(program, w, m),
        Task::Negate | Task::Invert | Task::Unsupported | Task::Member(_) => does_unary(
            program,
            w,
            m,
        ),
        Task::AndRight(_) | Task::OrRight(_) => does_short_circuit(program, w, m),
        Task::ToBoolean => does_to_boolean(program, w, m),
        Task::Branch(_, _) => does_branch(program, w, m),
        Task::WhileTest(_, _) | Task::ForTest(_, _, _) => does_loop_test(program, w, m),
        Task::LeaveScope(_) => does_leave_scope(program, w, m),
        Task::Invoke(argc) => {
            if w.stack.len() >= argc + 1 && w.stack[w.stack.len() - argc - 1] is Function {
                does_call(program, w, m);
            } else {
                does_library_call(program, w, m);
            }
        },
        Task::EndCall { .. } => does_end_call(program, w, m),
        Task::Return => does_return(program, w, m),
        Task::MakeArray(_) => does_make_array(program, w, m),
    }
}

/// How many instructions the machine executes where the evaluator makes one
/// step: the jumps that stand in the way, and the instructions of the task
/// on top, or the instruction that ends the program.
pub open spec fn pace<'a>(program: Seq<FunctionView>, w: WalkView<'a>, m: MachineView) -> nat {
    hops(program, m.frames.last().function as int, m.frames.last().ip as int) + (if w.tasks.len()
        == 0 {
        1
    } else {
        cost(w)
    })
}

/// One step of the evaluator: the machine gets to the same point by steps of
/// its own.
pub proof fn step_agrees<'a>(program: Seq<FunctionView>, w: WalkView<'a>, m: MachineView)
    requires
        related(program, w, m),
        w.awaiting is None,
    ensures
        agrees(program, walked(w), ran(program, m, pace(program, w, m))),
{
    let f = m.frames.last().function as int;
    let ip = m.frames.last().ip as int;
    let jumps = hops(program, f, ip);
    let here = landing(program, f, ip);
    machine_lands(program, m);
    continues_lands(
        program,
        w.store.scopes,
        m.frames.drop_last(),
        f,
        m.frames.last().base,
        ip,
        w.env,
        w.tasks,
    );
    let landed = at_address(m, here);
    assert(landed.frames.drop_last() =~= m.frames.drop_last());
    ran_sum(program, m, jumps, (pace(program, w, m) - jumps) as nat);
    if w.tasks.len() == 0 {
        direct_unfolds(
            program,
            w.store.scopes,
            m.frames.drop_last(),
            f,
            m.frames.last().base,
            here,
            w.env,
            w.tasks,
        );
        ran_more(program, landed, 1);
    } else {
        poised_step(program, w, landed);
    }
}

/// How many instructions the machine executes where the evaluator makes at
/// most `fuel` steps.
pub open spec fn machine_fuel<'a>(
    program: Seq<FunctionView>,
    w: WalkView<'a>,
    m: MachineView,
    fuel: nat,
) -> nat
    decreases fuel,
{
    if fuel == 0 {
        0
    } else if walked(w).1 is Some {
        pace(program, w, m)
    } else {
        pace(program, w, m) + machine_fuel(
            program,
            walked(w).0,
            ran(program, m, pace(program, w, m)).0,
            (fuel - 1) as nat,
        )
    }
}

/// Whether the machine has got where the evaluator has got: both have
/// stopped with the same signal, and where the program has not come to its
/// end, their states stand for the same point of the run.
pub open spec fn same_outcome<'a>(
    program: Seq<FunctionView>,
    walk: (WalkView<'a>, SignalView),
    machine: (MachineView, SignalView),
) -> bool {
    &&& machine.1 == walk.1
    &&& walk.1 is Paused || walk.1 is Request ==> related(program, walk.0, machine.0)
    &&& walk.1 is Paused ==> walk.0.awaiting is None
}

/// Running: from states that stand for the same point of a run, whatever
/// the evaluator gets to by its steps, the machine gets to by steps of its
/// own. Both stop with the same signal: they ask the host for the same, or
/// end with the same value or the same error or the same exit code.
pub proof fn running_agrees<'a>(
    program: Seq<FunctionView>,
    w: WalkView<'a>,
    m: MachineView,
    fuel: nat,
)
    requires
        related(program, w, m),
        w.awaiting is None,
    ensures
        same_outcome(
            program,
            crate::treewalk::evaluator::ran(w, fuel),
            ran(program, m, machine_fuel(program, w, m, fuel)),
        ),
    decreases fuel,
{
    if fuel > 0 {
        step_agrees(program, w, m);
        let k = pace(program, w, m);
        if walked(w).1 is None {
            let w1 = walked(w).0;
            let m1 = ran(program, m, k).0;
            running_agrees(program, w1, m1, (fuel - 1) as nat);
            ran_sum(program, m, k, machine_fuel(program, w1, m1, (fuel - 1) as nat));
        }
    }
}

/// Answering: from states that stand for the same point of a run and wait
/// for the host, the same answer brings both to the same point again, or
/// fails both with the same error.
pub proof fn answering_agrees<'a>(
    program: Seq<FunctionView>,
    w: WalkView<'a>,
    m: MachineView,
    response: ResponseView,
)
    requires
        related(program, w, m),
    ensures
        crate::treewalk::evaluator::resumed(w, response).1
            == crate::virtual_machine::interpreter::resumed(m, response).1,
        crate::treewalk::evaluator::resumed(w, response).1 is None ==> related(
            program,
            crate::treewalk::evaluator::resumed(w, response).0,
            crate::virtual_machine::interpreter::resumed(m, response).0,
        ) && crate::treewalk::evaluator::resumed(w, response).0.awaiting is None,
{
    match w.awaiting {
        Some(awaiting) => {
            let store = answered(w.store, awaiting, response).1;
            assert(same_parents(w.store.scopes, store.scopes));
            continues_with_more_scopes(
                program,
                w.store.scopes,
                store.scopes,
                m.frames.drop_last(),
                m.frames.last().function as int,
                m.frames.last().base,
                m.frames.last().ip as int,
                w.env,
                w.tasks,
            );
        },
        None => {},
    }
}

/// Starting: the state in which the evaluator starts on a program and the
/// state in which the machine starts on the compiled program stand for the
/// same point of the run.
pub proof fn starting_agrees<'a>(program: &'a ASTNode, std: Fields)
    requires
        program_fits(compiled(*program)),
    ensures
        related(
            compiled(*program),
            crate::treewalk::evaluator::initial(program, std),
            crate::virtual_machine::interpreter::initial(std),
        ),
{
    let code = compiled(*program);
    let w = crate::treewalk::evaluator::initial(program, std);
    let m = crate::virtual_machine::interpreter::initial(std);
    compiled_stands(*program);
    let none = Seq::<Task<'a>>::empty();
    let lower = Seq::<crate::virtual_machine::interpreter::CallFrame>::empty();
    assert(m.frames.drop_last() =~= lower);
    direct_unfolds(code, w.store.scopes, lower, 0, 0, size(*program) as int, 0, none);
    continues_unfolds(code, w.store.scopes, lower, 0, 0, size(*program) as int, 0, none);
    plan(code, w.store.scopes, lower, 0, 0, 0, 0, none, Task::Eval(program));
    assert(none.push(Task::Eval(program)) =~= w.tasks);
}

/// The signals that the evaluator gives in a run in which it is allowed
/// `fuel` steps at a time and its requests are answered with `answers` in
/// order: the run ends with the first signal that is no request, with the
/// first answer that fails, or when the answers are used up.
pub open spec fn walk_signals<'a>(w: WalkView<'a>, answers: Seq<ResponseView>, fuel: nat) -> Seq<
    SignalView,
>
    decreases answers.len(),
{
    let (stopped, signal) = crate::treewalk::evaluator::ran(w, fuel);
    if signal is Request && answers.len() > 0 {
        let (answered, failure) = crate::treewalk::evaluator::resumed(stopped, answers[0]);
        match failure {
            Some(error) => seq![signal, error],
            None => seq![signal] + walk_signals(answered, answers.drop_first(), fuel),
        }
    } else {
        seq![signal]
    }
}

/// The signals that the machine gives in a run in which it is allowed the
/// steps that `fuels` says, one number for each time it runs, and its
/// requests are answered with `answers` in order.
pub open spec fn machine_signals(
    program: Seq<FunctionView>,
    m: MachineView,
    answers: Seq<ResponseView>,
    fuels: Seq<nat>,
) -> Seq<SignalView>
    decreases answers.len(),
{
    let fuel = if fuels.len() > 0 {
        fuels[0]
    } else {
        0
    };
    let (stopped, signal) = ran(program, m, fuel);
    if signal is Request && answers.len() > 0 {
        let (answered, failure) = crate::virtual_machine::interpreter::resumed(
            stopped,
            answers[0],
        );
        match failure {
            Some(error) => seq![signal, error],
            None => seq![signal] + machine_signals(
                program,
                answered,
                answers.drop_first(),
                fuels.drop_first(),
            ),
        }
    } else {
        seq![signal]
    }
}

/// The steps that the machine is to be allowed, each time it runs, to get
/// as far as the evaluator gets with `fuel` steps at a time.
pub open spec fn machine_fuels<'a>(
    program: Seq<FunctionView>,
    w: WalkView<'a>,
    m: MachineView,
    answers: Seq<ResponseView>,
    fuel: nat,
) -> Seq<nat>
    decreases answers.len(),
{
    let first = machine_fuel(program, w, m, fuel);
    let (stopped, signal) = crate::treewalk::evaluator::ran(w, fuel);
    if signal is Request && answers.len() > 0 {
        let (answered, failure) = crate::treewalk::evaluator::resumed(stopped, answers[0]);
        match failure {
            Some(_) => seq![first],
            None => seq![first] + machine_fuels(
                program,
                answered,
                crate::virtual_machine::interpreter::resumed(
                    ran(program, m, first).0,
                    answers[0],
                ).0,
                answers.drop_first(),
                fuel,
            ),
        }
    } else {
        seq![first]
    }
}

/// From states that stand for the same point of a run, the evaluator and
/// the machine give the same signals in the same order, whatever the host
/// answers: they ask for the same, print the same, and end alike.
pub proof fn sessions_agree<'a>(
    program: Seq<FunctionView>,
    w: WalkView<'a>,
    m: MachineView,
    answers: Seq<ResponseView>,
    fuel: nat,
)
    requires
        related(program, w, m),
        w.awaiting is None,
    ensures
        machine_signals(program, m, answers, machine_fuels(program, w, m, answers, fuel))
            == walk_signals(w, answers, fuel),
    decreases answers.len(),
{
    running_agrees(program, w, m, fuel);
    let first = machine_fuel(program, w, m, fuel);
    let fuels = machine_fuels(program, w, m, answers, fuel);
    let (w1, signal) = crate::treewalk::evaluator::ran(w, fuel);
    let m1 = ran(program, m, first).0;
    assert(fuels.len() > 0 && fuels[0] == first);
    if signal is Request && answers.len() > 0 {
        answering_agrees(program, w1, m1, answers[0]);
        let (w2, failure) = crate::treewalk::evaluator::resumed(w1, answers[0]);
        let m2 = crate::virtual_machine::interpreter::resumed(m1, answers[0]).0;
        match failure {
            Some(_) => {},
            None => {
                sessions_agree(program, w2, m2, answers.drop_first(), fuel);
                assert(fuels.drop_first() =~= machine_fuels(
                    program,
                    w2,
                    m2,
                    answers.drop_first(),
                    fuel,
                ));
            },
        }
    }
}

/// The backends agree. Run on a program, the evaluator, and the machine on
/// the compiled program, give the same signals in the same order: the same
/// requests to the host, among them all that is printed, and the same end.
/// The evaluator may be allowed any number of steps at a time, and the host
/// may answer anything, as long as it answers both alike.
pub proof fn backends_agree<'a>(
    program: &'a ASTNode,
    std: Fields,
    answers: Seq<ResponseView>,
    fuel: nat,
)
    requires
        program_fits(compiled(*program)),
    ensures
        machine_signals(
            compiled(*program),
            crate::virtual_machine::interpreter::initial(std),
            answers,
            machine_fuels(
                compiled(*program),
                crate::treewalk::evaluator::initial(program, std),
                crate::virtual_machine::interpreter::initial(std),
                answers,
                fuel,
            ),
        ) == walk_signals(crate::treewalk::evaluator::initial(program, std), answers, fuel),
{
    starting_agrees(program, std);
    sessions_agree(
        compiled(*program),
        crate::treewalk::evaluator::initial(program, std),
        crate::virtual_machine::interpreter::initial(std),
        answers,
        fuel,
    );
}

} // verus!
