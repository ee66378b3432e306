//! The tasks of the evaluator, one kind after the other: what the machine
//! does where the evaluator does the task.

use vstd::prelude::*;
use crate::agreement::code::{size, stands};
use crate::agreement::relation::{
    closures_agree, continues, continues_unfolds, continues_with_more_scopes, decision_at,
    direct, direct_unfolds, next_env, next_ip, related, same_parents, shape,
};
use crate::agreement::steps::{plan, ran_more};
use crate::signal::SignalView;
use crate::store::StoreView;
use crate::treewalk::evaluator::{walked, Task, WalkView};
use crate::value::ValueView;
use crate::virtual_machine::bytecode::{program_fits, FunctionView};
use crate::virtual_machine::interpreter::{ran, stepped, CallFrame, MachineView};

verus! {

/// Whether the machine, after its steps, is where the evaluator is after
/// its step: both go on, and their states stand for the same point of the
/// run; or both stop with the same signal, and where they stop to ask the
/// host, their states stand for the same point of the run.
pub open spec fn agrees<'a>(
    program: Seq<FunctionView>,
    walk: (WalkView<'a>, Option<SignalView>),
    machine: (MachineView, SignalView),
) -> bool {
    match walk.1 {
        None => machine.1 == SignalView::Paused && related(program, walk.0, machine.0)
            && walk.0.awaiting is None,
        Some(signal) => {
            &&& machine.1 == signal
            &&& signal is Request ==> related(program, walk.0, machine.0)
        },
    }
}

/// Whether a state of the evaluator and a state of the machine stand for
/// the same point of the same run, with no jump in the way of the machine,
/// and neither waits for the host.
pub open spec fn poised<'a>(program: Seq<FunctionView>, w: WalkView<'a>, m: MachineView) -> bool {
    &&& program_fits(program)
    &&& w.stack == m.stack
    &&& w.store == m.store
    &&& w.awaiting is None
    &&& m.awaiting is None
    &&& m.frames.len() > 0
    &&& w.env == m.frames.last().env
    &&& closures_agree(program, w.closures, m.closures)
    &&& w.tasks.len() > 0
    &&& direct(
        program,
        w.store.scopes,
        m.frames.drop_last(),
        m.frames.last().function as int,
        m.frames.last().base,
        m.frames.last().ip as int,
        w.env,
        w.tasks,
    )
}

/// The state of the machine after instructions that work on the stack and
/// the store alone: it stands at another address.
pub open spec fn moved(m: MachineView, ip: int, stack: Seq<ValueView>, store: StoreView) -> MachineView {
    MachineView {
        frames: m.frames.update(
            m.frames.len() - 1,
            CallFrame { ip: ip as usize, ..m.frames.last() },
        ),
        stack,
        store,
        ..m
    }
}

/// Where the evaluator has done the task on top, and the machine the
/// instructions of the task, working on the stack and the store alone and in
/// the same way, their states stand for the same point of the run again.
pub proof fn related_after<'a>(
    program: Seq<FunctionView>,
    w: WalkView<'a>,
    m: MachineView,
    stack: Seq<ValueView>,
    store: StoreView,
)
    requires
        poised(program, w, m),
        !(w.tasks.last() is EndCall),
        !(w.tasks.last() is LeaveScope),
        same_parents(w.store.scopes, store.scopes),
        0 <= next_ip(m.frames.last().ip as int, w.tasks.last()) <= usize::MAX,
    ensures
        related(
            program,
            WalkView { tasks: w.tasks.drop_last(), stack, store, ..w },
            moved(m, next_ip(m.frames.last().ip as int, w.tasks.last()), stack, store),
        ),
{
    let after = moved(m, next_ip(m.frames.last().ip as int, w.tasks.last()), stack, store);
    assert(after.frames.drop_last() =~= m.frames.drop_last());
    next_fits(program, w, m);
    continues_with_more_scopes(
        program,
        w.store.scopes,
        store.scopes,
        m.frames.drop_last(),
        m.frames.last().function as int,
        m.frames.last().base,
        next_ip(m.frames.last().ip as int, w.tasks.last()),
        w.env,
        w.tasks.drop_last(),
    );
}

/// The address behind the code of a task lies in the code.
pub proof fn next_fits<'a>(program: Seq<FunctionView>, w: WalkView<'a>, m: MachineView)
    requires
        poised(program, w, m),
    ensures
        m.frames.last().function < program.len(),
        0 <= m.frames.last().ip < program[m.frames.last().function as int].instructions.len(),
        program[m.frames.last().function as int].instructions.len() <= usize::MAX,
        shape(
            program,
            w.store.scopes,
            m.frames.last().function as int,
            m.frames.last().ip as int,
            w.env,
            w.tasks.last(),
        ),
        !(w.tasks.last() is EndCall) ==> continues(
            program,
            w.store.scopes,
            m.frames.drop_last(),
            m.frames.last().function as int,
            m.frames.last().base,
            next_ip(m.frames.last().ip as int, w.tasks.last()),
            next_env(w.env, w.tasks.last()),
            w.tasks.drop_last(),
        ),
{
    direct_unfolds(
        program,
        w.store.scopes,
        m.frames.drop_last(),
        m.frames.last().function as int,
        m.frames.last().base,
        m.frames.last().ip as int,
        w.env,
        w.tasks,
    );
    crate::agreement::steps::shape_starts(
        program,
        w.store.scopes,
        m.frames.last().function as int,
        m.frames.last().ip as int,
        w.env,
        w.tasks.last(),
    );
}

pub proof fn does_discard<'a>(program: Seq<FunctionView>, w: WalkView<'a>, m: MachineView)
    requires
        poised(program, w, m),
        w.tasks.last() is Discard,
    ensures
        agrees(program, walked(w), ran(program, m, 1)),
{
    next_fits(program, w, m);
    ran_more(program, m, 1);
    if w.stack.len() >= 1 {
        related_after(program, w, m, w.stack.drop_last(), w.store);
        assert(stepped(program, m).0.frames =~= moved(
            m,
            m.frames.last().ip + 1,
            w.stack.drop_last(),
            w.store,
        ).frames);
    }
}

/// Two states that stand for the same point of a run do so whatever both
/// wait for.
pub proof fn related_waiting<'a>(
    program: Seq<FunctionView>,
    w: WalkView<'a>,
    m: MachineView,
    awaiting: Option<crate::host::Awaiting>,
)
    requires
        related(program, w, m),
    ensures
        related(program, WalkView { awaiting, ..w }, MachineView { awaiting, ..m }),
{
}

/// The machine, one instruction further, at the stack and store given.
pub open spec fn stepped_to(m: MachineView, stack: Seq<ValueView>, store: StoreView) -> MachineView {
    moved(m, m.frames.last().ip + 1, stack, store)
}

/// What one step of the machine gives where the instruction at hand works
/// on the stack and the store alone.
pub proof fn one_step(program: Seq<FunctionView>, m: MachineView, stack: Seq<ValueView>, store: StoreView)
    requires
        m.frames.len() > 0,
        stepped(program, m).0.frames == m.frames.update(
            m.frames.len() - 1,
            CallFrame { ip: (m.frames.last().ip + 1) as usize, ..m.frames.last() },
        ),
        stepped(program, m).0.stack == stack,
        stepped(program, m).0.store == store,
        stepped(program, m).0.closures == m.closures,
        stepped(program, m).0.awaiting == m.awaiting,
    ensures
        stepped(program, m).0 == stepped_to(m, stack, store),
{
}

pub proof fn does_push_null<'a>(program: Seq<FunctionView>, w: WalkView<'a>, m: MachineView)
    requires
        poised(program, w, m),
        w.tasks.last() is PushNull,
    ensures
        agrees(program, walked(w), ran(program, m, 1)),
{
    next_fits(program, w, m);
    ran_more(program, m, 1);
    related_after(program, w, m, w.stack.push(ValueView::Null), w.store);
    one_step(program, m, w.stack.push(ValueView::Null), w.store);
}

pub proof fn does_duplicate<'a>(program: Seq<FunctionView>, w: WalkView<'a>, m: MachineView)
    requires
        poised(program, w, m),
        w.tasks.last() is Duplicate,
    ensures
        agrees(program, walked(w), ran(program, m, 1)),
{
    next_fits(program, w, m);
    ran_more(program, m, 1);
    if w.stack.len() >= 1 {
        related_after(program, w, m, w.stack.push(w.stack.last()), w.store);
        one_step(program, m, w.stack.push(w.stack.last()), w.store);
    }
}

pub proof fn does_operate<'a>(program: Seq<FunctionView>, w: WalkView<'a>, m: MachineView)
    requires
        poised(program, w, m),
        w.tasks.last() is Operate,
    ensures
        agrees(program, walked(w), ran(program, m, 1)),
{
    next_fits(program, w, m);
    ran_more(program, m, 1);
    let n = w.stack.len() as int;
    if n >= 2 {
        let below = w.stack.take(n - 2);
        let outcome = crate::ops::operated(
            w.tasks.last()->Operate_0,
            w.stack[n - 2],
            w.stack[n - 1],
        );
        match outcome {
            crate::stdlib::OutcomeView::Value(v) => {
                related_after(program, w, m, below.push(v), w.store);
                one_step(program, m, below.push(v), w.store);
            },
            crate::stdlib::OutcomeView::Ask { request, awaiting } => {
                related_after(program, w, m, below, w.store);
                related_waiting(
                    program,
                    WalkView { tasks: w.tasks.drop_last(), stack: below, ..w },
                    stepped_to(m, below, w.store),
                    Some(awaiting),
                );
                assert(stepped(program, m).0.frames =~= stepped_to(m, below, w.store).frames);
            },
            _ => {},
        }
    }
}

pub proof fn does_unary<'a>(program: Seq<FunctionView>, w: WalkView<'a>, m: MachineView)
    requires
        poised(program, w, m),
        w.tasks.last() is Negate || w.tasks.last() is Invert || w.tasks.last() is Member
            || w.tasks.last() is Unsupported,
    ensures
        agrees(program, walked(w), ran(program, m, 1)),
{
    next_fits(program, w, m);
    ran_more(program, m, 1);
    if w.stack.len() >= 1 && !(w.tasks.last() is Unsupported) {
        let below = w.stack.drop_last();
        let result = match w.tasks.last() {
            Task::Negate => crate::ops::negative_of(w.stack.last()),
            Task::Invert => crate::ops::inverse_of(w.stack.last()),
            Task::Member(name) => crate::ops::member_of(w.store, w.stack.last(), name@),
            _ => arbitrary(),
        };
        match result {
            Ok(v) => {
                related_after(program, w, m, below.push(v), w.store);
                one_step(program, m, below.push(v), w.store);
            },
            Err(_) => {},
        }
    }
}

pub proof fn does_make_array<'a>(program: Seq<FunctionView>, w: WalkView<'a>, m: MachineView)
    requires
        poised(program, w, m),
        w.tasks.last() is MakeArray,
    ensures
        agrees(program, walked(w), ran(program, m, 1)),
{
    next_fits(program, w, m);
    ran_more(program, m, 1);
    let n = w.stack.len() as int;
    let count = w.tasks.last()->MakeArray_0;
    if n >= count {
        let store = StoreView {
            arrays: w.store.arrays.push(w.stack.subrange(n - count, n)),
            ..w.store
        };
        let stack = w.stack.take(n - count).push(ValueView::Array(w.store.arrays.len()));
        related_after(program, w, m, stack, store);
        one_step(program, m, stack, store);
    }
}

pub proof fn does_set_entry<'a>(program: Seq<FunctionView>, w: WalkView<'a>, m: MachineView)
    requires
        poised(program, w, m),
        w.tasks.last() is SetEntry,
    ensures
        agrees(program, walked(w), ran(program, m, 2)),
{
    next_fits(program, w, m);
    ran_more(program, m, 2);
    let n = w.stack.len() as int;
    if n >= 2 {
        match crate::ops::member_put(
            w.store,
            w.stack[n - 2],
            w.tasks.last()->SetEntry_0@,
            w.stack[n - 1],
        ) {
            Ok(store) => {
                let below = w.stack.take(n - 2);
                let m1 = stepped(program, m).0;
                one_step(program, m, below.push(ValueView::Null), store);
                ran_more(program, m1, 1);
                let m2 = stepped(program, m1).0;
                assert(below.push(ValueView::Null).drop_last() =~= below);
                related_after(program, w, m, below, store);
                assert(m2.frames =~= moved(m, m.frames.last().ip + 2, below, store).frames);
            },
            Err(_) => {},
        }
    }
}

pub proof fn does_leave_scope<'a>(program: Seq<FunctionView>, w: WalkView<'a>, m: MachineView)
    requires
        poised(program, w, m),
        w.tasks.last() is LeaveScope,
    ensures
        agrees(program, walked(w), ran(program, m, 1)),
{
    next_fits(program, w, m);
    ran_more(program, m, 1);
    let after = stepped(program, m).0;
    assert(after.frames.drop_last() =~= m.frames.drop_last());
}

pub proof fn does_declare<'a>(program: Seq<FunctionView>, w: WalkView<'a>, m: MachineView)
    requires
        poised(program, w, m),
        w.tasks.last() is Declare,
    ensures
        agrees(program, walked(w), ran(program, m, 1)),
{
    next_fits(program, w, m);
    ran_more(program, m, 1);
    let name = w.tasks.last()->Declare_0;
    if w.stack.len() >= 1 && w.env < w.store.scopes.len() {
        let below = w.stack.drop_last();
        let store = StoreView {
            scopes: crate::store::declared(w.store.scopes, w.env as nat, name@, w.stack.last()),
            ..w.store
        };
        related_after(program, w, m, below.push(ValueView::Null), store);
        one_step(program, m, below.push(ValueView::Null), store);
    }
}

pub proof fn does_assign_var<'a>(program: Seq<FunctionView>, w: WalkView<'a>, m: MachineView)
    requires
        poised(program, w, m),
        w.tasks.last() is AssignVar,
    ensures
        agrees(program, walked(w), ran(program, m, 1)),
{
    next_fits(program, w, m);
    ran_more(program, m, 1);
    let name = w.tasks.last()->AssignVar_0;
    if w.stack.len() >= 1 {
        if crate::store::home(w.store.scopes, w.env as nat, name@) is Some {
            let store = StoreView {
                scopes: crate::store::assigned(
                    w.store.scopes,
                    w.env as nat,
                    name@,
                    w.stack.last(),
                ),
                ..w.store
            };
            crate::store::home_bounds(w.store.scopes, w.env as nat, name@);
            related_after(program, w, m, w.stack, store);
            one_step(program, m, w.stack, store);
        }
    }
}

pub proof fn does_assign_member<'a>(program: Seq<FunctionView>, w: WalkView<'a>, m: MachineView)
    requires
        poised(program, w, m),
        w.tasks.last() is AssignMember,
    ensures
        agrees(program, walked(w), ran(program, m, 1)),
{
    next_fits(program, w, m);
    ran_more(program, m, 1);
    let n = w.stack.len() as int;
    if n >= 2 {
        match crate::ops::member_put(
            w.store,
            w.stack[n - 2],
            w.tasks.last()->AssignMember_0@,
            w.stack[n - 1],
        ) {
            Ok(store) => {
                let stack = w.stack.take(n - 2).push(ValueView::Null);
                related_after(program, w, m, stack, store);
                one_step(program, m, stack, store);
            },
            Err(_) => {},
        }
    }
}

/// Where the machine does from an address on what the evaluator has left
/// to do, and both hold the same stack and store, their states stand for
/// the same point of the run.
pub proof fn related_at<'a>(
    program: Seq<FunctionView>,
    w: WalkView<'a>,
    m: MachineView,
    ip: int,
    tasks: Seq<Task<'a>>,
    stack: Seq<ValueView>,
    store: StoreView,
)
    requires
        poised(program, w, m),
        same_parents(w.store.scopes, store.scopes),
        0 <= ip <= usize::MAX,
        continues(
            program,
            w.store.scopes,
            m.frames.drop_last(),
            m.frames.last().function as int,
            m.frames.last().base,
            ip,
            w.env,
            tasks,
        ),
    ensures
        related(program, WalkView { tasks, stack, store, ..w }, moved(m, ip, stack, store)),
{
    let after = moved(m, ip, stack, store);
    assert(after.frames.drop_last() =~= m.frames.drop_last());
    continues_with_more_scopes(
        program,
        w.store.scopes,
        store.scopes,
        m.frames.drop_last(),
        m.frames.last().function as int,
        m.frames.last().base,
        ip,
        w.env,
        tasks,
    );
}

/// A jump forward leads to what is left to do.
pub proof fn jump_forward<'a>(
    program: Seq<FunctionView>,
    scopes: Seq<crate::store::ScopeView>,
    lower: Seq<CallFrame>,
    f: int,
    base: usize,
    ip: int,
    to: int,
    env: usize,
    tasks: Seq<Task<'a>>,
)
    requires
        crate::agreement::code::jump_at(program, f, ip, to),
        to > ip,
        continues(program, scopes, lower, f, base, to, env, tasks),
    ensures
        continues(program, scopes, lower, f, base, ip, env, tasks),
{
    continues_unfolds(program, scopes, lower, f, base, ip, env, tasks);
}

/// A jump back leads to what is left to do.
pub proof fn jump_back<'a>(
    program: Seq<FunctionView>,
    scopes: Seq<crate::store::ScopeView>,
    lower: Seq<CallFrame>,
    f: int,
    base: usize,
    ip: int,
    to: int,
    env: usize,
    tasks: Seq<Task<'a>>,
)
    requires
        crate::agreement::code::jump_at(program, f, ip, to),
        to <= ip,
        direct(program, scopes, lower, f, base, to, env, tasks),
    ensures
        continues(program, scopes, lower, f, base, ip, env, tasks),
{
    continues_unfolds(program, scopes, lower, f, base, ip, env, tasks);
}

pub proof fn does_to_boolean<'a>(program: Seq<FunctionView>, w: WalkView<'a>, m: MachineView)
    requires
        poised(program, w, m),
        w.tasks.last() is ToBoolean,
    ensures
        agrees(program, walked(w), ran(program, m, 2)),
{
    next_fits(program, w, m);
    ran_more(program, m, 2);
    let f = m.frames.last().function as int;
    let ip = m.frames.last().ip as int;
    if w.stack.len() >= 1 {
        let below = w.stack.drop_last();
        let truth = crate::value::truthy(w.stack.last());
        let stack = below.push(ValueView::Boolean(truth));
        let stop_on = decision_at(program, f, ip, true);
        let m1 = stepped(program, m).0;
        ran_more(program, m1, 1);
        let m2 = stepped(program, m1).0;
        if truth == stop_on {
            assert(m1.frames =~= moved(m, ip + 3, below, w.store).frames);
            related_after(program, w, m, stack, w.store);
            assert(m2.frames =~= moved(m, ip + 4, stack, w.store).frames);
        } else {
            one_step(program, m, below, w.store);
            jump_forward(
                program,
                w.store.scopes,
                m.frames.drop_last(),
                f,
                m.frames.last().base,
                ip + 2,
                ip + 4,
                w.env,
                w.tasks.drop_last(),
            );
            related_at(program, w, m, ip + 2, w.tasks.drop_last(), stack, w.store);
            assert(m2.frames =~= moved(m, ip + 2, stack, w.store).frames);
        }
    }
}

pub proof fn does_short_circuit<'a>(program: Seq<FunctionView>, w: WalkView<'a>, m: MachineView)
    requires
        poised(program, w, m),
        w.tasks.last() is AndRight || w.tasks.last() is OrRight,
    ensures
        w.stack.len() >= 1 && crate::value::truthy(w.stack.last()) == (w.tasks.last() is OrRight)
            ==> agrees(program, walked(w), ran(program, m, 2)),
        !(w.stack.len() >= 1 && crate::value::truthy(w.stack.last()) == (w.tasks.last()
            is OrRight)) ==> agrees(program, walked(w), ran(program, m, 1)),
{
    next_fits(program, w, m);
    ran_more(program, m, 1);
    ran_more(program, m, 2);
    let f = m.frames.last().function as int;
    let ip = m.frames.last().ip as int;
    let stop_on = w.tasks.last() is OrRight;
    let right = match w.tasks.last() {
        Task::AndRight(r) => r,
        Task::OrRight(r) => r,
        _ => arbitrary(),
    };
    if w.stack.len() >= 1 {
        let below = w.stack.drop_last();
        let rest = w.tasks.drop_last();
        let m1 = stepped(program, m).0;
        if crate::value::truthy(w.stack.last()) == stop_on {
            let stack = below.push(ValueView::Boolean(stop_on));
            assert(m1.frames =~= moved(m, ip + size(*right) + 4, below, w.store).frames);
            ran_more(program, m1, 1);
            let m2 = stepped(program, m1).0;
            related_after(program, w, m, stack, w.store);
            assert(m2.frames =~= moved(m, ip + size(*right) + 5, stack, w.store).frames);
        } else {
            one_step(program, m, below, w.store);
            plan(
                program,
                w.store.scopes,
                m.frames.drop_last(),
                f,
                m.frames.last().base,
                ip + 1 + size(*right),
                w.env,
                rest,
                Task::ToBoolean,
            );
            plan(
                program,
                w.store.scopes,
                m.frames.drop_last(),
                f,
                m.frames.last().base,
                ip + 1,
                w.env,
                rest.push(Task::ToBoolean),
                Task::Eval(right),
            );
            let tasks = rest.push(Task::ToBoolean).push(Task::Eval(right));
            assert(tasks =~= rest + seq![Task::ToBoolean, Task::Eval(right)]);
            related_at(program, w, m, ip + 1, tasks, below, w.store);
        }
    }
}

pub proof fn does_branch<'a>(program: Seq<FunctionView>, w: WalkView<'a>, m: MachineView)
    requires
        poised(program, w, m),
        w.tasks.last() is Branch,
    ensures
        w.stack.len() >= 1 && w.stack.last() == ValueView::Boolean(false) && w.tasks.last()->Branch_1
            is None ==> agrees(program, walked(w), ran(program, m, 2)),
        !(w.stack.len() >= 1 && w.stack.last() == ValueView::Boolean(false) && w.tasks.last()->Branch_1
            is None) ==> agrees(program, walked(w), ran(program, m, 1)),
{
    next_fits(program, w, m);
    ran_more(program, m, 1);
    ran_more(program, m, 2);
    let f = m.frames.last().function as int;
    let ip = m.frames.last().ip as int;
    let consequence = w.tasks.last()->Branch_0;
    let alternative = w.tasks.last()->Branch_1;
    let leave = ip + 1 + size(*consequence);
    let end = next_ip(ip, w.tasks.last());
    let rest = w.tasks.drop_last();
    let lower = m.frames.drop_last();
    let base = m.frames.last().base;
    if w.stack.len() >= 1 {
        let below = w.stack.drop_last();
        match w.stack.last() {
            ValueView::Boolean(b) => {
                let m2 = stepped(program, m).0;
                if b {
                    jump_forward(program, w.store.scopes, lower, f, base, leave, end, w.env, rest);
                    plan(
                        program,
                        w.store.scopes,
                        lower,
                        f,
                        base,
                        ip + 1,
                        w.env,
                        rest,
                        Task::Eval(consequence),
                    );
                    assert(rest.push(Task::Eval(consequence)) =~= rest + seq![
                        Task::Eval(consequence),
                    ]);
                    related_at(
                        program,
                        w,
                        m,
                        ip + 1,
                        rest.push(Task::Eval(consequence)),
                        below,
                        w.store,
                    );
                    assert(m2.frames =~= moved(m, ip + 1, below, w.store).frames);
                } else {
                    assert(m2.frames =~= moved(m, leave + 1, below, w.store).frames);
                    match alternative {
                        Some(a) => {
                            plan(
                                program,
                                w.store.scopes,
                                lower,
                                f,
                                base,
                                leave + 1,
                                w.env,
                                rest,
                                Task::Eval(a),
                            );
                            assert(rest.push(Task::Eval(a)) =~= rest + seq![Task::Eval(a)]);
                            related_at(
                                program,
                                w,
                                m,
                                leave + 1,
                                rest.push(Task::Eval(a)),
                                below,
                                w.store,
                            );
                        },
                        None => {
                            ran_more(program, m2, 1);
                            let m3 = stepped(program, m2).0;
                            let stack = below.push(ValueView::Null);
                            related_after(program, w, m, stack, w.store);
                            assert(m3.frames =~= moved(m, end, stack, w.store).frames);
                        },
                    }
                }
            },
            _ => {},
        }
    }
}

/// The tasks of one more round of a loop are what the machine does behind
/// the test of the loop.
proof fn round_continues<'a>(
    program: Seq<FunctionView>,
    scopes: Seq<crate::store::ScopeView>,
    lower: Seq<CallFrame>,
    f: int,
    base: usize,
    ip: int,
    env: usize,
    rest: Seq<Task<'a>>,
    task: Task<'a>,
)
    requires
        task is WhileTest || task is ForTest,
        direct(program, scopes, lower, f, base, ip, env, rest.push(task)),
    ensures
        continues(program, scopes, lower, f, base, ip + 1, env, rest + round(task)),
{
    assert(rest.push(task).last() == task);
    assert(rest.push(task).drop_last() =~= rest);
    direct_unfolds(program, scopes, lower, f, base, ip, env, rest.push(task));
    plan(program, scopes, lower, f, base, ip, env, rest, task);
    let r1 = rest.push(task);
    match task {
        Task::WhileTest(condition, body) => {
            let back = ip + 2 + size(*body);
            let again = ip - size(*condition);
            plan(program, scopes, lower, f, base, again, env, r1, Task::Eval(condition));
            let r2 = r1.push(Task::Eval(condition));
            jump_back(program, scopes, lower, f, base, back, again, env, r2);
            plan(program, scopes, lower, f, base, ip + 2, env, r2, Task::Eval(body));
            let r3 = r2.push(Task::Eval(body));
            plan(program, scopes, lower, f, base, ip + 1, env, r3, Task::Discard);
            assert(r3.push(Task::Discard) =~= rest + round(task));
        },
        Task::ForTest(condition, iter, body) => {
            let step = ip + 2 + size(*body);
            let back = step + size(*iter) + 1;
            let again = ip - size(*condition);
            plan(program, scopes, lower, f, base, again, env, r1, Task::Eval(condition));
            let r2 = r1.push(Task::Eval(condition));
            jump_back(program, scopes, lower, f, base, back, again, env, r2);
            plan(program, scopes, lower, f, base, back - 1, env, r2, Task::Discard);
            let r3 = r2.push(Task::Discard);
            plan(program, scopes, lower, f, base, step, env, r3, Task::Eval(iter));
            let r4 = r3.push(Task::Eval(iter));
            plan(program, scopes, lower, f, base, ip + 2, env, r4, Task::Eval(body));
            let r5 = r4.push(Task::Eval(body));
            plan(program, scopes, lower, f, base, ip + 1, env, r5, Task::Discard);
            assert(r5.push(Task::Discard) =~= rest + round(task));
        },
        _ => {},
    }
}

/// The tasks of one more round of a loop.
pub open spec fn round<'a>(task: Task<'a>) -> Seq<Task<'a>> {
    match task {
        Task::WhileTest(condition, body) => seq![
            task,
            Task::Eval(condition),
            Task::Eval(body),
            Task::Discard,
        ],
        Task::ForTest(condition, iter, body) => seq![
            task,
            Task::Eval(condition),
            Task::Discard,
            Task::Eval(iter),
            Task::Eval(body),
            Task::Discard,
        ],
        _ => Seq::empty(),
    }
}

pub proof fn does_loop_test<'a>(program: Seq<FunctionView>, w: WalkView<'a>, m: MachineView)
    requires
        poised(program, w, m),
        w.tasks.last() is WhileTest || w.tasks.last() is ForTest,
    ensures
        agrees(program, walked(w), ran(program, m, 1)),
{
    next_fits(program, w, m);
    ran_more(program, m, 1);
    let ip = m.frames.last().ip as int;
    let rest = w.tasks.drop_last();
    let task = w.tasks.last();
    if w.stack.len() >= 1 {
        let below = w.stack.drop_last();
        let m1 = stepped(program, m).0;
        if crate::value::truthy(w.stack.last()) {
            one_step(program, m, below, w.store);
            assert(rest.push(task) =~= w.tasks);
            round_continues(
                program,
                w.store.scopes,
                m.frames.drop_last(),
                m.frames.last().function as int,
                m.frames.last().base,
                ip,
                w.env,
                rest,
                task,
            );
            related_at(program, w, m, ip + 1, rest + round(task), below, w.store);
        } else {
            related_after(program, w, m, below, w.store);
            assert(m1.frames =~= moved(m, next_ip(ip, task), below, w.store).frames);
        }
    }
}

} // verus!
