//! Calls and returns: what the machine does where the evaluator calls a
//! function, comes to the end of one, or returns from one.

use vstd::prelude::*;
use crate::agreement::code::{function_stands, size};
use crate::agreement::relation::{
    continues, continues_with_more_scopes, direct_unfolds, next_env, next_ip,
};
use crate::agreement::steps::{continues_lands, direct_continues, landing, plan, ran_more};
use crate::agreement::tasks::{
    agrees, moved, next_fits, one_step, poised, related_after, related_waiting, stepped_to,
};
use crate::stdlib::{
    array_applied, host_called, method_called, method_of, string_applied, OutcomeView,
};
use crate::store::{bound, ScopeView, StoreView};
use crate::treewalk::evaluator::{call_end, walked, Task, WalkView};
use crate::value::ValueView;
use crate::virtual_machine::bytecode::{FunctionView};
use crate::virtual_machine::interpreter::{ran, stepped, CallFrame, MachineView};

verus! {

/// A built-in method leaves the scopes as they are.
pub proof fn methods_keep_scopes(
    store: StoreView,
    receiver: ValueView,
    name: Seq<char>,
    args: Seq<ValueView>,
)
    ensures
        method_called(store, receiver, name, args).1.scopes == store.scopes,
{
    match method_of(receiver, name) {
        Some(method) => match receiver {
            ValueView::String(s) => {
                assert(string_applied(store, method, s, args).1.scopes == store.scopes);
            },
            ValueView::Array(h) => {
                assert(array_applied(store, method, h, args).1.scopes == store.scopes);
            },
            _ => {},
        },
        None => {},
    }
}

/// Calling a function of the program: the evaluator plans the body and the
/// end of the call, the machine starts a frame at the start of the
/// function.
pub proof fn does_call<'a>(program: Seq<FunctionView>, w: WalkView<'a>, m: MachineView)
    requires
        poised(program, w, m),
        w.tasks.last() is Invoke,
        w.stack.len() >= w.tasks.last()->Invoke_0 + 1,
        w.stack[w.stack.len() - w.tasks.last()->Invoke_0 - 1] is Function,
    ensures
        agrees(program, walked(w), ran(program, m, 1)),
{
    next_fits(program, w, m);
    ran_more(program, m, 1);
    let argc = w.tasks.last()->Invoke_0;
    let n = w.stack.len() as int;
    let c = w.stack[n - argc - 1]->Function_0;
    let args = w.stack.subrange(n - argc, n);
    let below = w.stack.take(n - argc - 1);
    let rest = w.tasks.drop_last();
    let f = m.frames.last().function as int;
    let ip = m.frames.last().ip as int;
    if c < w.closures.len() && w.closures[c as int].parameters@.len() == args.len()
        && w.store.scopes.len() < usize::MAX && below.len() <= usize::MAX {
        let closure = m.closures[c as int];
        let g = closure.function as int;
        let body = w.closures[c as int].body;
        assert(function_stands(program, g, w.closures[c as int].parameters@, *body));
        let inner = w.store.scopes.len() as usize;
        let store = StoreView {
            scopes: w.store.scopes.push(
                ScopeView {
                    variables: bound(program[g].parameters, args, 0, Seq::empty()),
                    parent: Some(closure.env as nat),
                },
            ),
            ..w.store
        };
        let w2 = walked(w).0;
        let m2 = stepped(program, m).0;
        let caller = CallFrame { ip: (ip + 1) as usize, ..m.frames.last() };
        let lower = m.frames.update(m.frames.len() - 1, caller);
        assert(m2.frames =~= lower.push(
            CallFrame { function: closure.function, ip: 0, env: inner, base: below.len() as usize },
        ));
        assert(m2.frames.drop_last() =~= lower);
        assert(lower.drop_last() =~= m.frames.drop_last());
        assert(w2.store == store);
        assert(m2.store == store);
        continues_with_more_scopes(
            program,
            w.store.scopes,
            store.scopes,
            m.frames.drop_last(),
            f,
            m.frames.last().base,
            ip + 1,
            w.env,
            rest,
        );
        let end = Task::EndCall { env: w.env, height: below.len() as usize };
        direct_unfolds(
            program,
            store.scopes,
            lower,
            g,
            below.len() as usize,
            size(*body) as int,
            inner,
            rest.push(end),
        );
        assert(rest.push(end).last() == end);
        assert(rest.push(end).drop_last() =~= rest);
        direct_continues(
            program,
            store.scopes,
            lower,
            g,
            below.len() as usize,
            size(*body) as int,
            inner,
            rest.push(end),
        );
        plan(
            program,
            store.scopes,
            lower,
            g,
            below.len() as usize,
            0,
            inner,
            rest.push(end),
            Task::Eval(body),
        );
        assert(w2.tasks =~= rest.push(end).push(Task::Eval(body)));
    }
}

/// Calling a function of the host or a built-in method: both backends call
/// the same function of the library.
pub proof fn does_library_call<'a>(program: Seq<FunctionView>, w: WalkView<'a>, m: MachineView)
    requires
        poised(program, w, m),
        w.tasks.last() is Invoke,
        !(w.stack.len() >= w.tasks.last()->Invoke_0 + 1 && w.stack[w.stack.len()
            - w.tasks.last()->Invoke_0 - 1] is Function),
    ensures
        agrees(program, walked(w), ran(program, m, 1)),
{
    next_fits(program, w, m);
    ran_more(program, m, 1);
    let argc = w.tasks.last()->Invoke_0;
    let n = w.stack.len() as int;
    if n >= argc + 1 {
        let callee = w.stack[n - argc - 1];
        let args = w.stack.subrange(n - argc, n);
        let below = w.stack.take(n - argc - 1);
        let (outcome, store) = match callee {
            ValueView::HostFunction(h) => (host_called(w.store, h, args), w.store),
            ValueView::Method { receiver, name } => (
                method_called(w.store, *receiver, name, args).0,
                method_called(w.store, *receiver, name, args).1,
            ),
            _ => (OutcomeView::Exit(0), w.store),
        };
        match callee {
            ValueView::Method { receiver, name } => methods_keep_scopes(
                w.store,
                *receiver,
                name,
                args,
            ),
            _ => {},
        }
        if callee is HostFunction || callee is Method {
            match outcome {
                OutcomeView::Value(v) => {
                    related_after(program, w, m, below.push(v), store);
                    assert(stepped(program, m).0.frames =~= stepped_to(
                        m,
                        below.push(v),
                        store,
                    ).frames);
                },
                OutcomeView::Ask { request, awaiting } => {
                    related_after(program, w, m, below, store);
                    related_waiting(
                        program,
                        WalkView { tasks: w.tasks.drop_last(), stack: below, store, ..w },
                        stepped_to(m, below, store),
                        Some(awaiting),
                    );
                    assert(stepped(program, m).0.frames =~= stepped_to(m, below, store).frames);
                },
                _ => {},
            }
        }
    }
}

/// The end of a call: the machine drops the value of the body, pushes null
/// and returns it.
pub proof fn does_end_call<'a>(program: Seq<FunctionView>, w: WalkView<'a>, m: MachineView)
    requires
        poised(program, w, m),
        w.tasks.last() is EndCall,
    ensures
        agrees(program, walked(w), ran(program, m, 3)),
{
    next_fits(program, w, m);
    ran_more(program, m, 3);
    let ip = m.frames.last().ip as int;
    if w.stack.len() >= 1 {
        let below = w.stack.drop_last();
        let m1 = stepped(program, m).0;
        one_step(program, m, below, w.store);
        ran_more(program, m1, 2);
        let m2 = stepped(program, m1).0;
        assert(m2.frames =~= moved(m, ip + 2, below.push(ValueView::Null), w.store).frames);
        ran_more(program, m2, 1);
        let m3 = stepped(program, m2).0;
        assert(below.push(ValueView::Null).drop_last() =~= below);
        direct_unfolds(
            program,
            w.store.scopes,
            m.frames.drop_last(),
            m.frames.last().function as int,
            m.frames.last().base,
            ip,
            w.env,
            w.tasks,
        );
        assert(m2.frames.drop_last() =~= m.frames.drop_last());
        assert(m3.frames =~= m.frames.drop_last());
    }
}

/// Where a call that is under way ends among the tasks, and what is left to
/// do behind it.
pub proof fn unwinds<'a>(
    program: Seq<FunctionView>,
    scopes: Seq<ScopeView>,
    lower: Seq<CallFrame>,
    f: int,
    base: usize,
    ip: int,
    env: usize,
    tasks: Seq<Task<'a>>,
)
    requires
        continues(program, scopes, lower, f, base, ip, env, tasks),
    ensures
        match call_end(tasks) {
            Some(at) => {
                &&& 0 <= at < tasks.len()
                &&& lower.len() > 0
                &&& tasks[at] == (Task::EndCall { env: lower.last().env, height: base })
                &&& continues(
                    program,
                    scopes,
                    lower.drop_last(),
                    lower.last().function as int,
                    lower.last().base,
                    lower.last().ip as int,
                    lower.last().env,
                    tasks.take(at),
                )
            },
            None => lower.len() == 0,
        },
    decreases tasks.len(),
{
    continues_lands(program, scopes, lower, f, base, ip, env, tasks);
    let here = landing(program, f, ip);
    direct_unfolds(program, scopes, lower, f, base, here, env, tasks);
    if tasks.len() > 0 {
        match tasks.last() {
            Task::EndCall { env: outer, height } => {
                assert(tasks.take(tasks.len() - 1) =~= tasks.drop_last());
            },
            task => {
                unwinds(
                    program,
                    scopes,
                    lower,
                    f,
                    base,
                    next_ip(here, task),
                    next_env(env, task),
                    tasks.drop_last(),
                );
                match call_end(tasks) {
                    Some(at) => {
                        assert(tasks.take(at) =~= tasks.drop_last().take(at));
                    },
                    None => {},
                }
            },
        }
    }
}

/// Returning from a call: the evaluator drops the tasks of the call, the
/// machine its frame.
pub proof fn does_return<'a>(program: Seq<FunctionView>, w: WalkView<'a>, m: MachineView)
    requires
        poised(program, w, m),
        w.tasks.last() is Return,
    ensures
        agrees(program, walked(w), ran(program, m, 1)),
{
    next_fits(program, w, m);
    ran_more(program, m, 1);
    let ip = m.frames.last().ip as int;
    let rest = w.tasks.drop_last();
    if w.stack.len() >= 1 {
        let below = w.stack.drop_last();
        unwinds(
            program,
            w.store.scopes,
            m.frames.drop_last(),
            m.frames.last().function as int,
            m.frames.last().base,
            ip + 1,
            w.env,
            rest,
        );
        let m1 = stepped(program, m).0;
        match call_end(rest) {
            Some(at) => {
                assert(m1.frames =~= m.frames.drop_last());
            },
            None => {},
        }
    }
}

} // verus!
