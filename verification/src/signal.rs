//! What a machine says when it stops.

use vstd::prelude::*;
use crate::errors::{EvalError, EvalErrorView};
use crate::host::{HostRequest, RequestView};
use crate::value::{values_view, Value, ValueView};

verus! {

/// Why a machine stopped, as a mathematical value.
pub enum SignalView {
    Done(ValueView),
    Failed(EvalErrorView),
    Request(RequestView),
    Exit(i32),
    Paused,
}

/// Why a machine stopped.
#[derive(Debug, PartialEq)]
pub enum Signal {
    /// The program has come to its end, with the given value.
    Done(Value),
    /// The program has met an error. It does not go on.
    Failed(EvalError),
    /// The program needs the host: the machine goes on when it is handed the
    /// answer.
    Request(HostRequest),
    /// The program has asked to end the process with the given exit code.
    Exit(i32),
    /// The machine has made as many steps as it was allowed; the program has
    /// not come to its end.
    Paused,
}

impl View for Signal {
    type V = SignalView;

    open spec fn view(&self) -> SignalView {
        match self {
            Signal::Done(v) => SignalView::Done(v@),
            Signal::Failed(e) => SignalView::Failed(e@),
            Signal::Request(r) => SignalView::Request(r@),
            Signal::Exit(c) => SignalView::Exit(*c),
            Signal::Paused => SignalView::Paused,
        }
    }
}

/// The view of a signal that may be there.
pub open spec fn signal_view(s: Option<Signal>) -> Option<SignalView> {
    match s {
        Some(s) => Some(s@),
        None => None,
    }
}

/// The value on top of a stack; null for an empty stack.
pub open spec fn top(stack: Seq<ValueView>) -> ValueView {
    if stack.len() > 0 {
        stack.last()
    } else {
        ValueView::Null
    }
}

/// A copy of the value on top of a stack; null for an empty stack.
pub fn top_of(stack: &Vec<Value>) -> (v: Value)
    ensures
        v@ == top(values_view(stack@)),
{
    if stack.len() > 0 {
        stack[stack.len() - 1].copy()
    } else {
        Value::Null
    }
}

/// Takes the topmost value off a stack.
pub fn pop_value(stack: &mut Vec<Value>) -> (r: Option<Value>)
    ensures
        match r {
            Some(v) => old(stack)@.len() > 0 && v@ == values_view(old(stack)@).last()
                && values_view(final(stack)@) == values_view(old(stack)@).drop_last(),
            None => old(stack)@.len() == 0 && final(stack)@ == old(stack)@,
        },
{
    let r = stack.pop();
    if r.is_some() {
        assert(values_view(stack@) =~= values_view(old(stack)@).drop_last());
    }
    r
}

/// Takes the topmost `n` values off a stack, and gives them in the order in
/// which they were pushed.
pub fn pop_many(stack: &mut Vec<Value>, n: usize) -> (r: Vec<Value>)
    requires
        n <= old(stack)@.len(),
    ensures
        values_view(r@) == values_view(old(stack)@).subrange(
            old(stack)@.len() - n,
            old(stack)@.len() as int,
        ),
        values_view(final(stack)@) == values_view(old(stack)@).take(old(stack)@.len() - n),
        r@.len() == n,
        final(stack)@.len() == old(stack)@.len() - n,
{
    let ghost all = values_view(stack@);
    let len = stack.len();
    let mut reversed: Vec<Value> = Vec::new();
    let mut i: usize = 0;
    while i < n
        invariant
            i <= n <= len,
            len == all.len(),
            stack.len() == len - i,
            reversed.len() == i,
            values_view(stack@) == all.take(len - i),
            forall|j: int| 0 <= j < i ==> reversed@[j]@ == all[len - 1 - j],
        decreases n - i,
    {
        let ghost before = stack@;
        let v = stack.pop().unwrap();
        assert(values_view(stack@) =~= all.take(len - i - 1));
        assert(values_view(before)[len - 1 - i] == before[len - 1 - i]@);
        assert(all.take(len - i)[len - 1 - i] == all[len - 1 - i]);
        assert(v@ == all[len - 1 - i]);
        reversed.push(v);
        i += 1;
    }
    let mut r: Vec<Value> = Vec::new();
    let mut k: usize = 0;
    while k < n
        invariant
            k <= n <= len,
            len == all.len(),
            reversed.len() == n - k,
            r.len() == k,
            forall|j: int| 0 <= j < n - k ==> reversed@[j]@ == all[len - 1 - j],
            forall|j: int| 0 <= j < k ==> r@[j]@ == all[len - n + j],
        decreases n - k,
    {
        let v = reversed.pop().unwrap();
        r.push(v);
        k += 1;
    }
    assert(values_view(r@) =~= all.subrange(len - n, len as int));
    r
}

} // verus!
