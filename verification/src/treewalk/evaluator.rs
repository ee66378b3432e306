//! The tree-walking evaluator.
//!
//! The evaluator walks the syntax tree itself. What is left to do is kept as
//! a stack of tasks, so that the walk can stop where the program needs the
//! host and go on with the answer. `walked` says what one step does to the
//! state; `step` does it.

use vstd::prelude::*;
use crate::ast::ASTNode;
use crate::errors::{
    argument_error, name_error, runtime_error, type_error, EvalError, EvalErrorView,
};
use crate::host::{answer, answered, Awaiting, HostRequest, HostResponse, RequestView, ResponseView};
use crate::ops::{
    get_member, inverse_of, invert_value, member_of, member_put, negate_value, negative_of,
    operate, operated, operator_of, set_member, to_operator, Operator,
};
use crate::signal::{pop_many, pop_value, signal_view, top, top_of, Signal, SignalView};
use crate::stdlib::{call_host, host_called, method_called, Methods, Outcome, OutcomeView};
use crate::store::{
    assigned, bound, declared, home, lookup, Fields, ScopeView, Store, StoreView,
};
use crate::text::copy_string;
use crate::tokenizer::TokenKind;
use crate::value::{fields_view, truthy, values_view, values_view_push, Value, ValueView};
use crate::virtual_machine::interpreter::{std_fields, std_object};

verus! {

/// What is left to do. The tasks work on a stack of values: evaluating a
/// node pushes its value.
#[derive(Debug, Clone, Copy)]
pub enum Task<'a> {
    /// Evaluate the node.
    Eval(&'a ASTNode),
    /// Drop the topmost value.
    Discard,
    /// Push null.
    PushNull,
    /// Declare the variable with the topmost value; the value of the
    /// declaration is null.
    Declare(&'a String),
    /// Assign the topmost value to the variable; the value stays.
    AssignVar(&'a String),
    /// Set the property of the object below the topmost value to that
    /// value; the value of the assignment is null.
    AssignMember(&'a String),
    /// Set the property of the object below the topmost value to that
    /// value, and drop both.
    SetEntry(&'a String),
    /// Push the topmost value once more.
    Duplicate,
    /// Apply the operator to the two topmost values.
    Operate(Operator),
    Negate,
    Invert,
    /// Fail: the program asks for an operation that there is none of.
    Unsupported,
    /// The left side of `&&` is on the stack.
    AndRight(&'a ASTNode),
    /// The left side of `||` is on the stack.
    OrRight(&'a ASTNode),
    /// Replace the topmost value by whether it counts as true.
    ToBoolean,
    /// Replace the topmost value by what it has under the name.
    Member(&'a String),
    /// The condition of an `if` is on the stack: evaluate the branch it
    /// chooses.
    Branch(&'a ASTNode, Option<&'a ASTNode>),
    /// The condition of a `while` is on the stack, above the value of the
    /// loop so far: where it counts as true, that value is dropped and the
    /// body is evaluated in its place.
    WhileTest(&'a ASTNode, &'a ASTNode),
    /// The condition of a `for` is on the stack, above the value of the loop
    /// so far: the condition, the step and the body.
    ForTest(&'a ASTNode, &'a ASTNode, &'a ASTNode),
    /// Go back to the given scope.
    LeaveScope(usize),
    /// Call the value that lies below the given number of arguments.
    Invoke(usize),
    /// The body of a function has come to its end without returning: its
    /// value is dropped, and the call gives null. Holds the scope of the
    /// caller and the height of the stack when the call began.
    EndCall { env: usize, height: usize },
    /// Return the topmost value from the call that is under way.
    Return,
    /// Make an array of the given number of topmost values.
    MakeArray(usize),
}

/// A function value: the parameters and the body of a function, and the
/// scope in which it was declared.
#[derive(Debug, Clone, Copy)]
pub struct FunctionValue<'a> {
    pub parameters: &'a Vec<String>,
    pub body: &'a ASTNode,
    pub env: usize,
}

/// The state of the evaluator, as a mathematical value.
pub struct WalkView<'a> {
    pub store: StoreView,
    pub closures: Seq<FunctionValue<'a>>,
    pub stack: Seq<ValueView>,
    pub tasks: Seq<Task<'a>>,
    /// The scope at hand.
    pub env: usize,
    pub awaiting: Option<Awaiting>,
}

/// The state after a failure: nothing is left to do.
pub open spec fn failed<'a>(m: WalkView<'a>, e: EvalErrorView) -> (WalkView<'a>, Option<SignalView>) {
    (WalkView { tasks: Seq::empty(), awaiting: None, ..m }, Some(SignalView::Failed(e)))
}

/// The state at the end of the program.
pub open spec fn finished<'a>(m: WalkView<'a>) -> (WalkView<'a>, Option<SignalView>) {
    (WalkView { tasks: Seq::empty(), ..m }, Some(SignalView::Done(top(m.stack))))
}

/// The state with one more value on the stack.
pub open spec fn pushed<'a>(m: WalkView<'a>, v: ValueView) -> (WalkView<'a>, Option<SignalView>) {
    (WalkView { stack: m.stack.push(v), ..m }, None)
}

/// The state with more to do: the last of `tasks` is done first.
pub open spec fn planned<'a>(m: WalkView<'a>, tasks: Seq<Task<'a>>) -> (
    WalkView<'a>,
    Option<SignalView>,
) {
    (WalkView { tasks: m.tasks + tasks, ..m }, None)
}

/// The failure of a task that needs more values than the stack holds.
pub open spec fn underflow<'a>(m: WalkView<'a>) -> (WalkView<'a>, Option<SignalView>) {
    failed(m, runtime_error("Stack underflow"@))
}

/// What the evaluator does with the outcome of an operation or a call.
pub open spec fn settled<'a>(m: WalkView<'a>, outcome: OutcomeView) -> (
    WalkView<'a>,
    Option<SignalView>,
) {
    match outcome {
        OutcomeView::Value(v) => pushed(m, v),
        OutcomeView::Ask { request, awaiting } => (
            WalkView { awaiting: Some(awaiting), ..m },
            Some(SignalView::Request(request)),
        ),
        OutcomeView::Exit(code) => (
            WalkView { tasks: Seq::empty(), ..m },
            Some(SignalView::Exit(code)),
        ),
        OutcomeView::Fail(e) => failed(m, e),
    }
}

/// The tasks that evaluate the statements from the index `from` on in
/// order, and drop the value of each but the last.
pub open spec fn sequence_tasks<'a>(nodes: &'a Vec<ASTNode>, from: int) -> Seq<Task<'a>>
    decreases nodes@.len() - from,
{
    if from < 0 || from >= nodes@.len() {
        Seq::empty()
    } else if from == nodes@.len() - 1 {
        seq![Task::Eval(&nodes@[from])]
    } else {
        sequence_tasks(nodes, from + 1) + seq![Task::Discard, Task::Eval(&nodes@[from])]
    }
}

/// The tasks that evaluate the nodes from the index `from` on in order;
/// every value stays.
pub open spec fn each_tasks<'a>(nodes: &'a Vec<ASTNode>, from: int) -> Seq<Task<'a>>
    decreases nodes@.len() - from,
{
    if from < 0 || from >= nodes@.len() {
        Seq::empty()
    } else {
        each_tasks(nodes, from + 1).push(Task::Eval(&nodes@[from]))
    }
}

/// The tasks that evaluate the values of the entries from the index `from`
/// on in order and set each on the object on the stack, which stays there.
pub open spec fn entry_tasks<'a>(entries: &'a Vec<(String, ASTNode)>, from: int) -> Seq<Task<'a>>
    decreases entries@.len() - from,
{
    if from < 0 || from >= entries@.len() {
        Seq::empty()
    } else {
        entry_tasks(entries, from + 1) + seq![
            Task::SetEntry(&entries@[from].0),
            Task::Eval(&entries@[from].1),
            Task::Duplicate,
        ]
    }
}

/// The state with a new, empty scope inside the scope at hand, which
/// becomes the scope at hand.
pub open spec fn scoped<'a>(m: WalkView<'a>, variables: Fields, parent: usize) -> WalkView<'a> {
    WalkView {
        store: StoreView {
            scopes: m.store.scopes.push(ScopeView { variables, parent: Some(parent as nat) }),
            ..m.store
        },
        env: m.store.scopes.len() as usize,
        ..m
    }
}

/// Evaluating a block: its statements are evaluated in a new scope inside
/// the scope at hand, which is gone back to after them.
pub open spec fn evaluated_block<'a>(m: WalkView<'a>, v: &'a Vec<ASTNode>) -> (
    WalkView<'a>,
    Option<SignalView>,
) {
    if m.store.scopes.len() >= usize::MAX {
        failed(m, runtime_error("Out of memory"@))
    } else if v@.len() == 0 {
        planned(scoped(m, Seq::empty(), m.env), seq![Task::LeaveScope(m.env), Task::PushNull])
    } else {
        planned(
            scoped(m, Seq::empty(), m.env),
            seq![Task::LeaveScope(m.env)] + sequence_tasks(v, 0),
        )
    }
}

/// Evaluating an object literal: a new object is pushed, and the entries
/// are set on it in order, so that of two entries of one name the later
/// stays.
pub open spec fn evaluated_object<'a>(m: WalkView<'a>, v: &'a Vec<(String, ASTNode)>) -> (
    WalkView<'a>,
    Option<SignalView>,
) {
    planned(
        pushed(
            WalkView {
                store: StoreView { objects: m.store.objects.push(Seq::empty()), ..m.store },
                ..m
            },
            ValueView::Object(m.store.objects.len()),
        ).0,
        entry_tasks(v, 0),
    )
}

/// Evaluating a binary operation. An assignment evaluates its right side,
/// and before it the object whose property it sets. `&&` and `||` evaluate
/// their left side, which decides whether the right side is evaluated at
/// all. Every other operator evaluates first the left and then the right
/// side.
pub open spec fn evaluated_binary<'a>(
    m: WalkView<'a>,
    op: TokenKind,
    left: &'a ASTNode,
    right: &'a ASTNode,
) -> (WalkView<'a>, Option<SignalView>) {
    match op {
        TokenKind::Assign => match left {
            ASTNode::Variable(name) => planned(m, seq![Task::AssignVar(name), Task::Eval(right)]),
            ASTNode::MemberAccess { object, member } => planned(
                m,
                seq![Task::AssignMember(member), Task::Eval(right), Task::Eval(&**object)],
            ),
            _ => planned(m, seq![Task::Unsupported, Task::Eval(right)]),
        },
        TokenKind::And => planned(m, seq![Task::AndRight(right), Task::Eval(left)]),
        TokenKind::Or => planned(m, seq![Task::OrRight(right), Task::Eval(left)]),
        _ => planned(
            m,
            seq![
                match operator_of(op) {
                    Some(o) => Task::Operate(o),
                    None => Task::Unsupported,
                },
                Task::Eval(right),
                Task::Eval(left),
            ],
        ),
    }
}

/// Evaluating a unary operation.
pub open spec fn evaluated_unary<'a>(m: WalkView<'a>, op: TokenKind, operand: &'a ASTNode) -> (
    WalkView<'a>,
    Option<SignalView>,
) {
    planned(
        m,
        seq![
            match op {
                TokenKind::Minus => Task::Negate,
                TokenKind::Bang => Task::Invert,
                _ => Task::Unsupported,
            },
            Task::Eval(operand),
        ],
    )
}

/// Evaluating a function declaration: the function value holds the scope
/// at hand. A function with a name is declared under it in that scope, and
/// the declaration gives null; one without a name gives the function.
pub open spec fn evaluated_function<'a>(
    m: WalkView<'a>,
    name: &'a Option<String>,
    parameters: &'a Vec<String>,
    body: &'a ASTNode,
) -> (WalkView<'a>, Option<SignalView>) {
    let made = WalkView {
        closures: m.closures.push(FunctionValue { parameters, body, env: m.env }),
        ..m
    };
    match name {
        Some(n) => if m.env < m.store.scopes.len() {
            pushed(
                WalkView {
                    store: StoreView {
                        scopes: declared(
                            m.store.scopes,
                            m.env as nat,
                            n@,
                            ValueView::Function(m.closures.len()),
                        ),
                        ..m.store
                    },
                    ..made
                },
                ValueView::Null,
            )
        } else {
            failed(made, runtime_error("Invalid scope"@))
        },
        None => pushed(made, ValueView::Function(m.closures.len())),
    }
}

/// Evaluating a call: the callee is evaluated, then the arguments in order,
/// then the call is made.
pub open spec fn evaluated_call<'a>(
    m: WalkView<'a>,
    callee: &'a ASTNode,
    arguments: &'a Vec<ASTNode>,
) -> (WalkView<'a>, Option<SignalView>) {
    planned(
        m,
        (seq![Task::Invoke(arguments@.len() as usize)] + each_tasks(arguments, 0)).push(
            Task::Eval(callee),
        ),
    )
}

/// Evaluating a `for`: the statement that starts the loop is evaluated
/// once; then, as long as the condition counts as true, the body and after
/// it the step.
pub open spec fn evaluated_for<'a>(
    m: WalkView<'a>,
    start: &'a ASTNode,
    condition: &'a ASTNode,
    iter: &'a ASTNode,
    body: &'a ASTNode,
) -> (WalkView<'a>, Option<SignalView>) {
    planned(
        m,
        seq![
            Task::ForTest(condition, iter, body),
            Task::Eval(condition),
            Task::PushNull,
            Task::Discard,
            Task::Eval(start),
        ],
    )
}

/// Evaluating a node: a literal, a name and a function give their value at
/// once; every other node plans the evaluation of its parts and the task
/// that puts their values together.
pub open spec fn evaluated<'a>(m: WalkView<'a>, node: &'a ASTNode) -> (
    WalkView<'a>,
    Option<SignalView>,
) {
    match node {
        ASTNode::NumberLiteral(s) => (
            WalkView { awaiting: Some(Awaiting::Number), ..m },
            Some(SignalView::Request(RequestView::Parse { text: s@ })),
        ),
        ASTNode::StringLiteral(s) => pushed(m, ValueView::String(s@)),
        ASTNode::BooleanLiteral(b) => pushed(m, ValueView::Boolean(*b)),
        ASTNode::NullLiteral => pushed(m, ValueView::Null),
        ASTNode::Variable(name) => match lookup(m.store.scopes, m.env as nat, name@) {
            Some(v) => pushed(m, v),
            None => failed(m, name_error(name@)),
        },
        ASTNode::Program(v) => if v@.len() == 0 {
            pushed(m, ValueView::Null)
        } else {
            planned(m, sequence_tasks(v, 0))
        },
        ASTNode::Block(v) => evaluated_block(m, v),
        ASTNode::ObjectLiteral(v) => evaluated_object(m, v),
        ASTNode::ArrayLiteral(v) => planned(
            m,
            seq![Task::MakeArray(v@.len() as usize)] + each_tasks(v, 0),
        ),
        ASTNode::BinaryOp { left, op, right } => evaluated_binary(m, *op, &**left, &**right),
        ASTNode::UnaryOp { op, operand } => evaluated_unary(m, *op, &**operand),
        ASTNode::VariableDeclaration { name, value } => planned(
            m,
            seq![Task::Declare(name), Task::Eval(&**value)],
        ),
        ASTNode::IfStatement { condition, consequence, alternative } => planned(
            m,
            seq![
                Task::Branch(
                    &**consequence,
                    match alternative {
                        Some(a) => Some(&**a),
                        None => None,
                    },
                ),
                Task::Eval(&**condition),
            ],
        ),
        ASTNode::FunctionCall { callee, arguments } => evaluated_call(m, &**callee, arguments),
        ASTNode::FunctionDeclaration { name, parameters, body } => evaluated_function(
            m,
            name,
            parameters,
            &**body,
        ),
        ASTNode::ReturnStatement(e) => planned(m, seq![Task::Return, Task::Eval(&**e)]),
        ASTNode::WhileStatement { condition, body } => planned(
            pushed(m, ValueView::Null).0,
            seq![Task::WhileTest(&**condition, &**body), Task::Eval(&**condition)],
        ),
        ASTNode::ForStatement { start, condition, iter, body } => evaluated_for(
            m,
            &**start,
            &**condition,
            &**iter,
            &**body,
        ),
        ASTNode::MemberAccess { object, member } => planned(
            m,
            seq![Task::Member(member), Task::Eval(&**object)],
        ),
    }
}

/// Calling `callee` with `args`; the stack of `m` holds neither any more.
pub open spec fn called<'a>(m: WalkView<'a>, callee: ValueView, args: Seq<ValueView>) -> (
    WalkView<'a>,
    Option<SignalView>,
) {
    match callee {
        ValueView::Function(c) => if c >= m.closures.len() {
            failed(m, runtime_error("Invalid reference"@))
        } else if m.closures[c as int].parameters@.len() != args.len() {
            failed(m, argument_error("Argument count mismatch"@))
        } else if m.store.scopes.len() >= usize::MAX || m.stack.len() > usize::MAX {
            failed(m, runtime_error("Out of memory"@))
        } else {
            planned(
                scoped(
                    m,
                    bound(m.closures[c as int].parameters@, args, 0, Seq::empty()),
                    m.closures[c as int].env,
                ),
                seq![
                    Task::EndCall { env: m.env, height: m.stack.len() as usize },
                    Task::Eval(m.closures[c as int].body),
                ],
            )
        },
        ValueView::HostFunction(f) => settled(m, host_called(m.store, f, args)),
        ValueView::Method { receiver, name } => settled(
            WalkView { store: method_called(m.store, *receiver, name, args).1, ..m },
            method_called(m.store, *receiver, name, args).0,
        ),
        _ => failed(m, type_error("Called value is not a function"@)),
    }
}

/// The index of the topmost task that ends a call.
pub open spec fn call_end<'a>(tasks: Seq<Task<'a>>) -> Option<int>
    decreases tasks.len(),
{
    if tasks.len() == 0 {
        None
    } else if tasks.last() is EndCall {
        Some(tasks.len() - 1)
    } else {
        call_end(tasks.drop_last())
    }
}

/// The stack cut down to `height`, if it is higher.
pub open spec fn cut(stack: Seq<ValueView>, height: usize) -> Seq<ValueView> {
    if height <= stack.len() {
        stack.take(height as int)
    } else {
        stack
    }
}

/// Returning `v`: the call that is under way ends, and with it everything
/// that was left to do inside it; `v` is its value. Where no call is under
/// way, the program ends with `v`.
pub open spec fn returned<'a>(m: WalkView<'a>, v: ValueView) -> (WalkView<'a>, Option<SignalView>) {
    match call_end(m.tasks) {
        Some(at) => (
            WalkView {
                tasks: m.tasks.take(at),
                stack: cut(m.stack, m.tasks[at]->EndCall_height).push(v),
                env: m.tasks[at]->EndCall_env,
                ..m
            },
            None,
        ),
        None => (
            WalkView { tasks: Seq::empty(), stack: m.stack.push(v), ..m },
            Some(SignalView::Done(v)),
        ),
    }
}

/// Doing a task. `m` is the state that holds the task no more.
pub open spec fn performed<'a>(m: WalkView<'a>, task: Task<'a>) -> (WalkView<'a>, Option<SignalView>) {
    let n = m.stack.len() as int;
    let below = WalkView { stack: m.stack.drop_last(), ..m };
    let below_two = WalkView { stack: m.stack.take(n - 2), ..m };
    match task {
        Task::Eval(node) => evaluated(m, node),
        Task::Discard => if n < 1 {
            underflow(m)
        } else {
            (below, None)
        },
        Task::PushNull => pushed(m, ValueView::Null),
        Task::Declare(name) => if n < 1 {
            underflow(m)
        } else if m.env < m.store.scopes.len() {
            pushed(
                WalkView {
                    store: StoreView {
                        scopes: declared(m.store.scopes, m.env as nat, name@, m.stack.last()),
                        ..m.store
                    },
                    ..below
                },
                ValueView::Null,
            )
        } else {
            failed(below, runtime_error("Invalid scope"@))
        },
        Task::AssignVar(name) => if n < 1 {
            underflow(m)
        } else if home(m.store.scopes, m.env as nat, name@) is Some {
            (
                WalkView {
                    store: StoreView {
                        scopes: assigned(m.store.scopes, m.env as nat, name@, m.stack.last()),
                        ..m.store
                    },
                    ..m
                },
                None,
            )
        } else {
            failed(m, name_error(name@))
        },
        Task::AssignMember(name) => if n < 2 {
            underflow(m)
        } else {
            match member_put(m.store, m.stack[n - 2], name@, m.stack[n - 1]) {
                Ok(store) => pushed(WalkView { store, ..below_two }, ValueView::Null),
                Err(e) => failed(below_two, e),
            }
        },
        Task::SetEntry(name) => if n < 2 {
            underflow(m)
        } else {
            match member_put(m.store, m.stack[n - 2], name@, m.stack[n - 1]) {
                Ok(store) => (WalkView { store, ..below_two }, None),
                Err(e) => failed(below_two, e),
            }
        },
        Task::Duplicate => if n < 1 {
            underflow(m)
        } else {
            pushed(m, m.stack.last())
        },
        Task::Operate(op) => if n < 2 {
            underflow(m)
        } else {
            settled(below_two, operated(op, m.stack[n - 2], m.stack[n - 1]))
        },
        Task::Negate => if n < 1 {
            underflow(m)
        } else {
            match negative_of(m.stack.last()) {
                Ok(v) => pushed(below, v),
                Err(e) => failed(below, e),
            }
        },
        Task::Invert => if n < 1 {
            underflow(m)
        } else {
            match inverse_of(m.stack.last()) {
                Ok(v) => pushed(below, v),
                Err(e) => failed(below, e),
            }
        },
        Task::Unsupported => failed(m, runtime_error("Unsupported operation"@)),
        Task::AndRight(right) => if n < 1 {
            underflow(m)
        } else if !truthy(m.stack.last()) {
            pushed(below, ValueView::Boolean(false))
        } else {
            planned(below, seq![Task::ToBoolean, Task::Eval(right)])
        },
        Task::OrRight(right) => if n < 1 {
            underflow(m)
        } else if truthy(m.stack.last()) {
            pushed(below, ValueView::Boolean(true))
        } else {
            planned(below, seq![Task::ToBoolean, Task::Eval(right)])
        },
        Task::ToBoolean => if n < 1 {
            underflow(m)
        } else {
            pushed(below, ValueView::Boolean(truthy(m.stack.last())))
        },
        Task::Member(name) => if n < 1 {
            underflow(m)
        } else {
            match member_of(m.store, m.stack.last(), name@) {
                Ok(v) => pushed(below, v),
                Err(e) => failed(below, e),
            }
        },
        Task::Branch(consequence, alternative) => if n < 1 {
            underflow(m)
        } else {
            match m.stack.last() {
                ValueView::Boolean(true) => planned(below, seq![Task::Eval(consequence)]),
                ValueView::Boolean(false) => match alternative {
                    Some(a) => planned(below, seq![Task::Eval(a)]),
                    None => pushed(below, ValueView::Null),
                },
                _ => failed(below, type_error("Condition must be a boolean"@)),
            }
        },
        Task::WhileTest(condition, body) => if n < 1 {
            underflow(m)
        } else if truthy(m.stack.last()) {
            planned(
                below,
                seq![
                    Task::WhileTest(condition, body),
                    Task::Eval(condition),
                    Task::Eval(body),
                    Task::Discard,
                ],
            )
        } else {
            (below, None)
        },
        Task::ForTest(condition, iter, body) => if n < 1 {
            underflow(m)
        } else if truthy(m.stack.last()) {
            planned(
                below,
                seq![
                    Task::ForTest(condition, iter, body),
                    Task::Eval(condition),
                    Task::Discard,
                    Task::Eval(iter),
                    Task::Eval(body),
                    Task::Discard,
                ],
            )
        } else {
            (below, None)
        },
        Task::LeaveScope(env) => (WalkView { env, ..m }, None),
        Task::Invoke(argc) => if n < argc + 1 {
            underflow(m)
        } else {
            called(
                WalkView { stack: m.stack.take(n - argc - 1), ..m },
                m.stack[n - argc - 1],
                m.stack.subrange(n - argc, n),
            )
        },
        Task::EndCall { env, height } => if n < 1 {
            underflow(m)
        } else {
            pushed(WalkView { stack: cut(m.stack.drop_last(), height), env, ..m }, ValueView::Null)
        },
        Task::Return => if n < 1 {
            underflow(m)
        } else {
            returned(below, m.stack.last())
        },
        Task::MakeArray(count) => if n < count {
            underflow(m)
        } else {
            pushed(
                WalkView {
                    stack: m.stack.take(n - count),
                    store: StoreView {
                        arrays: m.store.arrays.push(m.stack.subrange(n - count, n)),
                        ..m.store
                    },
                    ..m
                },
                ValueView::Array(m.store.arrays.len()),
            )
        },
    }
}

/// One step of the evaluator: the topmost task is taken and done. An
/// evaluator that waits for an answer does not step; one without a task has
/// come to its end.
pub open spec fn walked<'a>(m: WalkView<'a>) -> (WalkView<'a>, Option<SignalView>) {
    if m.awaiting is Some {
        (m, Some(SignalView::Failed(runtime_error("Waiting for an answer of the host"@))))
    } else if m.tasks.len() == 0 {
        finished(m)
    } else {
        performed(WalkView { tasks: m.tasks.drop_last(), ..m }, m.tasks.last())
    }
}

/// What handing an answer to the evaluator does.
pub open spec fn resumed<'a>(m: WalkView<'a>, response: ResponseView) -> (
    WalkView<'a>,
    Option<SignalView>,
) {
    match m.awaiting {
        None => failed(m, runtime_error("No request is pending"@)),
        Some(awaiting) => {
            let after = WalkView {
                store: answered(m.store, awaiting, response).1,
                awaiting: None,
                ..m
            };
            match answered(m.store, awaiting, response).0 {
                Ok(v) => pushed(after, v),
                Err(e) => failed(after, e),
            }
        },
    }
}

/// The state after at most `fuel` steps, and why the evaluator stopped.
pub open spec fn ran<'a>(m: WalkView<'a>, fuel: nat) -> (WalkView<'a>, SignalView)
    decreases fuel,
{
    if fuel == 0 {
        (m, SignalView::Paused)
    } else {
        match walked(m).1 {
            Some(signal) => (walked(m).0, signal),
            None => ran(walked(m).0, (fuel - 1) as nat),
        }
    }
}

/// The state in which the evaluation of `program` starts: the store holds
/// the global scope, in which `std` is declared, and the object `std`.
pub open spec fn initial<'a>(program: &'a ASTNode, std: Fields) -> WalkView<'a> {
    WalkView {
        store: StoreView {
            arrays: Seq::empty(),
            objects: seq![std],
            scopes: seq![
                ScopeView {
                    variables: seq![("std"@, ValueView::Object(0))],
                    parent: None,
                },
            ],
        },
        closures: Seq::empty(),
        stack: Seq::empty(),
        tasks: seq![Task::Eval(program)],
        env: 0,
        awaiting: None,
    }
}

/// The evaluator.
pub struct TreeWalk<'a> {
    store: Store,
    closures: Vec<FunctionValue<'a>>,
    stack: Vec<Value>,
    tasks: Vec<Task<'a>>,
    env: usize,
    awaiting: Option<Awaiting>,
    methods: Methods,
}

impl<'a> View for TreeWalk<'a> {
    type V = WalkView<'a>;

    closed spec fn view(&self) -> WalkView<'a> {
        WalkView {
            store: self.store@,
            closures: self.closures@,
            stack: values_view(self.stack@),
            tasks: self.tasks@,
            env: self.env,
            awaiting: self.awaiting,
        }
    }
}

impl<'a> TreeWalk<'a> {
    /// An evaluator that is about to evaluate `program`.
    pub fn new(program: &'a ASTNode) -> (w: Self)
        ensures
            w@ == initial(program, std_fields(crate::stdlib::std_table())),
    {
        let mut store = Store::new();
        let std = store.new_object(std_object());
        let global = store.new_scope(None);
        store.declare(global, String::from_str("std"), Value::Object(std));
        let mut tasks: Vec<Task<'a>> = Vec::new();
        tasks.push(Task::Eval(program));
        let w = TreeWalk {
            store,
            closures: Vec::new(),
            stack: Vec::new(),
            tasks,
            env: global,
            awaiting: None,
            methods: Methods::new(),
        };
        proof {
            let want = initial(program, std_fields(crate::stdlib::std_table()));
            assert(w@.store.arrays =~= want.store.arrays);
            assert(w@.store.objects =~= want.store.objects);
            assert(w@.store.scopes[0].variables =~= want.store.scopes[0].variables);
            assert(w@.store.scopes =~= want.store.scopes);
            assert(w@.stack =~= want.stack);
            assert(w@.tasks =~= want.tasks);
            assert(w@.closures =~= want.closures);
        }
        w
    }

    fn push(&mut self, value: Value)
        ensures
            final(self)@ == pushed(old(self)@, value@).0,
    {
        proof {
            values_view_push(self.stack@, value);
        }
        self.stack.push(value);
    }

    fn pop(&mut self) -> (r: Option<Value>)
        ensures
            match r {
                Some(v) => old(self)@.stack.len() > 0 && v@ == old(self)@.stack.last() && final(self)@
                    == (WalkView { stack: old(self)@.stack.drop_last(), ..old(self)@ }),
                None => old(self)@.stack.len() == 0 && final(self)@ == old(self)@,
            },
    {
        pop_value(&mut self.stack)
    }

    fn pop_two(&mut self) -> (r: Option<(Value, Value)>)
        ensures
            match r {
                Some((a, b)) => old(self)@.stack.len() >= 2 && a@
                    == old(self)@.stack[old(self)@.stack.len() - 2] && b@
                    == old(self)@.stack[old(self)@.stack.len() - 1] && final(self)@ == (WalkView {
                    stack: old(self)@.stack.take(old(self)@.stack.len() - 2),
                    ..old(self)@
                }),
                None => old(self)@.stack.len() < 2 && final(self)@ == old(self)@,
            },
    {
        if self.stack.len() < 2 {
            return None;
        }
        let mut pair = pop_many(&mut self.stack, 2);
        assert(values_view(pair@)[0] == pair@[0]@ && values_view(pair@)[1] == pair@[1]@);
        let b = pair.pop().unwrap();
        let a = pair.pop().unwrap();
        Some((a, b))
    }

    fn fail(&mut self, e: EvalError) -> (r: Option<Signal>)
        ensures
            (final(self)@, signal_view(r)) == failed(old(self)@, e@),
    {
        self.tasks = Vec::new();
        self.awaiting = None;
        Some(Signal::Failed(e))
    }

    fn fail_runtime(&mut self, detail: &str) -> (r: Option<Signal>)
        ensures
            (final(self)@, signal_view(r)) == failed(old(self)@, runtime_error(detail@)),
    {
        self.fail(EvalError::failed(detail))
    }

    fn underflow(&mut self) -> (r: Option<Signal>)
        ensures
            (final(self)@, signal_view(r)) == underflow(old(self)@),
    {
        self.fail_runtime("Stack underflow")
    }

    fn finish(&mut self) -> (r: Option<Signal>)
        ensures
            (final(self)@, signal_view(r)) == finished(old(self)@),
    {
        self.tasks = Vec::new();
        Some(Signal::Done(top_of(&self.stack)))
    }

    fn push_on(&mut self, value: Value) -> (r: Option<Signal>)
        ensures
            (final(self)@, signal_view(r)) == pushed(old(self)@, value@),
    {
        self.push(value);
        None
    }

    fn settle(&mut self, outcome: Outcome) -> (r: Option<Signal>)
        ensures
            (final(self)@, signal_view(r)) == settled(old(self)@, outcome@),
    {
        match outcome {
            Outcome::Value(v) => self.push_on(v),
            Outcome::Ask { request, awaiting } => {
                self.awaiting = Some(awaiting);
                Some(Signal::Request(request))
            },
            Outcome::Exit(code) => {
                self.tasks = Vec::new();
                Some(Signal::Exit(code))
            },
            Outcome::Fail(e) => self.fail(e),
        }
    }

    fn plan1(&mut self, a: Task<'a>) -> (r: Option<Signal>)
        ensures
            (final(self)@, signal_view(r)) == planned(old(self)@, seq![a]),
    {
        self.tasks.push(a);
        assert(self@.tasks =~= old(self)@.tasks + seq![a]);
        None
    }

    fn plan2(&mut self, a: Task<'a>, b: Task<'a>) -> (r: Option<Signal>)
        ensures
            (final(self)@, signal_view(r)) == planned(old(self)@, seq![a, b]),
    {
        self.tasks.push(a);
        self.tasks.push(b);
        assert(self@.tasks =~= old(self)@.tasks + seq![a, b]);
        None
    }

    fn plan3(&mut self, a: Task<'a>, b: Task<'a>, c: Task<'a>) -> (r: Option<Signal>)
        ensures
            (final(self)@, signal_view(r)) == planned(old(self)@, seq![a, b, c]),
    {
        self.tasks.push(a);
        self.tasks.push(b);
        self.tasks.push(c);
        assert(self@.tasks =~= old(self)@.tasks + seq![a, b, c]);
        None
    }

    fn plan_sequence(&mut self, nodes: &'a Vec<ASTNode>)
        ensures
            final(self)@ == planned(old(self)@, sequence_tasks(nodes, 0)).0,
    {
        let mut i: usize = nodes.len();
        assert(self@.tasks =~= old(self)@.tasks + sequence_tasks(nodes, i as int));
        while i > 0
            invariant
                i <= nodes.len(),
                self@ == (WalkView {
                    tasks: old(self)@.tasks + sequence_tasks(nodes, i as int),
                    ..old(self)@
                }),
            decreases i,
        {
            i -= 1;
            if i + 1 < nodes.len() {
                self.tasks.push(Task::Discard);
            }
            self.tasks.push(Task::Eval(&nodes[i]));
            assert(self@.tasks =~= old(self)@.tasks + sequence_tasks(nodes, i as int));
        }
    }

    fn plan_each(&mut self, nodes: &'a Vec<ASTNode>)
        ensures
            final(self)@ == planned(old(self)@, each_tasks(nodes, 0)).0,
    {
        let mut i: usize = nodes.len();
        assert(self@.tasks =~= old(self)@.tasks + each_tasks(nodes, i as int));
        while i > 0
            invariant
                i <= nodes.len(),
                self@ == (WalkView {
                    tasks: old(self)@.tasks + each_tasks(nodes, i as int),
                    ..old(self)@
                }),
            decreases i,
        {
            i -= 1;
            self.tasks.push(Task::Eval(&nodes[i]));
            assert(self@.tasks =~= old(self)@.tasks + each_tasks(nodes, i as int));
        }
    }

    fn plan_entries(&mut self, entries: &'a Vec<(String, ASTNode)>)
        ensures
            final(self)@ == planned(old(self)@, entry_tasks(entries, 0)).0,
    {
        let mut i: usize = entries.len();
        assert(self@.tasks =~= old(self)@.tasks + entry_tasks(entries, i as int));
        while i > 0
            invariant
                i <= entries.len(),
                self@ == (WalkView {
                    tasks: old(self)@.tasks + entry_tasks(entries, i as int),
                    ..old(self)@
                }),
            decreases i,
        {
            i -= 1;
            self.tasks.push(Task::SetEntry(&entries[i].0));
            self.tasks.push(Task::Eval(&entries[i].1));
            self.tasks.push(Task::Duplicate);
            assert(self@.tasks =~= old(self)@.tasks + entry_tasks(entries, i as int));
        }
    }

    fn enter(&mut self, parent: usize)
        requires
            old(self)@.store.scopes.len() < usize::MAX,
        ensures
            final(self)@ == scoped(old(self)@, Seq::empty(), parent),
    {
        let inner = self.store.new_scope(Some(parent));
        self.env = inner;
    }

    fn bind(&mut self, parameters: &Vec<String>, args: &Vec<Value>)
        requires
            old(self)@.env < old(self)@.store.scopes.len(),
            old(self)@.store.scopes[old(self)@.env as int].variables == Seq::<
                (Seq<char>, ValueView),
            >::empty(),
        ensures
            final(self)@ == (WalkView {
                store: StoreView {
                    scopes: old(self)@.store.scopes.update(
                        old(self)@.env as int,
                        ScopeView {
                            variables: bound(parameters@, values_view(args@), 0, Seq::empty()),
                            parent: old(self)@.store.scopes[old(self)@.env as int].parent,
                        },
                    ),
                    ..old(self)@.store
                },
                ..old(self)@
            }),
    {
        let ghost first = self@;
        let scope = self.env;
        let mut i: usize = 0;
        assert(first.store.scopes =~= first.store.scopes.update(
            scope as int,
            ScopeView {
                variables: Seq::empty(),
                parent: first.store.scopes[scope as int].parent,
            },
        ));
        while i < parameters.len() && i < args.len()
            invariant
                first == old(self)@,
                scope == first.env,
                scope < first.store.scopes.len(),
                self@.closures == first.closures,
                self@.stack == first.stack,
                self@.tasks == first.tasks,
                self@.env == first.env,
                self@.awaiting == first.awaiting,
                self@.store.arrays == first.store.arrays,
                self@.store.objects == first.store.objects,
                self@.store.scopes.len() == first.store.scopes.len(),
                self@.store.scopes == first.store.scopes.update(
                    scope as int,
                    ScopeView {
                        variables: self@.store.scopes[scope as int].variables,
                        parent: first.store.scopes[scope as int].parent,
                    },
                ),
                bound(parameters@, values_view(args@), 0, Seq::empty()) == bound(
                    parameters@,
                    values_view(args@),
                    i as int,
                    self@.store.scopes[scope as int].variables,
                ),
            decreases args.len() - i,
        {
            let name = copy_string(&parameters[i]);
            assert(values_view(args@)[i as int] == args@[i as int]@);
            self.store.declare(scope, name, args[i].copy());
            assert(self@.store.scopes =~= first.store.scopes.update(
                scope as int,
                ScopeView {
                    variables: self@.store.scopes[scope as int].variables,
                    parent: first.store.scopes[scope as int].parent,
                },
            ));
            i += 1;
        }
    }

    fn declare_function(
        &mut self,
        name: &'a Option<String>,
        parameters: &'a Vec<String>,
        body: &'a ASTNode,
    ) -> (r: Option<Signal>)
        ensures
            (final(self)@, signal_view(r)) == evaluated_function(
                old(self)@,
                name,
                parameters,
                body,
            ),
    {
        let h = self.closures.len();
        self.closures.push(FunctionValue { parameters, body, env: self.env });
        match name {
            Some(n) => {
                if self.store.declare(self.env, copy_string(n), Value::Function(h)) {
                    self.push_on(Value::Null)
                } else {
                    self.fail_runtime("Invalid scope")
                }
            },
            None => self.push_on(Value::Function(h)),
        }
    }

    fn evaluate_block(&mut self, v: &'a Vec<ASTNode>) -> (r: Option<Signal>)
        ensures
            (final(self)@, signal_view(r)) == evaluated_block(old(self)@, v),
    {
        if self.store.scopes.len() >= usize::MAX {
            self.fail_runtime("Out of memory")
        } else if v.len() == 0 {
            let outer = self.env;
            self.enter(outer);
            self.plan2(Task::LeaveScope(outer), Task::PushNull)
        } else {
            let outer = self.env;
            self.enter(outer);
            self.tasks.push(Task::LeaveScope(outer));
            self.plan_sequence(v);
            assert(self@.tasks =~= old(self)@.tasks + (seq![Task::LeaveScope(outer)]
                + sequence_tasks(v, 0)));
            None
        }
    }

    fn evaluate_object(&mut self, v: &'a Vec<(String, ASTNode)>) -> (r: Option<Signal>)
        ensures
            (final(self)@, signal_view(r)) == evaluated_object(old(self)@, v),
    {
        let fields: Vec<(String, Value)> = Vec::new();
        assert(fields_view(fields@) =~= Seq::empty());
        let h = self.store.new_object(fields);
        self.push(Value::Object(h));
        self.plan_entries(v);
        None
    }

    fn evaluate_array(&mut self, v: &'a Vec<ASTNode>) -> (r: Option<Signal>)
        ensures
            (final(self)@, signal_view(r)) == planned(
                old(self)@,
                seq![Task::MakeArray(v@.len() as usize)] + each_tasks(v, 0),
            ),
    {
        self.tasks.push(Task::MakeArray(v.len()));
        self.plan_each(v);
        assert(self@.tasks =~= old(self)@.tasks + (seq![Task::MakeArray(v@.len() as usize)]
            + each_tasks(v, 0)));
        None
    }

    fn evaluate_call(&mut self, callee: &'a ASTNode, arguments: &'a Vec<ASTNode>) -> (r: Option<
        Signal,
    >)
        ensures
            (final(self)@, signal_view(r)) == evaluated_call(old(self)@, callee, arguments),
    {
        self.tasks.push(Task::Invoke(arguments.len()));
        self.plan_each(arguments);
        self.tasks.push(Task::Eval(callee));
        assert(self@.tasks =~= old(self)@.tasks + (seq![Task::Invoke(arguments@.len() as usize)]
            + each_tasks(arguments, 0)).push(Task::Eval(callee)));
        None
    }

    fn evaluate_for(
        &mut self,
        start: &'a ASTNode,
        condition: &'a ASTNode,
        iter: &'a ASTNode,
        body: &'a ASTNode,
    ) -> (r: Option<Signal>)
        ensures
            (final(self)@, signal_view(r)) == evaluated_for(
                old(self)@,
                start,
                condition,
                iter,
                body,
            ),
    {
        self.tasks.push(Task::ForTest(condition, iter, body));
        self.tasks.push(Task::Eval(condition));
        self.tasks.push(Task::PushNull);
        self.tasks.push(Task::Discard);
        self.tasks.push(Task::Eval(start));
        assert(self@.tasks =~= old(self)@.tasks + seq![
            Task::ForTest(condition, iter, body),
            Task::Eval(condition),
            Task::PushNull,
            Task::Discard,
            Task::Eval(start),
        ]);
        None
    }

    /// Evaluates a node: gives its value at once, or plans what is to do.
    pub fn evaluate_node(&mut self, node: &'a ASTNode) -> (r: Option<Signal>)
        ensures
            (final(self)@, signal_view(r)) == evaluated(old(self)@, node),
    {
        let r = match node {
            ASTNode::NumberLiteral(s) => {
                self.awaiting = Some(Awaiting::Number);
                Some(Signal::Request(HostRequest::Parse { text: copy_string(s) }))
            },
            ASTNode::StringLiteral(s) => self.push_on(Value::String(copy_string(s))),
            ASTNode::BooleanLiteral(b) => self.push_on(Value::Boolean(*b)),
            ASTNode::NullLiteral => self.push_on(Value::Null),
            ASTNode::Variable(name) => match self.store.lookup(self.env, name) {
                Some(v) => self.push_on(v),
                None => self.fail(EvalError::UndefinedVariable(copy_string(name))),
            },
            ASTNode::Program(v) => {
                if v.len() == 0 {
                    self.push_on(Value::Null)
                } else {
                    self.plan_sequence(v);
                    None
                }
            },
            ASTNode::Block(v) => self.evaluate_block(v),
            ASTNode::ObjectLiteral(v) => self.evaluate_object(v),
            ASTNode::ArrayLiteral(v) => self.evaluate_array(v),
            ASTNode::BinaryOp { left, op, right } => self.evaluate_binary_op(op, left, right),
            ASTNode::UnaryOp { op, operand } => self.evaluate_unary_op(op, operand),
            ASTNode::VariableDeclaration { name, value } => self.plan2(
                Task::Declare(name),
                Task::Eval(value),
            ),
            ASTNode::IfStatement { condition, consequence, alternative } => {
                let other: Option<&'a ASTNode> = match alternative {
                    Some(a) => Some(&**a),
                    None => None,
                };
                self.plan2(Task::Branch(consequence, other), Task::Eval(condition))
            },
            ASTNode::FunctionCall { callee, arguments } => self.evaluate_call(callee, arguments),
            ASTNode::FunctionDeclaration { name, parameters, body } => self.declare_function(
                name,
                parameters,
                body,
            ),
            ASTNode::ReturnStatement(e) => self.plan2(Task::Return, Task::Eval(e)),
            ASTNode::WhileStatement { condition, body } => {
                self.push(Value::Null);
                self.plan2(Task::WhileTest(condition, body), Task::Eval(condition))
            },
            ASTNode::ForStatement { start, condition, iter, body } => self.evaluate_for(
                start,
                condition,
                iter,
                body,
            ),
            ASTNode::MemberAccess { object, member } => self.plan2(
                Task::Member(member),
                Task::Eval(object),
            ),
        };
        proof {
            assert(evaluated(old(self)@, node).0.tasks =~= self@.tasks);
            assert(evaluated(old(self)@, node).0.stack =~= self@.stack);
        }
        r
    }

    /// Plans the evaluation of a binary operation.
    pub fn evaluate_binary_op(
        &mut self,
        op: &'a TokenKind,
        left: &'a ASTNode,
        right: &'a ASTNode,
    ) -> (r: Option<Signal>)
        ensures
            (final(self)@, signal_view(r)) == evaluated_binary(old(self)@, *op, left, right),
    {
        let r = match op {
            TokenKind::Assign => match left {
                ASTNode::Variable(name) => self.plan2(Task::AssignVar(name), Task::Eval(right)),
                ASTNode::MemberAccess { object, member } => self.plan3(
                    Task::AssignMember(member),
                    Task::Eval(right),
                    Task::Eval(object),
                ),
                _ => self.plan2(Task::Unsupported, Task::Eval(right)),
            },
            TokenKind::And => self.plan2(Task::AndRight(right), Task::Eval(left)),
            TokenKind::Or => self.plan2(Task::OrRight(right), Task::Eval(left)),
            _ => {
                let task = match to_operator(*op) {
                    Some(o) => Task::Operate(o),
                    None => Task::Unsupported,
                };
                self.plan3(task, Task::Eval(right), Task::Eval(left))
            },
        };
        proof {
            assert(evaluated_binary(old(self)@, *op, left, right).0.tasks =~= self@.tasks);
        }
        r
    }

    /// Plans the evaluation of a unary operation.
    pub fn evaluate_unary_op(&mut self, op: &'a TokenKind, operand: &'a ASTNode) -> (r: Option<
        Signal,
    >)
        ensures
            (final(self)@, signal_view(r)) == evaluated_unary(old(self)@, *op, operand),
    {
        let task = match op {
            TokenKind::Minus => Task::Negate,
            TokenKind::Bang => Task::Invert,
            _ => Task::Unsupported,
        };
        self.plan2(task, Task::Eval(operand))
    }

    fn invoke(&mut self, argc: usize) -> (r: Option<Signal>)
        ensures
            (final(self)@, signal_view(r)) == performed(old(self)@, Task::Invoke(argc)),
    {
        if argc >= self.stack.len() {
            return self.underflow();
        }
        let ghost all = self@.stack;
        let args = pop_many(&mut self.stack, argc);
        let ghost below = self.stack@;
        let callee = self.stack.pop().unwrap();
        proof {
            assert(values_view(self.stack@) =~= all.take(all.len() - argc - 1));
            assert(values_view(below)[all.len() - argc - 1] == below[all.len() - argc - 1]@);
            assert(all.take(all.len() - argc)[all.len() - argc - 1] == all[all.len() - argc - 1]);
            assert(callee@ == all[all.len() - argc - 1]);
        }
        self.call_method(callee, args)
    }

    /// Calls `callee` with `args`: a function of the program, a function of
    /// the host, or a built-in method bound to its receiver.
    pub fn call_method(&mut self, callee: Value, args: Vec<Value>) -> (r: Option<Signal>)
        ensures
            (final(self)@, signal_view(r)) == called(old(self)@, callee@, values_view(args@)),
    {
        match callee {
            Value::Function(c) => {
                if c >= self.closures.len() {
                    return self.fail_runtime("Invalid reference");
                }
                let function = self.closures[c];
                if function.parameters.len() != args.len() {
                    return self.fail(EvalError::wrong_arguments("Argument count mismatch"));
                }
                if self.store.scopes.len() >= usize::MAX {
                    return self.fail_runtime("Out of memory");
                }
                let caller = self.env;
                let height = self.stack.len();
                self.enter(function.env);
                self.bind(function.parameters, &args);
                self.tasks.push(Task::EndCall { env: caller, height });
                self.tasks.push(Task::Eval(function.body));
                proof {
                    let want = called(old(self)@, callee@, values_view(args@)).0;
                    assert(self@.store.scopes =~= want.store.scopes);
                    assert(self@.tasks =~= want.tasks);
                }
                None
            },
            Value::HostFunction(f) => {
                let outcome = call_host(&self.store, f, &args);
                self.settle(outcome)
            },
            Value::Method { receiver, name } => {
                let outcome = self.methods.call_method(&mut self.store, &receiver, &name, &args);
                self.settle(outcome)
            },
            _ => self.fail(EvalError::wrong_type("Called value is not a function")),
        }
    }

    fn cut(&mut self, height: usize)
        ensures
            final(self)@ == (WalkView { stack: cut(old(self)@.stack, height), ..old(self)@ }),
    {
        if height <= self.stack.len() {
            let ghost before = values_view(self.stack@);
            self.stack.truncate(height);
            assert(values_view(self.stack@) =~= before.take(height as int));
        }
    }

    fn do_return(&mut self) -> (r: Option<Signal>)
        ensures
            (final(self)@, signal_view(r)) == performed(old(self)@, Task::Return),
    {
        let v = match self.pop() {
            None => {
                return self.underflow();
            },
            Some(v) => v,
        };
        let ghost start = self@;
        while self.tasks.len() > 0
            invariant
                old(self)@.stack.len() > 0,
                v@ == old(self)@.stack.last(),
                start == (WalkView { stack: old(self)@.stack.drop_last(), ..old(self)@ }),
                self@ == (WalkView { tasks: self@.tasks, ..start }),
                call_end(start.tasks) == call_end(self@.tasks),
                self@.tasks.len() <= start.tasks.len(),
                self@.tasks == start.tasks.take(self@.tasks.len() as int),
            decreases self.tasks.len(),
        {
            let ghost before = self@.tasks;
            let task = self.tasks.pop().unwrap();
            assert(self@.tasks =~= start.tasks.take(self@.tasks.len() as int));
            assert(self@.tasks =~= before.drop_last());
            assert(task == before.last());
            assert(before.last() == start.tasks[before.len() - 1]);
            match task {
                Task::EndCall { env, height } => {
                    assert(call_end(before) == Some(before.len() - 1));
                    self.cut(height);
                    self.env = env;
                    self.push(v);
                    assert(performed(old(self)@, Task::Return).0.tasks =~= self@.tasks);
                    assert(performed(old(self)@, Task::Return).0.stack =~= self@.stack);
                    return None;
                },
                _ => {},
            }
        }
        let copy = v.copy();
        self.push(v);
        assert(self@.tasks =~= Seq::empty());
        Some(Signal::Done(copy))
    }

    fn test_loop(&mut self, task: Task<'a>) -> (r: Option<Signal>)
        requires
            task is WhileTest || task is ForTest,
        ensures
            (final(self)@, signal_view(r)) == performed(old(self)@, task),
    {
        if self.stack.len() < 1 {
            return self.underflow();
        }
        let c = self.pop().unwrap();
        if c.is_truthy() {
            match task {
                Task::WhileTest(condition, body) => {
                    self.tasks.push(task);
                    self.tasks.push(Task::Eval(condition));
                    self.tasks.push(Task::Eval(body));
                    self.tasks.push(Task::Discard);
                    assert(self@.tasks =~= old(self)@.tasks + seq![
                        task,
                        Task::Eval(condition),
                        Task::Eval(body),
                        Task::Discard,
                    ]);
                    None
                },
                Task::ForTest(condition, iter, body) => {
                    self.tasks.push(task);
                    self.tasks.push(Task::Eval(condition));
                    self.tasks.push(Task::Discard);
                    self.tasks.push(Task::Eval(iter));
                    self.tasks.push(Task::Eval(body));
                    self.tasks.push(Task::Discard);
                    assert(self@.tasks =~= old(self)@.tasks + seq![
                        task,
                        Task::Eval(condition),
                        Task::Discard,
                        Task::Eval(iter),
                        Task::Eval(body),
                        Task::Discard,
                    ]);
                    None
                },
                _ => None,
            }
        } else {
            None
        }
    }

    fn set_on(&mut self, name: &String, keep: bool) -> (r: Option<Signal>)
        ensures
            (final(self)@, signal_view(r)) == (if old(self)@.stack.len() < 2 {
                underflow(old(self)@)
            } else {
                let n = old(self)@.stack.len() as int;
                match member_put(
                    old(self)@.store,
                    old(self)@.stack[n - 2],
                    name@,
                    old(self)@.stack[n - 1],
                ) {
                    Ok(store) => if keep {
                        (WalkView { store, stack: old(self)@.stack.take(n - 2), ..old(self)@ }, None)
                    } else {
                        pushed(
                            WalkView { store, stack: old(self)@.stack.take(n - 2), ..old(self)@ },
                            ValueView::Null,
                        )
                    },
                    Err(e) => failed(
                        WalkView { stack: old(self)@.stack.take(n - 2), ..old(self)@ },
                        e,
                    ),
                }
            }),
    {
        match self.pop_two() {
            None => self.underflow(),
            Some((object, value)) => {
                let result = set_member(&mut self.store, &object, name, value);
                match result {
                    Ok(_) => if keep {
                        None
                    } else {
                        self.push_on(Value::Null)
                    },
                    Err(e) => self.fail(e),
                }
            },
        }
    }

    fn short_circuit(&mut self, right: &'a ASTNode, stop_on: bool) -> (r: Option<Signal>)
        ensures
            (final(self)@, signal_view(r)) == performed(
                old(self)@,
                if stop_on {
                    Task::OrRight(right)
                } else {
                    Task::AndRight(right)
                },
            ),
    {
        match self.pop() {
            None => self.underflow(),
            Some(v) => {
                if v.is_truthy() == stop_on {
                    self.push_on(Value::Boolean(stop_on))
                } else {
                    self.plan2(Task::ToBoolean, Task::Eval(right))
                }
            },
        }
    }

    fn unary(&mut self, task: Task<'a>) -> (r: Option<Signal>)
        requires
            task is Negate || task is Invert || task is ToBoolean || task is Discard,
        ensures
            (final(self)@, signal_view(r)) == performed(old(self)@, task),
    {
        match self.pop() {
            None => self.underflow(),
            Some(v) => match task {
                Task::Negate => match negate_value(&v) {
                    Ok(w) => self.push_on(w),
                    Err(e) => self.fail(e),
                },
                Task::Invert => match invert_value(&v) {
                    Ok(w) => self.push_on(w),
                    Err(e) => self.fail(e),
                },
                Task::ToBoolean => self.push_on(Value::Boolean(v.is_truthy())),
                _ => None,
            },
        }
    }

    fn branch(&mut self, consequence: &'a ASTNode, alternative: Option<&'a ASTNode>) -> (r: Option<
        Signal,
    >)
        ensures
            (final(self)@, signal_view(r)) == performed(
                old(self)@,
                Task::Branch(consequence, alternative),
            ),
    {
        match self.pop() {
            None => self.underflow(),
            Some(Value::Boolean(true)) => self.plan1(Task::Eval(consequence)),
            Some(Value::Boolean(false)) => match alternative {
                Some(a) => self.plan1(Task::Eval(a)),
                None => self.push_on(Value::Null),
            },
            Some(_) => self.fail(EvalError::wrong_type("Condition must be a boolean")),
        }
    }

    fn bind_name(&mut self, name: &String, declare: bool) -> (r: Option<Signal>)
        ensures
            (final(self)@, signal_view(r)) == performed(
                old(self)@,
                if declare {
                    Task::Declare(name)
                } else {
                    Task::AssignVar(name)
                },
            ),
    {
        if self.stack.len() < 1 {
            return self.underflow();
        }
        if declare {
            let v = self.pop().unwrap();
            if self.store.declare(self.env, copy_string(name), v) {
                self.push_on(Value::Null)
            } else {
                self.fail_runtime("Invalid scope")
            }
        } else {
            let v = top_of(&self.stack);
            if self.store.assign(self.env, copy_string(name), v) {
                None
            } else {
                self.fail(EvalError::UndefinedVariable(copy_string(name)))
            }
        }
    }

    fn perform(&mut self, task: Task<'a>) -> (r: Option<Signal>)
        ensures
            (final(self)@, signal_view(r)) == performed(old(self)@, task),
    {
        match task {
            Task::Eval(node) => self.evaluate_node(node),
            Task::Discard => self.unary(task),
            Task::PushNull => self.push_on(Value::Null),
            Task::Declare(name) => self.bind_name(name, true),
            Task::AssignVar(name) => self.bind_name(name, false),
            Task::AssignMember(name) => self.set_on(name, false),
            Task::SetEntry(name) => self.set_on(name, true),
            Task::Duplicate => {
                if self.stack.len() < 1 {
                    return self.underflow();
                }
                let v = top_of(&self.stack);
                self.push_on(v)
            },
            Task::Operate(op) => match self.pop_two() {
                None => self.underflow(),
                Some((a, b)) => {
                    let outcome = operate(op, &a, &b);
                    self.settle(outcome)
                },
            },
            Task::Negate => self.unary(task),
            Task::Invert => self.unary(task),
            Task::Unsupported => self.fail_runtime("Unsupported operation"),
            Task::AndRight(right) => self.short_circuit(right, false),
            Task::OrRight(right) => self.short_circuit(right, true),
            Task::ToBoolean => self.unary(task),
            Task::Member(name) => match self.pop() {
                None => self.underflow(),
                Some(object) => match get_member(&self.store, object, name) {
                    Ok(v) => self.push_on(v),
                    Err(e) => self.fail(e),
                },
            },
            Task::Branch(consequence, alternative) => self.branch(consequence, alternative),
            Task::WhileTest(_, _) => self.test_loop(task),
            Task::ForTest(_, _, _) => self.test_loop(task),
            Task::LeaveScope(env) => {
                self.env = env;
                None
            },
            Task::Invoke(argc) => self.invoke(argc),
            Task::EndCall { env, height } => {
                if self.stack.len() < 1 {
                    return self.underflow();
                }
                self.pop();
                self.cut(height);
                self.env = env;
                self.push_on(Value::Null)
            },
            Task::Return => self.do_return(),
            Task::MakeArray(count) => {
                if self.stack.len() < count {
                    return self.underflow();
                }
                let items = pop_many(&mut self.stack, count);
                let h = self.store.new_array(items);
                self.push_on(Value::Array(h))
            },
        }
    }

    /// Makes one step. Gives the signal with which the evaluator stops, or
    /// nothing where it may go on.
    pub fn step(&mut self) -> (r: Option<Signal>)
        ensures
            (final(self)@, signal_view(r)) == walked(old(self)@),
    {
        if self.awaiting.is_some() {
            return Some(Signal::Failed(EvalError::failed("Waiting for an answer of the host")));
        }
        match self.tasks.pop() {
            None => self.finish(),
            Some(task) => self.perform(task),
        }
    }

    /// Hands the evaluator the answer to its request.
    pub fn resume(&mut self, response: HostResponse) -> (r: Option<Signal>)
        ensures
            (final(self)@, signal_view(r)) == resumed(old(self)@, response@),
    {
        match self.awaiting {
            None => self.fail_runtime("No request is pending"),
            Some(awaiting) => {
                self.awaiting = None;
                match answer(&mut self.store, awaiting, response) {
                    Ok(v) => self.push_on(v),
                    Err(e) => self.fail(e),
                }
            },
        }
    }

    /// Makes steps until the evaluator stops, but no more than `fuel`.
    pub fn evaluate_program(&mut self, fuel: usize) -> (r: Signal)
        ensures
            (final(self)@, r@) == ran(old(self)@, fuel as nat),
    {
        let mut left = fuel;
        while left > 0
            invariant
                ran(old(self)@, fuel as nat) == ran(self@, left as nat),
            decreases left,
        {
            match self.step() {
                Some(signal) => {
                    return signal;
                },
                None => {},
            }
            left -= 1;
        }
        Signal::Paused
    }
}

/// Starts the evaluation of `program` and makes steps until the evaluator
/// stops, but no more than `fuel`. Gives the evaluator, to go on with, and
/// why it stopped.
pub fn evaluate<'a>(program: &'a ASTNode, fuel: usize) -> (r: (TreeWalk<'a>, Signal))
    ensures
        (r.0@, r.1@) == ran(initial(program, std_fields(crate::stdlib::std_table())), fuel as nat),
{
    let mut walk = TreeWalk::new(program);
    let signal = walk.evaluate_program(fuel);
    (walk, signal)
}

} // verus!
