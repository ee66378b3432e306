//! The stack machine.
//!
//! `stepped` says what one step of the machine does to its state; `step`
//! does it. The machine never loops by itself for longer than it is told: a
//! host runs it, and answers what it asks.

use vstd::prelude::*;
use crate::errors::{
    argument_error, name_error, runtime_error, type_error, EvalError, EvalErrorView,
};
use crate::host::{answer, answered, Awaiting, HostRequest, HostResponse, RequestView, ResponseView};
use crate::ops::{
    get_member, inverse_of, invert_value, member_of, member_put, negate_value, negative_of,
    operate, operated, set_member, Operator,
};
use crate::signal::{pop_many, pop_value, signal_view, top, top_of, Signal, SignalView};
use crate::stdlib::{call_host, host_called, method_called, Methods, Outcome, OutcomeView};
use crate::store::{
    assigned, bound, declared, home, lookup, Fields, ScopeView, Store, StoreView,
};
use crate::text::copy_string;
use crate::value::{
    fields_view, truthy, values_view, values_view_push, Value, ValueView,
};
use crate::virtual_machine::bytecode::{Constant, FunctionView, Instruction, Program};

verus! {

/// A call that is under way: the function that runs, the index of its next
/// instruction, its scope, and the height that the stack had when the call
/// began.
#[derive(Debug, Clone, Copy, PartialEq, Eq, Structural)]
pub struct CallFrame {
    pub function: usize,
    pub ip: usize,
    pub env: usize,
    pub base: usize,
}

/// A function value: a function of the program together with the scope it
/// was made in.
#[derive(Debug, Clone, Copy, PartialEq, Eq, Structural)]
pub struct Closure {
    pub function: usize,
    pub env: usize,
}

/// The state of the machine, as a mathematical value.
pub struct MachineView {
    pub store: StoreView,
    pub closures: Seq<Closure>,
    pub stack: Seq<ValueView>,
    pub frames: Seq<CallFrame>,
    /// What the machine waits for, where it has made a request that is not
    /// answered yet.
    pub awaiting: Option<Awaiting>,
}

/// The state after a failure: no call is under way any more.
pub open spec fn failed(m: MachineView, e: EvalErrorView) -> (MachineView, Option<SignalView>) {
    (MachineView { frames: Seq::empty(), awaiting: None, ..m }, Some(SignalView::Failed(e)))
}

/// The state at the end of the program: no call is under way any more, and
/// the value of the program is the one on top of the stack.
pub open spec fn finished(m: MachineView) -> (MachineView, Option<SignalView>) {
    (MachineView { frames: Seq::empty(), ..m }, Some(SignalView::Done(top(m.stack))))
}

/// The state with one more value on the stack.
pub open spec fn pushed(m: MachineView, v: ValueView) -> (MachineView, Option<SignalView>) {
    (MachineView { stack: m.stack.push(v), ..m }, None)
}

/// The failure of an instruction that needs more values than the stack
/// holds.
pub open spec fn underflow(m: MachineView) -> (MachineView, Option<SignalView>) {
    failed(m, runtime_error("Stack underflow"@))
}

/// What the machine does with the outcome of an operation or a call: a value
/// is pushed, a request is handed to the host, an exit ends the program, an
/// error fails it.
pub open spec fn settled(m: MachineView, outcome: OutcomeView) -> (MachineView, Option<SignalView>) {
    match outcome {
        OutcomeView::Value(v) => pushed(m, v),
        OutcomeView::Ask { request, awaiting } => (
            MachineView { awaiting: Some(awaiting), ..m },
            Some(SignalView::Request(request)),
        ),
        OutcomeView::Exit(code) => (
            MachineView { frames: Seq::empty(), ..m },
            Some(SignalView::Exit(code)),
        ),
        OutcomeView::Fail(e) => failed(m, e),
    }
}

/// The state with the topmost frame replaced, if there is one.
pub open spec fn reframed(m: MachineView, frame: CallFrame) -> MachineView {
    if m.frames.len() > 0 {
        MachineView { frames: m.frames.update(m.frames.len() - 1, frame), ..m }
    } else {
        m
    }
}

/// What a jump on a boolean does, `JumpIfTrue` where `wanted` is true and
/// `JumpIfFalse` where it is false: the topmost value is taken off the
/// stack; if it is the boolean `wanted` the machine goes on at `to`, if it
/// is the other boolean it goes on with the next instruction, and if it is
/// no boolean the machine fails with a type error.
pub open spec fn tested(m: MachineView, frame: CallFrame, to: usize, wanted: bool) -> (
    MachineView,
    Option<SignalView>,
) {
    let below = MachineView { stack: m.stack.drop_last(), ..m };
    match m.stack.last() {
        ValueView::Boolean(b) => if b == wanted {
            (reframed(below, CallFrame { ip: to, ..frame }), None)
        } else {
            (below, None)
        },
        _ => failed(below, type_error("Condition must be a boolean"@)),
    }
}

/// The operator that an instruction applies to the two topmost values.
pub open spec fn operator_in(instruction: Instruction) -> Option<Operator> {
    match instruction {
        Instruction::Add => Some(Operator::Add),
        Instruction::Sub => Some(Operator::Sub),
        Instruction::Mul => Some(Operator::Mul),
        Instruction::Div => Some(Operator::Div),
        Instruction::Mod => Some(Operator::Mod),
        Instruction::Eq => Some(Operator::Eq),
        Instruction::Ne => Some(Operator::Ne),
        Instruction::Lt => Some(Operator::Lt),
        Instruction::Le => Some(Operator::Le),
        Instruction::Gt => Some(Operator::Gt),
        Instruction::Ge => Some(Operator::Ge),
        Instruction::BitAnd => Some(Operator::BitAnd),
        Instruction::BitOr => Some(Operator::BitOr),
        _ => None,
    }
}

/// Pushing a constant.
pub open spec fn constant_pushed(m: MachineView, constant: Constant, env: usize) -> (
    MachineView,
    Option<SignalView>,
) {
    match constant {
        Constant::Number(numeral) => (
            MachineView { awaiting: Some(Awaiting::Number), ..m },
            Some(SignalView::Request(RequestView::Parse { text: numeral@ })),
        ),
        Constant::String(s) => pushed(m, ValueView::String(s@)),
        Constant::Boolean(b) => pushed(m, ValueView::Boolean(b)),
        Constant::Null => pushed(m, ValueView::Null),
        Constant::Object => pushed(
            MachineView {
                store: StoreView { objects: m.store.objects.push(Seq::empty()), ..m.store },
                ..m
            },
            ValueView::Object(m.store.objects.len()),
        ),
        Constant::Function(f) => pushed(
            MachineView { closures: m.closures.push(Closure { function: f, env }), ..m },
            ValueView::Function(m.closures.len()),
        ),
    }
}

/// Calling `callee` with `args`; the stack of `m` holds neither any more.
pub open spec fn called(
    program: Seq<FunctionView>,
    m: MachineView,
    callee: ValueView,
    args: Seq<ValueView>,
) -> (MachineView, Option<SignalView>) {
    match callee {
        ValueView::Function(c) => if c >= m.closures.len() {
            failed(m, runtime_error("Invalid reference"@))
        } else if m.closures[c as int].function >= program.len() {
            failed(m, runtime_error("Invalid function"@))
        } else if program[m.closures[c as int].function as int].parameters.len() != args.len() {
            failed(m, argument_error("Argument count mismatch"@))
        } else if m.store.scopes.len() >= usize::MAX || m.stack.len() > usize::MAX {
            failed(m, runtime_error("Out of memory"@))
        } else {
            (
                MachineView {
                    store: StoreView {
                        scopes: m.store.scopes.push(
                            ScopeView {
                                variables: bound(
                                    program[m.closures[c as int].function as int].parameters,
                                    args,
                                    0,
                                    Seq::empty(),
                                ),
                                parent: Some(m.closures[c as int].env as nat),
                            },
                        ),
                        ..m.store
                    },
                    frames: m.frames.push(
                        CallFrame {
                            function: m.closures[c as int].function,
                            ip: 0,
                            env: m.store.scopes.len() as usize,
                            base: m.stack.len() as usize,
                        },
                    ),
                    ..m
                },
                None,
            )
        },
        ValueView::HostFunction(f) => settled(m, host_called(m.store, f, args)),
        ValueView::Method { receiver, name } => settled(
            MachineView { store: method_called(m.store, *receiver, name, args).1, ..m },
            method_called(m.store, *receiver, name, args).0,
        ),
        _ => failed(m, type_error("Called value is not a function"@)),
    }
}

/// Returning `v` from the topmost frame: the stack goes back to the height
/// it had when the call began, and `v` is pushed. Returning from the last
/// frame ends the program with `v`.
pub open spec fn returned(m: MachineView, frame: CallFrame, v: ValueView) -> (
    MachineView,
    Option<SignalView>,
)
    recommends
        m.frames.len() > 0,
{
    let kept = if frame.base <= m.stack.len() {
        m.stack.take(frame.base as int)
    } else {
        m.stack
    };
    let after = MachineView {
        stack: kept.push(v),
        frames: if m.frames.len() > 0 {
            m.frames.drop_last()
        } else {
            m.frames
        },
        ..m
    };
    if m.frames.len() <= 1 {
        (after, Some(SignalView::Done(v)))
    } else {
        (after, None)
    }
}

/// What the instruction does. `m` is the state in which the frame at the
/// top, `frame`, is already past the instruction.
pub open spec fn executed(
    program: Seq<FunctionView>,
    m: MachineView,
    instruction: Instruction,
    frame: CallFrame,
) -> (MachineView, Option<SignalView>) {
    let n = m.stack.len() as int;
    let scopes = m.store.scopes;
    match instruction {
        Instruction::PushConst(i) => if frame.function < program.len() && i
            < program[frame.function as int].constants.len() {
            constant_pushed(m, program[frame.function as int].constants[i as int], frame.env)
        } else {
            failed(m, runtime_error("Constant not found"@))
        },
        Instruction::Pop => if n < 1 {
            underflow(m)
        } else {
            (MachineView { stack: m.stack.drop_last(), ..m }, None)
        },
        Instruction::Dup => if n < 1 {
            underflow(m)
        } else {
            pushed(m, m.stack.last())
        },
        Instruction::Swap => if n < 2 {
            underflow(m)
        } else {
            (
                MachineView {
                    stack: m.stack.take(n - 2).push(m.stack[n - 1]).push(m.stack[n - 2]),
                    ..m
                },
                None,
            )
        },
        Instruction::Add
        | Instruction::Sub
        | Instruction::Mul
        | Instruction::Div
        | Instruction::Mod
        | Instruction::Eq
        | Instruction::Ne
        | Instruction::Lt
        | Instruction::Le
        | Instruction::Gt
        | Instruction::Ge
        | Instruction::BitAnd
        | Instruction::BitOr => if n < 2 {
            underflow(m)
        } else {
            settled(
                MachineView { stack: m.stack.take(n - 2), ..m },
                operated(operator_in(instruction)->0, m.stack[n - 2], m.stack[n - 1]),
            )
        },
        Instruction::Negate => if n < 1 {
            underflow(m)
        } else {
            match negative_of(m.stack.last()) {
                Ok(v) => pushed(MachineView { stack: m.stack.drop_last(), ..m }, v),
                Err(e) => failed(MachineView { stack: m.stack.drop_last(), ..m }, e),
            }
        },
        Instruction::Not => if n < 1 {
            underflow(m)
        } else {
            match inverse_of(m.stack.last()) {
                Ok(v) => pushed(MachineView { stack: m.stack.drop_last(), ..m }, v),
                Err(e) => failed(MachineView { stack: m.stack.drop_last(), ..m }, e),
            }
        },
        Instruction::LoadVar(name) => match lookup(scopes, frame.env as nat, name@) {
            Some(v) => pushed(m, v),
            None => failed(m, name_error(name@)),
        },
        Instruction::StoreVar(name) => if n < 1 {
            underflow(m)
        } else if home(scopes, frame.env as nat, name@) is Some {
            (
                MachineView {
                    store: StoreView {
                        scopes: assigned(scopes, frame.env as nat, name@, m.stack.last()),
                        ..m.store
                    },
                    ..m
                },
                None,
            )
        } else {
            failed(m, name_error(name@))
        },
        Instruction::DeclareVar(name) => if n < 1 {
            underflow(m)
        } else if frame.env < scopes.len() {
            pushed(
                MachineView {
                    stack: m.stack.drop_last(),
                    store: StoreView {
                        scopes: declared(scopes, frame.env as nat, name@, m.stack.last()),
                        ..m.store
                    },
                    ..m
                },
                ValueView::Null,
            )
        } else {
            failed(MachineView { stack: m.stack.drop_last(), ..m }, runtime_error("Invalid scope"@))
        },
        Instruction::LoadLocal(i) => if frame.env < scopes.len() && i
            < scopes[frame.env as int].variables.len() {
            pushed(m, scopes[frame.env as int].variables[i as int].1)
        } else {
            failed(m, runtime_error("Local variable index out of bounds"@))
        },
        Instruction::StoreLocal(i) => if n < 1 {
            underflow(m)
        } else if frame.env < scopes.len() && i < scopes[frame.env as int].variables.len() {
            (
                MachineView {
                    stack: m.stack.drop_last(),
                    store: StoreView {
                        scopes: scopes.update(
                            frame.env as int,
                            ScopeView {
                                variables: scopes[frame.env as int].variables.update(
                                    i as int,
                                    (scopes[frame.env as int].variables[i as int].0, m.stack.last()),
                                ),
                                parent: scopes[frame.env as int].parent,
                            },
                        ),
                        ..m.store
                    },
                    ..m
                },
                None,
            )
        } else {
            failed(
                MachineView { stack: m.stack.drop_last(), ..m },
                runtime_error("Local variable index out of bounds"@),
            )
        },
        Instruction::EnterScope => if scopes.len() >= usize::MAX {
            failed(m, runtime_error("Out of memory"@))
        } else {
            (
                reframed(
                    MachineView {
                        store: StoreView {
                            scopes: scopes.push(
                                ScopeView {
                                    variables: Seq::empty(),
                                    parent: Some(frame.env as nat),
                                },
                            ),
                            ..m.store
                        },
                        ..m
                    },
                    CallFrame { env: scopes.len() as usize, ..frame },
                ),
                None,
            )
        },
        Instruction::ExitScope => if frame.env < scopes.len() && scopes[frame.env as int].parent
            is Some && scopes[frame.env as int].parent->0 <= usize::MAX {
            (
                reframed(
                    m,
                    CallFrame { env: scopes[frame.env as int].parent->0 as usize, ..frame },
                ),
                None,
            )
        } else {
            failed(m, runtime_error("No scope to leave"@))
        },
        Instruction::Jmp(to) => (reframed(m, CallFrame { ip: to, ..frame }), None),
        Instruction::JumpIfTrue(to) => if n < 1 {
            underflow(m)
        } else {
            tested(m, frame, to, true)
        },
        Instruction::JumpIfFalse(to) => if n < 1 {
            underflow(m)
        } else {
            tested(m, frame, to, false)
        },
        Instruction::JumpWhen(to) => if n < 1 {
            underflow(m)
        } else if truthy(m.stack.last()) {
            (
                reframed(
                    MachineView { stack: m.stack.drop_last(), ..m },
                    CallFrame { ip: to, ..frame },
                ),
                None,
            )
        } else {
            (MachineView { stack: m.stack.drop_last(), ..m }, None)
        },
        Instruction::JumpUnless(to) => if n < 1 {
            underflow(m)
        } else if !truthy(m.stack.last()) {
            (
                reframed(
                    MachineView { stack: m.stack.drop_last(), ..m },
                    CallFrame { ip: to, ..frame },
                ),
                None,
            )
        } else {
            (MachineView { stack: m.stack.drop_last(), ..m }, None)
        },
        Instruction::Call(argc) => if n < argc + 1 {
            underflow(m)
        } else {
            called(
                program,
                MachineView { stack: m.stack.take(n - argc - 1), ..m },
                m.stack[n - argc - 1],
                m.stack.subrange(n - argc, n),
            )
        },
        Instruction::Return => if n < 1 {
            underflow(m)
        } else {
            returned(MachineView { stack: m.stack.drop_last(), ..m }, frame, m.stack.last())
        },
        Instruction::GetProperty(name) => if n < 1 {
            underflow(m)
        } else {
            match member_of(m.store, m.stack.last(), name@) {
                Ok(v) => pushed(MachineView { stack: m.stack.drop_last(), ..m }, v),
                Err(e) => failed(MachineView { stack: m.stack.drop_last(), ..m }, e),
            }
        },
        Instruction::SetProperty(name) => if n < 2 {
            underflow(m)
        } else {
            match member_put(m.store, m.stack[n - 2], name@, m.stack[n - 1]) {
                Ok(store) => pushed(
                    MachineView { stack: m.stack.take(n - 2), store, ..m },
                    ValueView::Null,
                ),
                Err(e) => failed(MachineView { stack: m.stack.take(n - 2), ..m }, e),
            }
        },
        Instruction::BuildArray(count) => if n < count {
            underflow(m)
        } else {
            pushed(
                MachineView {
                    stack: m.stack.take(n - count),
                    store: StoreView {
                        arrays: m.store.arrays.push(m.stack.subrange(n - count, n)),
                        ..m.store
                    },
                    ..m
                },
                ValueView::Array(m.store.arrays.len()),
            )
        },
        Instruction::Halt => finished(m),
        Instruction::Unknown => failed(m, runtime_error("Unsupported operation"@)),
    }
}

/// One step of the machine.
///
/// A machine that waits for an answer does not step. A machine without a
/// frame has come to its end, and so has one whose topmost frame has no
/// instruction left. Otherwise the instruction at hand is fetched, the frame
/// moves past it, and the instruction is executed.
pub open spec fn stepped(program: Seq<FunctionView>, m: MachineView) -> (
    MachineView,
    Option<SignalView>,
) {
    if m.awaiting is Some {
        (m, Some(SignalView::Failed(runtime_error("Waiting for an answer of the host"@))))
    } else if m.frames.len() == 0 {
        finished(m)
    } else {
        let frame = m.frames.last();
        if frame.function >= program.len() {
            failed(m, runtime_error("Invalid function"@))
        } else if frame.ip >= program[frame.function as int].instructions.len() {
            finished(m)
        } else {
            let next = CallFrame { ip: (frame.ip + 1) as usize, ..frame };
            executed(
                program,
                reframed(m, next),
                program[frame.function as int].instructions[frame.ip as int],
                next,
            )
        }
    }
}

/// What handing an answer to the machine does: the value that the answer
/// stands for is pushed, and the machine waits no more. An answer that was
/// not asked for, or that is of the wrong kind, fails the program.
pub open spec fn resumed(m: MachineView, response: ResponseView) -> (MachineView, Option<SignalView>) {
    match m.awaiting {
        None => failed(m, runtime_error("No request is pending"@)),
        Some(awaiting) => {
            let after = MachineView {
                store: answered(m.store, awaiting, response).1,
                awaiting: None,
                ..m
            };
            match answered(m.store, awaiting, response).0 {
                Ok(v) => pushed(after, v),
                Err(e) => failed(after, e),
            }
        },
    }
}

/// The state after at most `fuel` steps, and why the machine stopped: it
/// stops at the first step that gives a signal, and is paused if none of
/// the steps does.
pub open spec fn ran(program: Seq<FunctionView>, m: MachineView, fuel: nat) -> (MachineView, SignalView)
    decreases fuel,
{
    if fuel == 0 {
        (m, SignalView::Paused)
    } else {
        match stepped(program, m).1 {
            Some(signal) => (stepped(program, m).0, signal),
            None => ran(program, stepped(program, m).0, (fuel - 1) as nat),
        }
    }
}

/// The state in which a program starts: the store holds the global scope,
/// in which `std` is declared, and the object `std` with its functions; the
/// first function of the program is under way in the global scope.
pub open spec fn initial(std: Fields) -> MachineView {
    MachineView {
        store: StoreView {
            arrays: Seq::empty(),
            objects: seq![std],
            scopes: seq![
                ScopeView {
                    variables: seq![("std"@, ValueView::Object(0))],
                    parent: None,
                },
            ],
        },
        closures: Seq::empty(),
        stack: Seq::empty(),
        frames: seq![CallFrame { function: 0, ip: 0, env: 0, base: 0 }],
        awaiting: None,
    }
}

/// The properties of `std`: its functions by name.
pub open spec fn std_fields(table: Seq<(Seq<char>, crate::value::HostFn)>) -> Fields {
    Seq::new(table.len(), |i: int| (table[i].0, ValueView::HostFunction(table[i].1)))
}

/// The machine.
pub struct Interpreter {
    program: Program,
    store: Store,
    closures: Vec<Closure>,
    stack: Vec<Value>,
    frames: Vec<CallFrame>,
    awaiting: Option<Awaiting>,
    methods: Methods,
}

impl View for Interpreter {
    type V = MachineView;

    closed spec fn view(&self) -> MachineView {
        MachineView {
            store: self.store@,
            closures: self.closures@,
            stack: values_view(self.stack@),
            frames: self.frames@,
            awaiting: self.awaiting,
        }
    }
}

/// The object `std`.
pub fn std_object() -> (fields: Vec<(String, Value)>)
    ensures
        fields_view(fields@) == std_fields(crate::stdlib::std_table()),
{
    let table = crate::stdlib::std_methods();
    let mut fields: Vec<(String, Value)> = Vec::new();
    let mut i: usize = 0;
    while i < table.len()
        invariant
            i <= table.len(),
            fields.len() == i,
            forall|j: int|
                0 <= j < i ==> fields@[j].0@ == table@[j].0@ && fields@[j].1@
                    == ValueView::HostFunction(table@[j].1),
        decreases table.len() - i,
    {
        fields.push((copy_string(&table[i].0), Value::HostFunction(table[i].1)));
        i += 1;
    }
    assert(fields_view(fields@) =~= std_fields(crate::stdlib::std_view(table@)));
    fields
}

impl Interpreter {
    /// The program that the machine runs.
    pub closed spec fn program(&self) -> Seq<FunctionView> {
        self.program@
    }

    /// A machine that is about to run `program`.
    pub fn new(program: Program) -> (vm: Interpreter)
        ensures
            vm.program() == program@,
            vm@ == initial(std_fields(crate::stdlib::std_table())),
    {
        let mut store = Store::new();
        let std = store.new_object(std_object());
        let global = store.new_scope(None);
        store.declare(global, String::from_str("std"), Value::Object(std));
        let mut frames: Vec<CallFrame> = Vec::new();
        frames.push(CallFrame { function: 0, ip: 0, env: global, base: 0 });
        let vm = Interpreter {
            program,
            store,
            closures: Vec::new(),
            stack: Vec::new(),
            frames,
            awaiting: None,
            methods: Methods::new(),
        };
        proof {
            let want = initial(std_fields(crate::stdlib::std_table()));
            assert(vm@.store.arrays =~= want.store.arrays);
            assert(vm@.store.objects =~= want.store.objects);
            assert(vm@.store.scopes[0].variables =~= want.store.scopes[0].variables);
            assert(vm@.store.scopes =~= want.store.scopes);
            assert(vm@.stack =~= want.stack);
            assert(vm@.frames =~= want.frames);
            assert(vm@.closures =~= want.closures);
        }
        vm
    }

    /// Starts the program anew: the stack and the store are as in a new
    /// machine.
    pub fn reset(&mut self)
        ensures
            final(self).program() == old(self).program(),
            final(self)@ == initial(std_fields(crate::stdlib::std_table())),
    {
        let mut program = Program { functions: Vec::new() };
        core::mem::swap(&mut program, &mut self.program);
        *self = Interpreter::new(program);
    }

    /// How many values the stack holds.
    pub fn depth(&self) -> (n: usize)
        ensures
            n == self@.stack.len(),
    {
        self.stack.len()
    }

    /// Puts a value on the stack.
    pub fn push(&mut self, value: Value)
        ensures
            final(self).program() == old(self).program(),
            final(self)@ == pushed(old(self)@, value@).0,
    {
        proof {
            values_view_push(self.stack@, value);
        }
        self.stack.push(value);
    }

    /// Takes the topmost value off the stack.
    pub fn pop(&mut self) -> (r: Option<Value>)
        ensures
            final(self).program() == old(self).program(),
            match r {
                Some(v) => old(self)@.stack.len() > 0 && v@ == old(self)@.stack.last()
                    && final(self)@ == (MachineView {
                    stack: old(self)@.stack.drop_last(),
                    ..old(self)@
                }),
                None => old(self)@.stack.len() == 0 && final(self)@ == old(self)@,
            },
    {
        pop_value(&mut self.stack)
    }

    /// The instruction that the machine executes next, if there is one.
    pub fn cur_instruction(&self) -> (r: Option<Instruction>)
        ensures
            match r {
                Some(i) => self@.frames.len() > 0 && self@.frames.last().function
                    < self.program().len() && self@.frames.last().ip
                    < self.program()[self@.frames.last().function as int].instructions.len() && i
                    == self.program()[self@.frames.last().function as int].instructions[self@.frames.last().ip
                    as int],
                None => self@.frames.len() == 0 || self@.frames.last().function
                    >= self.program().len() || self@.frames.last().ip
                    >= self.program()[self@.frames.last().function as int].instructions.len(),
            },
    {
        if self.frames.len() == 0 {
            return None;
        }
        let frame = self.frames[self.frames.len() - 1];
        if frame.function >= self.program.functions.len() {
            return None;
        }
        let f = &self.program.functions[frame.function];
        if frame.ip >= f.bytecode.instructions.len() {
            return None;
        }
        Some(f.bytecode.instructions[frame.ip].copy())
    }

    fn fail(&mut self, e: EvalError) -> (r: Option<Signal>)
        ensures
            final(self).program() == old(self).program(),
            (final(self)@, signal_view(r)) == failed(old(self)@, e@),
    {
        self.frames = Vec::new();
        self.awaiting = None;
        Some(Signal::Failed(e))
    }

    fn fail_runtime(&mut self, detail: &str) -> (r: Option<Signal>)
        ensures
            final(self).program() == old(self).program(),
            (final(self)@, signal_view(r)) == failed(old(self)@, runtime_error(detail@)),
    {
        self.fail(EvalError::failed(detail))
    }

    fn underflow(&mut self) -> (r: Option<Signal>)
        ensures
            final(self).program() == old(self).program(),
            (final(self)@, signal_view(r)) == underflow(old(self)@),
    {
        self.fail_runtime("Stack underflow")
    }

    fn finish(&mut self) -> (r: Option<Signal>)
        ensures
            final(self).program() == old(self).program(),
            (final(self)@, signal_view(r)) == finished(old(self)@),
    {
        self.frames = Vec::new();
        Some(Signal::Done(top_of(&self.stack)))
    }

    fn push_on(&mut self, value: Value) -> (r: Option<Signal>)
        ensures
            final(self).program() == old(self).program(),
            (final(self)@, signal_view(r)) == pushed(old(self)@, value@),
    {
        self.push(value);
        None
    }

    fn settle(&mut self, outcome: Outcome) -> (r: Option<Signal>)
        ensures
            final(self).program() == old(self).program(),
            (final(self)@, signal_view(r)) == settled(old(self)@, outcome@),
    {
        match outcome {
            Outcome::Value(v) => self.push_on(v),
            Outcome::Ask { request, awaiting } => {
                self.awaiting = Some(awaiting);
                Some(Signal::Request(request))
            },
            Outcome::Exit(code) => {
                self.frames = Vec::new();
                Some(Signal::Exit(code))
            },
            Outcome::Fail(e) => self.fail(e),
        }
    }

    fn reframe(&mut self, frame: CallFrame)
        ensures
            final(self).program() == old(self).program(),
            final(self)@ == reframed(old(self)@, frame),
    {
        if self.frames.len() > 0 {
            let last = self.frames.len() - 1;
            self.frames[last] = frame;
        }
    }

    fn push_constant(&mut self, index: usize, frame: CallFrame) -> (r: Option<Signal>)
        ensures
            final(self).program() == old(self).program(),
            (final(self)@, signal_view(r)) == executed(
                old(self).program(),
                old(self)@,
                Instruction::PushConst(index),
                frame,
            ),
    {
        if frame.function >= self.program.functions.len() || index
            >= self.program.functions[frame.function].bytecode.constants.len() {
            return self.fail_runtime("Constant not found");
        }
        match &self.program.functions[frame.function].bytecode.constants[index] {
            Constant::Number(numeral) => {
                let text = copy_string(numeral);
                self.awaiting = Some(Awaiting::Number);
                Some(Signal::Request(HostRequest::Parse { text }))
            },
            Constant::String(s) => {
                let v = Value::String(copy_string(s));
                self.push_on(v)
            },
            Constant::Boolean(b) => {
                let v = Value::Boolean(*b);
                self.push_on(v)
            },
            Constant::Null => self.push_on(Value::Null),
            Constant::Object => {
                let fields: Vec<(String, Value)> = Vec::new();
                assert(fields_view(fields@) =~= Seq::empty());
                let h = self.store.new_object(fields);
                self.push_on(Value::Object(h))
            },
            Constant::Function(f) => {
                let h = self.closures.len();
                self.closures.push(Closure { function: *f, env: frame.env });
                self.push_on(Value::Function(h))
            },
        }
    }

    fn binary(&mut self, op: Operator) -> (r: Option<Signal>)
        ensures
            final(self).program() == old(self).program(),
            (final(self)@, signal_view(r)) == (if old(self)@.stack.len() < 2 {
                underflow(old(self)@)
            } else {
                settled(
                    MachineView {
                        stack: old(self)@.stack.take(old(self)@.stack.len() - 2),
                        ..old(self)@
                    },
                    operated(
                        op,
                        old(self)@.stack[old(self)@.stack.len() - 2],
                        old(self)@.stack[old(self)@.stack.len() - 1],
                    ),
                )
            }),
    {
        if self.stack.len() < 2 {
            return self.underflow();
        }
        let pair = pop_many(&mut self.stack, 2);
        let outcome = operate(op, &pair[0], &pair[1]);
        assert(values_view(pair@)[0] == pair@[0]@ && values_view(pair@)[1] == pair@[1]@);
        self.settle(outcome)
    }

    fn unary(&mut self, negate: bool) -> (r: Option<Signal>)
        ensures
            final(self).program() == old(self).program(),
            (final(self)@, signal_view(r)) == (if old(self)@.stack.len() < 1 {
                underflow(old(self)@)
            } else {
                match (if negate {
                    negative_of(old(self)@.stack.last())
                } else {
                    inverse_of(old(self)@.stack.last())
                }) {
                    Ok(v) => pushed(
                        MachineView { stack: old(self)@.stack.drop_last(), ..old(self)@ },
                        v,
                    ),
                    Err(e) => failed(
                        MachineView { stack: old(self)@.stack.drop_last(), ..old(self)@ },
                        e,
                    ),
                }
            }),
    {
        match self.pop() {
            None => self.underflow(),
            Some(v) => {
                let result = if negate {
                    negate_value(&v)
                } else {
                    invert_value(&v)
                };
                match result {
                    Ok(w) => self.push_on(w),
                    Err(e) => self.fail(e),
                }
            },
        }
    }

    fn load_var(&mut self, name: &String, frame: CallFrame) -> (r: Option<Signal>)
        ensures
            final(self).program() == old(self).program(),
            (final(self)@, signal_view(r)) == (match lookup(
                old(self)@.store.scopes,
                frame.env as nat,
                name@,
            ) {
                Some(v) => pushed(old(self)@, v),
                None => failed(old(self)@, name_error(name@)),
            }),
    {
        match self.store.lookup(frame.env, name) {
            Some(v) => self.push_on(v),
            None => self.fail(EvalError::UndefinedVariable(copy_string(name))),
        }
    }

    fn store_var(&mut self, name: &String, frame: CallFrame) -> (r: Option<Signal>)
        ensures
            final(self).program() == old(self).program(),
            (final(self)@, signal_view(r)) == executed(
                old(self).program(),
                old(self)@,
                Instruction::StoreVar(*name),
                frame,
            ),
    {
        match self.pop() {
            None => self.underflow(),
            Some(v) => {
                self.push(v.copy());
                assert(self@.stack =~= old(self)@.stack);
                if self.store.assign(frame.env, copy_string(name), v) {
                    None
                } else {
                    self.fail(EvalError::UndefinedVariable(copy_string(name)))
                }
            },
        }
    }

    fn declare_var(&mut self, name: &String, frame: CallFrame) -> (r: Option<Signal>)
        ensures
            final(self).program() == old(self).program(),
            (final(self)@, signal_view(r)) == executed(
                old(self).program(),
                old(self)@,
                Instruction::DeclareVar(*name),
                frame,
            ),
    {
        match self.pop() {
            None => self.underflow(),
            Some(v) => {
                if self.store.declare(frame.env, copy_string(name), v) {
                    self.push_on(Value::Null)
                } else {
                    self.fail_runtime("Invalid scope")
                }
            },
        }
    }

    fn load_local(&mut self, index: usize, frame: CallFrame) -> (r: Option<Signal>)
        ensures
            final(self).program() == old(self).program(),
            (final(self)@, signal_view(r)) == executed(
                old(self).program(),
                old(self)@,
                Instruction::LoadLocal(index),
                frame,
            ),
    {
        if frame.env < self.store.scopes.len() && index
            < self.store.scopes[frame.env].variables.len() {
            let v = self.store.scopes[frame.env].variables[index].1.copy();
            self.push_on(v)
        } else {
            self.fail_runtime("Local variable index out of bounds")
        }
    }

    fn store_local(&mut self, index: usize, frame: CallFrame) -> (r: Option<Signal>)
        ensures
            final(self).program() == old(self).program(),
            (final(self)@, signal_view(r)) == executed(
                old(self).program(),
                old(self)@,
                Instruction::StoreLocal(index),
                frame,
            ),
    {
        match self.pop() {
            None => self.underflow(),
            Some(v) => {
                if frame.env < self.store.scopes.len() && index
                    < self.store.scopes[frame.env].variables.len() {
                    let ghost before = self.store@;
                    let ghost fields = self.store.scopes@[frame.env as int].variables@;
                    let name = copy_string(&self.store.scopes[frame.env].variables[index].0);
                    proof {
                        crate::value::fields_view_update(fields, index as int, name, v);
                    }
                    self.store.scopes[frame.env].variables[index] = (name, v);
                    assert(self.store@.scopes =~= before.scopes.update(
                        frame.env as int,
                        ScopeView {
                            variables: before.scopes[frame.env as int].variables.update(
                                index as int,
                                (before.scopes[frame.env as int].variables[index as int].0, v@),
                            ),
                            parent: before.scopes[frame.env as int].parent,
                        },
                    ));
                    assert(self.store@.arrays =~= before.arrays);
                    assert(self.store@.objects =~= before.objects);
                    None
                } else {
                    self.fail_runtime("Local variable index out of bounds")
                }
            },
        }
    }

    fn enter_scope(&mut self, frame: CallFrame) -> (r: Option<Signal>)
        ensures
            final(self).program() == old(self).program(),
            (final(self)@, signal_view(r)) == executed(
                old(self).program(),
                old(self)@,
                Instruction::EnterScope,
                frame,
            ),
    {
        if self.store.scopes.len() >= usize::MAX {
            return self.fail_runtime("Out of memory");
        }
        let inner = self.store.new_scope(Some(frame.env));
        self.reframe(CallFrame { env: inner, ..frame });
        None
    }

    fn exit_scope(&mut self, frame: CallFrame) -> (r: Option<Signal>)
        ensures
            final(self).program() == old(self).program(),
            (final(self)@, signal_view(r)) == executed(
                old(self).program(),
                old(self)@,
                Instruction::ExitScope,
                frame,
            ),
    {
        if frame.env < self.store.scopes.len() {
            match self.store.scopes[frame.env].parent {
                Some(p) => {
                    self.reframe(CallFrame { env: p, ..frame });
                    return None;
                },
                None => {},
            }
        }
        self.fail_runtime("No scope to leave")
    }

    fn test_jump(&mut self, to: usize, frame: CallFrame, wanted: bool) -> (r: Option<Signal>)
        ensures
            final(self).program() == old(self).program(),
            (final(self)@, signal_view(r)) == executed(
                old(self).program(),
                old(self)@,
                if wanted {
                    Instruction::JumpIfTrue(to)
                } else {
                    Instruction::JumpIfFalse(to)
                },
                frame,
            ),
    {
        match self.pop() {
            None => self.underflow(),
            Some(Value::Boolean(b)) => {
                if b == wanted {
                    self.reframe(CallFrame { ip: to, ..frame });
                }
                None
            },
            Some(_) => self.fail(EvalError::TypeError(String::from_str("Condition must be a boolean"))),
        }
    }

    fn jump(&mut self, to: usize, frame: CallFrame, when: Option<bool>) -> (r: Option<Signal>)
        ensures
            final(self).program() == old(self).program(),
            (final(self)@, signal_view(r)) == executed(
                old(self).program(),
                old(self)@,
                match when {
                    None => Instruction::Jmp(to),
                    Some(true) => Instruction::JumpWhen(to),
                    Some(false) => Instruction::JumpUnless(to),
                },
                frame,
            ),
    {
        match when {
            None => {
                self.reframe(CallFrame { ip: to, ..frame });
                None
            },
            Some(wanted) => match self.pop() {
                None => self.underflow(),
                Some(v) => {
                    if v.is_truthy() == wanted {
                        self.reframe(CallFrame { ip: to, ..frame });
                    }
                    None
                },
            },
        }
    }

    fn bind(&mut self, scope: usize, function: usize, args: &Vec<Value>)
        requires
            function < old(self).program().len(),
            scope < old(self)@.store.scopes.len(),
            old(self)@.store.scopes[scope as int].variables == Seq::<
                (Seq<char>, ValueView),
            >::empty(),
        ensures
            final(self).program() == old(self).program(),
            final(self)@ == (MachineView {
                store: StoreView {
                    scopes: old(self)@.store.scopes.update(
                        scope as int,
                        ScopeView {
                            variables: bound(
                                old(self).program()[function as int].parameters,
                                values_view(args@),
                                0,
                                Seq::empty(),
                            ),
                            parent: old(self)@.store.scopes[scope as int].parent,
                        },
                    ),
                    ..old(self)@.store
                },
                ..old(self)@
            }),
    {
        let ghost parameters = self.program()[function as int].parameters;
        let ghost first = self@;
        let mut i: usize = 0;
        assert(first.store.scopes =~= first.store.scopes.update(
            scope as int,
            ScopeView {
                variables: Seq::empty(),
                parent: first.store.scopes[scope as int].parent,
            },
        ));
        while i < self.program.functions[function].parameters.len() && i < args.len()
            invariant
                self.program() == old(self).program(),
                first == old(self)@,
                function < self.program().len(),
                parameters == self.program()[function as int].parameters,
                scope < first.store.scopes.len(),
                self@.closures == first.closures,
                self@.stack == first.stack,
                self@.frames == first.frames,
                self@.awaiting == first.awaiting,
                self@.store.arrays == first.store.arrays,
                self@.store.objects == first.store.objects,
                self@.store.scopes.len() == first.store.scopes.len(),
                self@.store.scopes == first.store.scopes.update(
                    scope as int,
                    ScopeView {
                        variables: self@.store.scopes[scope as int].variables,
                        parent: first.store.scopes[scope as int].parent,
                    },
                ),
                bound(parameters, values_view(args@), 0, Seq::empty()) == bound(
                    parameters,
                    values_view(args@),
                    i as int,
                    self@.store.scopes[scope as int].variables,
                ),
            decreases args.len() - i,
        {
            let name = copy_string(&self.program.functions[function].parameters[i]);
            let ghost before = self@.store.scopes;
            assert(values_view(args@)[i as int] == args@[i as int]@);
            self.store.declare(scope, name, args[i].copy());
            assert(self@.store.scopes =~= first.store.scopes.update(
                scope as int,
                ScopeView {
                    variables: self@.store.scopes[scope as int].variables,
                    parent: first.store.scopes[scope as int].parent,
                },
            ));
            i += 1;
        }
    }

    fn call(&mut self, argc: usize) -> (r: Option<Signal>)
        ensures
            final(self).program() == old(self).program(),
            (final(self)@, signal_view(r)) == (if old(self)@.stack.len() < argc + 1 {
                underflow(old(self)@)
            } else {
                called(
                    old(self).program(),
                    MachineView {
                        stack: old(self)@.stack.take(old(self)@.stack.len() - argc - 1),
                        ..old(self)@
                    },
                    old(self)@.stack[old(self)@.stack.len() - argc - 1],
                    old(self)@.stack.subrange(
                        old(self)@.stack.len() - argc,
                        old(self)@.stack.len() as int,
                    ),
                )
            }),
    {
        if argc >= self.stack.len() {
            return self.underflow();
        }
        let ghost all = self@.stack;
        let args = pop_many(&mut self.stack, argc);
        let ghost below = self.stack@;
        let callee = self.stack.pop().unwrap();
        proof {
            assert(values_view(self.stack@) =~= all.take(all.len() - argc - 1));
            assert(values_view(below)[all.len() - argc - 1] == below[all.len() - argc - 1]@);
            assert(all.take(all.len() - argc)[all.len() - argc - 1] == all[all.len() - argc - 1]);
            assert(callee@ == all[all.len() - argc - 1]);
        }
        match callee {
            Value::Function(c) => {
                if c >= self.closures.len() {
                    return self.fail_runtime("Invalid reference");
                }
                let closure = self.closures[c];
                if closure.function >= self.program.functions.len() {
                    return self.fail_runtime("Invalid function");
                }
                if self.program.functions[closure.function].parameters.len() != args.len() {
                    return self.fail(EvalError::wrong_arguments("Argument count mismatch"));
                }
                if self.store.scopes.len() >= usize::MAX {
                    return self.fail_runtime("Out of memory");
                }
                let scope = self.store.new_scope(Some(closure.env));
                let ghost mid = self@;
                self.bind(scope, closure.function, &args);
                let base = self.stack.len();
                self.frames.push(CallFrame { function: closure.function, ip: 0, env: scope, base });
                proof {
                    let want = called(
                        old(self).program(),
                        MachineView { stack: all.take(all.len() - argc - 1), ..old(self)@ },
                        callee@,
                        values_view(args@),
                    ).0;
                    assert(self@.store.scopes =~= want.store.scopes);
                }
                None
            },
            Value::HostFunction(f) => {
                let outcome = call_host(&self.store, f, &args);
                self.settle(outcome)
            },
            Value::Method { receiver, name } => {
                let outcome = self.methods.call_method(&mut self.store, &receiver, &name, &args);
                self.settle(outcome)
            },
            _ => self.fail(EvalError::wrong_type("Called value is not a function")),
        }
    }

    fn do_return(&mut self, frame: CallFrame) -> (r: Option<Signal>)
        ensures
            final(self).program() == old(self).program(),
            (final(self)@, signal_view(r)) == executed(
                old(self).program(),
                old(self)@,
                Instruction::Return,
                frame,
            ),
    {
        match self.pop() {
            None => self.underflow(),
            Some(v) => {
                if frame.base <= self.stack.len() {
                    let ghost before = values_view(self.stack@);
                    self.stack.truncate(frame.base);
                    assert(values_view(self.stack@) =~= before.take(frame.base as int));
                }
                self.frames.pop();
                let last = self.frames.len() == 0;
                let copy = v.copy();
                self.push(v);
                if last {
                    Some(Signal::Done(copy))
                } else {
                    None
                }
            },
        }
    }

    fn get_property(&mut self, name: &String) -> (r: Option<Signal>)
        ensures
            final(self).program() == old(self).program(),
            (final(self)@, signal_view(r)) == (if old(self)@.stack.len() < 1 {
                underflow(old(self)@)
            } else {
                match member_of(old(self)@.store, old(self)@.stack.last(), name@) {
                    Ok(v) => pushed(
                        MachineView { stack: old(self)@.stack.drop_last(), ..old(self)@ },
                        v,
                    ),
                    Err(e) => failed(
                        MachineView { stack: old(self)@.stack.drop_last(), ..old(self)@ },
                        e,
                    ),
                }
            }),
    {
        match self.pop() {
            None => self.underflow(),
            Some(object) => match get_member(&self.store, object, name) {
                Ok(v) => self.push_on(v),
                Err(e) => self.fail(e),
            },
        }
    }

    fn set_property(&mut self, name: &String) -> (r: Option<Signal>)
        ensures
            final(self).program() == old(self).program(),
            (final(self)@, signal_view(r)) == (if old(self)@.stack.len() < 2 {
                underflow(old(self)@)
            } else {
                match member_put(
                    old(self)@.store,
                    old(self)@.stack[old(self)@.stack.len() - 2],
                    name@,
                    old(self)@.stack[old(self)@.stack.len() - 1],
                ) {
                    Ok(store) => pushed(
                        MachineView {
                            stack: old(self)@.stack.take(old(self)@.stack.len() - 2),
                            store,
                            ..old(self)@
                        },
                        ValueView::Null,
                    ),
                    Err(e) => failed(
                        MachineView {
                            stack: old(self)@.stack.take(old(self)@.stack.len() - 2),
                            ..old(self)@
                        },
                        e,
                    ),
                }
            }),
    {
        if self.stack.len() < 2 {
            return self.underflow();
        }
        let mut pair = pop_many(&mut self.stack, 2);
        assert(values_view(pair@)[0] == pair@[0]@ && values_view(pair@)[1] == pair@[1]@);
        let value = pair.pop().unwrap();
        let object = pair.pop().unwrap();
        match set_member(&mut self.store, &object, name, value) {
            Ok(_) => self.push_on(Value::Null),
            Err(e) => self.fail(e),
        }
    }

    fn build_array(&mut self, count: usize) -> (r: Option<Signal>)
        ensures
            final(self).program() == old(self).program(),
            (final(self)@, signal_view(r)) == executed(
                old(self).program(),
                old(self)@,
                Instruction::BuildArray(count),
                CallFrame { function: 0, ip: 0, env: 0, base: 0 },
            ),
    {
        if self.stack.len() < count {
            return self.underflow();
        }
        let items = pop_many(&mut self.stack, count);
        let h = self.store.new_array(items);
        self.push_on(Value::Array(h))
    }

    fn simple(&mut self, instruction: &Instruction) -> (r: Option<Signal>)
        requires
            instruction is Pop || instruction is Dup || instruction is Swap,
        ensures
            final(self).program() == old(self).program(),
            (final(self)@, signal_view(r)) == executed(
                old(self).program(),
                old(self)@,
                *instruction,
                CallFrame { function: 0, ip: 0, env: 0, base: 0 },
            ),
    {
        match instruction {
            Instruction::Pop => match self.pop() {
                None => self.underflow(),
                Some(_) => None,
            },
            Instruction::Dup => {
                if self.stack.len() < 1 {
                    return self.underflow();
                }
                let v = top_of(&self.stack);
                self.push_on(v)
            },
            _ => {
                if self.stack.len() < 2 {
                    return self.underflow();
                }
                let ghost all = self@.stack;
                let mut pair = pop_many(&mut self.stack, 2);
                assert(values_view(pair@)[0] == pair@[0]@ && values_view(pair@)[1] == pair@[1]@);
                let b = pair.pop().unwrap();
                let a = pair.pop().unwrap();
                self.push(b);
                self.push(a);
                None
            },
        }
    }

    /// Executes an instruction. The frame at the top, `frame`, is already
    /// past it.
    pub fn execute_instruction(&mut self, instruction: &Instruction, frame: CallFrame) -> (r:
        Option<Signal>)
        ensures
            final(self).program() == old(self).program(),
            (final(self)@, signal_view(r)) == executed(
                old(self).program(),
                old(self)@,
                *instruction,
                frame,
            ),
    {
        match instruction {
            Instruction::PushConst(i) => self.push_constant(*i, frame),
            Instruction::Pop => self.simple(instruction),
            Instruction::Dup => self.simple(instruction),
            Instruction::Swap => self.simple(instruction),
            Instruction::Add => self.binary(Operator::Add),
            Instruction::Sub => self.binary(Operator::Sub),
            Instruction::Mul => self.binary(Operator::Mul),
            Instruction::Div => self.binary(Operator::Div),
            Instruction::Mod => self.binary(Operator::Mod),
            Instruction::Eq => self.binary(Operator::Eq),
            Instruction::Ne => self.binary(Operator::Ne),
            Instruction::Lt => self.binary(Operator::Lt),
            Instruction::Le => self.binary(Operator::Le),
            Instruction::Gt => self.binary(Operator::Gt),
            Instruction::Ge => self.binary(Operator::Ge),
            Instruction::BitAnd => self.binary(Operator::BitAnd),
            Instruction::BitOr => self.binary(Operator::BitOr),
            Instruction::Negate => self.unary(true),
            Instruction::Not => self.unary(false),
            Instruction::LoadVar(name) => self.load_var(name, frame),
            Instruction::StoreVar(name) => self.store_var(name, frame),
            Instruction::DeclareVar(name) => self.declare_var(name, frame),
            Instruction::LoadLocal(i) => self.load_local(*i, frame),
            Instruction::StoreLocal(i) => self.store_local(*i, frame),
            Instruction::EnterScope => self.enter_scope(frame),
            Instruction::ExitScope => self.exit_scope(frame),
            Instruction::Jmp(to) => self.jump(*to, frame, None),
            Instruction::JumpIfTrue(to) => self.test_jump(*to, frame, true),
            Instruction::JumpIfFalse(to) => self.test_jump(*to, frame, false),
            Instruction::JumpWhen(to) => self.jump(*to, frame, Some(true)),
            Instruction::JumpUnless(to) => self.jump(*to, frame, Some(false)),
            Instruction::Call(argc) => self.call(*argc),
            Instruction::Return => self.do_return(frame),
            Instruction::GetProperty(name) => self.get_property(name),
            Instruction::SetProperty(name) => self.set_property(name),
            Instruction::BuildArray(count) => self.build_array(*count),
            Instruction::Halt => self.finish(),
            Instruction::Unknown => self.fail_runtime("Unsupported operation"),
        }
    }

    /// Makes one step. Gives the signal with which the machine stops, or
    /// nothing where it may go on.
    pub fn step(&mut self) -> (r: Option<Signal>)
        ensures
            final(self).program() == old(self).program(),
            (final(self)@, signal_view(r)) == stepped(old(self).program(), old(self)@),
    {
        if self.awaiting.is_some() {
            return Some(Signal::Failed(EvalError::failed("Waiting for an answer of the host")));
        }
        if self.frames.len() == 0 {
            return self.finish();
        }
        let frame = self.frames[self.frames.len() - 1];
        if frame.function >= self.program.functions.len() {
            return self.fail_runtime("Invalid function");
        }
        if frame.ip >= self.program.functions[frame.function].bytecode.instructions.len() {
            return self.finish();
        }
        let instruction = self.program.functions[frame.function].bytecode.instructions[frame.ip].copy();
        let next = CallFrame { ip: frame.ip + 1, ..frame };
        self.reframe(next);
        self.execute_instruction(&instruction, next)
    }

    /// Hands the machine the answer to its request.
    pub fn resume(&mut self, response: HostResponse) -> (r: Option<Signal>)
        ensures
            final(self).program() == old(self).program(),
            (final(self)@, signal_view(r)) == resumed(old(self)@, response@),
    {
        match self.awaiting {
            None => self.fail_runtime("No request is pending"),
            Some(awaiting) => {
                self.awaiting = None;
                match answer(&mut self.store, awaiting, response) {
                    Ok(v) => self.push_on(v),
                    Err(e) => self.fail(e),
                }
            },
        }
    }

    /// Makes steps until the machine stops, but no more than `fuel`.
    pub fn run(&mut self, fuel: usize) -> (r: Signal)
        ensures
            final(self).program() == old(self).program(),
            (final(self)@, r@) == ran(old(self).program(), old(self)@, fuel as nat),
    {
        let mut left = fuel;
        while left > 0
            invariant
                self.program() == old(self).program(),
                ran(old(self).program(), old(self)@, fuel as nat) == ran(
                    self.program(),
                    self@,
                    left as nat,
                ),
            decreases left,
        {
            match self.step() {
                Some(signal) => {
                    return signal;
                },
                None => {},
            }
            left -= 1;
        }
        Signal::Paused
    }
}

} // verus!
