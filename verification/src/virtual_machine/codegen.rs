//! The compiler: syntax tree to bytecode.
//!
//! `emitted` says which code a node stands for; `compile_ast` produces it.
//! The code of every node leaves one value on the stack, the value of the
//! node. So an `if` without `else` pushes null where the second branch would
//! stand, and a loop, whose value is that of the last round of its body,
//! starts by pushing null and drops the value of the round before at the
//! start of each round.
//!
//! An `if` needs a boolean and tests it with `JumpIfFalse`; the loops, `&&`
//! and `||` go by what counts as true, and test it with `JumpUnless` and
//! `JumpWhen`. Jumps forward are written with a placeholder first and
//! patched when their target is known.

use vstd::prelude::*;
use crate::ast::ASTNode;
use crate::ops::{operator_of, to_operator, Operator};
use crate::text::copy_string;
use crate::tokenizer::TokenKind;
use crate::virtual_machine::bytecode::{
    functions_view, functions_view_push, program_fits, Bytecode, Constant, Function,
    FunctionView, Instruction, Program,
};

verus! {

/// Code under construction, as a mathematical value: the instructions and
/// constants of the function at hand, and the functions that are finished.
pub struct Code {
    pub instructions: Seq<Instruction>,
    pub constants: Seq<Constant>,
    pub functions: Seq<FunctionView>,
}

/// The code with one more instruction.
pub open spec fn with_op(code: Code, op: Instruction) -> Code {
    Code { instructions: code.instructions.push(op), ..code }
}

/// The code with one more constant, and the instruction that pushes it.
pub open spec fn with_const(code: Code, constant: Constant) -> Code {
    Code {
        instructions: code.instructions.push(Instruction::PushConst(code.constants.len() as usize)),
        constants: code.constants.push(constant),
        ..code
    }
}

/// The code with the instruction at `at` replaced.
pub open spec fn patched(code: Code, at: int, op: Instruction) -> Code {
    if 0 <= at < code.instructions.len() {
        Code { instructions: code.instructions.update(at, op), ..code }
    } else {
        code
    }
}

/// The address of the next instruction.
pub open spec fn here(code: Code) -> usize {
    code.instructions.len() as usize
}

/// The instruction that applies an operator.
pub open spec fn instruction_of(op: Operator) -> Instruction {
    match op {
        Operator::Add => Instruction::Add,
        Operator::Sub => Instruction::Sub,
        Operator::Mul => Instruction::Mul,
        Operator::Div => Instruction::Div,
        Operator::Mod => Instruction::Mod,
        Operator::Eq => Instruction::Eq,
        Operator::Ne => Instruction::Ne,
        Operator::Lt => Instruction::Lt,
        Operator::Le => Instruction::Le,
        Operator::Gt => Instruction::Gt,
        Operator::Ge => Instruction::Ge,
        Operator::BitAnd => Instruction::BitAnd,
        Operator::BitOr => Instruction::BitOr,
    }
}

/// The end of `&&` (`stop_on` false) and `||` (`stop_on` true), after the
/// code of both sides: `first` and `second` are the addresses of the jumps
/// that leave when a side decides the result. The result is a boolean.
pub open spec fn short_circuit_end(code: Code, stop_on: bool, first: int, second: int) -> Code {
    let c1 = with_const(code, Constant::Boolean(!stop_on));
    let leave = here(c1);
    let c2 = with_op(c1, Instruction::Jmp(0));
    let decided = here(c2);
    let jump = if stop_on {
        Instruction::JumpWhen(decided)
    } else {
        Instruction::JumpUnless(decided)
    };
    let c3 = with_const(patched(patched(c2, first, jump), second, jump), Constant::Boolean(stop_on));
    patched(c3, leave as int, Instruction::Jmp(here(c3)))
}

/// The jump that leaves `&&` or `||` early, as it is first written.
pub open spec fn early_jump(stop_on: bool) -> Instruction {
    if stop_on {
        Instruction::JumpWhen(0)
    } else {
        Instruction::JumpUnless(0)
    }
}

/// The code with that of `node` appended.
pub open spec fn emitted(node: ASTNode, code: Code) -> Code
    decreases node, 0nat,
{
    match node {
        ASTNode::NumberLiteral(s) => with_const(code, Constant::Number(s)),
        ASTNode::StringLiteral(s) => with_const(code, Constant::String(s)),
        ASTNode::BooleanLiteral(b) => with_const(code, Constant::Boolean(b)),
        ASTNode::NullLiteral => with_const(code, Constant::Null),
        ASTNode::Variable(name) => with_op(code, Instruction::LoadVar(name)),
        ASTNode::Program(v) => emitted_sequence(v@, 0, code),
        ASTNode::Block(v) => with_op(
            emitted_sequence(v@, 0, with_op(code, Instruction::EnterScope)),
            Instruction::ExitScope,
        ),
        ASTNode::ObjectLiteral(v) => emitted_entries(v@, 0, with_const(code, Constant::Object)),
        ASTNode::ArrayLiteral(v) => with_op(
            emitted_each(v@, 0, code),
            Instruction::BuildArray(v@.len() as usize),
        ),
        ASTNode::BinaryOp { left, op, right } => match op {
            TokenKind::Assign => match *left {
                ASTNode::Variable(name) => with_op(
                    emitted(*right, code),
                    Instruction::StoreVar(name),
                ),
                ASTNode::MemberAccess { object, member } => with_op(
                    emitted(*right, emitted(*object, code)),
                    Instruction::SetProperty(member),
                ),
                _ => with_op(emitted(*right, code), Instruction::Unknown),
            },
            TokenKind::And | TokenKind::Or => {
                let stop_on = op == TokenKind::Or;
                let c1 = emitted(*left, code);
                let c2 = emitted(*right, with_op(c1, early_jump(stop_on)));
                short_circuit_end(
                    with_op(c2, early_jump(stop_on)),
                    stop_on,
                    here(c1) as int,
                    here(c2) as int,
                )
            },
            _ => with_op(
                emitted(*right, emitted(*left, code)),
                match operator_of(op) {
                    Some(o) => instruction_of(o),
                    None => Instruction::Unknown,
                },
            ),
        },
        ASTNode::UnaryOp { op, operand } => with_op(
            emitted(*operand, code),
            match op {
                TokenKind::Minus => Instruction::Negate,
                TokenKind::Bang => Instruction::Not,
                _ => Instruction::Unknown,
            },
        ),
        ASTNode::VariableDeclaration { name, value } => with_op(
            emitted(*value, code),
            Instruction::DeclareVar(name),
        ),
        ASTNode::IfStatement { condition, consequence, alternative } => {
            let c1 = emitted(*condition, code);
            let c2 = emitted(*consequence, with_op(c1, Instruction::JumpIfFalse(0)));
            let c3 = with_op(c2, Instruction::Jmp(0));
            let c4 = patched(c3, here(c1) as int, Instruction::JumpIfFalse(here(c3)));
            let c5 = match alternative {
                Some(a) => emitted(*a, c4),
                None => with_const(c4, Constant::Null),
            };
            patched(c5, here(c2) as int, Instruction::Jmp(here(c5)))
        },
        ASTNode::FunctionCall { callee, arguments } => with_op(
            emitted_each(arguments@, 0, emitted(*callee, code)),
            Instruction::Call(arguments@.len() as usize),
        ),
        ASTNode::FunctionDeclaration { name, parameters, body } => {
            let inner = emitted(
                *body,
                Code {
                    instructions: Seq::empty(),
                    constants: Seq::empty(),
                    functions: code.functions,
                },
            );
            let finished = with_op(
                with_const(with_op(inner, Instruction::Pop), Constant::Null),
                Instruction::Return,
            );
            let function = FunctionView {
                name,
                parameters: parameters@,
                instructions: finished.instructions,
                constants: finished.constants,
            };
            let made = with_const(
                Code { functions: inner.functions.push(function), ..code },
                Constant::Function(inner.functions.len() as usize),
            );
            match name {
                Some(n) => with_op(made, Instruction::DeclareVar(n)),
                None => made,
            }
        },
        ASTNode::ReturnStatement(e) => with_op(emitted(*e, code), Instruction::Return),
        ASTNode::WhileStatement { condition, body } => {
            let c0 = with_const(code, Constant::Null);
            let c1 = emitted(*condition, c0);
            let c2 = emitted(
                *body,
                with_op(with_op(c1, Instruction::JumpUnless(0)), Instruction::Pop),
            );
            let c3 = with_op(c2, Instruction::Jmp(here(c0)));
            patched(c3, here(c1) as int, Instruction::JumpUnless(here(c3)))
        },
        ASTNode::ForStatement { start, condition, iter, body } => {
            let c0 = with_const(with_op(emitted(*start, code), Instruction::Pop), Constant::Null);
            let c1 = emitted(*condition, c0);
            let c2 = emitted(
                *body,
                with_op(with_op(c1, Instruction::JumpUnless(0)), Instruction::Pop),
            );
            let c3 = with_op(
                with_op(emitted(*iter, c2), Instruction::Pop),
                Instruction::Jmp(here(c0)),
            );
            patched(c3, here(c1) as int, Instruction::JumpUnless(here(c3)))
        },
        ASTNode::MemberAccess { object, member } => with_op(
            emitted(*object, code),
            Instruction::GetProperty(member),
        ),
    }
}

/// The code with that of the statements from the index `from` on appended:
/// the value of every statement but the last is dropped; no statements at
/// all give null.
pub open spec fn emitted_sequence(nodes: Seq<ASTNode>, from: int, code: Code) -> Code
    decreases nodes, nodes.len() - from,
{
    if nodes.len() == 0 {
        with_const(code, Constant::Null)
    } else if from < 0 || from >= nodes.len() {
        code
    } else if from == nodes.len() - 1 {
        emitted(nodes[from], code)
    } else {
        emitted_sequence(nodes, from + 1, with_op(emitted(nodes[from], code), Instruction::Pop))
    }
}

/// The code with that of the nodes from the index `from` on appended, one
/// after the other: each leaves its value.
pub open spec fn emitted_each(nodes: Seq<ASTNode>, from: int, code: Code) -> Code
    decreases nodes, nodes.len() - from,
{
    if from < 0 || from >= nodes.len() {
        code
    } else {
        emitted_each(nodes, from + 1, emitted(nodes[from], code))
    }
}

/// The code that sets the properties from the index `from` on, one after
/// the other, on the object on top of the stack, which stays there: each
/// is set on a copy of the reference, and the null that setting it gives is
/// dropped.
pub open spec fn emitted_entries(entries: Seq<(String, ASTNode)>, from: int, code: Code) -> Code
    decreases entries, entries.len() - from,
{
    if from < 0 || from >= entries.len() {
        code
    } else {
        emitted_entries(
            entries,
            from + 1,
            with_op(
                with_op(
                    emitted(entries[from].1, with_op(code, Instruction::Dup)),
                    Instruction::SetProperty(entries[from].0),
                ),
                Instruction::Pop,
            ),
        )
    }
}

/// The function that stands in the first place of the table until the
/// program itself is finished.
pub open spec fn placeholder() -> FunctionView {
    FunctionView {
        name: None,
        parameters: Seq::empty(),
        instructions: Seq::empty(),
        constants: Seq::empty(),
    }
}

/// The functions of the compiled program: the first is the program itself,
/// which ends in `Halt`; the others are the functions it declares, each
/// after the functions that are declared inside it.
pub open spec fn compiled(node: ASTNode) -> Seq<FunctionView> {
    let code = emitted(
        node,
        Code {
            instructions: Seq::empty(),
            constants: Seq::empty(),
            functions: seq![placeholder()],
        },
    );
    code.functions.update(
        0,
        FunctionView {
            name: None,
            parameters: Seq::empty(),
            instructions: code.instructions.push(Instruction::Halt),
            constants: code.constants,
        },
    )
}

/// The compiler: the code of the function at hand, and the functions that
/// are finished.
pub struct Compiler {
    pub bytecode: Bytecode,
    pub functions: Vec<Function>,
}

impl View for Compiler {
    type V = Code;

    open spec fn view(&self) -> Code {
        Code {
            instructions: self.bytecode.instructions@,
            constants: self.bytecode.constants@,
            functions: functions_view(self.functions@),
        }
    }
}

fn to_instruction(op: Operator) -> (r: Instruction)
    ensures
        r == instruction_of(op),
{
    match op {
        Operator::Add => Instruction::Add,
        Operator::Sub => Instruction::Sub,
        Operator::Mul => Instruction::Mul,
        Operator::Div => Instruction::Div,
        Operator::Mod => Instruction::Mod,
        Operator::Eq => Instruction::Eq,
        Operator::Ne => Instruction::Ne,
        Operator::Lt => Instruction::Lt,
        Operator::Le => Instruction::Le,
        Operator::Gt => Instruction::Gt,
        Operator::Ge => Instruction::Ge,
        Operator::BitAnd => Instruction::BitAnd,
        Operator::BitOr => Instruction::BitOr,
    }
}

fn copy_names(names: &Vec<String>) -> (r: Vec<String>)
    ensures
        r@ == names@,
{
    let mut r: Vec<String> = Vec::new();
    let mut i: usize = 0;
    while i < names.len()
        invariant
            i <= names.len(),
            r@ == names@.take(i as int),
        decreases names.len() - i,
    {
        r.push(copy_string(&names[i]));
        assert(names@.take(i as int + 1) =~= names@.take(i as int).push(names@[i as int]));
        i += 1;
    }
    assert(names@.take(names.len() as int) =~= names@);
    r
}

fn copy_name(name: &Option<String>) -> (r: Option<String>)
    ensures
        r == *name,
{
    match name {
        Some(n) => Some(copy_string(n)),
        None => None,
    }
}

impl Compiler {
    /// A compiler that has emitted nothing. The first place of its table of
    /// functions is kept for the program itself.
    pub fn new() -> (c: Compiler)
        ensures
            c@ == (Code {
                instructions: Seq::empty(),
                constants: Seq::empty(),
                functions: seq![placeholder()],
            }),
    {
        let mut functions: Vec<Function> = Vec::new();
        functions.push(Function { name: None, parameters: Vec::new(), bytecode: Bytecode::new() });
        let c = Compiler { bytecode: Bytecode::new(), functions };
        assert(c@.functions =~= seq![placeholder()]);
        c
    }

    fn op(&mut self, op: Instruction)
        ensures
            final(self)@ == with_op(old(self)@, op),
    {
        self.bytecode.push_op(op);
    }

    fn constant(&mut self, constant: Constant)
        ensures
            final(self)@ == with_const(old(self)@, constant),
    {
        self.bytecode.push_const(constant);
    }

    fn patch(&mut self, at: usize, op: Instruction)
        ensures
            final(self)@ == patched(old(self)@, at as int, op),
    {
        if at < self.bytecode.instructions.len() {
            self.bytecode.patch(at, op);
        }
    }

    fn here(&self) -> (r: usize)
        ensures
            r == here(self@),
    {
        self.bytecode.instructions.len()
    }

    /// Emits the instruction that enters a scope.
    pub fn push_scope(&mut self)
        ensures
            final(self)@ == with_op(old(self)@, Instruction::EnterScope),
    {
        self.op(Instruction::EnterScope);
    }

    /// Emits the instruction that leaves a scope.
    pub fn pop_scope(&mut self)
        ensures
            final(self)@ == with_op(old(self)@, Instruction::ExitScope),
    {
        self.op(Instruction::ExitScope);
    }

    /// Emits the instruction that declares the variable `name` with the
    /// value on top of the stack, and leaves null in its place.
    pub fn add_global(&mut self, name: String)
        ensures
            final(self)@ == with_op(old(self)@, Instruction::DeclareVar(name)),
    {
        self.op(Instruction::DeclareVar(name));
    }

    fn early(&mut self, stop_on: bool)
        ensures
            final(self)@ == with_op(old(self)@, early_jump(stop_on)),
    {
        if stop_on {
            self.op(Instruction::JumpWhen(0));
        } else {
            self.op(Instruction::JumpUnless(0));
        }
    }

    fn finish_short_circuit(&mut self, stop_on: bool, first: usize, second: usize)
        ensures
            final(self)@ == short_circuit_end(old(self)@, stop_on, first as int, second as int),
    {
        self.constant(Constant::Boolean(!stop_on));
        let leave = self.here();
        self.op(Instruction::Jmp(0));
        let decided = self.here();
        if stop_on {
            self.patch(first, Instruction::JumpWhen(decided));
            self.patch(second, Instruction::JumpWhen(decided));
        } else {
            self.patch(first, Instruction::JumpUnless(decided));
            self.patch(second, Instruction::JumpUnless(decided));
        }
        self.constant(Constant::Boolean(stop_on));
        let end = self.here();
        self.patch(leave, Instruction::Jmp(end));
    }

    fn compile_sequence(&mut self, nodes: &Vec<ASTNode>)
        ensures
            final(self)@ == emitted_sequence(nodes@, 0, old(self)@),
        decreases nodes, 1nat,
    {
        if nodes.len() == 0 {
            self.constant(Constant::Null);
            return ;
        }
        let mut i: usize = 0;
        while i < nodes.len()
            invariant
                i <= nodes.len(),
                nodes.len() > 0,
                emitted_sequence(nodes@, 0, old(self)@) == emitted_sequence(
                    nodes@,
                    i as int,
                    self@,
                ),
            decreases nodes.len() - i,
        {
            proof {
                vstd::std_specs::vec::axiom_vec_index_decreases(*nodes, i as int);
            }
            compile_ast(self, &nodes[i]);
            if i + 1 < nodes.len() {
                self.op(Instruction::Pop);
            }
            i += 1;
        }
    }

    fn compile_each(&mut self, nodes: &Vec<ASTNode>)
        ensures
            final(self)@ == emitted_each(nodes@, 0, old(self)@),
        decreases nodes, 1nat,
    {
        let mut i: usize = 0;
        while i < nodes.len()
            invariant
                i <= nodes.len(),
                emitted_each(nodes@, 0, old(self)@) == emitted_each(nodes@, i as int, self@),
            decreases nodes.len() - i,
        {
            proof {
                vstd::std_specs::vec::axiom_vec_index_decreases(*nodes, i as int);
            }
            compile_ast(self, &nodes[i]);
            i += 1;
        }
    }

    fn compile_entries(&mut self, entries: &Vec<(String, ASTNode)>)
        ensures
            final(self)@ == emitted_entries(entries@, 0, old(self)@),
        decreases entries, 1nat,
    {
        let mut i: usize = 0;
        while i < entries.len()
            invariant
                i <= entries.len(),
                emitted_entries(entries@, 0, old(self)@) == emitted_entries(
                    entries@,
                    i as int,
                    self@,
                ),
            decreases entries.len() - i,
        {
            proof {
                vstd::std_specs::vec::axiom_vec_index_decreases(*entries, i as int);
                assert(decreases_to!(entries@[i as int] => entries@[i as int].1));
            }
            self.op(Instruction::Dup);
            compile_ast(self, &entries[i].1);
            self.op(Instruction::SetProperty(copy_string(&entries[i].0)));
            self.op(Instruction::Pop);
            i += 1;
        }
    }

    /// Compiles a function: its body into code of its own, which ends by
    /// returning null, and in the code at hand the constant that makes the
    /// function, bound to its name if it has one.
    pub fn visit_function(&mut self, name: &Option<String>, parameters: &Vec<String>, body: &ASTNode)
        ensures
            final(self)@ == emitted(
                ASTNode::FunctionDeclaration {
                    name: *name,
                    parameters: *parameters,
                    body: Box::new(*body),
                },
                old(self)@,
            ),
        decreases body, 1nat,
    {
        let mut outer = Bytecode::new();
        core::mem::swap(&mut outer, &mut self.bytecode);
        compile_ast(self, body);
        self.op(Instruction::Pop);
        self.constant(Constant::Null);
        self.op(Instruction::Return);
        core::mem::swap(&mut outer, &mut self.bytecode);
        let function = Function {
            name: copy_name(name),
            parameters: copy_names(parameters),
            bytecode: outer,
        };
        let index = self.functions.len();
        proof {
            functions_view_push(self.functions@, function);
        }
        self.functions.push(function);
        self.constant(Constant::Function(index));
        match name {
            Some(n) => {
                self.op(Instruction::DeclareVar(copy_string(n)));
            },
            None => {},
        }
    }

    /// The program that the compiler has emitted, which ends in `Halt`.
    pub fn finish(self) -> (program: Program)
        requires
            self.functions@.len() > 0,
        ensures
            program@ == self@.functions.update(
                0,
                FunctionView {
                    name: None,
                    parameters: Seq::empty(),
                    instructions: self@.instructions.push(Instruction::Halt),
                    constants: self@.constants,
                },
            ),
    {
        let mut compiler = self;
        assert(functions_view(compiler.functions@).len() == compiler.functions@.len());
        compiler.op(Instruction::Halt);
        assert(functions_view(compiler.functions@).len() == compiler.functions@.len());
        let main = Function { name: None, parameters: Vec::new(), bytecode: compiler.bytecode };
        let mut functions = compiler.functions;
        functions[0] = main;
        let program = Program { functions };
        assert(program@ =~= self@.functions.update(
            0,
            FunctionView {
                name: None,
                parameters: Seq::empty(),
                instructions: self@.instructions.push(Instruction::Halt),
                constants: self@.constants,
            },
        ));
        program
    }
}

/// Appends the code of `node` to what the compiler has emitted.
pub fn compile_ast(compiler: &mut Compiler, node: &ASTNode)
    ensures
        final(compiler)@ == emitted(*node, old(compiler)@),
    decreases node, 0nat,
{
    match node {
        ASTNode::NumberLiteral(s) => compiler.constant(Constant::Number(copy_string(s))),
        ASTNode::StringLiteral(s) => compiler.constant(Constant::String(copy_string(s))),
        ASTNode::BooleanLiteral(b) => compiler.constant(Constant::Boolean(*b)),
        ASTNode::NullLiteral => compiler.constant(Constant::Null),
        ASTNode::Variable(name) => compiler.op(Instruction::LoadVar(copy_string(name))),
        ASTNode::Program(v) => compiler.compile_sequence(v),
        ASTNode::Block(v) => {
            compiler.push_scope();
            compiler.compile_sequence(v);
            compiler.pop_scope();
        },
        ASTNode::ObjectLiteral(v) => {
            compiler.constant(Constant::Object);
            compiler.compile_entries(v);
        },
        ASTNode::ArrayLiteral(v) => {
            compiler.compile_each(v);
            compiler.op(Instruction::BuildArray(v.len()));
        },
        ASTNode::BinaryOp { left, op, right } => match op {
            TokenKind::Assign => match &**left {
                ASTNode::Variable(name) => {
                    compile_ast(compiler, right);
                    compiler.op(Instruction::StoreVar(copy_string(name)));
                },
                ASTNode::MemberAccess { object, member } => {
                    compile_ast(compiler, object);
                    compile_ast(compiler, right);
                    compiler.op(Instruction::SetProperty(copy_string(member)));
                },
                _ => {
                    compile_ast(compiler, right);
                    compiler.op(Instruction::Unknown);
                },
            },
            TokenKind::And | TokenKind::Or => {
                let stop_on = *op == TokenKind::Or;
                compile_ast(compiler, left);
                let first = compiler.here();
                compiler.early(stop_on);
                compile_ast(compiler, right);
                let second = compiler.here();
                compiler.early(stop_on);
                compiler.finish_short_circuit(stop_on, first, second);
            },
            _ => {
                compile_ast(compiler, left);
                compile_ast(compiler, right);
                match to_operator(*op) {
                    Some(o) => compiler.op(to_instruction(o)),
                    None => compiler.op(Instruction::Unknown),
                }
            },
        },
        ASTNode::UnaryOp { op, operand } => {
            compile_ast(compiler, operand);
            match op {
                TokenKind::Minus => compiler.op(Instruction::Negate),
                TokenKind::Bang => compiler.op(Instruction::Not),
                _ => compiler.op(Instruction::Unknown),
            }
        },
        ASTNode::VariableDeclaration { name, value } => {
            compile_ast(compiler, value);
            compiler.add_global(copy_string(name));
        },
        ASTNode::IfStatement { condition, consequence, alternative } => {
            compile_ast(compiler, condition);
            let to_else = compiler.here();
            compiler.op(Instruction::JumpIfFalse(0));
            compile_ast(compiler, consequence);
            let to_end = compiler.here();
            compiler.op(Instruction::Jmp(0));
            let start_of_else = compiler.here();
            compiler.patch(to_else, Instruction::JumpIfFalse(start_of_else));
            match alternative {
                Some(a) => compile_ast(compiler, a),
                None => compiler.constant(Constant::Null),
            }
            let end = compiler.here();
            compiler.patch(to_end, Instruction::Jmp(end));
        },
        ASTNode::FunctionCall { callee, arguments } => {
            compile_ast(compiler, callee);
            compiler.compile_each(arguments);
            compiler.op(Instruction::Call(arguments.len()));
        },
        ASTNode::FunctionDeclaration { name, parameters, body } => {
            compiler.visit_function(name, parameters, body);
        },
        ASTNode::ReturnStatement(e) => {
            compile_ast(compiler, e);
            compiler.op(Instruction::Return);
        },
        ASTNode::WhileStatement { condition, body } => {
            compiler.constant(Constant::Null);
            let start = compiler.here();
            compile_ast(compiler, condition);
            let to_end = compiler.here();
            compiler.op(Instruction::JumpUnless(0));
            compiler.op(Instruction::Pop);
            compile_ast(compiler, body);
            compiler.op(Instruction::Jmp(start));
            let end = compiler.here();
            compiler.patch(to_end, Instruction::JumpUnless(end));
        },
        ASTNode::ForStatement { start, condition, iter, body } => {
            compile_ast(compiler, start);
            compiler.op(Instruction::Pop);
            compiler.constant(Constant::Null);
            let again = compiler.here();
            compile_ast(compiler, condition);
            let to_end = compiler.here();
            compiler.op(Instruction::JumpUnless(0));
            compiler.op(Instruction::Pop);
            compile_ast(compiler, body);
            compile_ast(compiler, iter);
            compiler.op(Instruction::Pop);
            compiler.op(Instruction::Jmp(again));
            let end = compiler.here();
            compiler.patch(to_end, Instruction::JumpUnless(end));
        },
        ASTNode::MemberAccess { object, member } => {
            compile_ast(compiler, object);
            compiler.op(Instruction::GetProperty(copy_string(member)));
        },
    }
}

/// Compiles a program.
pub fn generate_bytecode(ast: &ASTNode) -> (program: Program)
    ensures
        program@ == compiled(*ast),
        program_fits(program@),
{
    let mut compiler = Compiler::new();
    let ghost start = compiler@;
    compile_ast(&mut compiler, ast);
    assert(compiler.functions@.len() > 0) by {
        functions_grow(*ast, start);
        assert(functions_view(compiler.functions@).len() == compiler.functions@.len());
    }
    let program = compiler.finish();
    proof {
        program.fits();
    }
    program
}

/// Compiling adds functions to the table and takes none away.
pub proof fn functions_grow(node: ASTNode, code: Code)
    ensures
        emitted(node, code).functions.len() >= code.functions.len(),
    decreases node, 0nat,
{
    match node {
        ASTNode::Program(v) => functions_grow_sequence(v@, 0, code),
        ASTNode::Block(v) => functions_grow_sequence(
            v@,
            0,
            with_op(code, Instruction::EnterScope),
        ),
        ASTNode::ObjectLiteral(v) => functions_grow_entries(
            v@,
            0,
            with_const(code, Constant::Object),
        ),
        ASTNode::ArrayLiteral(v) => functions_grow_each(v@, 0, code),
        ASTNode::BinaryOp { left, op, right } => match op {
            TokenKind::Assign => match *left {
                ASTNode::Variable(name) => functions_grow(*right, code),
                ASTNode::MemberAccess { object, member } => {
                    functions_grow(*object, code);
                    functions_grow(*right, emitted(*object, code));
                },
                _ => functions_grow(*right, code),
            },
            TokenKind::And | TokenKind::Or => {
                let stop_on = op == TokenKind::Or;
                functions_grow(*left, code);
                functions_grow(*right, with_op(emitted(*left, code), early_jump(stop_on)));
            },
            _ => {
                functions_grow(*left, code);
                functions_grow(*right, emitted(*left, code));
            },
        },
        ASTNode::UnaryOp { op, operand } => functions_grow(*operand, code),
        ASTNode::VariableDeclaration { name, value } => functions_grow(*value, code),
        ASTNode::IfStatement { condition, consequence, alternative } => {
            functions_grow(*condition, code);
            let c1 = emitted(*condition, code);
            functions_grow(*consequence, with_op(c1, Instruction::JumpIfFalse(0)));
            let c2 = emitted(*consequence, with_op(c1, Instruction::JumpIfFalse(0)));
            let c3 = with_op(c2, Instruction::Jmp(0));
            let c4 = patched(c3, here(c1) as int, Instruction::JumpIfFalse(here(c3)));
            match alternative {
                Some(a) => functions_grow(*a, c4),
                None => {},
            }
        },
        ASTNode::FunctionCall { callee, arguments } => {
            functions_grow(*callee, code);
            functions_grow_each(arguments@, 0, emitted(*callee, code));
        },
        ASTNode::FunctionDeclaration { name, parameters, body } => {
            functions_grow(
                *body,
                Code {
                    instructions: Seq::empty(),
                    constants: Seq::empty(),
                    functions: code.functions,
                },
            );
        },
        ASTNode::ReturnStatement(e) => functions_grow(*e, code),
        ASTNode::WhileStatement { condition, body } => {
            let c0 = with_const(code, Constant::Null);
            functions_grow(*condition, c0);
            let c1 = emitted(*condition, c0);
            functions_grow(
                *body,
                with_op(with_op(c1, Instruction::JumpUnless(0)), Instruction::Pop),
            );
        },
        ASTNode::ForStatement { start, condition, iter, body } => {
            functions_grow(*start, code);
            let c0 = with_const(with_op(emitted(*start, code), Instruction::Pop), Constant::Null);
            functions_grow(*condition, c0);
            let c1 = emitted(*condition, c0);
            let c1b = with_op(with_op(c1, Instruction::JumpUnless(0)), Instruction::Pop);
            functions_grow(*body, c1b);
            functions_grow(*iter, emitted(*body, c1b));
        },
        ASTNode::MemberAccess { object, member } => functions_grow(*object, code),
        _ => {},
    }
}

proof fn functions_grow_sequence(nodes: Seq<ASTNode>, from: int, code: Code)
    ensures
        emitted_sequence(nodes, from, code).functions.len() >= code.functions.len(),
    decreases nodes, nodes.len() - from,
{
    if nodes.len() > 0 && 0 <= from < nodes.len() {
        functions_grow(nodes[from], code);
        if from < nodes.len() - 1 {
            functions_grow_sequence(
                nodes,
                from + 1,
                with_op(emitted(nodes[from], code), Instruction::Pop),
            );
        }
    }
}

proof fn functions_grow_each(nodes: Seq<ASTNode>, from: int, code: Code)
    ensures
        emitted_each(nodes, from, code).functions.len() >= code.functions.len(),
    decreases nodes, nodes.len() - from,
{
    if 0 <= from < nodes.len() {
        functions_grow(nodes[from], code);
        functions_grow_each(nodes, from + 1, emitted(nodes[from], code));
    }
}

proof fn functions_grow_entries(entries: Seq<(String, ASTNode)>, from: int, code: Code)
    ensures
        emitted_entries(entries, from, code).functions.len() >= code.functions.len(),
    decreases entries, entries.len() - from,
{
    if 0 <= from < entries.len() {
        functions_grow(entries[from].1, with_op(code, Instruction::Dup));
        functions_grow_entries(
            entries,
            from + 1,
            with_op(
                with_op(
                    emitted(entries[from].1, with_op(code, Instruction::Dup)),
                    Instruction::SetProperty(entries[from].0),
                ),
                Instruction::Pop,
            ),
        );
    }
}

} // verus!
