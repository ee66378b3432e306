//! The bytecode: instructions of a stack machine, the constants they refer
//! to, and the functions that hold both.

use vstd::prelude::*;
use crate::text::copy_string;

verus! {

/// An instruction. Addresses are indices into the instructions of the
/// function that holds the instruction.
#[derive(Debug, PartialEq, Eq)]
pub enum Instruction {
    /// Pushes the constant at the index.
    PushConst(usize),
    Pop,
    Dup,
    Swap,
    Add,
    Sub,
    Mul,
    Div,
    Mod,
    Negate,
    Not,
    Eq,
    Ne,
    Lt,
    Le,
    Gt,
    Ge,
    BitAnd,
    BitOr,
    /// Pushes the value of the variable, looked up from the scope at hand
    /// outwards.
    LoadVar(String),
    /// Assigns the value on top of the stack to the variable, in the
    /// innermost scope that declares it. The value stays on the stack: it is
    /// the value of the assignment.
    StoreVar(String),
    /// Pops a value, declares the variable with it in the scope at hand, and
    /// pushes null, the value of a declaration.
    DeclareVar(String),
    /// Pushes the value of the variable at the index in the scope at hand.
    LoadLocal(usize),
    /// Pops a value and gives it to the variable at the index in the scope
    /// at hand.
    StoreLocal(usize),
    /// Enters a new scope inside the scope at hand.
    EnterScope,
    /// Goes back to the scope around the scope at hand.
    ExitScope,
    Jmp(usize),
    /// Pops a boolean and jumps if it is true; any other value is a type
    /// error.
    JumpIfTrue(usize),
    /// Pops a boolean and jumps if it is false; any other value is a type
    /// error. This is the jump of `if`, whose condition must be a boolean.
    JumpIfFalse(usize),
    /// Pops a value of any kind and jumps if it counts as true.
    JumpWhen(usize),
    /// Pops a value of any kind and jumps unless it counts as true. This is
    /// the jump of the loops, which go on while their condition counts as
    /// true.
    JumpUnless(usize),
    /// Calls with the given number of arguments: they lie on the stack above
    /// the value that is called, the first of them lowest.
    Call(usize),
    Return,
    GetProperty(String),
    /// Pops a value and, below it, an object, sets the property of the
    /// object to the value, and pushes null, the value of such an
    /// assignment.
    SetProperty(String),
    /// Pops the given number of values and pushes an array of them, the one
    /// that was pushed first at index 0.
    BuildArray(usize),
    Halt,
    /// An operation that there is none of: the machine fails there.
    Unknown,
}

/// A constant in the pool of a function.
#[derive(Debug, PartialEq, Eq)]
pub enum Constant {
    /// A number, by its numeral.
    Number(String),
    String(String),
    Boolean(bool),
    Null,
    /// A new object without properties.
    Object,
    /// The function at the index in the table of functions, closed over the
    /// scope at hand.
    Function(usize),
}

impl Instruction {
    /// A copy of this instruction.
    pub fn copy(&self) -> (r: Instruction)
        ensures
            r == *self,
    {
        match self {
            Instruction::PushConst(i) => Instruction::PushConst(*i),
            Instruction::Pop => Instruction::Pop,
            Instruction::Dup => Instruction::Dup,
            Instruction::Swap => Instruction::Swap,
            Instruction::Add => Instruction::Add,
            Instruction::Sub => Instruction::Sub,
            Instruction::Mul => Instruction::Mul,
            Instruction::Div => Instruction::Div,
            Instruction::Mod => Instruction::Mod,
            Instruction::Negate => Instruction::Negate,
            Instruction::Not => Instruction::Not,
            Instruction::Eq => Instruction::Eq,
            Instruction::Ne => Instruction::Ne,
            Instruction::Lt => Instruction::Lt,
            Instruction::Le => Instruction::Le,
            Instruction::Gt => Instruction::Gt,
            Instruction::Ge => Instruction::Ge,
            Instruction::BitAnd => Instruction::BitAnd,
            Instruction::BitOr => Instruction::BitOr,
            Instruction::LoadVar(s) => Instruction::LoadVar(copy_string(s)),
            Instruction::StoreVar(s) => Instruction::StoreVar(copy_string(s)),
            Instruction::DeclareVar(s) => Instruction::DeclareVar(copy_string(s)),
            Instruction::LoadLocal(i) => Instruction::LoadLocal(*i),
            Instruction::StoreLocal(i) => Instruction::StoreLocal(*i),
            Instruction::EnterScope => Instruction::EnterScope,
            Instruction::ExitScope => Instruction::ExitScope,
            Instruction::Jmp(a) => Instruction::Jmp(*a),
            Instruction::JumpIfTrue(a) => Instruction::JumpIfTrue(*a),
            Instruction::JumpIfFalse(a) => Instruction::JumpIfFalse(*a),
            Instruction::JumpWhen(a) => Instruction::JumpWhen(*a),
            Instruction::JumpUnless(a) => Instruction::JumpUnless(*a),
            Instruction::Call(n) => Instruction::Call(*n),
            Instruction::Return => Instruction::Return,
            Instruction::GetProperty(s) => Instruction::GetProperty(copy_string(s)),
            Instruction::SetProperty(s) => Instruction::SetProperty(copy_string(s)),
            Instruction::BuildArray(n) => Instruction::BuildArray(*n),
            Instruction::Halt => Instruction::Halt,
            Instruction::Unknown => Instruction::Unknown,
        }
    }
}

/// The code of one function: its instructions and its pool of constants.
#[derive(Debug, PartialEq, Eq)]
pub struct Bytecode {
    pub instructions: Vec<Instruction>,
    pub constants: Vec<Constant>,
}

impl Bytecode {
    /// Empty code.
    pub fn new() -> (b: Bytecode)
        ensures
            b.instructions@ == Seq::<Instruction>::empty(),
            b.constants@ == Seq::<Constant>::empty(),
    {
        Bytecode { instructions: Vec::new(), constants: Vec::new() }
    }

    /// Adds a constant to the pool and gives its index.
    pub fn add_constant(&mut self, value: Constant) -> (index: usize)
        ensures
            index == old(self).constants@.len(),
            final(self).constants@ == old(self).constants@.push(value),
            final(self).instructions@ == old(self).instructions@,
    {
        let index = self.constants.len();
        self.constants.push(value);
        index
    }

    /// Adds a constant to the pool and appends the instruction that pushes
    /// it; gives the index of the constant.
    pub fn push_const(&mut self, value: Constant) -> (index: usize)
        ensures
            index == old(self).constants@.len(),
            final(self).constants@ == old(self).constants@.push(value),
            final(self).instructions@ == old(self).instructions@.push(
                Instruction::PushConst(index),
            ),
    {
        let index = self.add_constant(value);
        self.instructions.push(Instruction::PushConst(index));
        index
    }

    /// Appends an instruction.
    pub fn push_op(&mut self, op: Instruction)
        ensures
            final(self).instructions@ == old(self).instructions@.push(op),
            final(self).constants@ == old(self).constants@,
    {
        self.instructions.push(op);
    }

    /// Puts `op` in the place of the instruction at `at`.
    pub fn patch(&mut self, at: usize, op: Instruction)
        requires
            at < old(self).instructions@.len(),
        ensures
            final(self).instructions@ == old(self).instructions@.update(at as int, op),
            final(self).constants@ == old(self).constants@,
    {
        self.instructions[at] = op;
    }
}

/// A function, as a mathematical value.
pub struct FunctionView {
    pub name: Option<String>,
    pub parameters: Seq<String>,
    pub instructions: Seq<Instruction>,
    pub constants: Seq<Constant>,
}

/// A compiled function: its name if it has one, the names of its
/// parameters, and its code.
#[derive(Debug, PartialEq, Eq)]
pub struct Function {
    pub name: Option<String>,
    pub parameters: Vec<String>,
    pub bytecode: Bytecode,
}

impl View for Function {
    type V = FunctionView;

    open spec fn view(&self) -> FunctionView {
        FunctionView {
            name: self.name,
            parameters: self.parameters@,
            instructions: self.bytecode.instructions@,
            constants: self.bytecode.constants@,
        }
    }
}

/// What the machine knows of a function it is about to call: how many
/// arguments it takes, and where it lies in the table of functions.
#[derive(Debug, Clone, Copy, PartialEq, Eq, Structural)]
pub struct FunctionMeta {
    pub address: usize,
    pub arity: usize,
}

/// A compiled program: its functions. The first of them is the program
/// itself; the others are the functions that the program declares.
#[derive(Debug, PartialEq, Eq)]
pub struct Program {
    pub functions: Vec<Function>,
}

/// The views of a sequence of functions.
pub open spec fn functions_view(functions: Seq<Function>) -> Seq<FunctionView> {
    Seq::new(functions.len(), |i: int| functions[i]@)
}

impl View for Program {
    type V = Seq<FunctionView>;

    open spec fn view(&self) -> Seq<FunctionView> {
        functions_view(self.functions@)
    }
}

/// Whether every count and address of the program can be written down.
pub open spec fn program_fits(program: Seq<FunctionView>) -> bool {
    &&& program.len() <= usize::MAX
    &&& forall|g: int|
        0 <= g < program.len() ==> (#[trigger] program[g]).instructions.len() <= usize::MAX
            && program[g].constants.len() <= usize::MAX
}

pub proof fn functions_view_push(functions: Seq<Function>, f: Function)
    ensures
        functions_view(functions.push(f)) == functions_view(functions).push(f@),
{
    assert(functions_view(functions.push(f)) =~= functions_view(functions).push(f@));
}

impl Program {
    /// Every count and address of a program that is held in memory can be
    /// written down.
    pub proof fn fits(&self)
        ensures
            program_fits(self@),
    {
        assert(self.functions.len() == self.functions@.len());
        assert forall|g: int| 0 <= g < self@.len() implies (#[trigger] self@[g]).instructions.len()
            <= usize::MAX && self@[g].constants.len() <= usize::MAX by {
            let function = self.functions@[g];
            assert(function.bytecode.instructions.len() == function.bytecode.instructions@.len());
            assert(function.bytecode.constants.len() == function.bytecode.constants@.len());
        }
    }

    /// How many arguments the function at `address` takes.
    pub fn meta(&self, address: usize) -> (r: Option<FunctionMeta>)
        ensures
            match r {
                Some(m) => address < self@.len() && m.address == address && m.arity
                    == self@[address as int].parameters.len(),
                None => address >= self@.len(),
            },
    {
        if address < self.functions.len() {
            Some(FunctionMeta { address, arity: self.functions[address].parameters.len() })
        } else {
            None
        }
    }
}

} // verus!
