//! What compiled code looks like: how many instructions a node takes, and
//! which instructions stand where.
//!
//! `stands` says of a program, without any word of how it was made, that
//! the code of a node stands at a given address. `emitted_stands` proves
//! that the code which the compiler emits for a node is such code.

use vstd::prelude::*;
use crate::ast::ASTNode;
use crate::ops::operator_of;
use crate::tokenizer::TokenKind;
use crate::virtual_machine::bytecode::{program_fits, Constant, FunctionView, Instruction};
use crate::virtual_machine::codegen::{
    compiled, early_jump, emitted, emitted_each, emitted_entries, emitted_sequence, here,
    instruction_of, patched, placeholder, short_circuit_end, with_const, with_op, Code,
};
use crate::virtual_machine::layout::{
    each_extends, emitted_extends, entries_extend, grows, sequence_extends, short_circuit_layout,
};

verus! {

/// The instruction at an address of a function.
pub open spec fn op_at(program: Seq<FunctionView>, f: int, ip: int) -> Option<Instruction> {
    if 0 <= f < program.len() && 0 <= ip < program[f].instructions.len() {
        Some(program[f].instructions[ip])
    } else {
        None
    }
}

/// Whether the instruction at the address pushes a constant equal to `c`.
pub open spec fn const_at(program: Seq<FunctionView>, f: int, ip: int, c: Constant) -> bool {
    match op_at(program, f, ip) {
        Some(Instruction::PushConst(k)) => k < program[f].constants.len()
            && program[f].constants[k as int] == c,
        _ => false,
    }
}

/// How many instructions the code of a node takes.
pub open spec fn size(node: ASTNode) -> nat
    decreases node, 0nat,
{
    match node {
        ASTNode::Program(v) => size_program(v@),
        ASTNode::Block(v) => 2 + size_program(v@),
        ASTNode::ObjectLiteral(v) => 1 + size_entries(v@, 0),
        ASTNode::ArrayLiteral(v) => size_each(v@, 0) + 1,
        ASTNode::BinaryOp { left, op, right } => match op {
            TokenKind::Assign => match *left {
                ASTNode::Variable(name) => size(*right) + 1,
                ASTNode::MemberAccess { object, member } => size(*object) + size(*right) + 1,
                _ => size(*right) + 1,
            },
            TokenKind::And | TokenKind::Or => size(*left) + size(*right) + 5,
            _ => size(*left) + size(*right) + 1,
        },
        ASTNode::UnaryOp { op, operand } => size(*operand) + 1,
        ASTNode::VariableDeclaration { name, value } => size(*value) + 1,
        ASTNode::IfStatement { condition, consequence, alternative } => size(*condition) + size(
            *consequence,
        ) + 2 + (match alternative {
            Some(a) => size(*a),
            None => 1,
        }),
        ASTNode::FunctionCall { callee, arguments } => size(*callee) + size_each(arguments@, 0)
            + 1,
        ASTNode::FunctionDeclaration { name, parameters, body } => if name is Some {
            2
        } else {
            1
        },
        ASTNode::ReturnStatement(e) => size(*e) + 1,
        ASTNode::WhileStatement { condition, body } => size(*condition) + size(*body) + 4,
        ASTNode::ForStatement { start, condition, iter, body } => size(*start) + size(*condition)
            + size(*body) + size(*iter) + 6,
        ASTNode::MemberAccess { object, member } => size(*object) + 1,
        _ => 1,
    }
}

/// How many instructions the statements of a program or block take.
pub open spec fn size_program(nodes: Seq<ASTNode>) -> nat
    decreases nodes, nodes.len() + 1,
{
    if nodes.len() == 0 {
        1
    } else {
        size_sequence(nodes, 0)
    }
}

/// How many instructions the statements from the index `from` on take, with
/// the instructions that drop all their values but the last.
pub open spec fn size_sequence(nodes: Seq<ASTNode>, from: int) -> nat
    decreases nodes, nodes.len() - from,
{
    if from < 0 || from >= nodes.len() {
        0
    } else if from == nodes.len() - 1 {
        size(nodes[from])
    } else {
        size(nodes[from]) + 1 + size_sequence(nodes, from + 1)
    }
}

/// How many instructions the nodes from the index `from` on take.
pub open spec fn size_each(nodes: Seq<ASTNode>, from: int) -> nat
    decreases nodes, nodes.len() - from,
{
    if from < 0 || from >= nodes.len() {
        0
    } else {
        size(nodes[from]) + size_each(nodes, from + 1)
    }
}

/// How many instructions the entries of an object literal from the index
/// `from` on take.
pub open spec fn size_entries(entries: Seq<(String, ASTNode)>, from: int) -> nat
    decreases entries, entries.len() - from,
{
    if from < 0 || from >= entries.len() {
        0
    } else {
        size(entries[from].1) + 3 + size_entries(entries, from + 1)
    }
}

/// The function that the constant pushed at the address makes.
pub open spec fn function_at(program: Seq<FunctionView>, f: int, ip: int) -> Option<usize> {
    match op_at(program, f, ip) {
        Some(Instruction::PushConst(k)) => if k < program[f].constants.len() {
            match program[f].constants[k as int] {
                Constant::Function(g) => Some(g),
                _ => None,
            }
        } else {
            None
        },
        _ => None,
    }
}

/// Whether the end of a function stands at the address: the value of the
/// body is dropped and null is returned.
pub open spec fn epilogue_at(program: Seq<FunctionView>, f: int, ip: int) -> bool {
    &&& op_at(program, f, ip) == Some(Instruction::Pop)
    &&& const_at(program, f, ip + 1, Constant::Null)
    &&& op_at(program, f, ip + 2) == Some(Instruction::Return)
}

/// Whether the function `g` of the program is the function with the given
/// parameters and body.
pub open spec fn function_stands(
    program: Seq<FunctionView>,
    g: int,
    parameters: Seq<String>,
    body: ASTNode,
) -> bool
    decreases body, 1nat,
{
    &&& 0 <= g < program.len()
    &&& program[g].parameters == parameters
    &&& stands(program, g, 0, body)
    &&& epilogue_at(program, g, size(body) as int)
}

/// Whether the code of `node` stands at the address `ip` of the function
/// `f`.
#[verifier::opaque]
pub open spec fn stands(program: Seq<FunctionView>, f: int, ip: int, node: ASTNode) -> bool
    decreases node, 0nat,
{
    match node {
        ASTNode::NumberLiteral(s) => const_at(program, f, ip, Constant::Number(s)),
        ASTNode::StringLiteral(s) => const_at(program, f, ip, Constant::String(s)),
        ASTNode::BooleanLiteral(b) => const_at(program, f, ip, Constant::Boolean(b)),
        ASTNode::NullLiteral => const_at(program, f, ip, Constant::Null),
        ASTNode::Variable(name) => op_at(program, f, ip) == Some(Instruction::LoadVar(name)),
        ASTNode::Program(v) => stands_program(program, f, ip, v@),
        ASTNode::Block(v) => {
            &&& op_at(program, f, ip) == Some(Instruction::EnterScope)
            &&& stands_program(program, f, ip + 1, v@)
            &&& op_at(program, f, ip + 1 + size_program(v@)) == Some(Instruction::ExitScope)
        },
        ASTNode::ObjectLiteral(v) => {
            &&& const_at(program, f, ip, Constant::Object)
            &&& stands_entries(program, f, ip + 1, v@, 0)
        },
        ASTNode::ArrayLiteral(v) => {
            &&& stands_each(program, f, ip, v@, 0)
            &&& op_at(program, f, ip + size_each(v@, 0)) == Some(
                Instruction::BuildArray(v@.len() as usize),
            )
        },
        ASTNode::BinaryOp { left, op, right } => match op {
            TokenKind::Assign => match *left {
                ASTNode::Variable(name) => {
                    &&& stands(program, f, ip, *right)
                    &&& op_at(program, f, ip + size(*right)) == Some(Instruction::StoreVar(name))
                },
                ASTNode::MemberAccess { object, member } => {
                    &&& stands(program, f, ip, *object)
                    &&& stands(program, f, ip + size(*object), *right)
                    &&& op_at(program, f, ip + size(*object) + size(*right)) == Some(
                        Instruction::SetProperty(member),
                    )
                },
                _ => {
                    &&& stands(program, f, ip, *right)
                    &&& op_at(program, f, ip + size(*right)) == Some(Instruction::Unknown)
                },
            },
            TokenKind::And | TokenKind::Or => {
                let stop_on = op == TokenKind::Or;
                let first = ip + size(*left);
                let second = first + 1 + size(*right);
                &&& stands(program, f, ip, *left)
                &&& stands(program, f, first + 1, *right)
                &&& short_circuit_at(program, f, first, stop_on, second + 3)
                &&& short_circuit_at(program, f, second, stop_on, second + 3)
                &&& const_at(program, f, second + 1, Constant::Boolean(!stop_on))
                &&& jump_at(program, f, second + 2, second + 4)
                &&& const_at(program, f, second + 3, Constant::Boolean(stop_on))
            },
            _ => {
                &&& stands(program, f, ip, *left)
                &&& stands(program, f, ip + size(*left), *right)
                &&& op_at(program, f, ip + size(*left) + size(*right)) == Some(
                    match operator_of(op) {
                        Some(o) => instruction_of(o),
                        None => Instruction::Unknown,
                    },
                )
            },
        },
        ASTNode::UnaryOp { op, operand } => {
            &&& stands(program, f, ip, *operand)
            &&& op_at(program, f, ip + size(*operand)) == Some(
                match op {
                    TokenKind::Minus => Instruction::Negate,
                    TokenKind::Bang => Instruction::Not,
                    _ => Instruction::Unknown,
                },
            )
        },
        ASTNode::VariableDeclaration { name, value } => {
            &&& stands(program, f, ip, *value)
            &&& op_at(program, f, ip + size(*value)) == Some(Instruction::DeclareVar(name))
        },
        ASTNode::IfStatement { condition, consequence, alternative } => {
            let test = ip + size(*condition);
            let leave = test + 1 + size(*consequence);
            &&& stands(program, f, ip, *condition)
            &&& test_at(program, f, test, leave + 1)
            &&& stands(program, f, test + 1, *consequence)
            &&& jump_at(program, f, leave, ip + size(node))
            &&& match alternative {
                Some(a) => stands(program, f, leave + 1, *a),
                None => const_at(program, f, leave + 1, Constant::Null),
            }
        },
        ASTNode::FunctionCall { callee, arguments } => {
            &&& stands(program, f, ip, *callee)
            &&& stands_each(program, f, ip + size(*callee), arguments@, 0)
            &&& op_at(program, f, ip + size(*callee) + size_each(arguments@, 0)) == Some(
                Instruction::Call(arguments@.len() as usize),
            )
        },
        ASTNode::FunctionDeclaration { name, parameters, body } => {
            &&& function_at(program, f, ip) is Some
            &&& function_stands(
                program,
                function_at(program, f, ip)->0 as int,
                parameters@,
                *body,
            )
            &&& match name {
                Some(n) => op_at(program, f, ip + 1) == Some(Instruction::DeclareVar(n)),
                None => true,
            }
        },
        ASTNode::ReturnStatement(e) => {
            &&& stands(program, f, ip, *e)
            &&& op_at(program, f, ip + size(*e)) == Some(Instruction::Return)
        },
        ASTNode::WhileStatement { condition, body } => {
            let test = ip + 1 + size(*condition);
            let back = test + 2 + size(*body);
            &&& const_at(program, f, ip, Constant::Null)
            &&& stands(program, f, ip + 1, *condition)
            &&& jump_if_at(program, f, test, false, back + 1)
            &&& op_at(program, f, test + 1) == Some(Instruction::Pop)
            &&& stands(program, f, test + 2, *body)
            &&& jump_at(program, f, back, ip + 1)
        },
        ASTNode::ForStatement { start, condition, iter, body } => {
            let again = ip + size(*start) + 2;
            let test = again + size(*condition);
            let step = test + 2 + size(*body);
            let back = step + size(*iter) + 1;
            &&& stands(program, f, ip, *start)
            &&& op_at(program, f, ip + size(*start)) == Some(Instruction::Pop)
            &&& const_at(program, f, ip + size(*start) + 1, Constant::Null)
            &&& stands(program, f, again, *condition)
            &&& jump_if_at(program, f, test, false, back + 1)
            &&& op_at(program, f, test + 1) == Some(Instruction::Pop)
            &&& stands(program, f, test + 2, *body)
            &&& stands(program, f, step, *iter)
            &&& op_at(program, f, back - 1) == Some(Instruction::Pop)
            &&& jump_at(program, f, back, again)
        },
        ASTNode::MemberAccess { object, member } => {
            &&& stands(program, f, ip, *object)
            &&& op_at(program, f, ip + size(*object)) == Some(Instruction::GetProperty(member))
        },
    }
}

/// Whether a jump to `to` stands at the address.
pub open spec fn jump_at(program: Seq<FunctionView>, f: int, ip: int, to: int) -> bool {
    0 <= to <= usize::MAX && op_at(program, f, ip) == Some(Instruction::Jmp(to as usize))
}

/// Whether the jump of an `if` stands at the address: it leads to `to` if
/// the boolean on the stack is false.
pub open spec fn test_at(program: Seq<FunctionView>, f: int, ip: int, to: int) -> bool {
    0 <= to <= usize::MAX && op_at(program, f, ip) == Some(Instruction::JumpIfFalse(to as usize))
}

/// Whether a jump to `to` stands at the address that is taken if the value
/// on the stack counts as true (`when` true) or if it does not (`when`
/// false).
pub open spec fn jump_if_at(program: Seq<FunctionView>, f: int, ip: int, when: bool, to: int) -> bool {
    0 <= to <= usize::MAX && op_at(program, f, ip) == Some(
        if when {
            Instruction::JumpWhen(to as usize)
        } else {
            Instruction::JumpUnless(to as usize)
        },
    )
}

/// Whether the early jump of `&&` or `||` stands at the address.
pub open spec fn short_circuit_at(
    program: Seq<FunctionView>,
    f: int,
    ip: int,
    stop_on: bool,
    to: int,
) -> bool {
    jump_if_at(program, f, ip, stop_on, to)
}

/// Whether the code of the statements of a program or a block stands at the
/// address.
pub open spec fn stands_program(program: Seq<FunctionView>, f: int, ip: int, nodes: Seq<ASTNode>) -> bool
    decreases nodes, nodes.len() + 1,
{
    if nodes.len() == 0 {
        const_at(program, f, ip, Constant::Null)
    } else {
        stands_sequence(program, f, ip, nodes, 0)
    }
}

/// Whether the code of the statements from the index `from` on stands at the
/// address.
pub open spec fn stands_sequence(
    program: Seq<FunctionView>,
    f: int,
    ip: int,
    nodes: Seq<ASTNode>,
    from: int,
) -> bool
    decreases nodes, nodes.len() - from,
{
    if from < 0 || from >= nodes.len() {
        true
    } else if from == nodes.len() - 1 {
        stands(program, f, ip, nodes[from])
    } else {
        &&& stands(program, f, ip, nodes[from])
        &&& op_at(program, f, ip + size(nodes[from])) == Some(Instruction::Pop)
        &&& stands_sequence(program, f, ip + size(nodes[from]) + 1, nodes, from + 1)
    }
}

/// Whether the code of the nodes from the index `from` on stands at the
/// address.
pub open spec fn stands_each(
    program: Seq<FunctionView>,
    f: int,
    ip: int,
    nodes: Seq<ASTNode>,
    from: int,
) -> bool
    decreases nodes, nodes.len() - from,
{
    if from < 0 || from >= nodes.len() {
        true
    } else {
        &&& stands(program, f, ip, nodes[from])
        &&& stands_each(program, f, ip + size(nodes[from]), nodes, from + 1)
    }
}

/// Whether the code of the entries of an object literal from the index
/// `from` on stands at the address.
pub open spec fn stands_entries(
    program: Seq<FunctionView>,
    f: int,
    ip: int,
    entries: Seq<(String, ASTNode)>,
    from: int,
) -> bool
    decreases entries, entries.len() - from,
{
    if from < 0 || from >= entries.len() {
        true
    } else {
        &&& op_at(program, f, ip) == Some(Instruction::Dup)
        &&& stands(program, f, ip + 1, entries[from].1)
        &&& op_at(program, f, ip + 1 + size(entries[from].1)) == Some(
            Instruction::SetProperty(entries[from].0),
        )
        &&& op_at(program, f, ip + 2 + size(entries[from].1)) == Some(Instruction::Pop)
        &&& stands_entries(program, f, ip + 3 + size(entries[from].1), entries, from + 1)
    }
}

/// Whether the function `f` of the program holds the code `e` from the
/// address `from` on, its constants, and the functions that it refers to.
pub open spec fn holds(program: Seq<FunctionView>, f: int, from: int, e: Code) -> bool {
    &&& 0 <= f < program.len()
    &&& 0 <= from <= e.instructions.len() <= program[f].instructions.len()
    &&& e.constants.len() <= program[f].constants.len()
    &&& e.functions.len() <= program.len()
    &&& forall|i: int|
        from <= i < e.instructions.len() ==> #[trigger] program[f].instructions[i]
            == e.instructions[i]
    &&& forall|k: int|
        0 <= k < e.constants.len() ==> #[trigger] program[f].constants[k] == e.constants[k]
    &&& forall|g: int| 1 <= g < e.functions.len() ==> #[trigger] program[g] == e.functions[g]
}

/// Whether `later` was made from `earlier` by emitting more and by
/// rewriting only what stands before `from` or after the end of `earlier`.
pub open spec fn kept_from(earlier: Code, later: Code, from: int) -> bool {
    &&& grows(earlier, later)
    &&& forall|i: int|
        from <= i < earlier.instructions.len() ==> #[trigger] later.instructions[i]
            == earlier.instructions[i]
}

/// A program that holds code holds the code that it was made from, at the
/// addresses that were not rewritten since.
proof fn holds_part(
    program: Seq<FunctionView>,
    f: int,
    from: int,
    e: Code,
    start: int,
    earlier: Code,
)
    requires
        holds(program, f, from, e),
        from <= start <= earlier.instructions.len(),
        kept_from(earlier, e, start),
    ensures
        holds(program, f, start, earlier),
{
    assert forall|i: int|
        start <= i < earlier.instructions.len() implies #[trigger] program[f].instructions[i]
        == earlier.instructions[i] by {
        assert(program[f].instructions[i] == e.instructions[i]);
    }
    assert forall|k: int| 0 <= k < earlier.constants.len() implies #[trigger] program[f].constants[k]
        == earlier.constants[k] by {
        assert(program[f].constants[k] == e.constants[k]);
        assert(e.constants[k] == earlier.constants[k]);
    }
    assert forall|g: int| 1 <= g < earlier.functions.len() implies #[trigger] program[g]
        == earlier.functions[g] by {
        assert(program[g] == e.functions[g]);
        assert(e.functions[g] == earlier.functions[g]);
    }
}

/// The code that the compiler emits for a node is the code of the node: in
/// a program that holds what was emitted, the code of the node stands where
/// it was emitted, and takes as many instructions as the node has size.
pub proof fn emitted_stands(node: ASTNode, c: Code, program: Seq<FunctionView>, f: int)
    requires
        program_fits(program),
        holds(program, f, c.instructions.len() as int, emitted(node, c)),
        c.functions.len() >= 1,
    ensures
        emitted(node, c).instructions.len() == c.instructions.len() + size(node),
        stands(program, f, c.instructions.len() as int, node),
    decreases node, 1nat,
{
    reveal_with_fuel(stands, 1);
    let e = emitted(node, c);
    let ip = c.instructions.len() as int;
    match node {
        ASTNode::Program(v) => {
            if v@.len() > 0 {
                sequence_stands(v@, 0, c, program, f);
                assert(stands_program(program, f, ip, v@));
            } else {
                assert(e == emitted_sequence(v@, 0, c));
                assert(emitted_sequence(v@, 0, c) == with_const(c, Constant::Null));
                assert(program[f].instructions[ip] == e.instructions[ip]);
                assert(const_at(program, f, ip, Constant::Null));
            }
            assert(e.instructions.len() == ip + size_program(v@));
            assert(stands_program(program, f, ip, v@));
        },
        ASTNode::NumberLiteral(x) => {
            assert(program[f].instructions[ip] == e.instructions[ip]);
            assert(program[f].constants[c.constants.len() as int] == e.constants[c.constants.len() as int]);
            assert(const_at(program, f, ip, Constant::Number(x)));
        },
        ASTNode::StringLiteral(x) => {
            assert(program[f].instructions[ip] == e.instructions[ip]);
            assert(program[f].constants[c.constants.len() as int] == e.constants[c.constants.len() as int]);
            assert(const_at(program, f, ip, Constant::String(x)));
        },
        ASTNode::BooleanLiteral(x) => {
            assert(program[f].instructions[ip] == e.instructions[ip]);
            assert(program[f].constants[c.constants.len() as int] == e.constants[c.constants.len() as int]);
            assert(const_at(program, f, ip, Constant::Boolean(x)));
        },
        ASTNode::NullLiteral => {
            assert(program[f].instructions[ip] == e.instructions[ip]);
            assert(program[f].constants[c.constants.len() as int] == e.constants[c.constants.len() as int]);
            assert(const_at(program, f, ip, Constant::Null));
        },
        ASTNode::Variable(x) => {
            assert(program[f].instructions[ip] == e.instructions[ip]);
            assert(op_at(program, f, ip) == Some(Instruction::LoadVar(x)));
        },
        ASTNode::Block(_) => block_stands(node, c, program, f),
        ASTNode::ObjectLiteral(_) => object_stands(node, c, program, f),
        ASTNode::ArrayLiteral(_) => array_stands(node, c, program, f),
        ASTNode::BinaryOp { left, op, right } => match op {
            TokenKind::Assign => assignment_stands(node, c, program, f),
            TokenKind::And | TokenKind::Or => short_circuit_stands(node, c, program, f),
            _ => binary_stands(node, c, program, f),
        },
        ASTNode::UnaryOp { .. } => unary_stands(node, c, program, f),
        ASTNode::VariableDeclaration { .. } => declaration_stands(node, c, program, f),
        ASTNode::IfStatement { .. } => if_stands(node, c, program, f),
        ASTNode::FunctionCall { .. } => call_stands(node, c, program, f),
        ASTNode::FunctionDeclaration { .. } => function_declaration_stands(node, c, program, f),
        ASTNode::ReturnStatement(_) => return_stands(node, c, program, f),
        ASTNode::WhileStatement { .. } => while_stands(node, c, program, f),
        ASTNode::ForStatement { .. } => for_stands(node, c, program, f),
        ASTNode::MemberAccess { .. } => member_stands(node, c, program, f),
        _ => {},
    }
}

proof fn unary_stands(node: ASTNode, c: Code, program: Seq<FunctionView>, f: int)
    requires
        node is UnaryOp,
        program_fits(program),
        holds(program, f, c.instructions.len() as int, emitted(node, c)),
        c.functions.len() >= 1,
    ensures
        emitted(node, c).instructions.len() == c.instructions.len() + size(node),
        stands(program, f, c.instructions.len() as int, node),
    decreases node, 0nat,
{
    reveal_with_fuel(stands, 1);
    let e = emitted(node, c);
    let ip = c.instructions.len() as int;
    match node {
        ASTNode::UnaryOp { op, operand } => {
            let c1 = emitted(*operand, c);
            emitted_extends(*operand, c);
            holds_part(program, f, ip, e, ip, c1);
            emitted_stands(*operand, c, program, f);
        },
        _ => {},
    }
}

proof fn declaration_stands(node: ASTNode, c: Code, program: Seq<FunctionView>, f: int)
    requires
        node is VariableDeclaration,
        program_fits(program),
        holds(program, f, c.instructions.len() as int, emitted(node, c)),
        c.functions.len() >= 1,
    ensures
        emitted(node, c).instructions.len() == c.instructions.len() + size(node),
        stands(program, f, c.instructions.len() as int, node),
    decreases node, 0nat,
{
    reveal_with_fuel(stands, 1);
    let e = emitted(node, c);
    let ip = c.instructions.len() as int;
    match node {
        ASTNode::VariableDeclaration { name, value } => {
            let c1 = emitted(*value, c);
            emitted_extends(*value, c);
            holds_part(program, f, ip, e, ip, c1);
            emitted_stands(*value, c, program, f);
        },
        _ => {},
    }
}

proof fn return_stands(node: ASTNode, c: Code, program: Seq<FunctionView>, f: int)
    requires
        node is ReturnStatement,
        program_fits(program),
        holds(program, f, c.instructions.len() as int, emitted(node, c)),
        c.functions.len() >= 1,
    ensures
        emitted(node, c).instructions.len() == c.instructions.len() + size(node),
        stands(program, f, c.instructions.len() as int, node),
    decreases node, 0nat,
{
    reveal_with_fuel(stands, 1);
    let e = emitted(node, c);
    let ip = c.instructions.len() as int;
    match node {
        ASTNode::ReturnStatement(r) => {
            let c1 = emitted(*r, c);
            emitted_extends(*r, c);
            holds_part(program, f, ip, e, ip, c1);
            emitted_stands(*r, c, program, f);
        },
        _ => {},
    }
}

proof fn member_stands(node: ASTNode, c: Code, program: Seq<FunctionView>, f: int)
    requires
        node is MemberAccess,
        program_fits(program),
        holds(program, f, c.instructions.len() as int, emitted(node, c)),
        c.functions.len() >= 1,
    ensures
        emitted(node, c).instructions.len() == c.instructions.len() + size(node),
        stands(program, f, c.instructions.len() as int, node),
    decreases node, 0nat,
{
    reveal_with_fuel(stands, 1);
    let e = emitted(node, c);
    let ip = c.instructions.len() as int;
    match node {
        ASTNode::MemberAccess { object, member } => {
            let c1 = emitted(*object, c);
            emitted_extends(*object, c);
            holds_part(program, f, ip, e, ip, c1);
            emitted_stands(*object, c, program, f);
        },
        _ => {},
    }
}

proof fn assignment_stands(node: ASTNode, c: Code, program: Seq<FunctionView>, f: int)
    requires
        node is BinaryOp && node->BinaryOp_op == TokenKind::Assign,
        program_fits(program),
        holds(program, f, c.instructions.len() as int, emitted(node, c)),
        c.functions.len() >= 1,
    ensures
        emitted(node, c).instructions.len() == c.instructions.len() + size(node),
        stands(program, f, c.instructions.len() as int, node),
    decreases node, 0nat,
{
    reveal_with_fuel(stands, 1);
    let e = emitted(node, c);
    let ip = c.instructions.len() as int;
    match node {
        ASTNode::BinaryOp { left, op, right } => match *left {
            ASTNode::MemberAccess { object, member } => {
                let c1 = emitted(*object, c);
                let c2 = emitted(*right, c1);
                emitted_extends(*object, c);
                emitted_extends(*right, c1);
                holds_part(program, f, ip, e, ip, c2);
                holds_part(program, f, ip, c2, ip, c1);
                emitted_stands(*object, c, program, f);
                holds_part(program, f, ip, c2, c1.instructions.len() as int, c2);
                emitted_stands(*right, c1, program, f);
            },
            _ => {
                let c1 = emitted(*right, c);
                emitted_extends(*right, c);
                holds_part(program, f, ip, e, ip, c1);
                emitted_stands(*right, c, program, f);
            },
        },
        _ => {},
    }
}

proof fn short_circuit_stands(node: ASTNode, c: Code, program: Seq<FunctionView>, f: int)
    requires
        node is BinaryOp && (node->BinaryOp_op == TokenKind::And || node->BinaryOp_op == TokenKind::Or),
        program_fits(program),
        holds(program, f, c.instructions.len() as int, emitted(node, c)),
        c.functions.len() >= 1,
    ensures
        emitted(node, c).instructions.len() == c.instructions.len() + size(node),
        stands(program, f, c.instructions.len() as int, node),
    decreases node, 0nat,
{
    reveal_with_fuel(stands, 1);
    let e = emitted(node, c);
    let ip = c.instructions.len() as int;
    match node {
        ASTNode::BinaryOp { left, op, right } => {
            let stop_on = op == TokenKind::Or;
            let c1 = emitted(*left, c);
            let c1j = with_op(c1, early_jump(stop_on));
            let c2 = emitted(*right, c1j);
            let c2j = with_op(c2, early_jump(stop_on));
            emitted_extends(*left, c);
            emitted_extends(*right, c1j);
            assert(e == short_circuit_end(c2j, stop_on, here(c1) as int, here(c2) as int));
            short_circuit_layout(c2j, stop_on, here(c1) as int, here(c2) as int);
            assert(kept_from(c1, e, ip));
            holds_part(program, f, ip, e, ip, c1);
            emitted_stands(*left, c, program, f);
            assert(kept_from(c2, e, c1j.instructions.len() as int));
            holds_part(program, f, ip, e, c1j.instructions.len() as int, c2);
            emitted_stands(*right, c1j, program, f);
        },
        _ => {},
    }
}

proof fn binary_stands(node: ASTNode, c: Code, program: Seq<FunctionView>, f: int)
    requires
        node is BinaryOp,
        node->BinaryOp_op != TokenKind::Assign,
        node->BinaryOp_op != TokenKind::And,
        node->BinaryOp_op != TokenKind::Or,
        program_fits(program),
        holds(program, f, c.instructions.len() as int, emitted(node, c)),
        c.functions.len() >= 1,
    ensures
        emitted(node, c).instructions.len() == c.instructions.len() + size(node),
        stands(program, f, c.instructions.len() as int, node),
    decreases node, 0nat,
{
    reveal_with_fuel(stands, 1);
    let e = emitted(node, c);
    let ip = c.instructions.len() as int;
    match node {
        ASTNode::BinaryOp { left, op, right } => {
            let c1 = emitted(*left, c);
            let c2 = emitted(*right, c1);
            emitted_extends(*left, c);
            emitted_extends(*right, c1);
            holds_part(program, f, ip, e, ip, c2);
            holds_part(program, f, ip, c2, ip, c1);
            emitted_stands(*left, c, program, f);
            holds_part(program, f, ip, c2, c1.instructions.len() as int, c2);
            emitted_stands(*right, c1, program, f);
        },
        _ => {},
    }
}

proof fn block_stands(node: ASTNode, c: Code, program: Seq<FunctionView>, f: int)
    requires
        node is Block,
        program_fits(program),
        holds(program, f, c.instructions.len() as int, emitted(node, c)),
        c.functions.len() >= 1,
    ensures
        emitted(node, c).instructions.len() == c.instructions.len() + size(node),
        stands(program, f, c.instructions.len() as int, node),
    decreases node, 0nat,
{
    reveal_with_fuel(stands, 1);
    let e = emitted(node, c);
    let ip = c.instructions.len() as int;
    match node {
        ASTNode::Block(v) => {
            let c0 = with_op(c, Instruction::EnterScope);
            let c1 = emitted_sequence(v@, 0, c0);
            sequence_extends(v@, 0, c0);
            assert(e == with_op(c1, Instruction::ExitScope));
            holds_part(program, f, ip, e, ip + 1, c1);
            if v@.len() > 0 {
                sequence_stands(v@, 0, c0, program, f);
            }
            assert(c1.instructions.len() == ip + 1 + size_program(v@));
            assert(stands_program(program, f, ip + 1, v@));
            assert(program[f].instructions[ip] == e.instructions[ip]);
            assert(op_at(program, f, ip) == Some(Instruction::EnterScope));
            assert(program[f].instructions[c1.instructions.len() as int]
                == e.instructions[c1.instructions.len() as int]);
            assert(op_at(program, f, ip + 1 + size_program(v@)) == Some(Instruction::ExitScope));
        },
        _ => {},
    }
}

proof fn object_stands(node: ASTNode, c: Code, program: Seq<FunctionView>, f: int)
    requires
        node is ObjectLiteral,
        program_fits(program),
        holds(program, f, c.instructions.len() as int, emitted(node, c)),
        c.functions.len() >= 1,
    ensures
        emitted(node, c).instructions.len() == c.instructions.len() + size(node),
        stands(program, f, c.instructions.len() as int, node),
    decreases node, 0nat,
{
    reveal_with_fuel(stands, 1);
    let e = emitted(node, c);
    let ip = c.instructions.len() as int;
    match node {
        ASTNode::ObjectLiteral(v) => {
            let c0 = with_const(c, Constant::Object);
            entries_extend(v@, 0, c0);
            holds_part(program, f, ip, e, ip + 1, e);
            entries_stand(v@, 0, c0, program, f);
        },
        _ => {},
    }
}

proof fn array_stands(node: ASTNode, c: Code, program: Seq<FunctionView>, f: int)
    requires
        node is ArrayLiteral,
        program_fits(program),
        holds(program, f, c.instructions.len() as int, emitted(node, c)),
        c.functions.len() >= 1,
    ensures
        emitted(node, c).instructions.len() == c.instructions.len() + size(node),
        stands(program, f, c.instructions.len() as int, node),
    decreases node, 0nat,
{
    reveal_with_fuel(stands, 1);
    let e = emitted(node, c);
    let ip = c.instructions.len() as int;
    match node {
        ASTNode::ArrayLiteral(v) => {
            let c1 = emitted_each(v@, 0, c);
            each_extends(v@, 0, c);
            holds_part(program, f, ip, e, ip, c1);
            each_stands(v@, 0, c, program, f);
        },
        _ => {},
    }
}

proof fn if_stands(node: ASTNode, c: Code, program: Seq<FunctionView>, f: int)
    requires
        node is IfStatement,
        program_fits(program),
        holds(program, f, c.instructions.len() as int, emitted(node, c)),
        c.functions.len() >= 1,
    ensures
        emitted(node, c).instructions.len() == c.instructions.len() + size(node),
        stands(program, f, c.instructions.len() as int, node),
    decreases node, 0nat,
{
    reveal_with_fuel(stands, 1);
    let e = emitted(node, c);
    let ip = c.instructions.len() as int;
    match node {
        ASTNode::IfStatement { condition, consequence, alternative } => {
            let c0 = emitted(*condition, c);
            let c1 = c0;
            let c1j = with_op(c1, Instruction::JumpIfFalse(0));
            let c2 = emitted(*consequence, c1j);
            let c3 = with_op(c2, Instruction::Jmp(0));
            let c4 = patched(c3, here(c1) as int, Instruction::JumpIfFalse(here(c3)));
            let c5 = match alternative {
                Some(a) => emitted(*a, c4),
                None => with_const(c4, Constant::Null),
            };
            emitted_extends(*condition, c);
            emitted_extends(*consequence, c1j);
            match alternative {
                Some(a) => emitted_extends(*a, c4),
                None => {},
            }
            assert(kept_from(c0, e, ip));
            holds_part(program, f, ip, e, ip, c0);
            emitted_stands(*condition, c, program, f);
            assert(kept_from(c2, e, c1j.instructions.len() as int));
            holds_part(program, f, ip, e, c1j.instructions.len() as int, c2);
            emitted_stands(*consequence, c1j, program, f);
            match alternative {
                Some(a) => {
                    assert(kept_from(c5, e, c4.instructions.len() as int));
                    holds_part(program, f, ip, e, c4.instructions.len() as int, c5);
                    emitted_stands(*a, c4, program, f);
                },
                None => {},
            }
        },
        _ => {},
    }
}

proof fn call_stands(node: ASTNode, c: Code, program: Seq<FunctionView>, f: int)
    requires
        node is FunctionCall,
        program_fits(program),
        holds(program, f, c.instructions.len() as int, emitted(node, c)),
        c.functions.len() >= 1,
    ensures
        emitted(node, c).instructions.len() == c.instructions.len() + size(node),
        stands(program, f, c.instructions.len() as int, node),
    decreases node, 0nat,
{
    reveal_with_fuel(stands, 1);
    let e = emitted(node, c);
    let ip = c.instructions.len() as int;
    match node {
        ASTNode::FunctionCall { callee, arguments } => {
            let c1 = emitted(*callee, c);
            let c2 = emitted_each(arguments@, 0, c1);
            emitted_extends(*callee, c);
            each_extends(arguments@, 0, c1);
            holds_part(program, f, ip, e, ip, c2);
            holds_part(program, f, ip, c2, ip, c1);
            emitted_stands(*callee, c, program, f);
            holds_part(program, f, ip, c2, c1.instructions.len() as int, c2);
            each_stands(arguments@, 0, c1, program, f);
        },
        _ => {},
    }
}

proof fn function_declaration_stands(node: ASTNode, c: Code, program: Seq<FunctionView>, f: int)
    requires
        node is FunctionDeclaration,
        program_fits(program),
        holds(program, f, c.instructions.len() as int, emitted(node, c)),
        c.functions.len() >= 1,
    ensures
        emitted(node, c).instructions.len() == c.instructions.len() + size(node),
        stands(program, f, c.instructions.len() as int, node),
    decreases node, 0nat,
{
    reveal_with_fuel(stands, 1);
    let e = emitted(node, c);
    let ip = c.instructions.len() as int;
    match node {
        ASTNode::FunctionDeclaration { name, parameters, body } => {
            let blank = Code {
                instructions: Seq::empty(),
                constants: Seq::empty(),
                functions: c.functions,
            };
            let inner = emitted(*body, blank);
            emitted_extends(*body, blank);
            let g = inner.functions.len() as int;
            let finished = with_op(
                with_const(with_op(inner, Instruction::Pop), Constant::Null),
                Instruction::Return,
            );
            assert(program[g] == e.functions[g]);
            assert(program[g].instructions == finished.instructions);
            assert(program[g].constants == finished.constants);
            assert(holds(program, g, 0, inner)) by {
                assert forall|h: int| 1 <= h < inner.functions.len() implies #[trigger] program[h]
                    == inner.functions[h] by {
                    assert(program[h] == e.functions[h]);
                }
            }
            emitted_stands(*body, blank, program, g);
            assert(inner.instructions.len() == size(*body));
            assert(g <= usize::MAX);
            assert(c.constants.len() <= usize::MAX);
            assert(e.instructions[ip] == Instruction::PushConst(c.constants.len() as usize));
            assert(program[f].instructions[ip] == e.instructions[ip]);
            assert(e.constants[c.constants.len() as int] == Constant::Function(g as usize));
            assert(program[f].constants[c.constants.len() as int] == e.constants[c.constants.len() as int]);
            assert(function_at(program, f, ip) == Some(g as usize));
            assert(program[g].parameters == parameters@);
            assert(stands(program, g, 0, *body));
            assert(epilogue_at(program, g, size(*body) as int));
            assert(function_stands(program, g, parameters@, *body));
        },
        _ => {},
    }
}

proof fn while_stands(node: ASTNode, c: Code, program: Seq<FunctionView>, f: int)
    requires
        node is WhileStatement,
        program_fits(program),
        holds(program, f, c.instructions.len() as int, emitted(node, c)),
        c.functions.len() >= 1,
    ensures
        emitted(node, c).instructions.len() == c.instructions.len() + size(node),
        stands(program, f, c.instructions.len() as int, node),
    decreases node, 0nat,
{
    reveal_with_fuel(stands, 1);
    let e = emitted(node, c);
    let ip = c.instructions.len() as int;
    match node {
        ASTNode::WhileStatement { condition, body } => {
            let c0 = with_const(c, Constant::Null);
            let c1 = emitted(*condition, c0);
            let c1j = with_op(with_op(c1, Instruction::JumpUnless(0)), Instruction::Pop);
            let c2 = emitted(*body, c1j);
            emitted_extends(*condition, c0);
            emitted_extends(*body, c1j);
            assert(kept_from(c1, e, ip + 1));
            holds_part(program, f, ip, e, ip + 1, c1);
            emitted_stands(*condition, c0, program, f);
            assert(kept_from(c2, e, c1j.instructions.len() as int));
            holds_part(program, f, ip, e, c1j.instructions.len() as int, c2);
            emitted_stands(*body, c1j, program, f);
        },
        _ => {},
    }
}

#[verifier::rlimit(60)]
proof fn for_stands(node: ASTNode, c: Code, program: Seq<FunctionView>, f: int)
    requires
        node is ForStatement,
        program_fits(program),
        holds(program, f, c.instructions.len() as int, emitted(node, c)),
        c.functions.len() >= 1,
    ensures
        emitted(node, c).instructions.len() == c.instructions.len() + size(node),
        stands(program, f, c.instructions.len() as int, node),
    decreases node, 0nat,
{
    reveal_with_fuel(stands, 1);
    let e = emitted(node, c);
    let ip = c.instructions.len() as int;
    match node {
        ASTNode::ForStatement { start, condition, iter, body } => {
            let cs = emitted(*start, c);
            let c0 = with_const(with_op(cs, Instruction::Pop), Constant::Null);
            let c1 = emitted(*condition, c0);
            let c1j = with_op(with_op(c1, Instruction::JumpUnless(0)), Instruction::Pop);
            let c2 = emitted(*body, c1j);
            let ci = emitted(*iter, c2);
            emitted_extends(*start, c);
            emitted_extends(*condition, c0);
            emitted_extends(*body, c1j);
            emitted_extends(*iter, c2);
            assert(kept_from(cs, e, ip));
            holds_part(program, f, ip, e, ip, cs);
            emitted_stands(*start, c, program, f);
            assert(kept_from(c1, e, c0.instructions.len() as int));
            holds_part(program, f, ip, e, c0.instructions.len() as int, c1);
            emitted_stands(*condition, c0, program, f);
            assert(kept_from(c2, e, c1j.instructions.len() as int));
            holds_part(program, f, ip, e, c1j.instructions.len() as int, c2);
            emitted_stands(*body, c1j, program, f);
            assert(kept_from(ci, e, c2.instructions.len() as int));
            holds_part(program, f, ip, e, c2.instructions.len() as int, ci);
            emitted_stands(*iter, c2, program, f);
        },
        _ => {},
    }
}

proof fn sequence_stands(
    nodes: Seq<ASTNode>,
    from: int,
    c: Code,
    program: Seq<FunctionView>,
    f: int,
)
    requires
        nodes.len() > 0,
        0 <= from < nodes.len(),
        program_fits(program),
        holds(program, f, c.instructions.len() as int, emitted_sequence(nodes, from, c)),
        c.functions.len() >= 1,
    ensures
        emitted_sequence(nodes, from, c).instructions.len() == c.instructions.len()
            + size_sequence(nodes, from),
        stands_sequence(program, f, c.instructions.len() as int, nodes, from),
    decreases nodes, nodes.len() - from,
{
    reveal_with_fuel(stands, 1);
    let e = emitted_sequence(nodes, from, c);
    let ip = c.instructions.len() as int;
    let c1 = emitted(nodes[from], c);
    emitted_extends(nodes[from], c);
    if from == nodes.len() - 1 {
        emitted_stands(nodes[from], c, program, f);
    } else {
        let c2 = with_op(c1, Instruction::Pop);
        sequence_extends(nodes, from + 1, c2);
        holds_part(program, f, ip, e, ip, c2);
        holds_part(program, f, ip, c2, ip, c1);
        emitted_stands(nodes[from], c, program, f);
        holds_part(program, f, ip, e, c2.instructions.len() as int, e);
        sequence_stands(nodes, from + 1, c2, program, f);
    }
}

proof fn each_stands(nodes: Seq<ASTNode>, from: int, c: Code, program: Seq<FunctionView>, f: int)
    requires
        0 <= from <= nodes.len(),
        program_fits(program),
        holds(program, f, c.instructions.len() as int, emitted_each(nodes, from, c)),
        c.functions.len() >= 1,
    ensures
        emitted_each(nodes, from, c).instructions.len() == c.instructions.len() + size_each(
            nodes,
            from,
        ),
        stands_each(program, f, c.instructions.len() as int, nodes, from),
    decreases nodes, nodes.len() - from,
{
    reveal_with_fuel(stands, 1);
    if from < nodes.len() {
        let e = emitted_each(nodes, from, c);
        let ip = c.instructions.len() as int;
        let c1 = emitted(nodes[from], c);
        emitted_extends(nodes[from], c);
        each_extends(nodes, from + 1, c1);
        holds_part(program, f, ip, e, ip, c1);
        emitted_stands(nodes[from], c, program, f);
        holds_part(program, f, ip, e, c1.instructions.len() as int, e);
        each_stands(nodes, from + 1, c1, program, f);
    }
}

proof fn entries_stand(
    entries: Seq<(String, ASTNode)>,
    from: int,
    c: Code,
    program: Seq<FunctionView>,
    f: int,
)
    requires
        0 <= from <= entries.len(),
        program_fits(program),
        holds(program, f, c.instructions.len() as int, emitted_entries(entries, from, c)),
        c.functions.len() >= 1,
    ensures
        emitted_entries(entries, from, c).instructions.len() == c.instructions.len()
            + size_entries(entries, from),
        stands_entries(program, f, c.instructions.len() as int, entries, from),
    decreases entries, entries.len() - from,
{
    reveal_with_fuel(stands, 1);
    if from < entries.len() {
        let e = emitted_entries(entries, from, c);
        let ip = c.instructions.len() as int;
        let c0 = with_op(c, Instruction::Dup);
        let c1 = emitted(entries[from].1, c0);
        let c2 = with_op(with_op(c1, Instruction::SetProperty(entries[from].0)), Instruction::Pop);
        emitted_extends(entries[from].1, c0);
        entries_extend(entries, from + 1, c2);
        holds_part(program, f, ip, e, ip, c2);
        holds_part(program, f, ip, c2, ip + 1, c1);
        emitted_stands(entries[from].1, c0, program, f);
        holds_part(program, f, ip, e, c2.instructions.len() as int, e);
        entries_stand(entries, from + 1, c2, program, f);
    }
}

/// The code of a compiled program is the code of the program: it stands at
/// the start of the first function, and `Halt` stands behind it.
pub proof fn compiled_stands(program: ASTNode)
    requires
        program_fits(compiled(program)),
    ensures
        stands(compiled(program), 0, 0, program),
        op_at(compiled(program), 0, size(program) as int) == Some(Instruction::Halt),
{
    reveal_with_fuel(stands, 1);
    let blank = Code {
        instructions: Seq::empty(),
        constants: Seq::empty(),
        functions: seq![placeholder()],
    };
    emitted_extends(program, blank);
    emitted_stands(program, blank, compiled(program), 0);
}

/// What it is for the code of statements to stand at an address.
pub proof fn sequence_unfolds(
    program: Seq<FunctionView>,
    f: int,
    ip: int,
    nodes: Seq<ASTNode>,
    from: int,
)
    ensures
        stands_sequence(program, f, ip, nodes, from) == (if from < 0 || from >= nodes.len() {
            true
        } else if from == nodes.len() - 1 {
            stands(program, f, ip, nodes[from])
        } else {
            &&& stands(program, f, ip, nodes[from])
            &&& op_at(program, f, ip + size(nodes[from])) == Some(Instruction::Pop)
            &&& stands_sequence(program, f, ip + size(nodes[from]) + 1, nodes, from + 1)
        }),
        stands_program(program, f, ip, nodes) == (if nodes.len() == 0 {
            const_at(program, f, ip, Constant::Null)
        } else {
            stands_sequence(program, f, ip, nodes, 0)
        }),
        size_program(nodes) == (if nodes.len() == 0 {
            1
        } else {
            size_sequence(nodes, 0)
        }),
{
    reveal_with_fuel(stands, 2);
    reveal_with_fuel(stands_sequence, 2);
    reveal_with_fuel(stands_program, 2);
}

/// What it is for the code of a row of nodes to stand at an address.
pub proof fn each_unfolds(program: Seq<FunctionView>, f: int, ip: int, nodes: Seq<ASTNode>, from: int)
    ensures
        stands_each(program, f, ip, nodes, from) == (if from < 0 || from >= nodes.len() {
            true
        } else {
            &&& stands(program, f, ip, nodes[from])
            &&& stands_each(program, f, ip + size(nodes[from]), nodes, from + 1)
        }),
{
    reveal_with_fuel(stands, 2);
    reveal_with_fuel(stands_each, 2);
}

/// What it is for the code of the entries of an object literal to stand at
/// an address.
pub proof fn entries_unfold(
    program: Seq<FunctionView>,
    f: int,
    ip: int,
    entries: Seq<(String, ASTNode)>,
    from: int,
)
    ensures
        stands_entries(program, f, ip, entries, from) == (if from < 0 || from >= entries.len() {
            true
        } else {
            &&& op_at(program, f, ip) == Some(Instruction::Dup)
            &&& stands(program, f, ip + 1, entries[from].1)
            &&& op_at(program, f, ip + 1 + size(entries[from].1)) == Some(
                Instruction::SetProperty(entries[from].0),
            )
            &&& op_at(program, f, ip + 2 + size(entries[from].1)) == Some(Instruction::Pop)
            &&& stands_entries(program, f, ip + 3 + size(entries[from].1), entries, from + 1)
        }),
{
    reveal_with_fuel(stands, 2);
    reveal_with_fuel(stands_entries, 2);
}

} // verus!
