//! How compiled code is laid out.
//!
//! Compiling a node appends to the code at hand and leaves what was there
//! as it was: the only instructions that are ever rewritten are the jumps
//! that the node itself has written.

use vstd::prelude::*;
use crate::ast::ASTNode;
use crate::tokenizer::TokenKind;
use crate::virtual_machine::bytecode::{Constant, Instruction};
use crate::virtual_machine::codegen::{
    early_jump, emitted, emitted_each, emitted_entries, emitted_sequence, here, patched,
    short_circuit_end, with_const, with_op, Code,
};

verus! {

/// `after` holds at least as many instructions, constants and functions as
/// `before`, and starts with the constants and the functions of `before`.
pub open spec fn grows(before: Code, after: Code) -> bool {
    &&& before.instructions.len() <= after.instructions.len()
    &&& before.constants.len() <= after.constants.len()
    &&& before.functions.len() <= after.functions.len()
    &&& forall|i: int|
        0 <= i < before.constants.len() ==> #[trigger] after.constants[i] == before.constants[i]
    &&& forall|i: int|
        0 <= i < before.functions.len() ==> #[trigger] after.functions[i] == before.functions[i]
}

/// `after` starts with the instructions, the constants and the functions of
/// `before`.
pub open spec fn extends(before: Code, after: Code) -> bool {
    &&& grows(before, after)
    &&& forall|i: int|
        0 <= i < before.instructions.len() ==> #[trigger] after.instructions[i]
            == before.instructions[i]
}

/// Whether the addresses of the code can be written down.
pub open spec fn fits(code: Code) -> bool {
    code.instructions.len() <= usize::MAX
}

pub proof fn extends_patch(before: Code, after: Code, at: int, op: Instruction)
    requires
        extends(before, after),
        at >= before.instructions.len(),
    ensures
        extends(before, patched(after, at, op)),
{
}

/// Compiling appends: the code that results is at least as long as the code
/// at hand and, if its addresses can be written down, starts with it.
pub proof fn emitted_extends(node: ASTNode, code: Code)
    ensures
        grows(code, emitted(node, code)),
        fits(emitted(node, code)) ==> extends(code, emitted(node, code)),
    decreases node, 0nat,
{
    match node {
        ASTNode::Program(v) => sequence_extends(v@, 0, code),
        ASTNode::Block(v) => sequence_extends(v@, 0, with_op(code, Instruction::EnterScope)),
        ASTNode::ObjectLiteral(v) => entries_extend(v@, 0, with_const(code, Constant::Object)),
        ASTNode::ArrayLiteral(v) => each_extends(v@, 0, code),
        ASTNode::BinaryOp { left, op, right } => match op {
            TokenKind::Assign => match *left {
                ASTNode::Variable(name) => emitted_extends(*right, code),
                ASTNode::MemberAccess { object, member } => {
                    emitted_extends(*object, code);
                    emitted_extends(*right, emitted(*object, code));
                },
                _ => emitted_extends(*right, code),
            },
            TokenKind::And | TokenKind::Or => {
                let stop_on = op == TokenKind::Or;
                let c1 = emitted(*left, code);
                let c1j = with_op(c1, early_jump(stop_on));
                let c2 = emitted(*right, c1j);
                let c2j = with_op(c2, early_jump(stop_on));
                emitted_extends(*left, code);
                emitted_extends(*right, c1j);
                if fits(emitted(node, code)) {
                    short_circuit_layout(c2j, stop_on, here(c1) as int, here(c2) as int);
                }
            },
            _ => {
                emitted_extends(*left, code);
                emitted_extends(*right, emitted(*left, code));
            },
        },
        ASTNode::UnaryOp { op, operand } => emitted_extends(*operand, code),
        ASTNode::VariableDeclaration { name, value } => emitted_extends(*value, code),
        ASTNode::IfStatement { condition, consequence, alternative } => {
            let c1 = emitted(*condition, code);
            let c1j = with_op(c1, Instruction::JumpIfFalse(0));
            let c2 = emitted(*consequence, c1j);
            let c3 = with_op(c2, Instruction::Jmp(0));
            let c4 = patched(c3, here(c1) as int, Instruction::JumpIfFalse(here(c3)));
            emitted_extends(*condition, code);
            emitted_extends(*consequence, c1j);
            match alternative {
                Some(a) => emitted_extends(*a, c4),
                None => {},
            }
            let c5 = match alternative {
                Some(a) => emitted(*a, c4),
                None => with_const(c4, Constant::Null),
            };
            if fits(emitted(node, code)) {
                extends_patch(code, c3, here(c1) as int, Instruction::JumpIfFalse(here(c3)));
                extends_patch(code, c5, here(c2) as int, Instruction::Jmp(here(c5)));
            }
        },
        ASTNode::FunctionCall { callee, arguments } => {
            emitted_extends(*callee, code);
            each_extends(arguments@, 0, emitted(*callee, code));
        },
        ASTNode::ReturnStatement(e) => emitted_extends(*e, code),
        ASTNode::WhileStatement { condition, body } => {
            let c0 = with_const(code, Constant::Null);
            let c1 = emitted(*condition, c0);
            let c1j = with_op(with_op(c1, Instruction::JumpUnless(0)), Instruction::Pop);
            let c2 = emitted(*body, c1j);
            let c3 = with_op(c2, Instruction::Jmp(here(c0)));
            emitted_extends(*condition, c0);
            emitted_extends(*body, c1j);
            if fits(emitted(node, code)) {
                extends_patch(code, c3, here(c1) as int, Instruction::JumpUnless(here(c3)));
            }
        },
        ASTNode::ForStatement { start, condition, iter, body } => {
            let c0 = with_const(with_op(emitted(*start, code), Instruction::Pop), Constant::Null);
            let c1 = emitted(*condition, c0);
            let c1j = with_op(with_op(c1, Instruction::JumpUnless(0)), Instruction::Pop);
            let c2 = emitted(*body, c1j);
            let c3 = with_op(
                with_op(emitted(*iter, c2), Instruction::Pop),
                Instruction::Jmp(here(c0)),
            );
            emitted_extends(*start, code);
            emitted_extends(*condition, c0);
            emitted_extends(*body, c1j);
            emitted_extends(*iter, c2);
            if fits(emitted(node, code)) {
                extends_patch(code, c3, here(c1) as int, Instruction::JumpUnless(here(c3)));
            }
        },
        ASTNode::MemberAccess { object, member } => emitted_extends(*object, code),
        ASTNode::FunctionDeclaration { name, parameters, body } => {
            emitted_extends(
                *body,
                Code {
                    instructions: Seq::empty(),
                    constants: Seq::empty(),
                    functions: code.functions,
                },
            );
        },
        _ => {},
    }
}

/// The end of `&&` and `||` rewrites the two early jumps and appends.
pub proof fn short_circuit_layout(code: Code, stop_on: bool, first: int, second: int)
    requires
        fits(short_circuit_end(code, stop_on, first, second)),
    ensures
        grows(code, short_circuit_end(code, stop_on, first, second)),
        forall|i: int|
            0 <= i < code.instructions.len() && i != first && i != second
                ==> #[trigger] short_circuit_end(code, stop_on, first, second).instructions[i]
                == code.instructions[i],
        short_circuit_end(code, stop_on, first, second).instructions.len()
            == code.instructions.len() + 3,
{
}

pub proof fn sequence_extends(nodes: Seq<ASTNode>, from: int, code: Code)
    ensures
        grows(code, emitted_sequence(nodes, from, code)),
        fits(emitted_sequence(nodes, from, code)) ==> extends(
            code,
            emitted_sequence(nodes, from, code),
        ),
    decreases nodes, nodes.len() - from,
{
    if nodes.len() > 0 && 0 <= from < nodes.len() {
        emitted_extends(nodes[from], code);
        if from < nodes.len() - 1 {
            sequence_extends(
                nodes,
                from + 1,
                with_op(emitted(nodes[from], code), Instruction::Pop),
            );
        }
    }
}

pub proof fn each_extends(nodes: Seq<ASTNode>, from: int, code: Code)
    ensures
        grows(code, emitted_each(nodes, from, code)),
        fits(emitted_each(nodes, from, code)) ==> extends(code, emitted_each(nodes, from, code)),
    decreases nodes, nodes.len() - from,
{
    if 0 <= from < nodes.len() {
        emitted_extends(nodes[from], code);
        each_extends(nodes, from + 1, emitted(nodes[from], code));
    }
}

pub proof fn entries_extend(entries: Seq<(String, ASTNode)>, from: int, code: Code)
    ensures
        grows(code, emitted_entries(entries, from, code)),
        fits(emitted_entries(entries, from, code)) ==> extends(
            code,
            emitted_entries(entries, from, code),
        ),
    decreases entries, entries.len() - from,
{
    if 0 <= from < entries.len() {
        emitted_extends(entries[from].1, with_op(code, Instruction::Dup));
        entries_extend(
            entries,
            from + 1,
            with_op(
                with_op(
                    emitted(entries[from].1, with_op(code, Instruction::Dup)),
                    Instruction::SetProperty(entries[from].0),
                ),
                Instruction::Pop,
            ),
        );
    }
}

/// The code of `left && right` (`stop_on` false) and of `left || right`
/// (`stop_on` true): after the code of the left side stands a jump that is
/// taken when the left side decides the result. It leads beyond all the
/// code of the right side, to the instruction that pushes the result.
pub proof fn short_circuit_jumps_over_the_right_side(
    left: ASTNode,
    right: ASTNode,
    stop_on: bool,
    code: Code,
)
    requires
        fits(
            emitted(
                ASTNode::BinaryOp {
                    left: Box::new(left),
                    op: if stop_on {
                        TokenKind::Or
                    } else {
                        TokenKind::And
                    },
                    right: Box::new(right),
                },
                code,
            ),
        ),
        emitted(
            ASTNode::BinaryOp {
                left: Box::new(left),
                op: if stop_on {
                    TokenKind::Or
                } else {
                    TokenKind::And
                },
                right: Box::new(right),
            },
            code,
        ).constants.len() <= usize::MAX,
    ensures
        ({
            let whole = emitted(
                ASTNode::BinaryOp {
                    left: Box::new(left),
                    op: if stop_on {
                        TokenKind::Or
                    } else {
                        TokenKind::And
                    },
                    right: Box::new(right),
                },
                code,
            );
            let after_left = emitted(left, code);
            let after_right = emitted(right, with_op(after_left, early_jump(stop_on)));
            let target = after_right.instructions.len() + 3;
            &&& after_left.instructions.len() < after_right.instructions.len() < target
                < whole.instructions.len()
            &&& whole.instructions[after_left.instructions.len() as int] == (if stop_on {
                Instruction::JumpWhen(target as usize)
            } else {
                Instruction::JumpUnless(target as usize)
            })
            &&& whole.instructions[target as int] == Instruction::PushConst(
                (whole.constants.len() - 1) as usize,
            )
            &&& whole.constants[whole.constants.len() - 1] == Constant::Boolean(stop_on)
        }),
{
    let after_left = emitted(left, code);
    let jumped = with_op(after_left, early_jump(stop_on));
    let after_right = emitted(right, jumped);
    emitted_extends(left, code);
    emitted_extends(right, jumped);
    let c2j = with_op(after_right, early_jump(stop_on));
    short_circuit_layout(c2j, stop_on, here(after_left) as int, here(after_right) as int);
}

/// The code of an `if`: after the code of the condition stands
/// `JumpIfFalse`, which is taken when the condition is false and fails on
/// anything but a boolean. It leads beyond all the code of the first
/// branch, to the start of the code of the second; the first branch ends in
/// a jump to the end of the whole.
pub proof fn if_jumps_over_the_first_branch(
    condition: ASTNode,
    consequence: ASTNode,
    alternative: ASTNode,
    code: Code,
)
    requires
        fits(
            emitted(
                ASTNode::IfStatement {
                    condition: Box::new(condition),
                    consequence: Box::new(consequence),
                    alternative: Some(Box::new(alternative)),
                },
                code,
            ),
        ),
    ensures
        ({
            let whole = emitted(
                ASTNode::IfStatement {
                    condition: Box::new(condition),
                    consequence: Box::new(consequence),
                    alternative: Some(Box::new(alternative)),
                },
                code,
            );
            let tested = emitted(condition, code);
            let first = emitted(consequence, with_op(tested, Instruction::JumpIfFalse(0)));
            let at = tested.instructions.len() as int;
            &&& at < first.instructions.len() < whole.instructions.len()
            &&& whole.instructions[at] == Instruction::JumpIfFalse(
                (first.instructions.len() + 1) as usize,
            )
            &&& whole.instructions[first.instructions.len() as int] == Instruction::Jmp(
                whole.instructions.len() as usize,
            )
        }),
{
    let tested = emitted(condition, code);
    let c1 = tested;
    let c1j = with_op(c1, Instruction::JumpIfFalse(0));
    let c2 = emitted(consequence, c1j);
    let c3 = with_op(c2, Instruction::Jmp(0));
    let c4 = patched(c3, here(c1) as int, Instruction::JumpIfFalse(here(c3)));
    let c5 = emitted(alternative, c4);
    emitted_extends(condition, code);
    emitted_extends(consequence, c1j);
    emitted_extends(alternative, c4);
    assert(c4.instructions[tested.instructions.len() as int] == Instruction::JumpIfFalse(
        here(c3),
    ));
    assert(c5.instructions[tested.instructions.len() as int]
        == c4.instructions[tested.instructions.len() as int]);
}

} // verus!
