//! The shape of the trees that the parser gives.
//!
//! A tree that was read without an error is sound: its root is the only
//! program node in it, the body of every function in it is a block, and
//! the left side of every assignment is a name or a member access.

use vstd::prelude::*;
use crate::ast::Node;
use crate::grammar::{
    accept, advance, advance_progress, argument_items, arguments, array_items, beyond, block,
    block_items, expect, expect_progress, expression, for_statement, function_declaration,
    if_statement, in_range, infix, infixes, is_target, kind_at, next, not_before, object_items,
    parameter_names, parameters, parameters_progress, parse_tokens, prefix, prefix_power,
    program_items, remaining, return_statement, spec_precedence, statement, synchronize_bounds,
    variable_declaration, while_statement, ParseState,
};
use crate::tokenizer::{TokenKind, TokenView};

verus! {

/// Whether a node below the root is sound: there is no program node in it,
/// the body of every function in it is a block, and the left side of every
/// assignment in it is a name or a member access.
pub open spec fn sound(node: Node) -> bool
    decreases node,
{
    match node {
        Node::Program(v) => false,
        Node::Block(v) => forall|i: int| 0 <= i < v.len() ==> sound(#[trigger] v[i]),
        Node::ArrayLiteral(v) => forall|i: int| 0 <= i < v.len() ==> sound(#[trigger] v[i]),
        Node::ObjectLiteral(v) => forall|i: int| 0 <= i < v.len() ==> sound((#[trigger] v[i]).1),
        Node::BinaryOp { left, op, right } => sound(*left) && sound(*right) && (op
            == TokenKind::Assign ==> is_target(*left)),
        Node::UnaryOp { op, operand } => sound(*operand),
        Node::VariableDeclaration { name, value } => sound(*value),
        Node::IfStatement { condition, consequence, alternative } => sound(*condition) && sound(
            *consequence,
        ) && (match alternative {
            Some(a) => sound(*a),
            None => true,
        }),
        Node::FunctionCall { callee, arguments } => sound(*callee) && forall|i: int|
            0 <= i < arguments.len() ==> sound(#[trigger] arguments[i]),
        Node::FunctionDeclaration { name, parameters, body } => *body is Block && sound(*body),
        Node::ReturnStatement(e) => sound(*e),
        Node::WhileStatement { condition, body } => sound(*condition) && sound(*body),
        Node::ForStatement { start, condition, iter, body } => sound(*start) && sound(*condition)
            && sound(*iter) && sound(*body),
        Node::MemberAccess { object, member } => sound(*object),
        _ => true,
    }
}

/// Whether a tree is sound: its root is a program node, the only one of
/// the tree, whose statements are sound.
pub open spec fn sound_tree(tree: Node) -> bool {
    match tree {
        Node::Program(v) => all_sound(v),
        _ => false,
    }
}

/// Whether all the nodes are sound.
pub open spec fn all_sound(nodes: Seq<Node>) -> bool {
    forall|i: int| 0 <= i < nodes.len() ==> sound(#[trigger] nodes[i])
}

/// Whether the values of all the entries are sound.
pub open spec fn entries_sound(entries: Seq<(Seq<char>, Node)>) -> bool {
    forall|i: int| 0 <= i < entries.len() ==> sound((#[trigger] entries[i]).1)
}

/// Reading has met no error between the two states.
pub open spec fn clean(before: ParseState, after: ParseState) -> bool {
    after.errors.len() == before.errors.len()
}

/// Reading takes no error back, and what it reads without an error is
/// sound.
pub open spec fn kept(before: ParseState, read: (Node, ParseState)) -> bool {
    &&& read.1.errors.len() >= before.errors.len()
    &&& clean(before, read.1) ==> sound(read.0)
}

/// Reading takes no error back, and the nodes that it reads without an error
/// are sound.
pub open spec fn kept_all(before: ParseState, read: (Seq<Node>, ParseState)) -> bool {
    &&& read.1.errors.len() >= before.errors.len()
    &&& clean(before, read.1) ==> all_sound(read.0)
}

proof fn statement_shape(tokens: Seq<TokenView>, st: ParseState)
    ensures
        kept(st, statement(tokens, st)),
    decreases remaining(tokens, st.pos), 5int,
{
    if 0 <= st.pos < tokens.len() {
        match tokens[st.pos].kind {
            TokenKind::Let => variable_declaration_shape(tokens, next(st)),
            TokenKind::If => if_shape(tokens, next(st)),
            TokenKind::Function => function_shape(tokens, next(st), true),
            TokenKind::Return => return_shape(tokens, next(st)),
            TokenKind::LBrace => block_shape(tokens, st),
            TokenKind::While => while_shape(tokens, next(st)),
            TokenKind::For => for_shape(tokens, next(st)),
            TokenKind::SemiColon => statement_shape(tokens, next(st)),
            _ => expression_shape(tokens, st, 0),
        }
    }
}

proof fn variable_declaration_shape(tokens: Seq<TokenView>, st: ParseState)
    ensures
        kept(st, variable_declaration(tokens, st)),
    decreases remaining(tokens, st.pos), 4int,
{
    let (name, s1) = advance(tokens, st);
    let s2 = expect(tokens, s1, TokenKind::Assign);
    if in_range(tokens, st) {
        advance_progress(tokens, st);
        expect_progress(tokens, s1, TokenKind::Assign);
        expression_shape(tokens, s2, 0);
    }
}

proof fn if_shape(tokens: Seq<TokenView>, st: ParseState)
    ensures
        kept(st, if_statement(tokens, st)),
    decreases remaining(tokens, st.pos), 7int,
{
    expression_shape(tokens, st, 0);
    let (condition, s1) = expression(tokens, st, 0);
    statement_shape(tokens, not_before(s1, st.pos));
    let (consequence, s2) = statement(tokens, not_before(s1, st.pos));
    if kind_at(tokens, s2.pos) == Some(TokenKind::Else) && s2.pos >= st.pos {
        statement_shape(tokens, next(s2));
    }
}

proof fn while_shape(tokens: Seq<TokenView>, st: ParseState)
    ensures
        kept(st, while_statement(tokens, st)),
    decreases remaining(tokens, st.pos), 7int,
{
    expression_shape(tokens, st, 0);
    let (condition, s1) = expression(tokens, st, 0);
    statement_shape(tokens, not_before(s1, st.pos));
}

proof fn for_shape(tokens: Seq<TokenView>, st: ParseState)
    ensures
        kept(st, for_statement(tokens, st)),
    decreases remaining(tokens, st.pos), 7int,
{
    statement_shape(tokens, st);
    let (start, s1) = statement(tokens, st);
    expression_shape(tokens, not_before(s1, st.pos), 0);
    let (condition, s2) = expression(tokens, not_before(s1, st.pos), 0);
    statement_shape(tokens, not_before(s2, st.pos));
    let (iter, s3) = statement(tokens, not_before(s2, st.pos));
    statement_shape(tokens, not_before(s3, st.pos));
}

proof fn return_shape(tokens: Seq<TokenView>, st: ParseState)
    ensures
        kept(st, return_statement(tokens, st)),
    decreases remaining(tokens, st.pos), 4int,
{
    if kind_at(tokens, st.pos) != Some(TokenKind::SemiColon) {
        expression_shape(tokens, st, 0);
    } else {
        assert(sound(Node::NullLiteral));
    }
}

proof fn parameter_names_keep(tokens: Seq<TokenView>, st: ParseState, done: Seq<Seq<char>>)
    ensures
        parameter_names(tokens, st, done).1.errors.len() >= st.errors.len(),
    decreases tokens.len() - st.pos,
{
    if (0 <= st.pos < tokens.len()) && tokens[st.pos].kind != TokenKind::RParen {
        let s1 = next(st);
        if kind_at(tokens, s1.pos) != Some(TokenKind::RParen) {
            synchronize_bounds(tokens, s1.pos);
            parameter_names_keep(
                tokens,
                expect(tokens, s1, TokenKind::Comma),
                done.push(tokens[st.pos].value),
            );
        }
    }
}

proof fn function_shape(tokens: Seq<TokenView>, st: ParseState, named: bool)
    ensures
        kept(st, function_declaration(tokens, st, named)),
    decreases remaining(tokens, st.pos), 4int,
{
    let s1 = if named {
        advance(tokens, st).1
    } else {
        st
    };
    let (names, s2) = parameters(tokens, s1);
    parameter_names_keep(tokens, expect(tokens, s1, TokenKind::LParen), Seq::empty());
    if in_range(tokens, st) {
        advance_progress(tokens, st);
        parameters_progress(tokens, s1);
        block_shape(tokens, s2);
    }
}

proof fn block_shape(tokens: Seq<TokenView>, st: ParseState)
    ensures
        kept(st, block(tokens, st)),
        block(tokens, st).0 is Block,
    decreases remaining(tokens, st.pos), 3int,
{
    let s0 = expect(tokens, st, TokenKind::LBrace);
    if (0 <= st.pos < tokens.len()) && s0.pos < tokens.len() {
        expect_progress(tokens, st, TokenKind::LBrace);
        block_items_shape(tokens, s0, Seq::empty());
    }
}

proof fn block_items_shape(tokens: Seq<TokenView>, st: ParseState, done: Seq<Node>)
    requires
        all_sound(done),
    ensures
        kept_all(st, block_items(tokens, st, done)),
    decreases remaining(tokens, st.pos), 6int,
{
    if (0 <= st.pos < tokens.len()) && tokens[st.pos].kind != TokenKind::RBrace {
        statement_shape(tokens, st);
        let (item, s1) = statement(tokens, st);
        let s2 = beyond(s1, st.pos);
        if s2.pos < tokens.len() {
            if clean(st, s1) {
                assert(all_sound(done.push(item)));
                block_items_shape(tokens, s2, done.push(item));
            } else {
                errors_stay(tokens, s2, done.push(item));
            }
        }
    }
}

/// Reading the rest of a block takes no error back.
proof fn errors_stay(tokens: Seq<TokenView>, st: ParseState, done: Seq<Node>)
    ensures
        block_items(tokens, st, done).1.errors.len() >= st.errors.len(),
    decreases remaining(tokens, st.pos), 6int,
{
    if (0 <= st.pos < tokens.len()) && tokens[st.pos].kind != TokenKind::RBrace {
        statement_shape(tokens, st);
        let (item, s1) = statement(tokens, st);
        let s2 = beyond(s1, st.pos);
        if s2.pos < tokens.len() {
            errors_stay(tokens, s2, done.push(item));
        }
    }
}

proof fn expression_shape(tokens: Seq<TokenView>, st: ParseState, power: u8)
    ensures
        kept(st, expression(tokens, st, power)),
    decreases remaining(tokens, st.pos), 2int,
{
    if 0 <= st.pos < tokens.len() {
        prefix_shape(tokens, st);
        let (left, s1) = prefix(tokens, st);
        infixes_shape(tokens, beyond(s1, st.pos), power, left);
    }
}

proof fn infixes_shape(tokens: Seq<TokenView>, st: ParseState, power: u8, left: Node)
    ensures
        infixes(tokens, st, power, left).1.errors.len() >= st.errors.len(),
        sound(left) && clean(st, infixes(tokens, st, power, left).1) ==> sound(
            infixes(tokens, st, power, left).0,
        ),
    decreases remaining(tokens, st.pos), 1int,
{
    if 0 <= st.pos < tokens.len() && power < spec_precedence(tokens[st.pos].kind) {
        infix_shape(tokens, st, left);
        let (node, s1) = infix(tokens, st, left);
        infixes_shape(tokens, beyond(s1, st.pos), power, node);
    }
}

proof fn infix_shape(tokens: Seq<TokenView>, st: ParseState, left: Node)
    ensures
        infix(tokens, st, left).1.errors.len() >= st.errors.len(),
        sound(left) && clean(st, infix(tokens, st, left).1) ==> sound(infix(tokens, st, left).0),
    decreases remaining(tokens, st.pos), 0int,
{
    if 0 <= st.pos < tokens.len() {
        let op = tokens[st.pos].kind;
        let s0 = next(st);
        match op {
            TokenKind::Assign => expression_shape(tokens, s0, 0),
            TokenKind::LParen => arguments_shape(tokens, s0),
            TokenKind::Dot => {},
            _ => expression_shape(tokens, s0, spec_precedence(op)),
        }
    }
}

proof fn arguments_shape(tokens: Seq<TokenView>, st: ParseState)
    ensures
        kept_all(st, arguments(tokens, st)),
    decreases remaining(tokens, st.pos), 4int,
{
    if (0 <= st.pos < tokens.len()) && tokens[st.pos].kind != TokenKind::RParen {
        argument_items_shape(tokens, st, Seq::empty());
    }
}

proof fn argument_items_shape(tokens: Seq<TokenView>, st: ParseState, done: Seq<Node>)
    ensures
        argument_items(tokens, st, done).1.errors.len() >= st.errors.len(),
        all_sound(done) && clean(st, argument_items(tokens, st, done).1) ==> all_sound(
            argument_items(tokens, st, done).0,
        ),
    decreases remaining(tokens, st.pos), 3int,
{
    expression_shape(tokens, st, 0);
    let (item, s1) = expression(tokens, st, 0);
    let s2 = beyond(s1, st.pos);
    if (0 <= st.pos < tokens.len()) && s2.pos < tokens.len() && tokens[s2.pos].kind
        != TokenKind::RParen {
        expect_progress(tokens, s2, TokenKind::Comma);
        argument_items_shape(tokens, expect(tokens, s2, TokenKind::Comma), done.push(item));
        if all_sound(done) && sound(item) {
            assert(all_sound(done.push(item)));
        }
    } else {
        if all_sound(done) && sound(item) {
            assert(all_sound(done.push(item)));
        }
    }
}

proof fn object_items_shape(tokens: Seq<TokenView>, st: ParseState, done: Seq<(Seq<char>, Node)>)
    ensures
        object_items(tokens, st, done).1.errors.len() >= st.errors.len(),
        entries_sound(done) && clean(st, object_items(tokens, st, done).1) ==> entries_sound(
            object_items(tokens, st, done).0,
        ),
    decreases remaining(tokens, st.pos), 3int,
{
    if (0 <= st.pos < tokens.len()) && tokens[st.pos].kind != TokenKind::RBrace {
        let key = tokens[st.pos].value;
        let s1 = expect(tokens, next(st), TokenKind::Colon);
        expect_progress(tokens, next(st), TokenKind::Colon);
        expression_shape(tokens, s1, 0);
        let (value, s2) = expression(tokens, s1, 0);
        let s3 = accept(tokens, beyond(s2, st.pos), TokenKind::Comma);
        object_items_shape(tokens, s3, done.push((key, value)));
        if entries_sound(done) && sound(value) {
            assert(entries_sound(done.push((key, value))));
        }
    }
}

proof fn array_items_shape(tokens: Seq<TokenView>, st: ParseState, done: Seq<Node>)
    ensures
        array_items(tokens, st, done).1.errors.len() >= st.errors.len(),
        all_sound(done) && clean(st, array_items(tokens, st, done).1) ==> all_sound(
            array_items(tokens, st, done).0,
        ),
    decreases remaining(tokens, st.pos), 3int,
{
    if (0 <= st.pos < tokens.len()) && tokens[st.pos].kind != TokenKind::RBracket {
        expression_shape(tokens, st, 0);
        let (item, s1) = expression(tokens, st, 0);
        let s2 = accept(tokens, beyond(s1, st.pos), TokenKind::Comma);
        array_items_shape(tokens, s2, done.push(item));
        if all_sound(done) && sound(item) {
            assert(all_sound(done.push(item)));
        }
    }
}

proof fn prefix_shape(tokens: Seq<TokenView>, st: ParseState)
    ensures
        kept(st, prefix(tokens, st)),
    decreases remaining(tokens, st.pos), 1int,
{
    if 0 <= st.pos < tokens.len() {
        let token = tokens[st.pos];
        let s0 = next(st);
        match token.kind {
            TokenKind::Function => function_shape(tokens, s0, false),
            TokenKind::Dot => {
                let (member, s1) = advance(tokens, s0);
                advance_progress(tokens, s0);
                prefix_shape(tokens, s1);
            },
            TokenKind::LParen => expression_shape(tokens, s0, 0),
            TokenKind::LBrace => {
                object_items_shape(tokens, s0, Seq::empty());
            },
            TokenKind::LBracket => {
                array_items_shape(tokens, s0, Seq::empty());
            },
            TokenKind::Minus | TokenKind::Bang | TokenKind::Increment | TokenKind::Decrement => {
                expression_shape(tokens, s0, prefix_power());
            },
            _ => {},
        }
    }
}

proof fn program_items_shape(tokens: Seq<TokenView>, st: ParseState, done: Seq<Node>)
    ensures
        program_items(tokens, st, done).1.errors.len() >= st.errors.len(),
        all_sound(done) && clean(st, program_items(tokens, st, done).1) ==> all_sound(
            program_items(tokens, st, done).0,
        ),
    decreases remaining(tokens, st.pos),
{
    if (0 <= st.pos < tokens.len()) && tokens[st.pos].kind != TokenKind::EOF {
        statement_shape(tokens, st);
        let (item, s1) = statement(tokens, st);
        program_items_shape(tokens, beyond(s1, st.pos), done.push(item));
        if all_sound(done) && sound(item) {
            assert(all_sound(done.push(item)));
        }
    }
}

/// The tree of a program that was read without an error is sound: its root
/// is a program node and no other node is one, the body of every function
/// in it is a block, and the left side of every assignment in it is a name
/// or a member access. Where reading met an error, the parser gives the
/// errors, of which there is at least one.
pub proof fn parsed_programs_are_sound(tokens: Seq<TokenView>)
    ensures
        match parse_tokens(tokens) {
            Ok(tree) => sound_tree(tree),
            Err(errors) => errors.len() > 0,
        },
{
    program_items_shape(tokens, ParseState { pos: 0, errors: Seq::empty() }, Seq::empty());
}

} // verus!
