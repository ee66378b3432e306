//! The grammar: which syntax tree, or which errors, a sequence of tokens
//! stands for.
//!
//! Statements are told apart by their first token; expressions are read by
//! precedence climbing. After an error the tokens up to and including the
//! next `;` are passed over and reading goes on.

use vstd::prelude::*;
use crate::ast::Node;
use crate::common::ErrorView;
use crate::tokenizer::{is_digit, number_end, TokenKind, TokenView};

verus! {

/// How far reading has come: the index of the next token, and the errors met
/// so far.
pub struct ParseState {
    pub pos: int,
    pub errors: Seq<ErrorView>,
}

/// The binding power of a token as an infix operator; 0 for a token that is
/// none.
pub open spec fn spec_precedence(kind: TokenKind) -> u8 {
    match kind {
        TokenKind::Assign => 1,
        TokenKind::Increment | TokenKind::Decrement => 2,
        TokenKind::Or => 3,
        TokenKind::And => 4,
        TokenKind::BitAnd => 5,
        TokenKind::BitXor => 6,
        TokenKind::BitOr => 7,
        TokenKind::Equal | TokenKind::NotEqual => 8,
        TokenKind::Less | TokenKind::LessEqual | TokenKind::Greater | TokenKind::GreaterEqual => 9,
        TokenKind::Plus | TokenKind::Minus => 10,
        TokenKind::Star | TokenKind::Percent | TokenKind::Slash => 11,
        TokenKind::LParen => 12,
        TokenKind::Dot => 13,
        _ => 0,
    }
}

/// The binding power of the operand of a prefix operator.
pub open spec fn prefix_power() -> u8 {
    3
}

/// Whether a text is a numeral: digits with at most one `.` among them, the
/// first character a digit.
pub open spec fn is_numeral(text: Seq<char>) -> bool {
    text.len() > 0 && is_digit(text[0]) && number_end(text, 0, false) == text.len()
}

/// The kind of the token at `pos`, if there is one.
pub open spec fn kind_at(tokens: Seq<TokenView>, pos: int) -> Option<TokenKind> {
    if 0 <= pos < tokens.len() {
        Some(tokens[pos].kind)
    } else {
        None
    }
}

/// The index after the next `;` at or after `pos`, or the number of tokens if
/// there is none.
pub open spec fn synchronize(tokens: Seq<TokenView>, pos: int) -> int
    decreases tokens.len() - pos,
{
    if pos < 0 || pos >= tokens.len() {
        pos
    } else if tokens[pos].kind == TokenKind::SemiColon {
        pos + 1
    } else {
        synchronize(tokens, pos + 1)
    }
}

/// The token that an error at `pos` refers to: the one at `pos`, or the last
/// one where `pos` is past the end.
pub open spec fn blamed(tokens: Seq<TokenView>, pos: int) -> TokenView
    recommends
        tokens.len() > 0,
{
    if 0 <= pos < tokens.len() {
        tokens[pos]
    } else {
        tokens[tokens.len() - 1]
    }
}

/// The state after an error with the given message, which refers to the
/// token at `at`: the error is recorded, and the tokens up to and including
/// the next `;` are passed over.
pub open spec fn fail(tokens: Seq<TokenView>, st: ParseState, message: Seq<char>, at: int) -> ParseState {
    ParseState {
        pos: synchronize(tokens, st.pos),
        errors: st.errors.push(
            ErrorView {
                message,
                line: blamed(tokens, at).line,
                column: blamed(tokens, at).column,
            },
        ),
    }
}

/// How many tokens lie at or after `pos`.
pub open spec fn remaining(tokens: Seq<TokenView>, pos: int) -> nat {
    if pos < tokens.len() {
        (tokens.len() - pos) as nat
    } else {
        0
    }
}

/// The state one token further.
pub open spec fn next(st: ParseState) -> ParseState {
    ParseState { pos: st.pos + 1, errors: st.errors }
}

/// Takes the next token. At the end of the tokens this is an error, and the
/// last token is handed out.
pub open spec fn advance(tokens: Seq<TokenView>, st: ParseState) -> (TokenView, ParseState) {
    if 0 <= st.pos < tokens.len() {
        (tokens[st.pos], next(st))
    } else {
        (blamed(tokens, st.pos), fail(tokens, st, "Unexpected end of input"@, st.pos))
    }
}

/// Passes over a token of the given kind; any other token, or the end of the
/// tokens, is an error.
pub open spec fn expect(tokens: Seq<TokenView>, st: ParseState, kind: TokenKind) -> ParseState {
    if kind_at(tokens, st.pos) == Some(kind) {
        next(st)
    } else {
        fail(tokens, st, "Expected token: "@ + kind.spec_name(), st.pos)
    }
}

/// Passes over a token of the given kind if one is next.
pub open spec fn accept(tokens: Seq<TokenView>, st: ParseState, kind: TokenKind) -> ParseState {
    if kind_at(tokens, st.pos) == Some(kind) {
        next(st)
    } else {
        st
    }
}

/// The state `st`, moved to `from` if it lies before it. Reading never moves
/// backwards, so this changes no state that reading gives.
pub open spec fn not_before(st: ParseState, from: int) -> ParseState {
    if st.pos >= from {
        st
    } else {
        ParseState { pos: from, errors: st.errors }
    }
}

/// The state `st`, moved behind `from` if it does not lie there. Reading a
/// construct that starts at a token moves past that token, so this changes
/// no state that reading gives.
pub open spec fn beyond(st: ParseState, from: int) -> ParseState {
    not_before(st, from + 1)
}

pub proof fn synchronize_bounds(tokens: Seq<TokenView>, pos: int)
    requires
        0 <= pos <= tokens.len(),
    ensures
        pos <= synchronize(tokens, pos) <= tokens.len(),
        pos < tokens.len() ==> pos < synchronize(tokens, pos),
    decreases tokens.len() - pos,
{
    if pos < tokens.len() && tokens[pos].kind != TokenKind::SemiColon {
        synchronize_bounds(tokens, pos + 1);
    }
}

/// Where a state lies among the tokens.
pub open spec fn in_range(tokens: Seq<TokenView>, st: ParseState) -> bool {
    0 <= st.pos <= tokens.len()
}

/// `after` lies in range, not before `before`, and behind it unless `before`
/// is the end.
pub open spec fn progress(tokens: Seq<TokenView>, before: ParseState, after: ParseState) -> bool {
    &&& in_range(tokens, after)
    &&& before.pos <= after.pos
    &&& before.pos < tokens.len() ==> before.pos < after.pos
}

pub proof fn fail_progress(tokens: Seq<TokenView>, st: ParseState, message: Seq<char>, at: int)
    requires
        in_range(tokens, st),
    ensures
        progress(tokens, st, fail(tokens, st, message, at)),
{
    synchronize_bounds(tokens, st.pos);
}

pub proof fn advance_progress(tokens: Seq<TokenView>, st: ParseState)
    requires
        in_range(tokens, st),
    ensures
        progress(tokens, st, advance(tokens, st).1),
{
    synchronize_bounds(tokens, st.pos);
}

pub proof fn expect_progress(tokens: Seq<TokenView>, st: ParseState, kind: TokenKind)
    requires
        in_range(tokens, st),
    ensures
        progress(tokens, st, expect(tokens, st, kind)),
{
    synchronize_bounds(tokens, st.pos);
}

/// The names of the parameters that follow `(`, up to `)`: names separated
/// by `,`; `done` holds the names read before.
pub open spec fn parameter_names(tokens: Seq<TokenView>, st: ParseState, done: Seq<Seq<char>>) -> (
    Seq<Seq<char>>,
    ParseState,
)
    decreases tokens.len() - st.pos,
{
    if !(0 <= st.pos < tokens.len()) || tokens[st.pos].kind == TokenKind::RParen {
        (done, st)
    } else {
        let names = done.push(tokens[st.pos].value);
        let s1 = next(st);
        if kind_at(tokens, s1.pos) == Some(TokenKind::RParen) {
            (names, s1)
        } else {
            proof {
                synchronize_bounds(tokens, s1.pos);
            }
            parameter_names(tokens, expect(tokens, s1, TokenKind::Comma), names)
        }
    }
}

/// The parameters of a function: `(`, the names, `)`.
pub open spec fn parameters(tokens: Seq<TokenView>, st: ParseState) -> (Seq<Seq<char>>, ParseState) {
    let s0 = expect(tokens, st, TokenKind::LParen);
    let (names, s1) = parameter_names(tokens, s0, Seq::empty());
    (names, expect(tokens, s1, TokenKind::RParen))
}

pub proof fn parameter_names_progress(tokens: Seq<TokenView>, st: ParseState, done: Seq<Seq<char>>)
    requires
        in_range(tokens, st),
    ensures
        in_range(tokens, parameter_names(tokens, st, done).1),
        st.pos <= parameter_names(tokens, st, done).1.pos,
    decreases tokens.len() - st.pos,
{
    if 0 <= st.pos < tokens.len() && tokens[st.pos].kind != TokenKind::RParen {
        let s1 = next(st);
        if kind_at(tokens, s1.pos) != Some(TokenKind::RParen) {
            synchronize_bounds(tokens, s1.pos);
            parameter_names_progress(
                tokens,
                expect(tokens, s1, TokenKind::Comma),
                done.push(tokens[st.pos].value),
            );
        }
    }
}

pub proof fn parameters_progress(tokens: Seq<TokenView>, st: ParseState)
    requires
        in_range(tokens, st),
    ensures
        progress(tokens, st, parameters(tokens, st).1),
{
    expect_progress(tokens, st, TokenKind::LParen);
    let s0 = expect(tokens, st, TokenKind::LParen);
    parameter_names_progress(tokens, s0, Seq::empty());
    expect_progress(tokens, parameter_names(tokens, s0, Seq::empty()).1, TokenKind::RParen);
}

/// Whether a node may stand on the left of `=`.
pub open spec fn is_target(node: Node) -> bool {
    node is Variable || node is MemberAccess
}

/// A statement.
pub open spec fn statement(tokens: Seq<TokenView>, st: ParseState) -> (Node, ParseState)
    decreases remaining(tokens, st.pos), 5int,
{
    if !(0 <= st.pos < tokens.len()) {
        (Node::NullLiteral, fail(tokens, st, "Unexpected end of input in statement"@, st.pos))
    } else {
        match tokens[st.pos].kind {
            TokenKind::Let => variable_declaration(tokens, next(st)),
            TokenKind::If => if_statement(tokens, next(st)),
            TokenKind::Function => function_declaration(tokens, next(st), true),
            TokenKind::Return => return_statement(tokens, next(st)),
            TokenKind::LBrace => block(tokens, st),
            TokenKind::While => while_statement(tokens, next(st)),
            TokenKind::For => for_statement(tokens, next(st)),
            TokenKind::SemiColon => statement(tokens, next(st)),
            _ => {
                let (e, s1) = expression(tokens, st, 0);
                (e, accept(tokens, s1, TokenKind::SemiColon))
            },
        }
    }
}

/// `let NAME = EXPR ;`, after `let`.
pub open spec fn variable_declaration(tokens: Seq<TokenView>, st: ParseState) -> (Node, ParseState)
    decreases remaining(tokens, st.pos), 4int,
{
    let (name, s1) = advance(tokens, st);
    let s2 = expect(tokens, s1, TokenKind::Assign);
    if in_range(tokens, st) {
        proof {
            advance_progress(tokens, st);
            expect_progress(tokens, s1, TokenKind::Assign);
        }
        let (value, s3) = expression(tokens, s2, 0);
        (
            Node::VariableDeclaration { name: name.value, value: Box::new(value) },
            expect(tokens, s3, TokenKind::SemiColon),
        )
    } else {
        (Node::NullLiteral, st)
    }
}

/// `if EXPR STMT (else STMT)?`, after `if`.
pub open spec fn if_statement(tokens: Seq<TokenView>, st: ParseState) -> (Node, ParseState)
    decreases remaining(tokens, st.pos), 7int,
{
    let (condition, s1) = expression(tokens, st, 0);
    let (consequence, s2) = statement(tokens, not_before(s1, st.pos));
    if kind_at(tokens, s2.pos) == Some(TokenKind::Else) && s2.pos >= st.pos {
        let (alternative, s3) = statement(tokens, next(s2));
        (
            Node::IfStatement {
                condition: Box::new(condition),
                consequence: Box::new(consequence),
                alternative: Some(Box::new(alternative)),
            },
            s3,
        )
    } else {
        (
            Node::IfStatement {
                condition: Box::new(condition),
                consequence: Box::new(consequence),
                alternative: None,
            },
            s2,
        )
    }
}

/// `while EXPR STMT`, after `while`.
pub open spec fn while_statement(tokens: Seq<TokenView>, st: ParseState) -> (Node, ParseState)
    decreases remaining(tokens, st.pos), 7int,
{
    let (condition, s1) = expression(tokens, st, 0);
    let (body, s2) = statement(tokens, not_before(s1, st.pos));
    (Node::WhileStatement { condition: Box::new(condition), body: Box::new(body) }, s2)
}

/// `for STMT EXPR ; STMT STMT`, after `for`: the statement that starts the
/// loop, its condition, the statement that steps it, and its body.
pub open spec fn for_statement(tokens: Seq<TokenView>, st: ParseState) -> (Node, ParseState)
    decreases remaining(tokens, st.pos), 7int,
{
    let (start, s1) = statement(tokens, st);
    let (condition, s2) = expression(tokens, not_before(s1, st.pos), 0);
    let (iter, s3) = statement(tokens, not_before(s2, st.pos));
    let (body, s4) = statement(tokens, not_before(s3, st.pos));
    (
        Node::ForStatement {
            start: Box::new(start),
            condition: Box::new(condition),
            iter: Box::new(iter),
            body: Box::new(body),
        },
        s4,
    )
}

/// `return EXPR? ;`, after `return`. Without an expression the statement
/// returns null.
pub open spec fn return_statement(tokens: Seq<TokenView>, st: ParseState) -> (Node, ParseState)
    decreases remaining(tokens, st.pos), 4int,
{
    if kind_at(tokens, st.pos) == Some(TokenKind::SemiColon) {
        (Node::ReturnStatement(Box::new(Node::NullLiteral)), next(st))
    } else {
        let (value, s1) = expression(tokens, st, 0);
        (Node::ReturnStatement(Box::new(value)), expect(tokens, s1, TokenKind::SemiColon))
    }
}

/// `NAME? ( PARAMS ) BLOCK`, after `fn`. A function that starts a statement
/// has a name; one inside an expression has none.
pub open spec fn function_declaration(tokens: Seq<TokenView>, st: ParseState, named: bool) -> (
    Node,
    ParseState,
)
    decreases remaining(tokens, st.pos), 4int,
{
    let (name, s1) = if named {
        (Some(advance(tokens, st).0.value), advance(tokens, st).1)
    } else {
        (None, st)
    };
    let (names, s2) = parameters(tokens, s1);
    if in_range(tokens, st) {
        proof {
            advance_progress(tokens, st);
            parameters_progress(tokens, s1);
        }
        let (body, s3) = block(tokens, s2);
        (Node::FunctionDeclaration { name, parameters: names, body: Box::new(body) }, s3)
    } else {
        (Node::NullLiteral, st)
    }
}

/// `{ STMT* }`.
pub open spec fn block(tokens: Seq<TokenView>, st: ParseState) -> (Node, ParseState)
    decreases remaining(tokens, st.pos), 3int,
{
    let s0 = expect(tokens, st, TokenKind::LBrace);
    if !(0 <= st.pos < tokens.len()) || s0.pos >= tokens.len() {
        (Node::Block(Seq::empty()), fail(tokens, s0, "Unexpected end of input in block"@, s0.pos))
    } else {
        proof {
            expect_progress(tokens, st, TokenKind::LBrace);
        }
        let (items, s1) = block_items(tokens, s0, Seq::empty());
        (Node::Block(items), expect(tokens, s1, TokenKind::RBrace))
    }
}

/// The statements of a block up to `}`; `done` holds those read before.
pub open spec fn block_items(tokens: Seq<TokenView>, st: ParseState, done: Seq<Node>) -> (
    Seq<Node>,
    ParseState,
)
    decreases remaining(tokens, st.pos), 6int,
{
    if !(0 <= st.pos < tokens.len()) || tokens[st.pos].kind == TokenKind::RBrace {
        (done, st)
    } else {
        let (item, s1) = statement(tokens, st);
        let s2 = beyond(s1, st.pos);
        if s2.pos >= tokens.len() {
            (done.push(item), fail(tokens, s2, "Unexpected end of input in block"@, s2.pos))
        } else {
            block_items(tokens, s2, done.push(item))
        }
    }
}

/// An expression whose operators bind more tightly than `power`.
pub open spec fn expression(tokens: Seq<TokenView>, st: ParseState, power: u8) -> (Node, ParseState)
    decreases remaining(tokens, st.pos), 2int,
{
    if !(0 <= st.pos < tokens.len()) {
        (Node::NullLiteral, fail(tokens, st, "Unexpected end of input in expression"@, st.pos))
    } else {
        let (left, s1) = prefix(tokens, st);
        infixes(tokens, beyond(s1, st.pos), power, left)
    }
}

/// Goes on from the operand `left` over the infix operators that bind more
/// tightly than `power`.
pub open spec fn infixes(tokens: Seq<TokenView>, st: ParseState, power: u8, left: Node) -> (
    Node,
    ParseState,
)
    decreases remaining(tokens, st.pos), 1int,
{
    if 0 <= st.pos < tokens.len() && power < spec_precedence(tokens[st.pos].kind) {
        let (node, s1) = infix(tokens, st, left);
        infixes(tokens, beyond(s1, st.pos), power, node)
    } else {
        (left, st)
    }
}

/// One infix operator with its right side, after the operand `left`: an
/// assignment, a call, a member access or a binary operation. `=` takes all
/// that follows as its right side, so it groups to the right; every other
/// operator groups to the left.
pub open spec fn infix(tokens: Seq<TokenView>, st: ParseState, left: Node) -> (Node, ParseState)
    decreases remaining(tokens, st.pos), 0int,
{
    if !(0 <= st.pos < tokens.len()) {
        (left, st)
    } else {
        let op = tokens[st.pos].kind;
        let s0 = next(st);
        match op {
            TokenKind::Assign => {
                let (right, s1) = expression(tokens, s0, 0);
                let node = Node::BinaryOp { left: Box::new(left), op, right: Box::new(right) };
                if is_target(left) {
                    (node, s1)
                } else {
                    (node, fail(tokens, s1, "Invalid assignment target"@, st.pos))
                }
            },
            TokenKind::LParen => {
                let (arguments, s1) = arguments(tokens, s0);
                (Node::FunctionCall { callee: Box::new(left), arguments }, s1)
            },
            TokenKind::Dot => {
                let (member, s1) = advance(tokens, s0);
                (Node::MemberAccess { object: Box::new(left), member: member.value }, s1)
            },
            _ => {
                let (right, s1) = expression(tokens, s0, spec_precedence(op));
                (Node::BinaryOp { left: Box::new(left), op, right: Box::new(right) }, s1)
            },
        }
    }
}

/// The arguments of a call, after `(`: expressions separated by `,`, then
/// `)`.
pub open spec fn arguments(tokens: Seq<TokenView>, st: ParseState) -> (Seq<Node>, ParseState)
    decreases remaining(tokens, st.pos), 4int,
{
    if !(0 <= st.pos < tokens.len()) || tokens[st.pos].kind == TokenKind::RParen {
        (Seq::empty(), expect(tokens, st, TokenKind::RParen))
    } else {
        let (items, s1) = argument_items(tokens, st, Seq::empty());
        (items, expect(tokens, s1, TokenKind::RParen))
    }
}

/// The arguments of a call from `st` on, up to `)`; `done` holds those read
/// before.
pub open spec fn argument_items(tokens: Seq<TokenView>, st: ParseState, done: Seq<Node>) -> (
    Seq<Node>,
    ParseState,
)
    decreases remaining(tokens, st.pos), 3int,
{
    let (item, s1) = expression(tokens, st, 0);
    let s2 = beyond(s1, st.pos);
    if !(0 <= st.pos < tokens.len()) || s2.pos >= tokens.len() || tokens[s2.pos].kind
        == TokenKind::RParen {
        (done.push(item), s1)
    } else {
        proof {
            expect_progress(tokens, s2, TokenKind::Comma);
        }
        argument_items(tokens, expect(tokens, s2, TokenKind::Comma), done.push(item))
    }
}

/// The entries of an object literal up to `}`: `KEY : EXPR`, each followed
/// by `,` or not; a key is the text of any token. `done` holds the entries
/// read before.
pub open spec fn object_items(tokens: Seq<TokenView>, st: ParseState, done: Seq<(Seq<char>, Node)>) -> (
    Seq<(Seq<char>, Node)>,
    ParseState,
)
    decreases remaining(tokens, st.pos), 3int,
{
    if !(0 <= st.pos < tokens.len()) || tokens[st.pos].kind == TokenKind::RBrace {
        (done, st)
    } else {
        let key = tokens[st.pos].value;
        let s1 = expect(tokens, next(st), TokenKind::Colon);
        proof {
            expect_progress(tokens, next(st), TokenKind::Colon);
        }
        let (value, s2) = expression(tokens, s1, 0);
        let s3 = accept(tokens, beyond(s2, st.pos), TokenKind::Comma);
        object_items(tokens, s3, done.push((key, value)))
    }
}

/// The elements of an array literal up to `]`: expressions, each followed by
/// `,` or not. `done` holds the elements read before.
pub open spec fn array_items(tokens: Seq<TokenView>, st: ParseState, done: Seq<Node>) -> (
    Seq<Node>,
    ParseState,
)
    decreases remaining(tokens, st.pos), 3int,
{
    if !(0 <= st.pos < tokens.len()) || tokens[st.pos].kind == TokenKind::RBracket {
        (done, st)
    } else {
        let (item, s1) = expression(tokens, st, 0);
        let s2 = accept(tokens, beyond(s1, st.pos), TokenKind::Comma);
        array_items(tokens, s2, done.push(item))
    }
}

/// An operand: a literal, a name, a function, a group in parentheses, an
/// object or array literal, a prefix operator with its operand, or `.NAME`
/// before an operand.
pub open spec fn prefix(tokens: Seq<TokenView>, st: ParseState) -> (Node, ParseState)
    decreases remaining(tokens, st.pos), 1int,
{
    if !(0 <= st.pos < tokens.len()) {
        (Node::NullLiteral, fail(tokens, st, "Unexpected end of input"@, st.pos))
    } else {
        let token = tokens[st.pos];
        let s0 = next(st);
        match token.kind {
            TokenKind::Number => if is_numeral(token.value) {
                (Node::NumberLiteral(token.value), s0)
            } else {
                (Node::NullLiteral, fail(tokens, s0, "Failed to parse number"@, st.pos))
            },
            TokenKind::String => (Node::StringLiteral(token.value), s0),
            TokenKind::Identifier => (Node::Variable(token.value), s0),
            TokenKind::Function => function_declaration(tokens, s0, false),
            TokenKind::True => (Node::BooleanLiteral(true), s0),
            TokenKind::False => (Node::BooleanLiteral(false), s0),
            TokenKind::Null => (Node::NullLiteral, s0),
            TokenKind::Dot => {
                let (member, s1) = advance(tokens, s0);
                proof {
                    advance_progress(tokens, s0);
                }
                let (object, s2) = prefix(tokens, s1);
                (Node::MemberAccess { object: Box::new(object), member: member.value }, s2)
            },
            TokenKind::LParen => {
                let (e, s1) = expression(tokens, s0, 0);
                (e, expect(tokens, s1, TokenKind::RParen))
            },
            TokenKind::LBrace => {
                let (entries, s1) = object_items(tokens, s0, Seq::empty());
                (Node::ObjectLiteral(entries), expect(tokens, s1, TokenKind::RBrace))
            },
            TokenKind::LBracket => {
                let (items, s1) = array_items(tokens, s0, Seq::empty());
                (Node::ArrayLiteral(items), expect(tokens, s1, TokenKind::RBracket))
            },
            TokenKind::Minus | TokenKind::Bang | TokenKind::Increment | TokenKind::Decrement => {
                let (operand, s1) = expression(tokens, s0, prefix_power());
                (Node::UnaryOp { op: token.kind, operand: Box::new(operand) }, s1)
            },
            _ => (
                Node::NullLiteral,
                fail(tokens, s0, "Unexpected token: "@ + token.kind.spec_name(), st.pos),
            ),
        }
    }
}

/// The statements of a program up to the `EOF` token or the end of the
/// tokens; `done` holds those read before.
pub open spec fn program_items(tokens: Seq<TokenView>, st: ParseState, done: Seq<Node>) -> (
    Seq<Node>,
    ParseState,
)
    decreases remaining(tokens, st.pos),
{
    if !(0 <= st.pos < tokens.len()) || tokens[st.pos].kind == TokenKind::EOF {
        (done, st)
    } else {
        let (item, s1) = statement(tokens, st);
        program_items(tokens, beyond(s1, st.pos), done.push(item))
    }
}

/// The program that the tokens stand for: its statements in order, or, if
/// reading met any error, all the errors in the order they were met.
pub open spec fn parse_tokens(tokens: Seq<TokenView>) -> Result<Node, Seq<ErrorView>> {
    let (items, st) = program_items(
        tokens,
        ParseState { pos: 0, errors: Seq::empty() },
        Seq::empty(),
    );
    if st.errors.len() == 0 {
        Ok(Node::Program(items))
    } else {
        Err(st.errors)
    }
}

} // verus!
