//! The parser: tokens to a syntax tree, as the grammar says.

use vstd::prelude::*;
use crate::ast::{
    entries_view, entries_view_push, names_view, names_view_push, nodes_view, nodes_view_push,
    ASTNode, Node,
};
use crate::common::{error_views, ErrorView, ParserError};
use crate::grammar::{
    accept, advance, argument_items, arguments, array_items, block, block_items, expect,
    expression, fail, fail_progress, for_statement, function_declaration, if_statement, infix,
    infixes, is_numeral, object_items, parameter_names, parameters,
    parameters_progress, parse_tokens, prefix, program_items, progress, remaining,
    return_statement, spec_precedence, statement, synchronize, synchronize_bounds,
    variable_declaration, while_statement, ParseState,
};
use crate::text::{copy_string, push_text, to_chars};
use crate::tokenizer::{is_ascii_digit, scan_number_end, token_views, Token, TokenKind, TokenView};

verus! {

/// The binding power of a token as an infix operator; 0 for a token that is
/// none.
pub fn get_operator_precedence(kind: TokenKind) -> (r: u8)
    ensures
        r == spec_precedence(kind),
{
    match kind {
        TokenKind::Assign => 1,
        TokenKind::Increment | TokenKind::Decrement => 2,
        TokenKind::Or => 3,
        TokenKind::And => 4,
        TokenKind::BitAnd => 5,
        TokenKind::BitXor => 6,
        TokenKind::BitOr => 7,
        TokenKind::Equal | TokenKind::NotEqual => 8,
        TokenKind::Less | TokenKind::LessEqual | TokenKind::Greater | TokenKind::GreaterEqual => 9,
        TokenKind::Plus | TokenKind::Minus => 10,
        TokenKind::Star | TokenKind::Percent | TokenKind::Slash => 11,
        TokenKind::LParen => 12,
        TokenKind::Dot => 13,
        _ => 0,
    }
}

/// Whether a text is a numeral: digits with at most one `.` among them, the
/// first character a digit.
pub fn check_numeral(text: &str) -> (r: bool)
    ensures
        r == is_numeral(text@),
{
    let chars = to_chars(text);
    chars.len() > 0 && is_ascii_digit(chars[0]) && scan_number_end(&chars, 0) == chars.len()
}

/// The state of reading: the tokens, the index of the next one, and the
/// errors met so far.
struct Parser<'a> {
    tokens: &'a [Token],
    current: usize,
    errors: Vec<ParserError>,
}

impl<'a> Parser<'a> {
    spec fn toks(&self) -> Seq<TokenView> {
        token_views(self.tokens@)
    }

    spec fn state(&self) -> ParseState {
        ParseState { pos: self.current as int, errors: error_views(self.errors@) }
    }

    spec fn wf(&self) -> bool {
        self.current <= self.tokens@.len() && self.tokens@.len() > 0
    }

    /// This parser has the tokens of `before` and is in the state `after`,
    /// which lies in range and not before that of `before`.
    spec fn follows(&self, before: &Parser<'a>, after: ParseState) -> bool {
        &&& self.wf()
        &&& self.tokens@ == before.tokens@
        &&& self.state() == after
        &&& progress(before.toks(), before.state(), after)
    }

    fn new(tokens: &'a [Token]) -> (p: Self)
        requires
            tokens@.len() > 0,
        ensures
            p.wf(),
            p.tokens@ == tokens@,
            p.state() == (ParseState { pos: 0, errors: Seq::empty() }),
    {
        let p = Parser { tokens, current: 0, errors: Vec::new() };
        assert(error_views(p.errors@) =~= Seq::empty());
        p
    }

    fn synchronize_tokens(&mut self)
        requires
            old(self).wf(),
        ensures
            final(self).wf(),
            final(self).tokens@ == old(self).tokens@,
            final(self).errors == old(self).errors,
            final(self).current == synchronize(old(self).toks(), old(self).current as int),
    {
        while self.current < self.tokens.len()
            invariant
                self.wf(),
                self.tokens@ == old(self).tokens@,
                self.errors == old(self).errors,
                synchronize(old(self).toks(), old(self).current as int) == synchronize(
                    self.toks(),
                    self.current as int,
                ),
            decreases self.tokens@.len() - self.current,
        {
            if self.tokens[self.current].kind == TokenKind::SemiColon {
                self.current += 1;
                return ;
            }
            self.current += 1;
        }
    }

    fn error(&mut self, message: &str, at: usize)
        requires
            old(self).wf(),
        ensures
            final(self).follows(
                old(self),
                fail(old(self).toks(), old(self).state(), message@, at as int),
            ),
    {
        let n = self.tokens.len();
        let token = if at < n {
            &self.tokens[at]
        } else {
            &self.tokens[n - 1]
        };
        let e = ParserError::new(message, token.line, token.column);
        proof {
            assert(error_views(self.errors@.push(e)) =~= error_views(self.errors@).push(e@));
            fail_progress(self.toks(), self.state(), message@, at as int);
        }
        self.errors.push(e);
        self.synchronize_tokens();
    }

    fn error_with(&mut self, message: &str, kind: TokenKind, at: usize)
        requires
            old(self).wf(),
        ensures
            final(self).follows(
                old(self),
                fail(
                    old(self).toks(),
                    old(self).state(),
                    message@ + kind.spec_name(),
                    at as int,
                ),
            ),
    {
        let mut m = String::from_str(message);
        push_text(&mut m, kind.name());
        self.error(m.as_str(), at);
    }

    /// Takes the next token and gives its index; at the end of the tokens,
    /// that of the last one.
    fn advance(&mut self) -> (index: usize)
        requires
            old(self).wf(),
        ensures
            index < old(self).tokens@.len(),
            old(self).tokens@[index as int]@ == advance(old(self).toks(), old(self).state()).0,
            final(self).follows(old(self), advance(old(self).toks(), old(self).state()).1),
    {
        if self.current < self.tokens.len() {
            let index = self.current;
            self.current += 1;
            index
        } else {
            let at = self.current;
            self.error("Unexpected end of input", at);
            self.tokens.len() - 1
        }
    }

    fn expect(&mut self, kind: TokenKind)
        requires
            old(self).wf(),
        ensures
            final(self).follows(old(self), expect(old(self).toks(), old(self).state(), kind)),
    {
        if self.current >= self.tokens.len() || self.tokens[self.current].kind != kind {
            let at = self.current;
            self.error_with("Expected token: ", kind, at);
        } else {
            self.current += 1;
        }
    }

    fn accept(&mut self, kind: TokenKind)
        requires
            old(self).wf(),
        ensures
            final(self).wf(),
            final(self).tokens@ == old(self).tokens@,
            final(self).state() == accept(old(self).toks(), old(self).state(), kind),
            old(self).current <= final(self).current,
    {
        if self.current < self.tokens.len() && self.tokens[self.current].kind == kind {
            self.current += 1;
        }
    }

    fn parse_program(&mut self) -> (r: Vec<ASTNode>)
        requires
            old(self).wf(),
        ensures
            final(self).wf(),
            final(self).tokens@ == old(self).tokens@,
            (nodes_view(r@), final(self).state()) == program_items(
                old(self).toks(),
                old(self).state(),
                Seq::empty(),
            ),
    {
        let mut statements: Vec<ASTNode> = Vec::new();
        assert(nodes_view(statements@) =~= Seq::empty());
        while self.current < self.tokens.len() && self.tokens[self.current].kind != TokenKind::EOF
            invariant
                self.wf(),
                self.tokens@ == old(self).tokens@,
                program_items(old(self).toks(), old(self).state(), Seq::empty()) == program_items(
                    self.toks(),
                    self.state(),
                    nodes_view(statements@),
                ),
            decreases self.tokens@.len() - self.current,
        {
            let item = self.parse_statement();
            proof {
                nodes_view_push(statements@, item);
            }
            statements.push(item);
        }
        statements
    }

    fn parse_statement(&mut self) -> (node: ASTNode)
        requires
            old(self).wf(),
        ensures
            final(self).follows(old(self), statement(old(self).toks(), old(self).state()).1),
            node@ == statement(old(self).toks(), old(self).state()).0,
        decreases remaining(old(self).toks(), old(self).current as int), 5int,
    {
        if self.current >= self.tokens.len() {
            let at = self.current;
            self.error("Unexpected end of input in statement", at);
            return ASTNode::NullLiteral;
        }
        match self.tokens[self.current].kind {
            TokenKind::Let => {
                self.current += 1;
                self.parse_variable_declaration()
            },
            TokenKind::If => {
                self.current += 1;
                self.parse_if_statement()
            },
            TokenKind::Function => {
                self.current += 1;
                self.parse_function_declaration(true)
            },
            TokenKind::Return => {
                self.current += 1;
                self.parse_return_statement()
            },
            TokenKind::LBrace => self.parse_block(),
            TokenKind::While => {
                self.current += 1;
                self.parse_while_statement()
            },
            TokenKind::For => {
                self.current += 1;
                self.parse_for_statement()
            },
            TokenKind::SemiColon => {
                self.current += 1;
                self.parse_statement()
            },
            _ => {
                let expr = self.parse_expression(0);
                self.accept(TokenKind::SemiColon);
                expr
            },
        }
    }

    fn parse_for_statement(&mut self) -> (node: ASTNode)
        requires
            old(self).wf(),
        ensures
            final(self).follows(old(self), for_statement(old(self).toks(), old(self).state()).1),
            node@ == for_statement(old(self).toks(), old(self).state()).0,
        decreases remaining(old(self).toks(), old(self).current as int), 7int,
    {
        let pre = self.parse_statement();
        let cond = self.parse_expression(0);
        let iter = self.parse_statement();
        let body = self.parse_statement();
        ASTNode::ForStatement {
            start: Box::new(pre),
            condition: Box::new(cond),
            iter: Box::new(iter),
            body: Box::new(body),
        }
    }

    fn parse_while_statement(&mut self) -> (node: ASTNode)
        requires
            old(self).wf(),
        ensures
            final(self).follows(old(self), while_statement(old(self).toks(), old(self).state()).1),
            node@ == while_statement(old(self).toks(), old(self).state()).0,
        decreases remaining(old(self).toks(), old(self).current as int), 7int,
    {
        let condition = self.parse_expression(0);
        let body = self.parse_statement();
        ASTNode::WhileStatement { condition: Box::new(condition), body: Box::new(body) }
    }

    fn parse_parameters(&mut self) -> (names: Vec<String>)
        requires
            old(self).wf(),
        ensures
            final(self).follows(old(self), parameters(old(self).toks(), old(self).state()).1),
            names_view(names@) == parameters(old(self).toks(), old(self).state()).0,
    {
        let mut names: Vec<String> = Vec::new();
        self.expect(TokenKind::LParen);
        let ghost toks = self.toks();
        let ghost s0 = self.state();
        let mut more = true;
        assert(names_view(names@) =~= Seq::empty());
        proof {
            parameters_progress(old(self).toks(), old(self).state());
        }
        while more && self.current < self.tokens.len() && self.tokens[self.current].kind
            != TokenKind::RParen
            invariant
                self.wf(),
                self.tokens@ == old(self).tokens@,
                toks == self.toks(),
                more ==> parameter_names(toks, s0, Seq::empty()) == parameter_names(
                    toks,
                    self.state(),
                    names_view(names@),
                ),
                !more ==> parameter_names(toks, s0, Seq::empty()) == (
                    names_view(names@),
                    self.state(),
                ),
            decreases self.tokens@.len() - self.current + (if more { 1int } else { 0int }),
        {
            let name = copy_string(&self.tokens[self.current].value);
            proof {
                names_view_push(names@, name);
            }
            names.push(name);
            self.current += 1;
            if self.current < self.tokens.len() && self.tokens[self.current].kind
                == TokenKind::RParen {
                more = false;
            } else {
                proof {
                    synchronize_bounds(toks, self.current as int);
                }
                self.expect(TokenKind::Comma);
            }
        }
        self.expect(TokenKind::RParen);
        names
    }

    fn parse_return_statement(&mut self) -> (node: ASTNode)
        requires
            old(self).wf(),
        ensures
            final(self).follows(old(self), return_statement(old(self).toks(), old(self).state()).1),
            node@ == return_statement(old(self).toks(), old(self).state()).0,
        decreases remaining(old(self).toks(), old(self).current as int), 4int,
    {
        if self.current < self.tokens.len() && self.tokens[self.current].kind
            == TokenKind::SemiColon {
            self.current += 1;
            let nothing = ASTNode::NullLiteral;
            assert(nothing@ == Node::NullLiteral);
            return ASTNode::ReturnStatement(Box::new(nothing));
        }
        let returnee = self.parse_expression(0);
        self.expect(TokenKind::SemiColon);
        ASTNode::ReturnStatement(Box::new(returnee))
    }

    fn parse_function_declaration(&mut self, not_anonymous: bool) -> (node: ASTNode)
        requires
            old(self).wf(),
        ensures
            final(self).follows(
                old(self),
                function_declaration(old(self).toks(), old(self).state(), not_anonymous).1,
            ),
            node@ == function_declaration(old(self).toks(), old(self).state(), not_anonymous).0,
        decreases remaining(old(self).toks(), old(self).current as int), 4int,
    {
        let name = if not_anonymous {
            let index = self.advance();
            Some(copy_string(&self.tokens[index].value))
        } else {
            None
        };
        let parameters = self.parse_parameters();
        let body = self.parse_block();
        ASTNode::FunctionDeclaration { name, parameters, body: Box::new(body) }
    }

    fn parse_variable_declaration(&mut self) -> (node: ASTNode)
        requires
            old(self).wf(),
        ensures
            final(self).follows(
                old(self),
                variable_declaration(old(self).toks(), old(self).state()).1,
            ),
            node@ == variable_declaration(old(self).toks(), old(self).state()).0,
        decreases remaining(old(self).toks(), old(self).current as int), 4int,
    {
        let index = self.advance();
        let name = copy_string(&self.tokens[index].value);
        self.expect(TokenKind::Assign);
        let value = self.parse_expression(0);
        self.expect(TokenKind::SemiColon);
        ASTNode::VariableDeclaration { name, value: Box::new(value) }
    }

    fn parse_block(&mut self) -> (node: ASTNode)
        requires
            old(self).wf(),
        ensures
            final(self).follows(old(self), block(old(self).toks(), old(self).state()).1),
            node@ == block(old(self).toks(), old(self).state()).0,
        decreases remaining(old(self).toks(), old(self).current as int), 3int,
    {
        let mut statements: Vec<ASTNode> = Vec::new();
        assert(nodes_view(statements@) =~= Seq::empty());
        let start = self.current;
        self.expect(TokenKind::LBrace);
        if start >= self.tokens.len() || self.current >= self.tokens.len() {
            let at = self.current;
            self.error("Unexpected end of input in block", at);
            return ASTNode::block(statements);
        }
        let ghost toks = self.toks();
        let ghost s0 = self.state();
        let mut ended = false;
        while !ended && self.tokens[self.current].kind != TokenKind::RBrace
            invariant
                self.wf(),
                self.tokens@ == old(self).tokens@,
                toks == self.toks(),
                start < self.current,
                start == old(self).current,
                !ended ==> self.current < self.tokens@.len(),
                !ended ==> block_items(toks, s0, Seq::empty()) == block_items(
                    toks,
                    self.state(),
                    nodes_view(statements@),
                ),
                ended ==> block_items(toks, s0, Seq::empty()) == (
                    nodes_view(statements@),
                    self.state(),
                ),
            decreases self.tokens@.len() - self.current + (if ended { 0int } else { 1int }),
        {
            let item = self.parse_statement();
            proof {
                nodes_view_push(statements@, item);
            }
            statements.push(item);
            if self.current >= self.tokens.len() {
                let at = self.current;
                self.error("Unexpected end of input in block", at);
                ended = true;
            }
        }
        self.expect(TokenKind::RBrace);
        ASTNode::block(statements)
    }

    fn parse_if_statement(&mut self) -> (node: ASTNode)
        requires
            old(self).wf(),
        ensures
            final(self).follows(old(self), if_statement(old(self).toks(), old(self).state()).1),
            node@ == if_statement(old(self).toks(), old(self).state()).0,
        decreases remaining(old(self).toks(), old(self).current as int), 7int,
    {
        let condition = self.parse_expression(0);
        let consequence = self.parse_statement();
        let alternative = if self.current < self.tokens.len() && self.tokens[self.current].kind
            == TokenKind::Else {
            self.current += 1;
            Some(Box::new(self.parse_statement()))
        } else {
            None
        };
        ASTNode::IfStatement {
            condition: Box::new(condition),
            consequence: Box::new(consequence),
            alternative,
        }
    }

    fn parse_expression(&mut self, precedence: u8) -> (node: ASTNode)
        requires
            old(self).wf(),
        ensures
            final(self).follows(
                old(self),
                expression(old(self).toks(), old(self).state(), precedence).1,
            ),
            node@ == expression(old(self).toks(), old(self).state(), precedence).0,
        decreases remaining(old(self).toks(), old(self).current as int), 2int,
    {
        if self.current >= self.tokens.len() {
            let at = self.current;
            self.error("Unexpected end of input in expression", at);
            return ASTNode::NullLiteral;
        }
        let mut left = self.parse_nud();
        while self.current < self.tokens.len() && precedence < get_operator_precedence(
            self.tokens[self.current].kind,
        )
            invariant
                self.wf(),
                self.tokens@ == old(self).tokens@,
                old(self).current < self.current,
                expression(old(self).toks(), old(self).state(), precedence) == infixes(
                    self.toks(),
                    self.state(),
                    precedence,
                    left@,
                ),
            decreases self.tokens@.len() - self.current,
        {
            left = self.parse_led(left);
        }
        left
    }

    fn parse_led(&mut self, left: ASTNode) -> (node: ASTNode)
        requires
            old(self).wf(),
            old(self).current < old(self).tokens@.len(),
        ensures
            final(self).follows(old(self), infix(old(self).toks(), old(self).state(), left@).1),
            node@ == infix(old(self).toks(), old(self).state(), left@).0,
        decreases remaining(old(self).toks(), old(self).current as int), 0int,
    {
        let at = self.current;
        let op = self.tokens[at].kind;
        self.current += 1;
        match op {
            TokenKind::Assign => {
                let target = match &left {
                    ASTNode::Variable(_) => true,
                    ASTNode::MemberAccess { .. } => true,
                    _ => false,
                };
                let right = self.parse_expression(0);
                if !target {
                    self.error("Invalid assignment target", at);
                }
                ASTNode::BinaryOp { left: Box::new(left), op, right: Box::new(right) }
            },
            TokenKind::LParen => {
                let arguments = self.parse_arguments();
                ASTNode::call(left, arguments)
            },
            TokenKind::Dot => {
                let index = self.advance();
                let member = copy_string(&self.tokens[index].value);
                ASTNode::MemberAccess { object: Box::new(left), member }
            },
            _ => {
                let right = self.parse_expression(get_operator_precedence(op));
                ASTNode::BinaryOp { left: Box::new(left), op, right: Box::new(right) }
            },
        }
    }

    fn parse_arguments(&mut self) -> (r: Vec<ASTNode>)
        requires
            old(self).wf(),
        ensures
            final(self).follows(old(self), arguments(old(self).toks(), old(self).state()).1),
            nodes_view(r@) == arguments(old(self).toks(), old(self).state()).0,
        decreases remaining(old(self).toks(), old(self).current as int), 4int,
    {
        let mut arguments: Vec<ASTNode> = Vec::new();
        assert(nodes_view(arguments@) =~= Seq::empty());
        if self.current < self.tokens.len() && self.tokens[self.current].kind
            != TokenKind::RParen {
            let ghost toks = self.toks();
            let ghost s0 = self.state();
            let mut more = true;
            while more
                invariant
                    self.wf(),
                    self.tokens@ == old(self).tokens@,
                    toks == self.toks(),
                    old(self).current <= self.current,
                    more ==> argument_items(toks, s0, Seq::empty()) == argument_items(
                        toks,
                        self.state(),
                        nodes_view(arguments@),
                    ),
                    !more ==> argument_items(toks, s0, Seq::empty()) == (
                        nodes_view(arguments@),
                        self.state(),
                    ),
                    old(self).current < self.current || (more && self.current
                        < self.tokens@.len()),
                decreases self.tokens@.len() - self.current + (if more { 1int } else { 0int }),
            {
                let from = self.current;
                let item = self.parse_expression(0);
                proof {
                    nodes_view_push(arguments@, item);
                }
                arguments.push(item);
                if from >= self.tokens.len() || self.current >= self.tokens.len()
                    || self.tokens[self.current].kind == TokenKind::RParen {
                    more = false;
                } else {
                    self.expect(TokenKind::Comma);
                }
            }
        }
        self.expect(TokenKind::RParen);
        arguments
    }

    fn parse_object_items(&mut self) -> (r: Vec<(String, ASTNode)>)
        requires
            old(self).wf(),
        ensures
            final(self).wf(),
            final(self).tokens@ == old(self).tokens@,
            old(self).current <= final(self).current,
            (entries_view(r@), final(self).state()) == object_items(
                old(self).toks(),
                old(self).state(),
                Seq::empty(),
            ),
        decreases remaining(old(self).toks(), old(self).current as int), 3int,
    {
        let mut properties: Vec<(String, ASTNode)> = Vec::new();
        assert(entries_view(properties@) =~= Seq::empty());
        while self.current < self.tokens.len() && self.tokens[self.current].kind
            != TokenKind::RBrace
            invariant
                self.wf(),
                self.tokens@ == old(self).tokens@,
                old(self).current <= self.current,
                object_items(old(self).toks(), old(self).state(), Seq::empty()) == object_items(
                    self.toks(),
                    self.state(),
                    entries_view(properties@),
                ),
            decreases self.tokens@.len() - self.current,
        {
            let key = copy_string(&self.tokens[self.current].value);
            self.current += 1;
            self.expect(TokenKind::Colon);
            let value = self.parse_expression(0);
            proof {
                entries_view_push(properties@, key, value);
            }
            properties.push((key, value));
            self.accept(TokenKind::Comma);
        }
        properties
    }

    fn parse_array_items(&mut self) -> (r: Vec<ASTNode>)
        requires
            old(self).wf(),
        ensures
            final(self).wf(),
            final(self).tokens@ == old(self).tokens@,
            old(self).current <= final(self).current,
            (nodes_view(r@), final(self).state()) == array_items(
                old(self).toks(),
                old(self).state(),
                Seq::empty(),
            ),
        decreases remaining(old(self).toks(), old(self).current as int), 3int,
    {
        let mut elements: Vec<ASTNode> = Vec::new();
        assert(nodes_view(elements@) =~= Seq::empty());
        while self.current < self.tokens.len() && self.tokens[self.current].kind
            != TokenKind::RBracket
            invariant
                self.wf(),
                self.tokens@ == old(self).tokens@,
                old(self).current <= self.current,
                array_items(old(self).toks(), old(self).state(), Seq::empty()) == array_items(
                    self.toks(),
                    self.state(),
                    nodes_view(elements@),
                ),
            decreases self.tokens@.len() - self.current,
        {
            let item = self.parse_expression(0);
            proof {
                nodes_view_push(elements@, item);
            }
            elements.push(item);
            self.accept(TokenKind::Comma);
        }
        elements
    }

    fn parse_nud(&mut self) -> (node: ASTNode)
        requires
            old(self).wf(),
        ensures
            final(self).follows(old(self), prefix(old(self).toks(), old(self).state()).1),
            node@ == prefix(old(self).toks(), old(self).state()).0,
        decreases remaining(old(self).toks(), old(self).current as int), 1int,
    {
        if self.current >= self.tokens.len() {
            let at = self.current;
            self.error("Unexpected end of input", at);
            return ASTNode::NullLiteral;
        }
        let at = self.current;
        let kind = self.tokens[at].kind;
        self.current += 1;
        match kind {
            TokenKind::Number => {
                if check_numeral(self.tokens[at].value.as_str()) {
                    ASTNode::NumberLiteral(copy_string(&self.tokens[at].value))
                } else {
                    self.error("Failed to parse number", at);
                    ASTNode::NullLiteral
                }
            },
            TokenKind::String => ASTNode::StringLiteral(copy_string(&self.tokens[at].value)),
            TokenKind::Identifier => ASTNode::Variable(copy_string(&self.tokens[at].value)),
            TokenKind::Function => self.parse_function_declaration(false),
            TokenKind::True => ASTNode::BooleanLiteral(true),
            TokenKind::False => ASTNode::BooleanLiteral(false),
            TokenKind::Null => ASTNode::NullLiteral,
            TokenKind::Dot => {
                let index = self.advance();
                let member = copy_string(&self.tokens[index].value);
                let object = self.parse_nud();
                ASTNode::MemberAccess { object: Box::new(object), member }
            },
            TokenKind::LParen => {
                let expr = self.parse_expression(0);
                self.expect(TokenKind::RParen);
                expr
            },
            TokenKind::LBrace => {
                let properties = self.parse_object_items();
                self.expect(TokenKind::RBrace);
                ASTNode::object(properties)
            },
            TokenKind::LBracket => {
                let elements = self.parse_array_items();
                self.expect(TokenKind::RBracket);
                ASTNode::array(elements)
            },
            TokenKind::Minus | TokenKind::Bang | TokenKind::Increment | TokenKind::Decrement => {
                let operand = self.parse_expression(3);
                ASTNode::UnaryOp { op: kind, operand: Box::new(operand) }
            },
            _ => {
                self.error_with("Unexpected token: ", kind, at);
                ASTNode::NullLiteral
            },
        }
    }
}

/// The program that the tokens stand for, or, if reading met any error, all
/// the errors in the order they were met.
pub fn parse(tokens: &[Token]) -> (r: Result<ASTNode, Vec<ParserError>>)
    ensures
        match r {
            Ok(node) => parse_tokens(token_views(tokens@)) == Ok::<Node, Seq<ErrorView>>(node@),
            Err(errors) => parse_tokens(token_views(tokens@)) == Err::<Node, Seq<ErrorView>>(
                error_views(errors@),
            ) && errors@.len() > 0,
        },
{
    if tokens.len() == 0 {
        let statements: Vec<ASTNode> = Vec::new();
        assert(nodes_view(statements@) =~= Seq::empty());
        return Ok(ASTNode::program(statements));
    }
    let mut parser = Parser::new(tokens);
    let statements = parser.parse_program();
    if parser.errors.len() == 0 {
        Ok(ASTNode::program(statements))
    } else {
        Err(parser.errors)
    }
}

} // verus!
