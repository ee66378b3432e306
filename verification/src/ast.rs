//! The syntax tree.

use vstd::prelude::*;
use crate::tokenizer::TokenKind;

verus! {

/// A node of the syntax tree, as a mathematical value.
pub enum Node {
    /// A number literal: its decimal numeral, digits with at most one `.`.
    NumberLiteral(Seq<char>),
    StringLiteral(Seq<char>),
    BooleanLiteral(bool),
    NullLiteral,
    Variable(Seq<char>),
    Program(Seq<Node>),
    Block(Seq<Node>),
    ObjectLiteral(Seq<(Seq<char>, Node)>),
    ArrayLiteral(Seq<Node>),
    BinaryOp { left: Box<Node>, op: TokenKind, right: Box<Node> },
    UnaryOp { op: TokenKind, operand: Box<Node> },
    VariableDeclaration { name: Seq<char>, value: Box<Node> },
    IfStatement { condition: Box<Node>, consequence: Box<Node>, alternative: Option<Box<Node>> },
    FunctionCall { callee: Box<Node>, arguments: Seq<Node> },
    FunctionDeclaration { name: Option<Seq<char>>, parameters: Seq<Seq<char>>, body: Box<Node> },
    ReturnStatement(Box<Node>),
    WhileStatement { condition: Box<Node>, body: Box<Node> },
    ForStatement { start: Box<Node>, condition: Box<Node>, iter: Box<Node>, body: Box<Node> },
    MemberAccess { object: Box<Node>, member: Seq<char> },
}

/// A node of the syntax tree.
///
/// A number literal holds its numeral as written; the number it denotes is
/// found when the program runs. An assignment is a `BinaryOp` whose operator
/// is `Assign`.
#[derive(Debug, PartialEq)]
pub enum ASTNode {
    NumberLiteral(String),
    StringLiteral(String),
    BooleanLiteral(bool),
    NullLiteral,
    Variable(String),
    Program(Vec<ASTNode>),
    Block(Vec<ASTNode>),
    ObjectLiteral(Vec<(String, ASTNode)>),
    ArrayLiteral(Vec<ASTNode>),
    BinaryOp { left: Box<ASTNode>, op: TokenKind, right: Box<ASTNode> },
    UnaryOp { op: TokenKind, operand: Box<ASTNode> },
    VariableDeclaration { name: String, value: Box<ASTNode> },
    IfStatement {
        condition: Box<ASTNode>,
        consequence: Box<ASTNode>,
        alternative: Option<Box<ASTNode>>,
    },
    FunctionCall { callee: Box<ASTNode>, arguments: Vec<ASTNode> },
    FunctionDeclaration { name: Option<String>, parameters: Vec<String>, body: Box<ASTNode> },
    ReturnStatement(Box<ASTNode>),
    WhileStatement { condition: Box<ASTNode>, body: Box<ASTNode> },
    ForStatement {
        start: Box<ASTNode>,
        condition: Box<ASTNode>,
        iter: Box<ASTNode>,
        body: Box<ASTNode>,
    },
    MemberAccess { object: Box<ASTNode>, member: String },
}

impl ASTNode {
    /// The mathematical value of this node.
    pub open spec fn model(&self) -> Node
        decreases self,
    {
        match self {
            ASTNode::NumberLiteral(s) => Node::NumberLiteral(s@),
            ASTNode::StringLiteral(s) => Node::StringLiteral(s@),
            ASTNode::BooleanLiteral(b) => Node::BooleanLiteral(*b),
            ASTNode::NullLiteral => Node::NullLiteral,
            ASTNode::Variable(s) => Node::Variable(s@),
            ASTNode::Program(v) => Node::Program(
                Seq::new(
                    v@.len(),
                    |i: int|
                        if 0 <= i < v@.len() {
                            v@[i].model()
                        } else {
                            Node::NullLiteral
                        },
                ),
            ),
            ASTNode::Block(v) => Node::Block(
                Seq::new(
                    v@.len(),
                    |i: int|
                        if 0 <= i < v@.len() {
                            v@[i].model()
                        } else {
                            Node::NullLiteral
                        },
                ),
            ),
            ASTNode::ObjectLiteral(v) => Node::ObjectLiteral(
                Seq::new(
                    v@.len(),
                    |i: int|
                        if 0 <= i < v@.len() {
                            (v@[i].0@, v@[i].1.model())
                        } else {
                            (Seq::empty(), Node::NullLiteral)
                        },
                ),
            ),
            ASTNode::ArrayLiteral(v) => Node::ArrayLiteral(
                Seq::new(
                    v@.len(),
                    |i: int|
                        if 0 <= i < v@.len() {
                            v@[i].model()
                        } else {
                            Node::NullLiteral
                        },
                ),
            ),
            ASTNode::BinaryOp { left, op, right } => Node::BinaryOp {
                left: Box::new(left.model()),
                op: *op,
                right: Box::new(right.model()),
            },
            ASTNode::UnaryOp { op, operand } => Node::UnaryOp {
                op: *op,
                operand: Box::new(operand.model()),
            },
            ASTNode::VariableDeclaration { name, value } => Node::VariableDeclaration {
                name: name@,
                value: Box::new(value.model()),
            },
            ASTNode::IfStatement { condition, consequence, alternative } => Node::IfStatement {
                condition: Box::new(condition.model()),
                consequence: Box::new(consequence.model()),
                alternative: match alternative {
                    Some(a) => Some(Box::new(a.model())),
                    None => None,
                },
            },
            ASTNode::FunctionCall { callee, arguments } => Node::FunctionCall {
                callee: Box::new(callee.model()),
                arguments: Seq::new(
                    arguments@.len(),
                    |i: int|
                        if 0 <= i < arguments@.len() {
                            arguments@[i].model()
                        } else {
                            Node::NullLiteral
                        },
                ),
            },
            ASTNode::FunctionDeclaration { name, parameters, body } => Node::FunctionDeclaration {
                name: match name {
                    Some(n) => Some(n@),
                    None => None,
                },
                parameters: names_view(parameters@),
                body: Box::new(body.model()),
            },
            ASTNode::ReturnStatement(e) => Node::ReturnStatement(Box::new(e.model())),
            ASTNode::WhileStatement { condition, body } => Node::WhileStatement {
                condition: Box::new(condition.model()),
                body: Box::new(body.model()),
            },
            ASTNode::ForStatement { start, condition, iter, body } => Node::ForStatement {
                start: Box::new(start.model()),
                condition: Box::new(condition.model()),
                iter: Box::new(iter.model()),
                body: Box::new(body.model()),
            },
            ASTNode::MemberAccess { object, member } => Node::MemberAccess {
                object: Box::new(object.model()),
                member: member@,
            },
        }
    }
}

impl View for ASTNode {
    type V = Node;

    open spec fn view(&self) -> Node {
        self.model()
    }
}

/// The texts of a sequence of strings.
pub open spec fn names_view(names: Seq<String>) -> Seq<Seq<char>> {
    Seq::new(names.len(), |i: int| names[i]@)
}

/// The views of a sequence of nodes.
pub open spec fn nodes_view(nodes: Seq<ASTNode>) -> Seq<Node> {
    Seq::new(nodes.len(), |i: int| nodes[i]@)
}

/// The views of a sequence of keys with their nodes.
pub open spec fn entries_view(entries: Seq<(String, ASTNode)>) -> Seq<(Seq<char>, Node)> {
    Seq::new(entries.len(), |i: int| (entries[i].0@, entries[i].1@))
}

pub proof fn names_view_push(names: Seq<String>, name: String)
    ensures
        names_view(names.push(name)) == names_view(names).push(name@),
{
    assert(names_view(names.push(name)) =~= names_view(names).push(name@));
}

pub proof fn nodes_view_push(nodes: Seq<ASTNode>, node: ASTNode)
    ensures
        nodes_view(nodes.push(node)) == nodes_view(nodes).push(node@),
{
    assert(nodes_view(nodes.push(node)) =~= nodes_view(nodes).push(node@));
}

pub proof fn entries_view_push(entries: Seq<(String, ASTNode)>, key: String, node: ASTNode)
    ensures
        entries_view(entries.push((key, node))) == entries_view(entries).push((key@, node@)),
{
    assert(entries_view(entries.push((key, node))) =~= entries_view(entries).push(
        (key@, node@),
    ));
}

impl ASTNode {
    /// The program made of the given statements.
    pub fn program(statements: Vec<ASTNode>) -> (n: ASTNode)
        ensures
            n@ == Node::Program(nodes_view(statements@)),
    {
        let n = ASTNode::Program(statements);
        assert(n@->Program_0 =~= nodes_view(statements@));
        n
    }

    /// The block made of the given statements.
    pub fn block(statements: Vec<ASTNode>) -> (n: ASTNode)
        ensures
            n@ == Node::Block(nodes_view(statements@)),
    {
        let n = ASTNode::Block(statements);
        assert(n@->Block_0 =~= nodes_view(statements@));
        n
    }

    /// The array literal made of the given elements.
    pub fn array(elements: Vec<ASTNode>) -> (n: ASTNode)
        ensures
            n@ == Node::ArrayLiteral(nodes_view(elements@)),
    {
        let n = ASTNode::ArrayLiteral(elements);
        assert(n@->ArrayLiteral_0 =~= nodes_view(elements@));
        n
    }

    /// The object literal made of the given keys and values.
    pub fn object(entries: Vec<(String, ASTNode)>) -> (n: ASTNode)
        ensures
            n@ == Node::ObjectLiteral(entries_view(entries@)),
    {
        let n = ASTNode::ObjectLiteral(entries);
        assert(n@->ObjectLiteral_0 =~= entries_view(entries@));
        n
    }

    /// The call of `callee` with the given arguments.
    pub fn call(callee: ASTNode, arguments: Vec<ASTNode>) -> (n: ASTNode)
        ensures
            n@ == (Node::FunctionCall {
                callee: Box::new(callee@),
                arguments: nodes_view(arguments@),
            }),
    {
        let n = ASTNode::FunctionCall { callee: Box::new(callee), arguments };
        assert(n@->FunctionCall_arguments =~= nodes_view(arguments@));
        n
    }
}

} // verus!
