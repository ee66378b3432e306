use pitlang::ast::ASTNode;
use pitlang::parser::{check_numeral, get_operator_precedence, parse};
use pitlang::tokenizer::{tokenize, Token, TokenKind};

fn tree(src: &str) -> ASTNode {
    parse(&tokenize(src.to_string()).unwrap()).unwrap()
}

fn first(src: &str) -> ASTNode {
    match tree(src) {
        ASTNode::Program(mut v) => v.remove(0),
        other => panic!("no program: {:?}", other),
    }
}

fn messages(src: &str) -> Vec<String> {
    parse(&tokenize(src.to_string()).unwrap()).unwrap_err().iter().map(|e| e.as_message()).collect()
}

fn num(s: &str) -> Box<ASTNode> {
    Box::new(ASTNode::NumberLiteral(s.to_string()))
}

fn var(s: &str) -> Box<ASTNode> {
    Box::new(ASTNode::Variable(s.to_string()))
}

fn bin(l: Box<ASTNode>, op: TokenKind, r: Box<ASTNode>) -> Box<ASTNode> {
    Box::new(ASTNode::BinaryOp { left: l, op, right: r })
}

#[test]
fn no_tokens_is_the_empty_program() {
    assert_eq!(parse(&[]).unwrap(), ASTNode::Program(vec![]));
    assert_eq!(tree(""), ASTNode::Program(vec![]));
}

#[test]
fn product_binds_tighter_than_sum() {
    assert_eq!(
        first("1 + 2 * 3;"),
        *bin(num("1"), TokenKind::Plus, bin(num("2"), TokenKind::Star, num("3")))
    );
    assert_eq!(
        first("1 * 2 + 3;"),
        *bin(bin(num("1"), TokenKind::Star, num("2")), TokenKind::Plus, num("3"))
    );
}

#[test]
fn binary_operators_group_to_the_left() {
    assert_eq!(
        first("a - b - c"),
        *bin(bin(var("a"), TokenKind::Minus, var("b")), TokenKind::Minus, var("c"))
    );
}

#[test]
fn assignment_takes_the_whole_right_side() {
    assert_eq!(
        first("a = b + c;"),
        *bin(var("a"), TokenKind::Assign, bin(var("b"), TokenKind::Plus, var("c")))
    );
}

#[test]
fn assignment_groups_to_the_right() {
    assert_eq!(
        first("a = b = c;"),
        *bin(var("a"), TokenKind::Assign, bin(var("b"), TokenKind::Assign, var("c")))
    );
}

#[test]
fn assignment_to_anything_but_a_name_or_member_is_an_error() {
    assert_eq!(messages("1 = 2;"), vec!["Invalid assignment target at line 1 column 3"]);
    assert_eq!(messages("f() = 2;"), vec!["Invalid assignment target at line 1 column 5"]);
    assert!(parse(&tokenize("o.x = 2; a = 1;".to_string()).unwrap()).is_ok());
}

#[test]
fn statements_are_told_apart_by_their_first_token() {
    assert_eq!(
        first("let x = 1;"),
        ASTNode::VariableDeclaration { name: "x".to_string(), value: num("1") }
    );
    assert_eq!(
        first("if a b else c"),
        ASTNode::IfStatement { condition: var("a"), consequence: var("b"), alternative: Some(var("c")) }
    );
    assert_eq!(
        first("if (a) { b; }"),
        ASTNode::IfStatement {
            condition: var("a"),
            consequence: Box::new(ASTNode::Block(vec![*var("b")])),
            alternative: None
        }
    );
    assert_eq!(
        first("while a { }"),
        ASTNode::WhileStatement { condition: var("a"), body: Box::new(ASTNode::Block(vec![])) }
    );
    assert_eq!(first("return;"), ASTNode::ReturnStatement(Box::new(ASTNode::NullLiteral)));
    assert_eq!(first("return 1;"), ASTNode::ReturnStatement(num("1")));
    assert_eq!(first(";;; x;"), *var("x"));
}

#[test]
fn for_takes_a_statement_a_condition_a_step_and_a_body() {
    assert_eq!(
        first("for let i = 0; i < 3; i = i + 1 { f(i); }"),
        ASTNode::ForStatement {
            start: Box::new(ASTNode::VariableDeclaration { name: "i".to_string(), value: num("0") }),
            condition: bin(var("i"), TokenKind::Less, num("3")),
            iter: bin(var("i"), TokenKind::Assign, bin(var("i"), TokenKind::Plus, num("1"))),
            body: Box::new(ASTNode::Block(vec![ASTNode::FunctionCall {
                callee: var("f"),
                arguments: vec![*var("i")]
            }])),
        }
    );
}

#[test]
fn functions_have_a_name_as_statements_and_none_in_expressions() {
    assert_eq!(
        first("fn sq(x) { return x * x; }"),
        ASTNode::FunctionDeclaration {
            name: Some("sq".to_string()),
            parameters: vec!["x".to_string()],
            body: Box::new(ASTNode::Block(vec![ASTNode::ReturnStatement(bin(
                var("x"),
                TokenKind::Star,
                var("x")
            ))])),
        }
    );
    assert_eq!(
        first("let f = fn(a, b) { };"),
        ASTNode::VariableDeclaration {
            name: "f".to_string(),
            value: Box::new(ASTNode::FunctionDeclaration {
                name: None,
                parameters: vec!["a".to_string(), "b".to_string()],
                body: Box::new(ASTNode::Block(vec![])),
            }),
        }
    );
}

#[test]
fn calls_and_member_access_chain_to_the_left() {
    assert_eq!(
        first("a.b(1, 2).c;"),
        ASTNode::MemberAccess {
            object: Box::new(ASTNode::FunctionCall {
                callee: Box::new(ASTNode::MemberAccess { object: var("a"), member: "b".to_string() }),
                arguments: vec![*num("1"), *num("2")],
            }),
            member: "c".to_string(),
        }
    );
    assert_eq!(first("f();"), ASTNode::FunctionCall { callee: var("f"), arguments: vec![] });
}

#[test]
fn literals_of_objects_and_arrays() {
    assert_eq!(
        first("let o = {x: 1, y: 'two', x: 3};"),
        ASTNode::VariableDeclaration {
            name: "o".to_string(),
            value: Box::new(ASTNode::ObjectLiteral(vec![
                ("x".to_string(), *num("1")),
                ("y".to_string(), ASTNode::StringLiteral("two".to_string())),
                ("x".to_string(), *num("3")),
            ])),
        }
    );
    assert_eq!(
        first("[1, true, null, [], {}]"),
        ASTNode::ArrayLiteral(vec![
            *num("1"),
            ASTNode::BooleanLiteral(true),
            ASTNode::NullLiteral,
            ASTNode::ArrayLiteral(vec![]),
            ASTNode::ObjectLiteral(vec![]),
        ])
    );
}

#[test]
fn prefix_operators_bind_their_operand_at_power_three() {
    assert_eq!(
        first("-a * b"),
        ASTNode::UnaryOp { op: TokenKind::Minus, operand: bin(var("a"), TokenKind::Star, var("b")) }
    );
    assert_eq!(
        first("!a || b"),
        *bin(
            Box::new(ASTNode::UnaryOp { op: TokenKind::Bang, operand: var("a") }),
            TokenKind::Or,
            var("b")
        )
    );
    assert_eq!(first("(a)"), *var("a"));
}

#[test]
fn errors_are_collected_and_reading_resumes_after_the_next_semicolon() {
    assert_eq!(
        messages("let = 1; let y 2; let z = 3;"),
        vec![
            "Expected token: Assign at line 1 column 7",
            "Unexpected token: Let at line 1 column 10",
            "Expected token: SemiColon at line 1 column 19",
        ]
    );
    assert_eq!(messages(")"), vec!["Unexpected token: RParen at line 1 column 1"]);
}

#[test]
fn an_open_block_or_literal_ends_in_errors_and_not_in_a_panic() {
    assert!(!messages("{ a; ").is_empty());
    assert!(!messages("let o = {a: 1").is_empty());
    assert!(!messages("[1, 2").is_empty());
    assert!(!messages("f(1, ").is_empty());
    assert!(!messages("return").is_empty());
    assert!(!messages("fn").is_empty());
    assert!(!messages("if").is_empty());
}

#[test]
fn a_number_token_that_is_no_numeral_is_an_error() {
    let tokens = vec![
        Token::new(TokenKind::Number, "1e5".to_string(), 1, 1),
        Token::new(TokenKind::EOF, String::new(), 1, 4),
    ];
    let errors = parse(&tokens).unwrap_err();
    assert_eq!(errors.len(), 1);
    assert_eq!(errors[0].as_message(), "Failed to parse number at line 1 column 1");
    assert!(check_numeral("12"));
    assert!(check_numeral("12.5"));
    assert!(check_numeral("12."));
    assert!(!check_numeral(""));
    assert!(!check_numeral(".5"));
    assert!(!check_numeral("1.2.3"));
    assert!(!check_numeral("1e5"));
}

#[test]
fn tokens_without_an_end_marker_are_read_to_their_end() {
    let tokens = vec![Token::new(TokenKind::Identifier, "a".to_string(), 1, 1)];
    assert_eq!(parse(&tokens).unwrap(), ASTNode::Program(vec![*var("a")]));
}

#[test]
fn parsing_twice_gives_equal_trees() {
    let src = "fn mk() { let c = 0; return fn() { c = c + 1; return c; }; } let f = mk(); f();";
    assert_eq!(tree(src), tree(src));
}

#[test]
fn binding_powers_rise_from_assignment_to_member_access() {
    let order = [
        TokenKind::Assign,
        TokenKind::Increment,
        TokenKind::Or,
        TokenKind::And,
        TokenKind::BitAnd,
        TokenKind::BitXor,
        TokenKind::BitOr,
        TokenKind::Equal,
        TokenKind::Less,
        TokenKind::Plus,
        TokenKind::Star,
        TokenKind::LParen,
        TokenKind::Dot,
    ];
    for (i, k) in order.iter().enumerate() {
        assert_eq!(get_operator_precedence(*k) as usize, i + 1);
    }
    assert_eq!(get_operator_precedence(TokenKind::Decrement), 2);
    assert_eq!(get_operator_precedence(TokenKind::NotEqual), 8);
    assert_eq!(get_operator_precedence(TokenKind::GreaterEqual), 9);
    assert_eq!(get_operator_precedence(TokenKind::Minus), 10);
    assert_eq!(get_operator_precedence(TokenKind::Percent), 11);
    assert_eq!(get_operator_precedence(TokenKind::Slash), 11);
    assert_eq!(get_operator_precedence(TokenKind::SemiColon), 0);
    assert_eq!(get_operator_precedence(TokenKind::EOF), 0);
}
