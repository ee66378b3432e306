use pitlang::tokenizer::{tokenize, Token, TokenKind};

fn kinds(src: &str) -> Vec<TokenKind> {
    tokenize(src.to_string()).unwrap().iter().map(|t| t.kind).collect()
}

#[test]
fn empty_source_is_one_eof_token() {
    let tokens = tokenize(String::new()).unwrap();
    assert_eq!(tokens, vec![Token::new(TokenKind::EOF, String::new(), 1, 1)]);
}

#[test]
fn operators_take_the_longest_match() {
    assert_eq!(
        kinds("+ ++ - -- * / % ( ) [ ] { } . , : ; = == ! != < <= > >= && || & | ^"),
        vec![
            TokenKind::Plus,
            TokenKind::Increment,
            TokenKind::Minus,
            TokenKind::Decrement,
            TokenKind::Star,
            TokenKind::Slash,
            TokenKind::Percent,
            TokenKind::LParen,
            TokenKind::RParen,
            TokenKind::LBracket,
            TokenKind::RBracket,
            TokenKind::LBrace,
            TokenKind::RBrace,
            TokenKind::Dot,
            TokenKind::Comma,
            TokenKind::Colon,
            TokenKind::SemiColon,
            TokenKind::Assign,
            TokenKind::Equal,
            TokenKind::Bang,
            TokenKind::NotEqual,
            TokenKind::Less,
            TokenKind::LessEqual,
            TokenKind::Greater,
            TokenKind::GreaterEqual,
            TokenKind::And,
            TokenKind::Or,
            TokenKind::BitAnd,
            TokenKind::BitOr,
            TokenKind::BitXor,
            TokenKind::EOF,
        ]
    );
    assert_eq!(kinds("+++"), vec![TokenKind::Increment, TokenKind::Plus, TokenKind::EOF]);
    assert_eq!(kinds("==="), vec![TokenKind::Equal, TokenKind::Assign, TokenKind::EOF]);
}

#[test]
fn reserved_words_are_retagged() {
    assert_eq!(
        kinds("let fn if else return while for true false null lets _x x1"),
        vec![
            TokenKind::Let,
            TokenKind::Function,
            TokenKind::If,
            TokenKind::Else,
            TokenKind::Return,
            TokenKind::While,
            TokenKind::For,
            TokenKind::True,
            TokenKind::False,
            TokenKind::Null,
            TokenKind::Identifier,
            TokenKind::Identifier,
            TokenKind::Identifier,
            TokenKind::EOF,
        ]
    );
}

#[test]
fn tokens_carry_the_place_of_their_first_character() {
    let tokens = tokenize("let x = 10;\n  x.y".to_string()).unwrap();
    assert_eq!(
        tokens,
        vec![
            Token::new(TokenKind::Let, "let".to_string(), 1, 1),
            Token::new(TokenKind::Identifier, "x".to_string(), 1, 5),
            Token::new(TokenKind::Assign, "=".to_string(), 1, 7),
            Token::new(TokenKind::Number, "10".to_string(), 1, 9),
            Token::new(TokenKind::SemiColon, ";".to_string(), 1, 11),
            Token::new(TokenKind::Identifier, "x".to_string(), 2, 3),
            Token::new(TokenKind::Dot, ".".to_string(), 2, 4),
            Token::new(TokenKind::Identifier, "y".to_string(), 2, 5),
            Token::new(TokenKind::EOF, String::new(), 2, 6),
        ]
    );
}

#[test]
fn numbers_hold_at_most_one_dot() {
    let tokens = tokenize("3.14 1.2.3 7.".to_string()).unwrap();
    let texts: Vec<(TokenKind, &str)> = tokens.iter().map(|t| (t.kind, t.value.as_str())).collect();
    assert_eq!(
        texts,
        vec![
            (TokenKind::Number, "3.14"),
            (TokenKind::Number, "1.2"),
            (TokenKind::Dot, "."),
            (TokenKind::Number, "3"),
            (TokenKind::Number, "7."),
            (TokenKind::EOF, ""),
        ]
    );
}

#[test]
fn strings_take_either_quote_and_three_escapes() {
    let tokens = tokenize("\"a\\nb\" 'c\\td' \"it's\" 'x\\ry'".to_string()).unwrap();
    let texts: Vec<&str> = tokens.iter().map(|t| t.value.as_str()).collect();
    assert_eq!(texts, vec!["a\nb", "c\td", "it's", "x\ry", ""]);
    assert!(tokens[..4].iter().all(|t| t.kind == TokenKind::String));
}

#[test]
fn comments_are_skipped_and_lines_counted() {
    let tokens = tokenize("a // one\n/* two\n three */ b /**/ c".to_string()).unwrap();
    assert_eq!(
        tokens,
        vec![
            Token::new(TokenKind::Identifier, "a".to_string(), 1, 1),
            Token::new(TokenKind::Identifier, "b".to_string(), 3, 11),
            Token::new(TokenKind::Identifier, "c".to_string(), 3, 18),
            Token::new(TokenKind::EOF, String::new(), 3, 19),
        ]
    );
}

#[test]
fn a_newline_inside_a_string_moves_to_the_next_line() {
    let tokens = tokenize("'a\nb' c".to_string()).unwrap();
    assert_eq!(tokens[0], Token::new(TokenKind::String, "a\nb".to_string(), 1, 1));
    assert_eq!(tokens[1], Token::new(TokenKind::Identifier, "c".to_string(), 2, 4));
}

#[test]
fn lexer_errors_name_the_place_where_the_form_starts() {
    let e = tokenize("x = 'abc".to_string()).unwrap_err();
    assert_eq!(e.as_message(), "Unterminated string at line 1 column 5");
    let e = tokenize("\n  /* never closed".to_string()).unwrap_err();
    assert_eq!(e.as_message(), "Unterminated block comment at line 2 column 3");
    let e = tokenize("'a\\qb'".to_string()).unwrap_err();
    assert_eq!(e.as_message(), "Invalid escape character \\q at line 1 column 1");
    let e = tokenize("'a\\".to_string()).unwrap_err();
    assert_eq!(e.as_message(), "Invalid escape character at line 1 column 1");
    let e = tokenize("a # b".to_string()).unwrap_err();
    assert_eq!(e.as_message(), "Unknown character: '#' at line 1 column 3");
    assert_eq!((e.message().as_str(), e.line(), e.column()), ("Unknown character: '#'", 1, 3));
}

#[test]
fn identifiers_may_hold_letters_of_any_script() {
    let tokens = tokenize("größe = 1".to_string()).unwrap();
    assert_eq!(tokens[0], Token::new(TokenKind::Identifier, "größe".to_string(), 1, 1));
    assert_eq!(tokens[1], Token::new(TokenKind::Assign, "=".to_string(), 1, 7));
}

#[test]
fn lexemes_joined_by_spaces_lex_to_the_same_tokens() {
    let src = "fn mk(a,b){ let c=[1,2.5]; while(c.length()<3&&!a||b){ c.push(a%b); } return c; }";
    let first = tokenize(src.to_string()).unwrap();
    let joined: Vec<&str> = first.iter().map(|t| t.value.as_str()).collect();
    let second = tokenize(joined.join(" ")).unwrap();
    let a: Vec<(TokenKind, &str)> = first.iter().map(|t| (t.kind, t.value.as_str())).collect();
    let b: Vec<(TokenKind, &str)> = second.iter().map(|t| (t.kind, t.value.as_str())).collect();
    assert_eq!(a, b);
}

#[test]
fn error_messages_carry_decimal_places() {
    let e = pitlang::common::TokenizerError::new("boom", 120, 7);
    assert_eq!(e.as_message(), "boom at line 120 column 7");
    let e = pitlang::common::ParserError::new("bang", 0, 1009);
    assert_eq!(e.as_message(), "bang at line 0 column 1009");
}

fn spell(token: &Token) -> String {
    if token.kind != TokenKind::String {
        return token.value.clone();
    }
    let quote = if token.value.contains('"') { '\'' } else { '"' };
    let mut out = String::new();
    out.push(quote);
    for c in token.value.chars() {
        match c {
            '\n' => out.push_str("\\n"),
            '\r' => out.push_str("\\r"),
            '\t' => out.push_str("\\t"),
            other => out.push(other),
        }
    }
    out.push(quote);
    out
}

#[test]
fn spelled_tokens_lex_to_the_same_tokens() {
    let sources = [
        "let s = 'say \"hi\"\\n'; // a comment\nlet t = \"it's\\tso\";",
        "x=1.5.3;y=1..2;/* gone */z=a++ + --b;",
        "if(a<=b&&c!=d||!e){f(g,h)[0].i=j^k|l&m%n/o*p-q;}else{return null;}",
        "'raw\nline' true false while for fn größe_2 _x",
        "",
    ];
    for src in sources {
        let first = tokenize(src.to_string()).unwrap();
        let mut text = String::new();
        for token in &first {
            text.push_str(&spell(token));
            text.push(' ');
        }
        let second = tokenize(text).unwrap();
        let a: Vec<(TokenKind, &str)> = first.iter().map(|t| (t.kind, t.value.as_str())).collect();
        let b: Vec<(TokenKind, &str)> = second.iter().map(|t| (t.kind, t.value.as_str())).collect();
        assert_eq!(a, b, "{src}");
    }
}
