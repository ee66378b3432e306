//! The lexer: source text to tokens.
//!
//! `lex` says, as a function of the characters of the source, which tokens
//! the text holds or which error it ends in; `tokenize` computes it.

use vstd::prelude::*;
use crate::common::{ErrorView, TokenizerError};
use crate::text::{alphabetic, collect, is_alphabetic, push_char, push_text, to_chars};

verus! {

/// The kinds of tokens.
#[derive(Debug, Clone, Copy, PartialEq, Eq, Structural, Hash)]
pub enum TokenKind {
    Number,
    String,
    Plus,
    Minus,
    Star,
    Slash,
    Percent,
    Bang,
    LParen,
    RParen,
    LBracket,
    RBracket,
    LBrace,
    RBrace,
    Function,
    If,
    Else,
    Return,
    Identifier,
    Let,
    Equal,
    NotEqual,
    Greater,
    Less,
    GreaterEqual,
    LessEqual,
    Assign,
    SemiColon,
    Comma,
    Dot,
    Colon,
    Null,
    True,
    False,
    While,
    For,
    And,
    Or,
    BitAnd,
    BitOr,
    BitXor,
    Increment,
    Decrement,
    EOF,
}

impl TokenKind {
    /// The name of the kind, as it is written in messages.
    pub open spec fn spec_name(self) -> Seq<char> {
        match self {
            TokenKind::Number => "Number"@,
            TokenKind::String => "String"@,
            TokenKind::Plus => "Plus"@,
            TokenKind::Minus => "Minus"@,
            TokenKind::Star => "Star"@,
            TokenKind::Slash => "Slash"@,
            TokenKind::Percent => "Percent"@,
            TokenKind::Bang => "Bang"@,
            TokenKind::LParen => "LParen"@,
            TokenKind::RParen => "RParen"@,
            TokenKind::LBracket => "LBracket"@,
            TokenKind::RBracket => "RBracket"@,
            TokenKind::LBrace => "LBrace"@,
            TokenKind::RBrace => "RBrace"@,
            TokenKind::Function => "Function"@,
            TokenKind::If => "If"@,
            TokenKind::Else => "Else"@,
            TokenKind::Return => "Return"@,
            TokenKind::Identifier => "Identifier"@,
            TokenKind::Let => "Let"@,
            TokenKind::Equal => "Equal"@,
            TokenKind::NotEqual => "NotEqual"@,
            TokenKind::Greater => "Greater"@,
            TokenKind::Less => "Less"@,
            TokenKind::GreaterEqual => "GreaterEqual"@,
            TokenKind::LessEqual => "LessEqual"@,
            TokenKind::Assign => "Assign"@,
            TokenKind::SemiColon => "SemiColon"@,
            TokenKind::Comma => "Comma"@,
            TokenKind::Dot => "Dot"@,
            TokenKind::Colon => "Colon"@,
            TokenKind::Null => "Null"@,
            TokenKind::True => "True"@,
            TokenKind::False => "False"@,
            TokenKind::While => "While"@,
            TokenKind::For => "For"@,
            TokenKind::And => "And"@,
            TokenKind::Or => "Or"@,
            TokenKind::BitAnd => "BitAnd"@,
            TokenKind::BitOr => "BitOr"@,
            TokenKind::BitXor => "BitXor"@,
            TokenKind::Increment => "Increment"@,
            TokenKind::Decrement => "Decrement"@,
            TokenKind::EOF => "EOF"@,
        }
    }

    /// The name of the kind, as it is written in messages.
    pub fn name(self) -> (r: &'static str)
        ensures
            r@ == self.spec_name(),
    {
        match self {
            TokenKind::Number => "Number",
            TokenKind::String => "String",
            TokenKind::Plus => "Plus",
            TokenKind::Minus => "Minus",
            TokenKind::Star => "Star",
            TokenKind::Slash => "Slash",
            TokenKind::Percent => "Percent",
            TokenKind::Bang => "Bang",
            TokenKind::LParen => "LParen",
            TokenKind::RParen => "RParen",
            TokenKind::LBracket => "LBracket",
            TokenKind::RBracket => "RBracket",
            TokenKind::LBrace => "LBrace",
            TokenKind::RBrace => "RBrace",
            TokenKind::Function => "Function",
            TokenKind::If => "If",
            TokenKind::Else => "Else",
            TokenKind::Return => "Return",
            TokenKind::Identifier => "Identifier",
            TokenKind::Let => "Let",
            TokenKind::Equal => "Equal",
            TokenKind::NotEqual => "NotEqual",
            TokenKind::Greater => "Greater",
            TokenKind::Less => "Less",
            TokenKind::GreaterEqual => "GreaterEqual",
            TokenKind::LessEqual => "LessEqual",
            TokenKind::Assign => "Assign",
            TokenKind::SemiColon => "SemiColon",
            TokenKind::Comma => "Comma",
            TokenKind::Dot => "Dot",
            TokenKind::Colon => "Colon",
            TokenKind::Null => "Null",
            TokenKind::True => "True",
            TokenKind::False => "False",
            TokenKind::While => "While",
            TokenKind::For => "For",
            TokenKind::And => "And",
            TokenKind::Or => "Or",
            TokenKind::BitAnd => "BitAnd",
            TokenKind::BitOr => "BitOr",
            TokenKind::BitXor => "BitXor",
            TokenKind::Increment => "Increment",
            TokenKind::Decrement => "Decrement",
            TokenKind::EOF => "EOF",
        }
    }
}

/// What a token holds: its kind, its text, and the line and column of its
/// first character, both counted from 1.
pub struct TokenView {
    pub kind: TokenKind,
    pub value: Seq<char>,
    pub line: nat,
    pub column: nat,
}

/// A token. For a string literal `value` is the text between the quotes with
/// the escapes replaced; for every other kind it is the text as written.
#[derive(Debug, Clone, PartialEq, Eq)]
pub struct Token {
    pub kind: TokenKind,
    pub value: String,
    pub line: usize,
    pub column: usize,
}

impl View for Token {
    type V = TokenView;

    open spec fn view(&self) -> TokenView {
        TokenView {
            kind: self.kind,
            value: self.value@,
            line: self.line as nat,
            column: self.column as nat,
        }
    }
}

impl Token {
    pub fn new(kind: TokenKind, value: String, line: usize, column: usize) -> (t: Token)
        ensures
            t.kind == kind,
            t.value == value,
            t.line == line,
            t.column == column,
    {
        Token { kind, value, line, column }
    }
}

/// The views of a sequence of tokens.
pub open spec fn token_views(tokens: Seq<Token>) -> Seq<TokenView> {
    tokens.map_values(|t: Token| t@)
}

/// A place in the source: the index of the next character, and the line and
/// column that character stands at.
pub struct Place {
    pub pos: int,
    pub line: int,
    pub column: int,
}

/// The place after the character `c`, read at `p`.
pub open spec fn step(p: Place, c: char) -> Place {
    if c == '\n' {
        Place { pos: p.pos + 1, line: p.line + 1, column: 1 }
    } else {
        Place { pos: p.pos + 1, line: p.line, column: p.column + 1 }
    }
}

/// The place `n` characters after `p` on the same line.
pub open spec fn shift(p: Place, n: int) -> Place {
    Place { pos: p.pos + n, line: p.line, column: p.column + n }
}

/// The start of a text.
pub open spec fn origin() -> Place {
    Place { pos: 0, line: 1, column: 1 }
}

pub open spec fn is_digit(c: char) -> bool {
    '0' <= c && c <= '9'
}

pub open spec fn is_blank(c: char) -> bool {
    c == ' ' || c == '\t' || c == '\r' || c == '\x0c' || c == '\n'
}

/// Whether `c` may stand in an identifier after its first character.
pub open spec fn spec_is_identifier_char(c: char) -> bool {
    alphabetic(c) || c == '_' || is_digit(c)
}

/// Whether `c` may start an identifier.
pub open spec fn is_word_start(c: char) -> bool {
    (alphabetic(c) || c == '_') && !is_digit(c)
}

/// Where the number that is being read at `pos` ends: it goes on over digits
/// and over one `.`, the first, unless `dotted` says that it was read already.
pub open spec fn number_end(src: Seq<char>, pos: int, dotted: bool) -> int
    decreases src.len() - pos,
{
    if pos < 0 || pos >= src.len() {
        pos
    } else if is_digit(src[pos]) {
        number_end(src, pos + 1, dotted)
    } else if src[pos] == '.' && !dotted {
        number_end(src, pos + 1, true)
    } else {
        pos
    }
}

/// Where the identifier that is being read at `pos` ends.
pub open spec fn word_end(src: Seq<char>, pos: int) -> int
    decreases src.len() - pos,
{
    if pos < 0 || pos >= src.len() {
        pos
    } else if spec_is_identifier_char(src[pos]) {
        word_end(src, pos + 1)
    } else {
        pos
    }
}

/// The index of the first line feed at or after `pos`, or the length of the
/// text if there is none.
pub open spec fn line_end(src: Seq<char>, pos: int) -> int
    decreases src.len() - pos,
{
    if pos < 0 || pos >= src.len() {
        pos
    } else if src[pos] == '\n' {
        pos
    } else {
        line_end(src, pos + 1)
    }
}

/// The place after the first `*/` at or after `p`, if there is one.
pub open spec fn comment_close(src: Seq<char>, p: Place) -> Option<Place>
    decreases src.len() - p.pos,
{
    if p.pos < 0 || p.pos + 1 >= src.len() {
        None
    } else if src[p.pos] == '*' && src[p.pos + 1] == '/' {
        Some(shift(p, 2))
    } else {
        comment_close(src, step(p, src[p.pos]))
    }
}

/// The character that `\` followed by `c` stands for in a string literal.
pub open spec fn spec_escape(c: char) -> Option<char> {
    if c == 'n' {
        Some('\n')
    } else if c == 'r' {
        Some('\r')
    } else if c == 't' {
        Some('\t')
    } else {
        None
    }
}

/// How reading the inside of a string literal ends.
pub enum StringScan {
    /// The closing quote was found: the text read, and the place after the
    /// quote.
    Closed { text: Seq<char>, after: Place },
    /// A `\` is followed by the given character, which is no escape.
    BadEscape { found: char },
    /// A `\` is the last character of the source.
    EscapeAtEnd,
    /// The source ends before the closing quote.
    Open,
}

/// Reads the inside of a string literal from `p` on, up to the closing
/// `quote`; `text` is what was read of it before `p`.
pub open spec fn string_scan(src: Seq<char>, p: Place, quote: char, text: Seq<char>) -> StringScan
    decreases src.len() - p.pos,
{
    if p.pos < 0 || p.pos >= src.len() {
        StringScan::Open
    } else if src[p.pos] == quote {
        StringScan::Closed { text, after: shift(p, 1) }
    } else if src[p.pos] == '\\' {
        if p.pos + 1 >= src.len() {
            StringScan::EscapeAtEnd
        } else {
            match spec_escape(src[p.pos + 1]) {
                Some(k) => string_scan(src, shift(p, 2), quote, text.push(k)),
                None => StringScan::BadEscape { found: src[p.pos + 1] },
            }
        }
    } else {
        string_scan(src, step(p, src[p.pos]), quote, text.push(src[p.pos]))
    }
}

/// The operator that starts with `c`, where `next` is the character after it:
/// its kind and its length, the longest match.
pub open spec fn spec_operator(c: char, next: Option<char>) -> Option<(TokenKind, int)> {
    if c == '+' {
        if next == Some('+') {
            Some((TokenKind::Increment, 2))
        } else {
            Some((TokenKind::Plus, 1))
        }
    } else if c == '-' {
        if next == Some('-') {
            Some((TokenKind::Decrement, 2))
        } else {
            Some((TokenKind::Minus, 1))
        }
    } else if c == '=' {
        if next == Some('=') {
            Some((TokenKind::Equal, 2))
        } else {
            Some((TokenKind::Assign, 1))
        }
    } else if c == '!' {
        if next == Some('=') {
            Some((TokenKind::NotEqual, 2))
        } else {
            Some((TokenKind::Bang, 1))
        }
    } else if c == '<' {
        if next == Some('=') {
            Some((TokenKind::LessEqual, 2))
        } else {
            Some((TokenKind::Less, 1))
        }
    } else if c == '>' {
        if next == Some('=') {
            Some((TokenKind::GreaterEqual, 2))
        } else {
            Some((TokenKind::Greater, 1))
        }
    } else if c == '&' {
        if next == Some('&') {
            Some((TokenKind::And, 2))
        } else {
            Some((TokenKind::BitAnd, 1))
        }
    } else if c == '|' {
        if next == Some('|') {
            Some((TokenKind::Or, 2))
        } else {
            Some((TokenKind::BitOr, 1))
        }
    } else if c == '*' {
        Some((TokenKind::Star, 1))
    } else if c == '/' {
        Some((TokenKind::Slash, 1))
    } else if c == '%' {
        Some((TokenKind::Percent, 1))
    } else if c == '(' {
        Some((TokenKind::LParen, 1))
    } else if c == ')' {
        Some((TokenKind::RParen, 1))
    } else if c == '[' {
        Some((TokenKind::LBracket, 1))
    } else if c == ']' {
        Some((TokenKind::RBracket, 1))
    } else if c == '{' {
        Some((TokenKind::LBrace, 1))
    } else if c == '}' {
        Some((TokenKind::RBrace, 1))
    } else if c == '.' {
        Some((TokenKind::Dot, 1))
    } else if c == ',' {
        Some((TokenKind::Comma, 1))
    } else if c == ':' {
        Some((TokenKind::Colon, 1))
    } else if c == ';' {
        Some((TokenKind::SemiColon, 1))
    } else if c == '^' {
        Some((TokenKind::BitXor, 1))
    } else {
        None
    }
}

/// The kind of a word: that of the reserved word it is, or `Identifier`.
pub open spec fn word_kind(word: Seq<char>) -> TokenKind {
    if word == "let"@ {
        TokenKind::Let
    } else if word == "fn"@ {
        TokenKind::Function
    } else if word == "if"@ {
        TokenKind::If
    } else if word == "else"@ {
        TokenKind::Else
    } else if word == "return"@ {
        TokenKind::Return
    } else if word == "null"@ {
        TokenKind::Null
    } else if word == "true"@ {
        TokenKind::True
    } else if word == "false"@ {
        TokenKind::False
    } else if word == "while"@ {
        TokenKind::While
    } else if word == "for"@ {
        TokenKind::For
    } else {
        TokenKind::Identifier
    }
}

/// The character at `pos`, if the text is that long.
pub open spec fn char_at(src: Seq<char>, pos: int) -> Option<char> {
    if 0 <= pos < src.len() {
        Some(src[pos])
    } else {
        None
    }
}

/// An error that refers to the place `p`.
pub open spec fn error_at(message: Seq<char>, p: Place) -> ErrorView {
    ErrorView { message, line: p.line as nat, column: p.column as nat }
}

/// The token of the given kind and text that starts at `p`.
pub open spec fn token_at(kind: TokenKind, value: Seq<char>, p: Place) -> TokenView {
    TokenView { kind, value, line: p.line as nat, column: p.column as nat }
}

/// What the lexer finds at one place of the source.
pub enum Lexed {
    /// A token, and the place after it.
    Token { token: TokenView, after: Place },
    /// White space or a comment, and the place after it.
    Skip { after: Place },
    /// An error.
    Fail { error: ErrorView },
}

/// What stands at `p`, a place inside the source.
pub open spec fn lex_one(src: Seq<char>, p: Place) -> Lexed
    recommends
        0 <= p.pos < src.len(),
{
    let c = src[p.pos];
    let next = char_at(src, p.pos + 1);
    if is_digit(c) {
        let end = number_end(src, p.pos, false);
        Lexed::Token {
            token: token_at(TokenKind::Number, src.subrange(p.pos, end), p),
            after: shift(p, end - p.pos),
        }
    } else if is_blank(c) {
        Lexed::Skip { after: step(p, c) }
    } else if c == '"' || c == '\'' {
        match string_scan(src, shift(p, 1), c, Seq::empty()) {
            StringScan::Closed { text, after } => Lexed::Token {
                token: token_at(TokenKind::String, text, p),
                after,
            },
            StringScan::BadEscape { found } => Lexed::Fail {
                error: error_at("Invalid escape character \\"@.push(found), p),
            },
            StringScan::EscapeAtEnd => Lexed::Fail {
                error: error_at("Invalid escape character"@, p),
            },
            StringScan::Open => Lexed::Fail { error: error_at("Unterminated string"@, p) },
        }
    } else if c == '/' && next == Some('/') {
        Lexed::Skip { after: shift(p, line_end(src, p.pos) - p.pos) }
    } else if c == '/' && next == Some('*') {
        match comment_close(src, shift(p, 2)) {
            Some(after) => Lexed::Skip { after },
            None => Lexed::Fail { error: error_at("Unterminated block comment"@, p) },
        }
    } else {
        match spec_operator(c, next) {
            Some((kind, len)) => Lexed::Token {
                token: token_at(kind, src.subrange(p.pos, p.pos + len), p),
                after: shift(p, len),
            },
            None => if is_word_start(c) {
                let end = word_end(src, p.pos);
                let word = src.subrange(p.pos, end);
                Lexed::Token {
                    token: token_at(word_kind(word), word, p),
                    after: shift(p, end - p.pos),
                }
            } else {
                Lexed::Fail {
                    error: error_at("Unknown character: '"@.push(c) + "'"@, p),
                }
            },
        }
    }
}

/// The tokens of the source from `p` on, after the tokens `done` that were
/// read before `p`; the last token is the `EOF` token, which stands at the
/// place after the last character.
pub open spec fn lex_from(src: Seq<char>, p: Place, done: Seq<TokenView>) -> Result<
    Seq<TokenView>,
    ErrorView,
>
    decreases src.len() - p.pos,
{
    if p.pos < 0 || p.pos >= src.len() {
        Ok(done.push(token_at(TokenKind::EOF, Seq::empty(), p)))
    } else {
        proof {
            lex_one_advances(src, p);
        }
        match lex_one(src, p) {
            Lexed::Token { token, after } => lex_from(src, after, done.push(token)),
            Lexed::Skip { after } => lex_from(src, after, done),
            Lexed::Fail { error } => Err(error),
        }
    }
}

/// The tokens of a source text, or the error that reading it ends in.
///
/// A text of `usize::MAX` characters or more is refused: the places in it
/// could not be counted.
pub open spec fn lex(src: Seq<char>) -> Result<Seq<TokenView>, ErrorView> {
    if src.len() >= usize::MAX {
        Err(error_at("Source too long"@, origin()))
    } else {
        lex_from(src, origin(), Seq::empty())
    }
}

/// A place that can be reached by reading a text of `len` characters from
/// its start.
pub open spec fn place_ok(p: Place, len: int) -> bool {
    &&& 0 <= p.pos <= len
    &&& 1 <= p.line <= p.pos + 1
    &&& 1 <= p.column <= p.pos + 1
}

pub proof fn number_end_bounds(src: Seq<char>, pos: int, dotted: bool)
    requires
        0 <= pos <= src.len(),
    ensures
        pos <= number_end(src, pos, dotted) <= src.len(),
        pos < src.len() && is_digit(src[pos]) ==> pos < number_end(src, pos, dotted),
    decreases src.len() - pos,
{
    if pos < src.len() {
        if is_digit(src[pos]) {
            number_end_bounds(src, pos + 1, dotted);
        } else if src[pos] == '.' && !dotted {
            number_end_bounds(src, pos + 1, true);
        }
    }
}

pub proof fn word_end_bounds(src: Seq<char>, pos: int)
    requires
        0 <= pos <= src.len(),
    ensures
        pos <= word_end(src, pos) <= src.len(),
        pos < src.len() && spec_is_identifier_char(src[pos]) ==> pos < word_end(src, pos),
    decreases src.len() - pos,
{
    if pos < src.len() && spec_is_identifier_char(src[pos]) {
        word_end_bounds(src, pos + 1);
    }
}

pub proof fn line_end_bounds(src: Seq<char>, pos: int)
    requires
        0 <= pos <= src.len(),
    ensures
        pos <= line_end(src, pos) <= src.len(),
    decreases src.len() - pos,
{
    if pos < src.len() && src[pos] != '\n' {
        line_end_bounds(src, pos + 1);
    }
}

pub proof fn comment_close_bounds(src: Seq<char>, p: Place)
    requires
        place_ok(p, src.len() as int),
    ensures
        comment_close(src, p) is Some ==> p.pos < comment_close(src, p)->0.pos && place_ok(
            comment_close(src, p)->0,
            src.len() as int,
        ),
    decreases src.len() - p.pos,
{
    if p.pos + 1 < src.len() && !(src[p.pos] == '*' && src[p.pos + 1] == '/') {
        comment_close_bounds(src, step(p, src[p.pos]));
    }
}

pub proof fn string_scan_bounds(src: Seq<char>, p: Place, quote: char, text: Seq<char>)
    requires
        place_ok(p, src.len() as int),
    ensures
        string_scan(src, p, quote, text) is Closed ==> p.pos < string_scan(
            src,
            p,
            quote,
            text,
        )->after.pos && place_ok(string_scan(src, p, quote, text)->after, src.len() as int),
    decreases src.len() - p.pos,
{
    if p.pos < src.len() && src[p.pos] != quote {
        if src[p.pos] == '\\' {
            if p.pos + 1 < src.len() {
                match spec_escape(src[p.pos + 1]) {
                    Some(k) => string_scan_bounds(src, shift(p, 2), quote, text.push(k)),
                    None => {},
                }
            }
        } else {
            string_scan_bounds(src, step(p, src[p.pos]), quote, text.push(src[p.pos]));
        }
    }
}

/// Reading one token or one piece of white space moves forward.
pub proof fn lex_one_advances(src: Seq<char>, p: Place)
    requires
        0 <= p.pos < src.len(),
    ensures
        lex_one(src, p) matches Lexed::Token { after, .. } ==> p.pos < after.pos <= src.len(),
        lex_one(src, p) matches Lexed::Skip { after } ==> p.pos < after.pos <= src.len(),
{
    let c = src[p.pos];
    number_end_bounds(src, p.pos, false);
    word_end_bounds(src, p.pos);
    line_end_bounds(src, p.pos + 1);
    let q = Place { pos: p.pos + 1, line: 1, column: 1 };
    string_scan_bounds(src, q, c, Seq::empty());
    string_scan_pos_only(src, shift(p, 1), q, c, Seq::empty());
    if p.pos + 2 <= src.len() {
        let q2 = Place { pos: p.pos + 2, line: 1, column: 1 };
        comment_close_bounds(src, q2);
        comment_close_pos_only(src, shift(p, 2), q2);
    }
}

/// Where a string literal ends does not depend on the line and column it
/// starts at.
pub proof fn string_scan_pos_only(src: Seq<char>, p: Place, q: Place, quote: char, text: Seq<char>)
    requires
        p.pos == q.pos,
    ensures
        string_scan(src, p, quote, text) is Closed <==> string_scan(src, q, quote, text) is Closed,
        string_scan(src, p, quote, text) is Closed ==> string_scan(src, p, quote, text)->after.pos
            == string_scan(src, q, quote, text)->after.pos,
    decreases src.len() - p.pos,
{
    if 0 <= p.pos < src.len() && src[p.pos] != quote {
        if src[p.pos] == '\\' {
            if p.pos + 1 < src.len() {
                match spec_escape(src[p.pos + 1]) {
                    Some(k) => string_scan_pos_only(
                        src,
                        shift(p, 2),
                        shift(q, 2),
                        quote,
                        text.push(k),
                    ),
                    None => {},
                }
            }
        } else {
            string_scan_pos_only(
                src,
                step(p, src[p.pos]),
                step(q, src[p.pos]),
                quote,
                text.push(src[p.pos]),
            );
        }
    }
}

/// Where a block comment ends does not depend on the line and column it
/// starts at.
pub proof fn comment_close_pos_only(src: Seq<char>, p: Place, q: Place)
    requires
        p.pos == q.pos,
    ensures
        comment_close(src, p) is Some <==> comment_close(src, q) is Some,
        comment_close(src, p) is Some ==> comment_close(src, p)->0.pos == comment_close(
            src,
            q,
        )->0.pos,
    decreases src.len() - p.pos,
{
    if 0 <= p.pos && p.pos + 1 < src.len() && !(src[p.pos] == '*' && src[p.pos + 1] == '/') {
        comment_close_pos_only(src, step(p, src[p.pos]), step(q, src[p.pos]));
    }
}

/// A place while the lexer runs.
#[derive(Clone, Copy)]
struct Cursor {
    pos: usize,
    line: usize,
    column: usize,
}

impl View for Cursor {
    type V = Place;

    closed spec fn view(&self) -> Place {
        Place { pos: self.pos as int, line: self.line as int, column: self.column as int }
    }
}

pub(crate) fn is_ascii_digit(c: char) -> (r: bool)
    ensures
        r == is_digit(c),
{
    '0' <= c && c <= '9'
}

/// Whether `c` may stand in an identifier after its first character.
pub fn is_identifier_char(c: char) -> (r: bool)
    ensures
        r == spec_is_identifier_char(c),
{
    is_alphabetic(c) || c == '_' || is_ascii_digit(c)
}

fn step_over(cur: Cursor, c: char, Ghost(len): Ghost<int>) -> (r: Cursor)
    requires
        place_ok(cur@, len),
        cur.pos < len,
        len < usize::MAX,
    ensures
        r@ == step(cur@, c),
        place_ok(r@, len),
{
    if c == '\n' {
        Cursor { pos: cur.pos + 1, line: cur.line + 1, column: 1 }
    } else {
        Cursor { pos: cur.pos + 1, line: cur.line, column: cur.column + 1 }
    }
}

fn shift_by(cur: Cursor, n: usize, Ghost(len): Ghost<int>) -> (r: Cursor)
    requires
        place_ok(cur@, len),
        cur.pos + n <= len,
        len < usize::MAX,
    ensures
        r@ == shift(cur@, n as int),
        place_ok(r@, len),
{
    Cursor { pos: cur.pos + n, line: cur.line, column: cur.column + n }
}

pub(crate) fn scan_number_end(src: &Vec<char>, start: usize) -> (end: usize)
    requires
        start <= src.len(),
    ensures
        end == number_end(src@, start as int, false),
        start <= end <= src.len(),
{
    let mut i: usize = start;
    let mut dotted = false;
    proof {
        number_end_bounds(src@, start as int, false);
    }
    while i < src.len() && (is_ascii_digit(src[i]) || (src[i] == '.' && !dotted))
        invariant
            start <= i <= src.len(),
            number_end(src@, start as int, false) == number_end(src@, i as int, dotted),
        decreases src.len() - i,
    {
        if src[i] == '.' {
            dotted = true;
        }
        i += 1;
    }
    i
}

fn scan_word_end(src: &Vec<char>, start: usize) -> (end: usize)
    requires
        start <= src.len(),
    ensures
        end == word_end(src@, start as int),
        start <= end <= src.len(),
{
    let mut i: usize = start;
    while i < src.len() && is_identifier_char(src[i])
        invariant
            start <= i <= src.len(),
            word_end(src@, start as int) == word_end(src@, i as int),
        decreases src.len() - i,
    {
        i += 1;
    }
    i
}

fn scan_line_end(src: &Vec<char>, start: usize) -> (end: usize)
    requires
        start <= src.len(),
    ensures
        end == line_end(src@, start as int),
        start <= end <= src.len(),
{
    let mut i: usize = start;
    while i < src.len() && src[i] != '\n'
        invariant
            start <= i <= src.len(),
            line_end(src@, start as int) == line_end(src@, i as int),
        decreases src.len() - i,
    {
        i += 1;
    }
    i
}

fn scan_comment_close(src: &Vec<char>, start: Cursor) -> (r: Option<Cursor>)
    requires
        place_ok(start@, src.len() as int),
        src.len() < usize::MAX,
    ensures
        match r {
            Some(c) => comment_close(src@, start@) == Some(c@) && place_ok(c@, src.len() as int),
            None => comment_close(src@, start@) is None,
        },
{
    let mut cur = start;
    while cur.pos + 1 < src.len()
        invariant
            place_ok(cur@, src.len() as int),
            src.len() < usize::MAX,
            comment_close(src@, start@) == comment_close(src@, cur@),
        decreases src.len() - cur.pos,
    {
        if src[cur.pos] == '*' && src[cur.pos + 1] == '/' {
            return Some(shift_by(cur, 2, Ghost(src.len() as int)));
        }
        cur = step_over(cur, src[cur.pos], Ghost(src.len() as int));
    }
    None
}

fn escape(c: char) -> (r: Option<char>)
    ensures
        r == spec_escape(c),
{
    if c == 'n' {
        Some('\n')
    } else if c == 'r' {
        Some('\r')
    } else if c == 't' {
        Some('\t')
    } else {
        None
    }
}

/// How reading the inside of a string literal ended.
enum Scanned {
    Closed { text: String, after: Cursor },
    BadEscape { found: char },
    EscapeAtEnd,
    Open,
}

impl View for Scanned {
    type V = StringScan;

    closed spec fn view(&self) -> StringScan {
        match self {
            Scanned::Closed { text, after } => StringScan::Closed { text: text@, after: after@ },
            Scanned::BadEscape { found } => StringScan::BadEscape { found: *found },
            Scanned::EscapeAtEnd => StringScan::EscapeAtEnd,
            Scanned::Open => StringScan::Open,
        }
    }
}

fn scan_string(src: &Vec<char>, start: Cursor, quote: char) -> (r: Scanned)
    requires
        place_ok(start@, src.len() as int),
        src.len() < usize::MAX,
    ensures
        r@ == string_scan(src@, start@, quote, Seq::empty()),
        r matches Scanned::Closed { after, .. } ==> place_ok(after@, src.len() as int),
{
    let mut cur = start;
    let mut text = String::new();
    while cur.pos < src.len()
        invariant
            place_ok(cur@, src.len() as int),
            src.len() < usize::MAX,
            string_scan(src@, start@, quote, Seq::empty()) == string_scan(
                src@,
                cur@,
                quote,
                text@,
            ),
        decreases src.len() - cur.pos,
    {
        let c = src[cur.pos];
        if c == quote {
            return Scanned::Closed { text, after: shift_by(cur, 1, Ghost(src.len() as int)) };
        } else if c == '\\' {
            if cur.pos + 1 >= src.len() {
                return Scanned::EscapeAtEnd;
            }
            let e = src[cur.pos + 1];
            match escape(e) {
                Some(k) => {
                    push_char(&mut text, k);
                    cur = shift_by(cur, 2, Ghost(src.len() as int));
                },
                None => {
                    return Scanned::BadEscape { found: e };
                },
            }
        } else {
            push_char(&mut text, c);
            cur = step_over(cur, c, Ghost(src.len() as int));
        }
    }
    Scanned::Open
}

fn operator(c: char, next: Option<char>) -> (r: Option<(TokenKind, usize)>)
    ensures
        match r {
            Some((kind, len)) => spec_operator(c, next) == Some((kind, len as int)) && 1 <= len
                <= 2 && (len == 2 ==> next is Some),
            None => spec_operator(c, next) is None,
        },
{
    if c == '+' {
        if next == Some('+') {
            Some((TokenKind::Increment, 2))
        } else {
            Some((TokenKind::Plus, 1))
        }
    } else if c == '-' {
        if next == Some('-') {
            Some((TokenKind::Decrement, 2))
        } else {
            Some((TokenKind::Minus, 1))
        }
    } else if c == '=' {
        if next == Some('=') {
            Some((TokenKind::Equal, 2))
        } else {
            Some((TokenKind::Assign, 1))
        }
    } else if c == '!' {
        if next == Some('=') {
            Some((TokenKind::NotEqual, 2))
        } else {
            Some((TokenKind::Bang, 1))
        }
    } else if c == '<' {
        if next == Some('=') {
            Some((TokenKind::LessEqual, 2))
        } else {
            Some((TokenKind::Less, 1))
        }
    } else if c == '>' {
        if next == Some('=') {
            Some((TokenKind::GreaterEqual, 2))
        } else {
            Some((TokenKind::Greater, 1))
        }
    } else if c == '&' {
        if next == Some('&') {
            Some((TokenKind::And, 2))
        } else {
            Some((TokenKind::BitAnd, 1))
        }
    } else if c == '|' {
        if next == Some('|') {
            Some((TokenKind::Or, 2))
        } else {
            Some((TokenKind::BitOr, 1))
        }
    } else if c == '*' {
        Some((TokenKind::Star, 1))
    } else if c == '/' {
        Some((TokenKind::Slash, 1))
    } else if c == '%' {
        Some((TokenKind::Percent, 1))
    } else if c == '(' {
        Some((TokenKind::LParen, 1))
    } else if c == ')' {
        Some((TokenKind::RParen, 1))
    } else if c == '[' {
        Some((TokenKind::LBracket, 1))
    } else if c == ']' {
        Some((TokenKind::RBracket, 1))
    } else if c == '{' {
        Some((TokenKind::LBrace, 1))
    } else if c == '}' {
        Some((TokenKind::RBrace, 1))
    } else if c == '.' {
        Some((TokenKind::Dot, 1))
    } else if c == ',' {
        Some((TokenKind::Comma, 1))
    } else if c == ':' {
        Some((TokenKind::Colon, 1))
    } else if c == ';' {
        Some((TokenKind::SemiColon, 1))
    } else if c == '^' {
        Some((TokenKind::BitXor, 1))
    } else {
        None
    }
}

fn is_word(id: &String, word: &str) -> (r: bool)
    ensures
        r == (id@ == word@),
{
    let w = String::from_str(word);
    *id == w
}

/// The token for a word: that of the reserved word it is, or an identifier.
pub fn get_identifier(id: String, line: usize, column: usize) -> (t: Token)
    ensures
        t@ == (TokenView {
            kind: word_kind(id@),
            value: id@,
            line: line as nat,
            column: column as nat,
        }),
{
    let kind = if is_word(&id, "let") {
        TokenKind::Let
    } else if is_word(&id, "fn") {
        TokenKind::Function
    } else if is_word(&id, "if") {
        TokenKind::If
    } else if is_word(&id, "else") {
        TokenKind::Else
    } else if is_word(&id, "return") {
        TokenKind::Return
    } else if is_word(&id, "null") {
        TokenKind::Null
    } else if is_word(&id, "true") {
        TokenKind::True
    } else if is_word(&id, "false") {
        TokenKind::False
    } else if is_word(&id, "while") {
        TokenKind::While
    } else if is_word(&id, "for") {
        TokenKind::For
    } else {
        TokenKind::Identifier
    };
    Token::new(kind, id, line, column)
}

/// The error result with the given message and place.
pub fn error(message: &str, line: usize, column: usize) -> (r: Result<Vec<Token>, TokenizerError>)
    ensures
        r matches Err(e) && e@ == (ErrorView {
            message: message@,
            line: line as nat,
            column: column as nat,
        }),
{
    Err(TokenizerError::new(message, line, column))
}

/// What the lexer found at one place.
enum Found {
    Token { token: Token, after: Cursor },
    Skip { after: Cursor },
    Fail { error: TokenizerError },
}

impl View for Found {
    type V = Lexed;

    closed spec fn view(&self) -> Lexed {
        match self {
            Found::Token { token, after } => Lexed::Token { token: token@, after: after@ },
            Found::Skip { after } => Lexed::Skip { after: after@ },
            Found::Fail { error } => Lexed::Fail { error: error@ },
        }
    }
}

fn fail(message: &str, cur: Cursor) -> (r: Found)
    ensures
        r@ == (Lexed::Fail { error: error_at(message@, cur@) }),
{
    Found::Fail { error: TokenizerError::new(message, cur.line, cur.column) }
}

fn find(src: &Vec<char>, cur: Cursor) -> (r: Found)
    requires
        place_ok(cur@, src.len() as int),
        cur.pos < src.len(),
        src.len() < usize::MAX,
    ensures
        r@ == lex_one(src@, cur@),
        r matches Found::Token { after, .. } ==> place_ok(after@, src.len() as int) && cur.pos
            < after.pos,
        r matches Found::Skip { after } ==> place_ok(after@, src.len() as int) && cur.pos
            < after.pos,
{
    let ghost len = src.len() as int;
    let c = src[cur.pos];
    let next = if cur.pos + 1 < src.len() {
        Some(src[cur.pos + 1])
    } else {
        None
    };
    proof {
        lex_one_advances(src@, cur@);
    }
    if is_ascii_digit(c) {
        let end = scan_number_end(src, cur.pos);
        let text = collect(src, cur.pos, end);
        Found::Token {
            token: Token::new(TokenKind::Number, text, cur.line, cur.column),
            after: shift_by(cur, end - cur.pos, Ghost(len)),
        }
    } else if c == ' ' || c == '\t' || c == '\r' || c == '\x0c' || c == '\n' {
        Found::Skip { after: step_over(cur, c, Ghost(len)) }
    } else if c == '"' || c == '\'' {
        match scan_string(src, shift_by(cur, 1, Ghost(len)), c) {
            Scanned::Closed { text, after } => Found::Token {
                token: Token::new(TokenKind::String, text, cur.line, cur.column),
                after,
            },
            Scanned::BadEscape { found } => {
                let mut message = String::from_str("Invalid escape character \\");
                push_char(&mut message, found);
                fail(message.as_str(), cur)
            },
            Scanned::EscapeAtEnd => fail("Invalid escape character", cur),
            Scanned::Open => fail("Unterminated string", cur),
        }
    } else if c == '/' && next == Some('/') {
        let end = scan_line_end(src, cur.pos);
        Found::Skip { after: shift_by(cur, end - cur.pos, Ghost(len)) }
    } else if c == '/' && next == Some('*') {
        match scan_comment_close(src, shift_by(cur, 2, Ghost(len))) {
            Some(after) => Found::Skip { after },
            None => fail("Unterminated block comment", cur),
        }
    } else {
        match operator(c, next) {
            Some((kind, n)) => {
                let text = collect(src, cur.pos, cur.pos + n);
                Found::Token {
                    token: Token::new(kind, text, cur.line, cur.column),
                    after: shift_by(cur, n, Ghost(len)),
                }
            },
            None => {
                if (is_alphabetic(c) || c == '_') && !is_ascii_digit(c) {
                    let end = scan_word_end(src, cur.pos);
                    let word = collect(src, cur.pos, end);
                    Found::Token {
                        token: get_identifier(word, cur.line, cur.column),
                        after: shift_by(cur, end - cur.pos, Ghost(len)),
                    }
                } else {
                    let mut message = String::from_str("Unknown character: '");
                    push_char(&mut message, c);
                    push_text(&mut message, "'");
                    fail(message.as_str(), cur)
                }
            },
        }
    }
}

/// The tokens of `text`, the last of them the `EOF` token, or the error that
/// reading the text ends in.
pub fn tokenize(text: String) -> (r: Result<Vec<Token>, TokenizerError>)
    ensures
        match r {
            Ok(tokens) => lex(text@) == Ok::<Seq<TokenView>, ErrorView>(token_views(tokens@)),
            Err(e) => lex(text@) == Err::<Seq<TokenView>, ErrorView>(e@),
        },
{
    let src = to_chars(text.as_str());
    if src.len() >= usize::MAX {
        return error("Source too long", 1, 1);
    }
    let mut tokens: Vec<Token> = Vec::new();
    let mut cur = Cursor { pos: 0, line: 1, column: 1 };
    assert(token_views(tokens@) =~= Seq::empty());
    while cur.pos < src.len()
        invariant
            src@ == text@,
            src.len() < usize::MAX,
            place_ok(cur@, src.len() as int),
            lex(text@) == lex_from(src@, cur@, token_views(tokens@)),
        decreases src.len() - cur.pos,
    {
        match find(&src, cur) {
            Found::Token { token, after } => {
                proof {
                    assert(token_views(tokens@.push(token)) =~= token_views(tokens@).push(token@));
                }
                tokens.push(token);
                cur = after;
            },
            Found::Skip { after } => {
                cur = after;
            },
            Found::Fail { error } => {
                return Err(error);
            },
        }
    }
    let eof = Token::new(TokenKind::EOF, String::new(), cur.line, cur.column);
    proof {
        assert(token_views(tokens@.push(eof)) =~= token_views(tokens@).push(eof@));
    }
    tokens.push(eof);
    Ok(tokens)
}

} // verus!
