//! The errors of the lexer and of the parser: a message and the place in
//! the source it refers to.

use vstd::prelude::*;
use crate::text::{copy_string, decimal, push_decimal, push_text};

verus! {

/// What an error of the lexer or the parser holds.
pub struct ErrorView {
    pub message: Seq<char>,
    pub line: nat,
    pub column: nat,
}

/// The views of a sequence of parser errors.
pub open spec fn error_views(errors: Seq<ParserError>) -> Seq<ErrorView> {
    errors.map_values(|e: ParserError| e@)
}

/// The text `<message> at line <line> column <column>`.
pub open spec fn located_message(e: ErrorView) -> Seq<char> {
    e.message + " at line "@ + decimal(e.line) + " column "@ + decimal(e.column)
}

fn locate(message: &String, line: usize, column: usize) -> (r: String)
    ensures
        r@ == located_message(
            ErrorView { message: message@, line: line as nat, column: column as nat },
        ),
{
    let mut r = copy_string(message);
    push_text(&mut r, " at line ");
    push_decimal(&mut r, line);
    push_text(&mut r, " column ");
    push_decimal(&mut r, column);
    r
}

/// An error of the lexer.
#[derive(Debug, Clone)]
pub struct TokenizerError {
    message: String,
    line: usize,
    column: usize,
}

impl View for TokenizerError {
    type V = ErrorView;

    closed spec fn view(&self) -> ErrorView {
        ErrorView {
            message: self.message@,
            line: self.line as nat,
            column: self.column as nat,
        }
    }
}

impl TokenizerError {
    pub fn new(message: &str, line: usize, column: usize) -> (e: Self)
        ensures
            e@ == (ErrorView { message: message@, line: line as nat, column: column as nat }),
    {
        Self { message: String::from_str(message), line, column }
    }

    /// The message this error was made with.
    pub fn message(&self) -> (r: String)
        ensures
            r@ == self@.message,
    {
        copy_string(&self.message)
    }

    /// The line this error refers to, counted from 1.
    pub fn line(&self) -> (r: usize)
        ensures
            r == self@.line,
    {
        self.line
    }

    /// The column this error refers to, counted from 1.
    pub fn column(&self) -> (r: usize)
        ensures
            r == self@.column,
    {
        self.column
    }

    pub fn as_message(&self) -> (r: String)
        ensures
            r@ == located_message(self@),
    {
        locate(&self.message, self.line, self.column)
    }
}

/// An error of the parser.
#[derive(Debug, Clone)]
pub struct ParserError {
    message: String,
    line: usize,
    column: usize,
}

impl View for ParserError {
    type V = ErrorView;

    closed spec fn view(&self) -> ErrorView {
        ErrorView {
            message: self.message@,
            line: self.line as nat,
            column: self.column as nat,
        }
    }
}

impl ParserError {
    pub fn new(message: &str, line: usize, column: usize) -> (e: Self)
        ensures
            e@ == (ErrorView { message: message@, line: line as nat, column: column as nat }),
    {
        Self { message: String::from_str(message), line, column }
    }

    /// The message this error was made with.
    pub fn message(&self) -> (r: String)
        ensures
            r@ == self@.message,
    {
        copy_string(&self.message)
    }

    /// The line this error refers to, counted from 1.
    pub fn line(&self) -> (r: usize)
        ensures
            r == self@.line,
    {
        self.line
    }

    /// The column this error refers to, counted from 1.
    pub fn column(&self) -> (r: usize)
        ensures
            r == self@.column,
    {
        self.column
    }

    pub fn as_message(&self) -> (r: String)
        ensures
            r@ == located_message(self@),
    {
        locate(&self.message, self.line, self.column)
    }

    /// A copy of this error.
    pub fn copy(&self) -> (r: Self)
        ensures
            r@ == self@,
    {
        Self { message: copy_string(&self.message), line: self.line, column: self.column }
    }
}

} // verus!
