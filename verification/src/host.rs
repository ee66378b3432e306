//! What the interpreter asks of its host, and what the host answers.
//!
//! The interpreter itself does no arithmetic on doubles and no input or
//! output. Where a program needs either, the machine that runs it stops with
//! a request; the host does what is asked and hands the answer back, and the
//! machine goes on.

use vstd::prelude::*;
use crate::errors::{runtime_error, value_error, EvalError, EvalErrorView};
use crate::number::Number;
use crate::store::{Store, StoreView};
use crate::value::{texts_view, values_view, Value, ValueView};

verus! {

/// The arithmetic operations on two numbers.
#[derive(Debug, Clone, Copy, PartialEq, Eq, Structural, Hash)]
pub enum Arith {
    Add,
    Sub,
    Mul,
    Div,
    Rem,
}

/// The ways of rounding a number to a whole one.
#[derive(Debug, Clone, Copy, PartialEq, Eq, Structural, Hash)]
pub enum Rounding {
    Round,
    Floor,
    Ceil,
}

/// A piece of printed output, as a mathematical value.
pub enum PieceView {
    Text(Seq<char>),
    Number(Number),
}

/// A piece of printed output: text as it is, or a number, which the host
/// writes as the shortest decimal that reads back as the same number.
#[derive(Debug, PartialEq, Eq)]
pub enum Piece {
    Text(String),
    Number(Number),
}

impl View for Piece {
    type V = PieceView;

    open spec fn view(&self) -> PieceView {
        match self {
            Piece::Text(s) => PieceView::Text(s@),
            Piece::Number(n) => PieceView::Number(*n),
        }
    }
}

/// The views of a sequence of pieces.
pub open spec fn pieces_view(pieces: Seq<Piece>) -> Seq<PieceView> {
    Seq::new(pieces.len(), |i: int| pieces[i]@)
}

pub proof fn pieces_view_push(pieces: Seq<Piece>, piece: Piece)
    ensures
        pieces_view(pieces.push(piece)) == pieces_view(pieces).push(piece@),
{
    assert(pieces_view(pieces.push(piece)) =~= pieces_view(pieces).push(piece@));
}

/// A request to the host, as a mathematical value.
pub enum RequestView {
    Binary { op: Arith, left: Number, right: Number },
    Unary { op: Rounding, operand: Number },
    Parse { text: Seq<char> },
    Format { number: Number },
    Write { pieces: Seq<PieceView>, newline: bool },
    Time,
    Random,
    Argv,
    ReadLine,
    ReadFile { path: Seq<char> },
    WriteFile { path: Seq<char>, contents: Seq<char> },
}

/// A request to the host.
#[derive(Debug, PartialEq, Eq)]
pub enum HostRequest {
    /// The result of the operation on the two doubles: a number.
    Binary { op: Arith, left: Number, right: Number },
    /// The double rounded to a whole number: a number.
    Unary { op: Rounding, operand: Number },
    /// The double that the text denotes: a number, or nothing where the text
    /// denotes none.
    Parse { text: String },
    /// The shortest decimal that reads back as the double: a text.
    Format { number: Number },
    /// The pieces are written to the standard output in order, and a line
    /// feed after them if `newline` says so: nothing.
    Write { pieces: Vec<Piece>, newline: bool },
    /// The seconds since the epoch: a number.
    Time,
    /// A double drawn from the half-open range from 0 to 1: a number.
    Random,
    /// The arguments of the program: texts.
    Argv,
    /// One line from the standard input with its line feed: a text, or
    /// nothing where reading fails.
    ReadLine,
    /// The contents of the file: a text, or nothing where reading fails.
    ReadFile { path: String },
    /// The contents are written to the file: nothing.
    WriteFile { path: String, contents: String },
}

impl View for HostRequest {
    type V = RequestView;

    open spec fn view(&self) -> RequestView {
        match self {
            HostRequest::Binary { op, left, right } => RequestView::Binary {
                op: *op,
                left: *left,
                right: *right,
            },
            HostRequest::Unary { op, operand } => RequestView::Unary { op: *op, operand: *operand },
            HostRequest::Parse { text } => RequestView::Parse { text: text@ },
            HostRequest::Format { number } => RequestView::Format { number: *number },
            HostRequest::Write { pieces, newline } => RequestView::Write {
                pieces: pieces_view(pieces@),
                newline: *newline,
            },
            HostRequest::Time => RequestView::Time,
            HostRequest::Random => RequestView::Random,
            HostRequest::Argv => RequestView::Argv,
            HostRequest::ReadLine => RequestView::ReadLine,
            HostRequest::ReadFile { path } => RequestView::ReadFile { path: path@ },
            HostRequest::WriteFile { path, contents } => RequestView::WriteFile {
                path: path@,
                contents: contents@,
            },
        }
    }
}

/// An answer of the host, as a mathematical value.
pub enum ResponseView {
    Number(Number),
    Text(Seq<char>),
    Texts(Seq<Seq<char>>),
    Nothing,
}

/// An answer of the host.
#[derive(Debug, PartialEq, Eq)]
pub enum HostResponse {
    Number(Number),
    Text(String),
    Texts(Vec<String>),
    Nothing,
}

impl View for HostResponse {
    type V = ResponseView;

    open spec fn view(&self) -> ResponseView {
        match self {
            HostResponse::Number(n) => ResponseView::Number(*n),
            HostResponse::Text(s) => ResponseView::Text(s@),
            HostResponse::Texts(v) => ResponseView::Texts(texts_view(v@)),
            HostResponse::Nothing => ResponseView::Nothing,
        }
    }
}

/// What a machine that has made a request waits for, and so how it reads
/// the answer.
#[derive(Debug, Clone, Copy, PartialEq, Eq, Structural, Hash)]
pub enum Awaiting {
    /// A number, which is the value.
    Number,
    /// A number, which is the value; nothing is a value error: the text
    /// that a program gave denotes no number.
    Conversion,
    /// A text, which is the value.
    Text,
    /// A text, which is the value; nothing gives null.
    TextOrNull,
    /// Texts, which become a new array of strings.
    Texts,
    /// Nothing; the value is null.
    Nothing,
}

/// The strings of the given texts.
pub open spec fn strings_of(texts: Seq<Seq<char>>) -> Seq<ValueView> {
    Seq::new(texts.len(), |i: int| ValueView::String(texts[i]))
}

/// The value that an answer stands for to a machine that waits for
/// `awaiting`, and the store after the answer was read. An answer of a kind
/// that was not asked for is a runtime error.
pub open spec fn answered(store: StoreView, awaiting: Awaiting, response: ResponseView) -> (
    Result<ValueView, EvalErrorView>,
    StoreView,
) {
    match (awaiting, response) {
        (Awaiting::Number, ResponseView::Number(n)) => (Ok(ValueView::Number(n)), store),
        (Awaiting::Conversion, ResponseView::Number(n)) => (Ok(ValueView::Number(n)), store),
        (Awaiting::Conversion, ResponseView::Nothing) => (
            Err(value_error("Could not parse string to number"@)),
            store,
        ),
        (Awaiting::Text, ResponseView::Text(s)) => (Ok(ValueView::String(s)), store),
        (Awaiting::TextOrNull, ResponseView::Text(s)) => (Ok(ValueView::String(s)), store),
        (Awaiting::TextOrNull, ResponseView::Nothing) => (Ok(ValueView::Null), store),
        (Awaiting::Texts, ResponseView::Texts(texts)) => (
            Ok(ValueView::Array(store.arrays.len())),
            StoreView { arrays: store.arrays.push(strings_of(texts)), ..store },
        ),
        (Awaiting::Nothing, ResponseView::Nothing) => (Ok(ValueView::Null), store),
        _ => (Err(runtime_error("Unexpected answer from the host"@)), store),
    }
}

/// Reads an answer of the host as a machine that waits for `awaiting` does.
pub fn answer(store: &mut Store, awaiting: Awaiting, response: HostResponse) -> (r: Result<
    Value,
    EvalError,
>)
    ensures
        final(store)@ == answered(old(store)@, awaiting, response@).1,
        match r {
            Ok(v) => answered(old(store)@, awaiting, response@).0 == Ok::<
                ValueView,
                EvalErrorView,
            >(v@),
            Err(e) => answered(old(store)@, awaiting, response@).0 == Err::<
                ValueView,
                EvalErrorView,
            >(e@),
        },
{
    match (awaiting, response) {
        (Awaiting::Number, HostResponse::Number(n)) => Ok(Value::Number(n)),
        (Awaiting::Conversion, HostResponse::Number(n)) => Ok(Value::Number(n)),
        (Awaiting::Conversion, HostResponse::Nothing) => Err(
            EvalError::wrong_value("Could not parse string to number"),
        ),
        (Awaiting::Text, HostResponse::Text(s)) => Ok(Value::String(s)),
        (Awaiting::TextOrNull, HostResponse::Text(s)) => Ok(Value::String(s)),
        (Awaiting::TextOrNull, HostResponse::Nothing) => Ok(Value::Null),
        (Awaiting::Texts, HostResponse::Texts(texts)) => {
            let items = strings(texts);
            let h = store.new_array(items);
            Ok(Value::Array(h))
        },
        (Awaiting::Nothing, HostResponse::Nothing) => Ok(Value::Null),
        _ => Err(EvalError::failed("Unexpected answer from the host")),
    }
}

/// The strings of the given texts.
pub fn strings(texts: Vec<String>) -> (items: Vec<Value>)
    ensures
        values_view(items@) == strings_of(texts_view(texts@)),
{
    let mut items: Vec<Value> = Vec::new();
    let mut texts = texts;
    let ghost all = texts@;
    let mut i: usize = 0;
    let n = texts.len();
    while i < n
        invariant
            i <= n,
            n == all.len(),
            texts.len() == n,
            items.len() == i,
            forall|j: int| 0 <= j < i ==> items@[j]@ == ValueView::String(all[j]@),
            forall|j: int| i <= j < n ==> texts@[j] == all[j],
        decreases n - i,
    {
        let mut text = String::new();
        core::mem::swap(&mut text, &mut texts[i]);
        items.push(Value::String(text));
        i += 1;
    }
    assert(values_view(items@) =~= strings_of(texts_view(all)));
    items
}

} // verus!
