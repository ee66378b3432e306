//! The errors of running a program.

use vstd::prelude::*;
use crate::text::{copy_string, push_text};

verus! {

/// The kinds of runtime errors.
#[derive(Debug, Clone, Copy, PartialEq, Eq, Structural, Hash)]
pub enum ErrorKind {
    /// A name or a property that is not defined.
    Name,
    /// An operator or a method applied to a value of the wrong kind.
    Type,
    /// A call with the wrong number of arguments.
    Argument,
    /// A value out of range, such as an index beyond the end of an array.
    Value,
    /// Anything else: an empty stack, an unknown instruction, a host that
    /// answers with what was not asked.
    Runtime,
}

/// What a runtime error holds: its kind and its detail.
pub struct EvalErrorView {
    pub kind: ErrorKind,
    pub detail: Seq<char>,
}

/// A runtime error. All of them are fatal: the program that meets one stops.
#[derive(Debug, Clone, PartialEq, Eq)]
pub enum EvalError {
    UndefinedVariable(String),
    TypeError(String),
    ArgumentError(String),
    ValueError(String),
    Runtime(String),
}

impl View for EvalError {
    type V = EvalErrorView;

    open spec fn view(&self) -> EvalErrorView {
        match self {
            EvalError::UndefinedVariable(s) => EvalErrorView { kind: ErrorKind::Name, detail: s@ },
            EvalError::TypeError(s) => EvalErrorView { kind: ErrorKind::Type, detail: s@ },
            EvalError::ArgumentError(s) => EvalErrorView { kind: ErrorKind::Argument, detail: s@ },
            EvalError::ValueError(s) => EvalErrorView { kind: ErrorKind::Value, detail: s@ },
            EvalError::Runtime(s) => EvalErrorView { kind: ErrorKind::Runtime, detail: s@ },
        }
    }
}

/// The words a message of the given kind starts with.
pub open spec fn kind_prefix(kind: ErrorKind) -> Seq<char> {
    match kind {
        ErrorKind::Name => "Undefined variable: "@,
        ErrorKind::Type => "Type error: "@,
        ErrorKind::Argument => "Argument error: "@,
        ErrorKind::Value => "Value error: "@,
        ErrorKind::Runtime => "Runtime error: "@,
    }
}

/// A name error about `name`.
pub open spec fn name_error(name: Seq<char>) -> EvalErrorView {
    EvalErrorView { kind: ErrorKind::Name, detail: name }
}

/// A type error with the given detail.
pub open spec fn type_error(detail: Seq<char>) -> EvalErrorView {
    EvalErrorView { kind: ErrorKind::Type, detail }
}

/// An argument error with the given detail.
pub open spec fn argument_error(detail: Seq<char>) -> EvalErrorView {
    EvalErrorView { kind: ErrorKind::Argument, detail }
}

/// A value error with the given detail.
pub open spec fn value_error(detail: Seq<char>) -> EvalErrorView {
    EvalErrorView { kind: ErrorKind::Value, detail }
}

/// A runtime error with the given detail.
pub open spec fn runtime_error(detail: Seq<char>) -> EvalErrorView {
    EvalErrorView { kind: ErrorKind::Runtime, detail }
}

impl EvalError {
    /// The kind of this error.
    pub fn kind(&self) -> (k: ErrorKind)
        ensures
            k == self@.kind,
    {
        match self {
            EvalError::UndefinedVariable(_) => ErrorKind::Name,
            EvalError::TypeError(_) => ErrorKind::Type,
            EvalError::ArgumentError(_) => ErrorKind::Argument,
            EvalError::ValueError(_) => ErrorKind::Value,
            EvalError::Runtime(_) => ErrorKind::Runtime,
        }
    }

    /// The message of this error: the words of its kind, then its detail.
    pub fn message(&self) -> (r: String)
        ensures
            r@ == kind_prefix(self@.kind) + self@.detail,
    {
        let (prefix, detail) = match self {
            EvalError::UndefinedVariable(s) => ("Undefined variable: ", s),
            EvalError::TypeError(s) => ("Type error: ", s),
            EvalError::ArgumentError(s) => ("Argument error: ", s),
            EvalError::ValueError(s) => ("Value error: ", s),
            EvalError::Runtime(s) => ("Runtime error: ", s),
        };
        let mut r = String::from_str(prefix);
        push_text(&mut r, detail.as_str());
        r
    }

    /// A copy of this error.
    pub fn copy(&self) -> (r: EvalError)
        ensures
            r@ == self@,
    {
        match self {
            EvalError::UndefinedVariable(s) => EvalError::UndefinedVariable(copy_string(s)),
            EvalError::TypeError(s) => EvalError::TypeError(copy_string(s)),
            EvalError::ArgumentError(s) => EvalError::ArgumentError(copy_string(s)),
            EvalError::ValueError(s) => EvalError::ValueError(copy_string(s)),
            EvalError::Runtime(s) => EvalError::Runtime(copy_string(s)),
        }
    }

    /// The name error about `name`.
    pub fn undefined(name: &str) -> (e: EvalError)
        ensures
            e@ == name_error(name@),
    {
        EvalError::UndefinedVariable(String::from_str(name))
    }

    /// The type error with the given detail.
    pub fn wrong_type(detail: &str) -> (e: EvalError)
        ensures
            e@ == type_error(detail@),
    {
        EvalError::TypeError(String::from_str(detail))
    }

    /// The argument error with the given detail.
    pub fn wrong_arguments(detail: &str) -> (e: EvalError)
        ensures
            e@ == argument_error(detail@),
    {
        EvalError::ArgumentError(String::from_str(detail))
    }

    /// The value error with the given detail.
    pub fn wrong_value(detail: &str) -> (e: EvalError)
        ensures
            e@ == value_error(detail@),
    {
        EvalError::ValueError(String::from_str(detail))
    }

    /// The runtime error with the given detail.
    pub fn failed(detail: &str) -> (e: EvalError)
        ensures
            e@ == runtime_error(detail@),
    {
        EvalError::Runtime(String::from_str(detail))
    }
}

} // verus!
