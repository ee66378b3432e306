//! The standard library: the functions of `std`, and the built-in methods of
//! strings, numbers and arrays.
//!
//! Calling one of them either gives a value at once, or a request to the
//! host together with what is awaited of it, or an error.

use vstd::prelude::*;
use crate::errors::{runtime_error, type_error, value_error, EvalError, EvalErrorView};
use crate::host::{strings, strings_of, Awaiting, HostRequest, RequestView, Rounding};
use crate::number::Number;
use crate::render::{display_all, displayed_all};
use crate::search::{
    find_in, first_occurrence, one_char, replace_in, replaced, split, split_in,
};
use crate::store::{place, position_from, Store, StoreView};
use crate::text::{copy_string, to_chars};
use crate::value::{values_view, HostFn, Value, ValueView};

verus! {

/// The built-in methods.
#[derive(Debug, Clone, Copy, PartialEq, Eq, Structural, Hash)]
pub enum Builtin {
    StringLength,
    StringOrd,
    StringGet,
    StringToInt,
    StringToFloat,
    StringReplace,
    StringSplit,
    StringFind,
    NumberToString,
    NumberRound,
    NumberFloor,
    NumberCeil,
    ArrayLength,
    ArrayPush,
    ArrayPop,
    ArrayGet,
    ArraySet,
    ArrayRemove,
    ArrayFind,
}

/// Names with the built-in method each stands for.
pub type Table = Seq<(Seq<char>, Builtin)>;

/// The methods of strings.
pub open spec fn string_table() -> Table {
    seq![
        ("length"@, Builtin::StringLength),
        ("ord"@, Builtin::StringOrd),
        ("get"@, Builtin::StringGet),
        ("to_int"@, Builtin::StringToInt),
        ("to_float"@, Builtin::StringToFloat),
        ("replace"@, Builtin::StringReplace),
        ("split"@, Builtin::StringSplit),
        ("find"@, Builtin::StringFind),
    ]
}

/// The methods of numbers.
pub open spec fn number_table() -> Table {
    seq![
        ("to_string"@, Builtin::NumberToString),
        ("round"@, Builtin::NumberRound),
        ("floor"@, Builtin::NumberFloor),
        ("ceil"@, Builtin::NumberCeil),
    ]
}

/// The methods of arrays.
pub open spec fn array_table() -> Table {
    seq![
        ("length"@, Builtin::ArrayLength),
        ("remove"@, Builtin::ArrayRemove),
        ("push"@, Builtin::ArrayPush),
        ("set"@, Builtin::ArraySet),
        ("get"@, Builtin::ArrayGet),
        ("pop"@, Builtin::ArrayPop),
        ("find"@, Builtin::ArrayFind),
    ]
}

/// The functions of `std`, by name.
pub open spec fn std_table() -> Seq<(Seq<char>, HostFn)> {
    seq![
        ("time"@, HostFn::Time),
        ("random"@, HostFn::Random),
        ("print"@, HostFn::Print),
        ("println"@, HostFn::Println),
        ("argv"@, HostFn::Argv),
        ("get_line"@, HostFn::GetLine),
        ("write_file"@, HostFn::WriteFile),
        ("read_file"@, HostFn::ReadFile),
        ("exit"@, HostFn::Exit),
    ]
}

/// The views of a table of methods.
pub open spec fn table_view(table: Seq<(String, Builtin)>) -> Table {
    Seq::new(table.len(), |i: int| (table[i].0@, table[i].1))
}

/// The views of the functions of `std`.
pub open spec fn std_view(table: Seq<(String, HostFn)>) -> Seq<(Seq<char>, HostFn)> {
    Seq::new(table.len(), |i: int| (table[i].0@, table[i].1))
}

/// The method that the first entry at or after `from` with the given name
/// stands for.
pub open spec fn method_from(table: Table, name: Seq<char>, from: int) -> Option<Builtin>
    decreases table.len() - from,
{
    if from < 0 || from >= table.len() {
        None
    } else if table[from].0 == name {
        Some(table[from].1)
    } else {
        method_from(table, name, from + 1)
    }
}

/// The built-in method that `name` stands for on the given receiver:
/// strings, numbers and arrays have methods, nothing else has.
pub open spec fn method_of(receiver: ValueView, name: Seq<char>) -> Option<Builtin> {
    match receiver {
        ValueView::String(_) => method_from(string_table(), name, 0),
        ValueView::Number(_) => method_from(number_table(), name, 0),
        ValueView::Array(_) => method_from(array_table(), name, 0),
        _ => None,
    }
}

fn entry(name: &str, method: Builtin) -> (r: (String, Builtin))
    ensures
        r.0@ == name@,
        r.1 == method,
{
    (String::from_str(name), method)
}

/// The methods of strings.
pub fn string_methods() -> (r: Vec<(String, Builtin)>)
    ensures
        table_view(r@) == string_table(),
{
    let mut r: Vec<(String, Builtin)> = Vec::new();
    r.push(entry("length", Builtin::StringLength));
    r.push(entry("ord", Builtin::StringOrd));
    r.push(entry("get", Builtin::StringGet));
    r.push(entry("to_int", Builtin::StringToInt));
    r.push(entry("to_float", Builtin::StringToFloat));
    r.push(entry("replace", Builtin::StringReplace));
    r.push(entry("split", Builtin::StringSplit));
    r.push(entry("find", Builtin::StringFind));
    assert(table_view(r@) =~= string_table());
    r
}

/// The methods of numbers.
pub fn number_methods() -> (r: Vec<(String, Builtin)>)
    ensures
        table_view(r@) == number_table(),
{
    let mut r: Vec<(String, Builtin)> = Vec::new();
    r.push(entry("to_string", Builtin::NumberToString));
    r.push(entry("round", Builtin::NumberRound));
    r.push(entry("floor", Builtin::NumberFloor));
    r.push(entry("ceil", Builtin::NumberCeil));
    assert(table_view(r@) =~= number_table());
    r
}

/// The methods of arrays.
pub fn array_methods() -> (r: Vec<(String, Builtin)>)
    ensures
        table_view(r@) == array_table(),
{
    let mut r: Vec<(String, Builtin)> = Vec::new();
    r.push(entry("length", Builtin::ArrayLength));
    r.push(entry("remove", Builtin::ArrayRemove));
    r.push(entry("push", Builtin::ArrayPush));
    r.push(entry("set", Builtin::ArraySet));
    r.push(entry("get", Builtin::ArrayGet));
    r.push(entry("pop", Builtin::ArrayPop));
    r.push(entry("find", Builtin::ArrayFind));
    assert(table_view(r@) =~= array_table());
    r
}

fn host_entry(name: &str, f: HostFn) -> (r: (String, HostFn))
    ensures
        r.0@ == name@,
        r.1 == f,
{
    (String::from_str(name), f)
}

/// The functions of `std`, by name.
pub fn std_methods() -> (r: Vec<(String, HostFn)>)
    ensures
        std_view(r@) == std_table(),
{
    let mut r: Vec<(String, HostFn)> = Vec::new();
    r.push(host_entry("time", HostFn::Time));
    r.push(host_entry("random", HostFn::Random));
    r.push(host_entry("print", HostFn::Print));
    r.push(host_entry("println", HostFn::Println));
    r.push(host_entry("argv", HostFn::Argv));
    r.push(host_entry("get_line", HostFn::GetLine));
    r.push(host_entry("write_file", HostFn::WriteFile));
    r.push(host_entry("read_file", HostFn::ReadFile));
    r.push(host_entry("exit", HostFn::Exit));
    assert(std_view(r@) =~= std_table());
    r
}

/// The method that `name` stands for in the table.
pub fn find_method(table: &Vec<(String, Builtin)>, name: &String) -> (r: Option<Builtin>)
    ensures
        r == method_from(table_view(table@), name@, 0),
{
    let mut i: usize = 0;
    while i < table.len()
        invariant
            i <= table.len(),
            method_from(table_view(table@), name@, 0) == method_from(
                table_view(table@),
                name@,
                i as int,
            ),
        decreases table.len() - i,
    {
        if table[i].0 == *name {
            return Some(table[i].1);
        }
        i += 1;
    }
    None
}

/// What a call gives, as a mathematical value.
pub enum OutcomeView {
    /// A value.
    Value(ValueView),
    /// A request to the host; the value is what the answer stands for to
    /// one who waits for `awaiting`.
    Ask { request: RequestView, awaiting: Awaiting },
    /// The program ends with the given exit code.
    Exit(i32),
    /// An error.
    Fail(EvalErrorView),
}

/// What a call gives.
#[derive(Debug, PartialEq)]
pub enum Outcome {
    Value(Value),
    Ask { request: HostRequest, awaiting: Awaiting },
    Exit(i32),
    Fail(EvalError),
}

impl View for Outcome {
    type V = OutcomeView;

    open spec fn view(&self) -> OutcomeView {
        match self {
            Outcome::Value(v) => OutcomeView::Value(v@),
            Outcome::Ask { request, awaiting } => OutcomeView::Ask {
                request: request@,
                awaiting: *awaiting,
            },
            Outcome::Exit(code) => OutcomeView::Exit(*code),
            Outcome::Fail(e) => OutcomeView::Fail(e@),
        }
    }
}

/// The error of a call with the wrong number of arguments.
pub open spec fn arity_error() -> OutcomeView {
    OutcomeView::Fail(type_error("Wrong number of arguments"@))
}

/// The place in a sequence of `len` elements that the index `i` stands for
/// where an index counts from the start only: the index itself, if there
/// is such an element.
pub open spec fn slot(len: int, i: int) -> Option<int> {
    if 0 <= i < len {
        Some(i)
    } else {
        None
    }
}

/// The exit code that a number stands for: the number cut to an integer,
/// kept within the 32-bit range.
pub open spec fn exit_code(n: Number) -> i32 {
    if n.truncated() < i32::MIN {
        i32::MIN
    } else if n.truncated() > i32::MAX {
        i32::MAX
    } else {
        n.truncated() as i32
    }
}

/// The number that says where something was found: the index, or -1.
pub open spec fn found(at: Option<int>) -> ValueView {
    match at {
        Some(i) => ValueView::Number(Number::of_count(i as nat)),
        None => ValueView::Number(Number::of_integer(-1)),
    }
}

/// `text` after the replacements that the arguments from the index `from` on
/// ask for, two by two: each first text is replaced by the second. An
/// argument that is no string is a type error.
pub open spec fn replaced_pairs(text: Seq<char>, args: Seq<ValueView>, from: int) -> OutcomeView
    decreases args.len() - from,
{
    if from < 0 || from + 1 >= args.len() {
        OutcomeView::Value(ValueView::String(text))
    } else {
        match (args[from], args[from + 1]) {
            (ValueView::String(a), ValueView::String(b)) => replaced_pairs(
                replaced(text, a, b),
                args,
                from + 2,
            ),
            _ => OutcomeView::Fail(type_error("replace arguments must be strings"@)),
        }
    }
}

/// What calling a method of the string `s` gives. Indices and lengths count
/// characters.
pub open spec fn string_applied(store: StoreView, method: Builtin, s: Seq<char>, args: Seq<ValueView>) -> (
    OutcomeView,
    StoreView,
) {
    match method {
        Builtin::StringLength => if args.len() != 0 {
            (arity_error(), store)
        } else {
            (OutcomeView::Value(ValueView::Number(Number::of_count(s.len()))), store)
        },
        Builtin::StringOrd => if args.len() != 0 {
            (arity_error(), store)
        } else if s.len() == 1 {
            (OutcomeView::Value(ValueView::Number(Number::of_count(s[0] as nat))), store)
        } else {
            (OutcomeView::Fail(value_error("ord() called on string with length != 1"@)), store)
        },
        Builtin::StringGet => if args.len() != 1 {
            (arity_error(), store)
        } else {
            match args[0] {
                ValueView::Number(n) => match place(s.len() as int, n.truncated()) {
                    Some(at) => (OutcomeView::Value(ValueView::String(seq![s[at]])), store),
                    None => (OutcomeView::Fail(value_error("Index out of bounds"@)), store),
                },
                _ => (OutcomeView::Fail(type_error("Index must be a number"@)), store),
            }
        },
        Builtin::StringToInt | Builtin::StringToFloat => if args.len() != 0 {
            (arity_error(), store)
        } else {
            (
                OutcomeView::Ask {
                    request: RequestView::Parse { text: s },
                    awaiting: Awaiting::Conversion,
                },
                store,
            )
        },
        Builtin::StringReplace => if args.len() % 2 != 0 {
            (arity_error(), store)
        } else {
            (replaced_pairs(s, args, 0), store)
        },
        Builtin::StringSplit => if args.len() > 1 {
            (arity_error(), store)
        } else if args.len() == 1 && !(args[0] is String) {
            (OutcomeView::Fail(type_error("split argument must be a string"@)), store)
        } else {
            let by = if args.len() == 1 {
                args[0]->String_0
            } else {
                " "@
            };
            (
                OutcomeView::Value(ValueView::Array(store.arrays.len())),
                StoreView { arrays: store.arrays.push(strings_of(split(s, by))), ..store },
            )
        },
        Builtin::StringFind => if args.len() != 1 {
            (arity_error(), store)
        } else {
            match args[0] {
                ValueView::String(needle) => (
                    OutcomeView::Value(found(first_occurrence(s, needle, 0))),
                    store,
                ),
                _ => (OutcomeView::Fail(type_error("find argument must be a string"@)), store),
            }
        },
        _ => (OutcomeView::Fail(type_error("Method not found"@)), store),
    }
}

/// What calling a method of the number `n` gives.
pub open spec fn number_applied(method: Builtin, n: Number, args: Seq<ValueView>) -> OutcomeView {
    if args.len() != 0 {
        arity_error()
    } else {
        match method {
            Builtin::NumberToString => OutcomeView::Ask {
                request: RequestView::Format { number: n },
                awaiting: Awaiting::Text,
            },
            Builtin::NumberRound => OutcomeView::Ask {
                request: RequestView::Unary { op: Rounding::Round, operand: n },
                awaiting: Awaiting::Number,
            },
            Builtin::NumberFloor => OutcomeView::Ask {
                request: RequestView::Unary { op: Rounding::Floor, operand: n },
                awaiting: Awaiting::Number,
            },
            Builtin::NumberCeil => OutcomeView::Ask {
                request: RequestView::Unary { op: Rounding::Ceil, operand: n },
                awaiting: Awaiting::Number,
            },
            _ => OutcomeView::Fail(type_error("Method not found"@)),
        }
    }
}

/// The store with the array `h` replaced by `items`.
pub open spec fn with_array(store: StoreView, h: nat, items: Seq<ValueView>) -> StoreView {
    StoreView { arrays: store.arrays.update(h as int, items), ..store }
}

/// What calling a method of the array `h` gives, and the store after the
/// call. `get` takes a negative index as counted from the end; for `set`
/// and `remove` a negative index is out of bounds like one that is too
/// large, and the array stays as it is.
pub open spec fn array_applied(store: StoreView, method: Builtin, h: nat, args: Seq<ValueView>) -> (
    OutcomeView,
    StoreView,
) {
    if h >= store.arrays.len() {
        (OutcomeView::Fail(runtime_error("Invalid reference"@)), store)
    } else {
        let items = store.arrays[h as int];
        match method {
            Builtin::ArrayLength => if args.len() != 0 {
                (arity_error(), store)
            } else {
                (OutcomeView::Value(ValueView::Number(Number::of_count(items.len()))), store)
            },
            Builtin::ArrayPush => if args.len() != 1 {
                (arity_error(), store)
            } else {
                (OutcomeView::Value(ValueView::Null), with_array(store, h, items.push(args[0])))
            },
            Builtin::ArrayPop => if args.len() != 0 {
                (arity_error(), store)
            } else if items.len() == 0 {
                (OutcomeView::Fail(value_error("pop() called on empty array"@)), store)
            } else {
                (OutcomeView::Value(items.last()), with_array(store, h, items.drop_last()))
            },
            Builtin::ArrayGet => if args.len() != 1 {
                (arity_error(), store)
            } else {
                match args[0] {
                    ValueView::Number(n) => match place(items.len() as int, n.truncated()) {
                        Some(at) => (OutcomeView::Value(items[at]), store),
                        None => (OutcomeView::Fail(value_error("Index out of bounds"@)), store),
                    },
                    _ => (OutcomeView::Fail(type_error("Index must be a number"@)), store),
                }
            },
            Builtin::ArraySet => if args.len() != 2 {
                (arity_error(), store)
            } else {
                match args[0] {
                    ValueView::Number(n) => match slot(items.len() as int, n.truncated()) {
                        Some(at) => (
                            OutcomeView::Value(ValueView::Null),
                            with_array(store, h, items.update(at, args[1])),
                        ),
                        None => (OutcomeView::Fail(value_error("Index out of bounds"@)), store),
                    },
                    _ => (OutcomeView::Fail(type_error("Index must be a number"@)), store),
                }
            },
            Builtin::ArrayRemove => if args.len() != 1 {
                (arity_error(), store)
            } else {
                match args[0] {
                    ValueView::Number(n) => match slot(items.len() as int, n.truncated()) {
                        Some(at) => (
                            OutcomeView::Value(items[at]),
                            with_array(store, h, items.remove(at)),
                        ),
                        None => (OutcomeView::Fail(value_error("Index out of bounds"@)), store),
                    },
                    _ => (OutcomeView::Fail(type_error("Index must be a number"@)), store),
                }
            },
            Builtin::ArrayFind => if args.len() != 1 {
                (arity_error(), store)
            } else {
                (OutcomeView::Value(found(position_from(items, args[0], 0))), store)
            },
            _ => (OutcomeView::Fail(type_error("Method not found"@)), store),
        }
    }
}

/// What calling the built-in method `method` on `receiver` with the given
/// arguments gives, and the store after the call. A method called on a
/// receiver of another kind than its own is a type error.
pub open spec fn applied(store: StoreView, method: Builtin, receiver: ValueView, args: Seq<ValueView>) -> (
    OutcomeView,
    StoreView,
) {
    match receiver {
        ValueView::String(s) => string_applied(store, method, s, args),
        ValueView::Number(n) => (number_applied(method, n, args), store),
        ValueView::Array(h) => array_applied(store, method, h, args),
        _ => (OutcomeView::Fail(type_error("Method not found"@)), store),
    }
}

/// What calling the method `name` of `receiver` gives, and the store after
/// the call. A name that is no method of the receiver is a type error.
pub open spec fn method_called(
    store: StoreView,
    receiver: ValueView,
    name: Seq<char>,
    args: Seq<ValueView>,
) -> (
    OutcomeView,
    StoreView,
) {
    match method_of(receiver, name) {
        Some(method) => applied(store, method, receiver, args),
        None => (OutcomeView::Fail(type_error("Method not found: "@ + name)), store),
    }
}

/// What calling a function of `std` gives.
pub open spec fn host_called(store: StoreView, f: HostFn, args: Seq<ValueView>) -> OutcomeView {
    match f {
        HostFn::Time => OutcomeView::Ask { request: RequestView::Time, awaiting: Awaiting::Number },
        HostFn::Random => OutcomeView::Ask {
            request: RequestView::Random,
            awaiting: Awaiting::Number,
        },
        HostFn::Print => OutcomeView::Ask {
            request: RequestView::Write { pieces: displayed_all(store, args, 0), newline: false },
            awaiting: Awaiting::Nothing,
        },
        HostFn::Println => OutcomeView::Ask {
            request: RequestView::Write { pieces: displayed_all(store, args, 0), newline: true },
            awaiting: Awaiting::Nothing,
        },
        HostFn::Argv => OutcomeView::Ask { request: RequestView::Argv, awaiting: Awaiting::Texts },
        HostFn::GetLine => OutcomeView::Ask {
            request: RequestView::ReadLine,
            awaiting: Awaiting::TextOrNull,
        },
        HostFn::ReadFile => if args.len() >= 1 && args[0] is String {
            OutcomeView::Ask {
                request: RequestView::ReadFile { path: args[0]->String_0 },
                awaiting: Awaiting::TextOrNull,
            }
        } else {
            OutcomeView::Fail(type_error("read_file file path must be a string"@))
        },
        HostFn::WriteFile => if args.len() >= 2 && args[0] is String && args[1] is String {
            OutcomeView::Ask {
                request: RequestView::WriteFile {
                    path: args[0]->String_0,
                    contents: args[1]->String_0,
                },
                awaiting: Awaiting::Nothing,
            }
        } else {
            OutcomeView::Fail(type_error("write_file arguments must be strings"@))
        },
        HostFn::Exit => if args.len() >= 1 && args[0] is Number {
            OutcomeView::Exit(exit_code(args[0]->Number_0))
        } else {
            OutcomeView::Fail(type_error("exit() argument must be a number"@))
        },
    }
}

fn fail_type(detail: &str) -> (r: Outcome)
    ensures
        r@ == OutcomeView::Fail(type_error(detail@)),
{
    Outcome::Fail(EvalError::wrong_type(detail))
}

fn fail_value(detail: &str) -> (r: Outcome)
    ensures
        r@ == OutcomeView::Fail(value_error(detail@)),
{
    Outcome::Fail(EvalError::wrong_value(detail))
}

fn wrong_arity() -> (r: Outcome)
    ensures
        r@ == arity_error(),
{
    fail_type("Wrong number of arguments")
}

/// The place in a sequence of `len` elements that the index `i` stands for
/// where an index counts from the start only.
pub fn to_slot(len: usize, i: i64) -> (r: Option<usize>)
    ensures
        match r {
            Some(at) => slot(len as int, i as int) == Some(at as int),
            None => slot(len as int, i as int) is None,
        },
{
    if i >= 0 && (i as u64) < (len as u64) {
        Some(i as usize)
    } else {
        None
    }
}

/// The exit code that a number stands for.
pub fn to_exit_code(n: Number) -> (r: i32)
    ensures
        r == exit_code(n),
{
    let t = n.to_integer();
    if t < i32::MIN as i64 {
        i32::MIN
    } else if t > i32::MAX as i64 {
        i32::MAX
    } else {
        t as i32
    }
}

/// The place in a sequence of `len` elements that the index `i` stands for:
/// a negative index counts from the end.
pub fn to_place(len: usize, i: i64) -> (r: Option<usize>)
    ensures
        match r {
            Some(at) => place(len as int, i as int) == Some(at as int),
            None => place(len as int, i as int) is None,
        },
{
    if i >= 0 {
        if (i as u64) < (len as u64) {
            Some(i as usize)
        } else {
            None
        }
    } else {
        let back: u64 = if i == i64::MIN {
            0x8000_0000_0000_0000
        } else {
            (0 - i) as u64
        };
        if back <= len as u64 {
            Some((len as u64 - back) as usize)
        } else {
            None
        }
    }
}

fn found_at(at: Option<usize>) -> (r: Value)
    ensures
        r@ == found(
            match at {
                Some(i) => Some(i as int),
                None => None,
            },
        ),
{
    match at {
        Some(i) => Value::Number(Number::from_count(i)),
        None => Value::Number(Number::from_integer(-1)),
    }
}

fn replace_pairs(start: String, args: &Vec<Value>) -> (r: Outcome)
    ensures
        r@ == replaced_pairs(start@, values_view(args@), 0),
{
    let ghost first = start@;
    let mut text = start;
    let mut i: usize = 0;
    while i < args.len() && i + 1 < args.len()
        invariant
            i <= args.len(),
            first == start@,
            replaced_pairs(first, values_view(args@), 0) == replaced_pairs(
                text@,
                values_view(args@),
                i as int,
            ),
        decreases args.len() - i,
    {
        assert(values_view(args@)[i as int] == args@[i as int]@);
        assert(values_view(args@)[i + 1] == args@[i + 1]@);
        match (&args[i], &args[i + 1]) {
            (Value::String(a), Value::String(b)) => {
                let chars = to_chars(text.as_str());
                let from = to_chars(a.as_str());
                let to = to_chars(b.as_str());
                text = replace_in(&chars, &from, &to);
            },
            _ => {
                assert(!(values_view(args@)[i as int] is String && values_view(args@)[i + 1] is String));
                assert(replaced_pairs(text@, values_view(args@), i as int) == OutcomeView::Fail(
                    type_error("replace arguments must be strings"@),
                ));
                return fail_type("replace arguments must be strings");
            },
        }
        i += 2;
    }
    Outcome::Value(Value::String(text))
}

/// Calls a method of the string `s`.
pub fn apply_string(store: &mut Store, method: Builtin, s: &String, args: &Vec<Value>) -> (r:
    Outcome)
    ensures
        (r@, final(store)@) == string_applied(old(store)@, method, s@, values_view(args@)),
{
    assert(forall|i: int| 0 <= i < args.len() ==> values_view(args@)[i] == args@[i]@);
    match method {
        Builtin::StringLength => {
            if args.len() != 0 {
                return wrong_arity();
            }
            Outcome::Value(Value::Number(Number::from_count(s.as_str().unicode_len())))
        },
        Builtin::StringOrd => {
            if args.len() != 0 {
                return wrong_arity();
            }
            let chars = to_chars(s.as_str());
            if chars.len() == 1 {
                Outcome::Value(Value::Number(Number::from_char(chars[0])))
            } else {
                fail_value("ord() called on string with length != 1")
            }
        },
        Builtin::StringGet => {
            if args.len() != 1 {
                return wrong_arity();
            }
            match &args[0] {
                Value::Number(n) => {
                    let chars = to_chars(s.as_str());
                    match to_place(chars.len(), n.to_integer()) {
                        Some(at) => Outcome::Value(Value::String(one_char(chars[at]))),
                        None => fail_value("Index out of bounds"),
                    }
                },
                _ => fail_type("Index must be a number"),
            }
        },
        Builtin::StringToInt | Builtin::StringToFloat => {
            if args.len() != 0 {
                return wrong_arity();
            }
            Outcome::Ask {
                request: HostRequest::Parse { text: copy_string(s) },
                awaiting: Awaiting::Conversion,
            }
        },
        Builtin::StringReplace => {
            if args.len() % 2 != 0 {
                return wrong_arity();
            }
            replace_pairs(copy_string(s), args)
        },
        Builtin::StringSplit => {
            if args.len() > 1 {
                return wrong_arity();
            }
            let by = if args.len() == 1 {
                match &args[0] {
                    Value::String(t) => to_chars(t.as_str()),
                    _ => {
                        return fail_type("split argument must be a string");
                    },
                }
            } else {
                proof {
                    reveal_strlit(" ");
                }
                let mut v: Vec<char> = Vec::new();
                v.push(' ');
                assert(v@ =~= " "@);
                v
            };
            let chars = to_chars(s.as_str());
            let parts = split_in(&chars, &by);
            let h = store.new_array(strings(parts));
            Outcome::Value(Value::Array(h))
        },
        Builtin::StringFind => {
            if args.len() != 1 {
                return wrong_arity();
            }
            match &args[0] {
                Value::String(t) => {
                    let chars = to_chars(s.as_str());
                    let needle = to_chars(t.as_str());
                    Outcome::Value(found_at(find_in(&chars, &needle)))
                },
                _ => fail_type("find argument must be a string"),
            }
        },
        _ => fail_type("Method not found"),
    }
}

/// Calls a method of the number `n`.
pub fn apply_number(method: Builtin, n: Number, args: &Vec<Value>) -> (r: Outcome)
    ensures
        r@ == number_applied(method, n, values_view(args@)),
{
    if args.len() != 0 {
        return wrong_arity();
    }
    match method {
        Builtin::NumberToString => Outcome::Ask {
            request: HostRequest::Format { number: n },
            awaiting: Awaiting::Text,
        },
        Builtin::NumberRound => Outcome::Ask {
            request: HostRequest::Unary { op: Rounding::Round, operand: n },
            awaiting: Awaiting::Number,
        },
        Builtin::NumberFloor => Outcome::Ask {
            request: HostRequest::Unary { op: Rounding::Floor, operand: n },
            awaiting: Awaiting::Number,
        },
        Builtin::NumberCeil => Outcome::Ask {
            request: HostRequest::Unary { op: Rounding::Ceil, operand: n },
            awaiting: Awaiting::Number,
        },
        _ => fail_type("Method not found"),
    }
}

/// Calls a method of the array `h`.
pub fn apply_array(store: &mut Store, method: Builtin, h: usize, args: &Vec<Value>) -> (r:
    Outcome)
    ensures
        (r@, final(store)@) == array_applied(old(store)@, method, h as nat, values_view(args@)),
{
    assert(forall|i: int| 0 <= i < args.len() ==> values_view(args@)[i] == args@[i]@);
    let len = match store.array_len(h) {
        Some(n) => n,
        None => {
            return Outcome::Fail(EvalError::failed("Invalid reference"));
        },
    };
    match method {
        Builtin::ArrayLength => {
            if args.len() != 0 {
                return wrong_arity();
            }
            Outcome::Value(Value::Number(Number::from_count(len)))
        },
        Builtin::ArrayPush => {
            if args.len() != 1 {
                return wrong_arity();
            }
            store.array_push(h, args[0].copy());
            Outcome::Value(Value::Null)
        },
        Builtin::ArrayPop => {
            if args.len() != 0 {
                return wrong_arity();
            }
            match store.array_pop(h) {
                Some(v) => Outcome::Value(v),
                None => fail_value("pop() called on empty array"),
            }
        },
        Builtin::ArrayGet => {
            if args.len() != 1 {
                return wrong_arity();
            }
            match &args[0] {
                Value::Number(n) => match to_place(len, n.to_integer()) {
                    Some(at) => match store.array_get(h, at) {
                        Some(v) => Outcome::Value(v),
                        None => fail_value("Index out of bounds"),
                    },
                    None => fail_value("Index out of bounds"),
                },
                _ => fail_type("Index must be a number"),
            }
        },
        Builtin::ArraySet => {
            if args.len() != 2 {
                return wrong_arity();
            }
            match &args[0] {
                Value::Number(n) => match to_slot(len, n.to_integer()) {
                    Some(at) => {
                        if store.array_set(h, at, args[1].copy()) {
                            Outcome::Value(Value::Null)
                        } else {
                            fail_value("Index out of bounds")
                        }
                    },
                    None => fail_value("Index out of bounds"),
                },
                _ => fail_type("Index must be a number"),
            }
        },
        Builtin::ArrayRemove => {
            if args.len() != 1 {
                return wrong_arity();
            }
            match &args[0] {
                Value::Number(n) => match to_slot(len, n.to_integer()) {
                    Some(at) => match store.array_remove(h, at) {
                        Some(v) => Outcome::Value(v),
                        None => fail_value("Index out of bounds"),
                    },
                    None => fail_value("Index out of bounds"),
                },
                _ => fail_type("Index must be a number"),
            }
        },
        Builtin::ArrayFind => {
            if args.len() != 1 {
                return wrong_arity();
            }
            Outcome::Value(found_at(store.array_find(h, &args[0])))
        },
        _ => fail_type("Method not found"),
    }
}

/// Calls the built-in method `method` on `receiver`.
pub fn apply(store: &mut Store, method: Builtin, receiver: &Value, args: &Vec<Value>) -> (r:
    Outcome)
    ensures
        (r@, final(store)@) == applied(old(store)@, method, receiver@, values_view(args@)),
{
    match receiver {
        Value::String(s) => apply_string(store, method, s, args),
        Value::Number(n) => apply_number(method, *n, args),
        Value::Array(h) => apply_array(store, method, *h, args),
        _ => fail_type("Method not found"),
    }
}

/// The tables of the built-in methods.
pub struct Methods {
    string_methods: Vec<(String, Builtin)>,
    number_methods: Vec<(String, Builtin)>,
    array_methods: Vec<(String, Builtin)>,
}

/// What the tables hold: the names and methods of strings, of numbers and
/// of arrays, each in the order in which they are looked up.
pub struct MethodsView {
    pub strings: Table,
    pub numbers: Table,
    pub arrays: Table,
}

/// The methods that the language has.
pub open spec fn built_in() -> MethodsView {
    MethodsView { strings: string_table(), numbers: number_table(), arrays: array_table() }
}

impl View for Methods {
    type V = MethodsView;

    closed spec fn view(&self) -> MethodsView {
        MethodsView {
            strings: table_view(self.string_methods@),
            numbers: table_view(self.number_methods@),
            arrays: table_view(self.array_methods@),
        }
    }
}

impl Methods {
    /// The tables hold the built-in methods.
    #[verifier::type_invariant]
    spec fn wf(&self) -> bool {
        self@ == built_in()
    }

    /// The tables of the built-in methods: every method of strings, of
    /// numbers and of arrays under its name.
    pub fn new() -> (m: Methods)
        ensures
            m@ == built_in(),
    {
        Methods {
            string_methods: string_methods(),
            number_methods: number_methods(),
            array_methods: array_methods(),
        }
    }

    /// Calls the method `name` of `receiver`.
    pub fn call_method(
        &self,
        store: &mut Store,
        receiver: &Value,
        name: &String,
        args: &Vec<Value>,
    ) -> (r: Outcome)
        ensures
            (r@, final(store)@) == method_called(
                old(store)@,
                receiver@,
                name@,
                values_view(args@),
            ),
    {
        proof {
            use_type_invariant(self);
        }
        let method = match receiver {
            Value::String(_) => find_method(&self.string_methods, name),
            Value::Number(_) => find_method(&self.number_methods, name),
            Value::Array(_) => find_method(&self.array_methods, name),
            _ => None,
        };
        match method {
            Some(m) => apply(store, m, receiver, args),
            None => {
                let mut detail = String::from_str("Method not found: ");
                crate::text::push_text(&mut detail, name.as_str());
                Outcome::Fail(EvalError::TypeError(detail))
            },
        }
    }
}

/// Calls a function of `std`.
pub fn call_host(store: &Store, f: HostFn, args: &Vec<Value>) -> (r: Outcome)
    ensures
        r@ == host_called(store@, f, values_view(args@)),
{
    assert(forall|i: int| 0 <= i < args.len() ==> values_view(args@)[i] == args@[i]@);
    match f {
        HostFn::Time => Outcome::Ask { request: HostRequest::Time, awaiting: Awaiting::Number },
        HostFn::Random => Outcome::Ask { request: HostRequest::Random, awaiting: Awaiting::Number },
        HostFn::Print => Outcome::Ask {
            request: HostRequest::Write { pieces: display_all(store, args), newline: false },
            awaiting: Awaiting::Nothing,
        },
        HostFn::Println => Outcome::Ask {
            request: HostRequest::Write { pieces: display_all(store, args), newline: true },
            awaiting: Awaiting::Nothing,
        },
        HostFn::Argv => Outcome::Ask { request: HostRequest::Argv, awaiting: Awaiting::Texts },
        HostFn::GetLine => Outcome::Ask {
            request: HostRequest::ReadLine,
            awaiting: Awaiting::TextOrNull,
        },
        HostFn::ReadFile => {
            if args.len() >= 1 {
                match &args[0] {
                    Value::String(path) => {
                        return Outcome::Ask {
                            request: HostRequest::ReadFile { path: copy_string(path) },
                            awaiting: Awaiting::TextOrNull,
                        };
                    },
                    _ => {},
                }
            }
            fail_type("read_file file path must be a string")
        },
        HostFn::WriteFile => {
            if args.len() >= 2 {
                match (&args[0], &args[1]) {
                    (Value::String(path), Value::String(contents)) => {
                        return Outcome::Ask {
                            request: HostRequest::WriteFile {
                                path: copy_string(path),
                                contents: copy_string(contents),
                            },
                            awaiting: Awaiting::Nothing,
                        };
                    },
                    _ => {},
                }
            }
            fail_type("write_file arguments must be strings")
        },
        HostFn::Exit => {
            if args.len() >= 1 {
                match &args[0] {
                    Value::Number(n) => {
                        return Outcome::Exit(to_exit_code(*n));
                    },
                    _ => {},
                }
            }
            fail_type("exit() argument must be a number")
        },
    }
}

} // verus!
