//! The values of the language.
//!
//! Numbers, booleans, strings and null are plain values. An array, an object
//! and a function are shared: the value is a reference into the store, and
//! every holder of the reference sees what any of them changes.

use vstd::prelude::*;
use crate::number::Number;
use crate::text::copy_string;

verus! {

/// The functions that the host provides under `std`.
#[derive(Debug, Clone, Copy, PartialEq, Eq, Structural, Hash)]
pub enum HostFn {
    Time,
    Random,
    Print,
    Println,
    Argv,
    GetLine,
    ReadFile,
    WriteFile,
    Exit,
}

/// A value, as a mathematical value.
pub enum ValueView {
    Number(Number),
    Boolean(bool),
    String(Seq<char>),
    Null,
    /// The array at the given place of the store.
    Array(nat),
    /// The object at the given place of the store.
    Object(nat),
    /// The closure at the given place of the table of closures.
    Function(nat),
    HostFunction(HostFn),
    /// A built-in method of `receiver`, to be called next.
    Method { receiver: Box<ValueView>, name: Seq<char> },
}

/// A value.
#[derive(Debug, PartialEq)]
pub enum Value {
    Number(Number),
    Boolean(bool),
    String(String),
    Null,
    Array(usize),
    Object(usize),
    Function(usize),
    HostFunction(HostFn),
    Method { receiver: Box<Value>, name: String },
}

/// Whether a value counts as true: a boolean by its value, a number unless
/// it is zero, a string unless it is empty, null never, anything else always.
pub open spec fn truthy(v: ValueView) -> bool {
    match v {
        ValueView::Boolean(b) => b,
        ValueView::Number(n) => n.truthy(),
        ValueView::String(s) => s.len() > 0,
        ValueView::Null => false,
        _ => true,
    }
}

/// Whether two values are equal: values of one kind that are the same
/// number, boolean, text or reference; null is equal to null.
pub open spec fn same_value(a: ValueView, b: ValueView) -> bool
    decreases a,
{
    match (a, b) {
        (ValueView::Number(x), ValueView::Number(y)) => x.same(y),
        (ValueView::Boolean(x), ValueView::Boolean(y)) => x == y,
        (ValueView::String(x), ValueView::String(y)) => x == y,
        (ValueView::Null, ValueView::Null) => true,
        (ValueView::Array(x), ValueView::Array(y)) => x == y,
        (ValueView::Object(x), ValueView::Object(y)) => x == y,
        (ValueView::Function(x), ValueView::Function(y)) => x == y,
        (ValueView::HostFunction(x), ValueView::HostFunction(y)) => x == y,
        (
            ValueView::Method { receiver: r1, name: n1 },
            ValueView::Method { receiver: r2, name: n2 },
        ) => n1 == n2 && same_value(*r1, *r2),
        _ => false,
    }
}

/// The kinds of values.
#[derive(Debug, Clone, Copy, PartialEq, Eq, Structural, Hash)]
pub enum ValueType {
    Number,
    Boolean,
    String,
    Null,
    Array,
    Object,
    Function,
    Method,
}

/// The kind of a value. A function of the host is a function.
pub open spec fn kind_of(v: ValueView) -> ValueType {
    match v {
        ValueView::Number(_) => ValueType::Number,
        ValueView::Boolean(_) => ValueType::Boolean,
        ValueView::String(_) => ValueType::String,
        ValueView::Null => ValueType::Null,
        ValueView::Array(_) => ValueType::Array,
        ValueView::Object(_) => ValueType::Object,
        ValueView::Function(_) => ValueType::Function,
        ValueView::HostFunction(_) => ValueType::Function,
        ValueView::Method { .. } => ValueType::Method,
    }
}

/// The name of the kind of a value.
pub open spec fn kind_name(v: ValueView) -> Seq<char> {
    match v {
        ValueView::Number(_) => "number"@,
        ValueView::Boolean(_) => "boolean"@,
        ValueView::String(_) => "string"@,
        ValueView::Null => "null"@,
        ValueView::Array(_) => "array"@,
        ValueView::Object(_) => "object"@,
        ValueView::Function(_) => "function"@,
        ValueView::HostFunction(_) => "function"@,
        ValueView::Method { .. } => "method"@,
    }
}

impl Value {
    /// The mathematical value of this value.
    pub open spec fn model(&self) -> ValueView
        decreases self,
    {
        match self {
            Value::Number(n) => ValueView::Number(*n),
            Value::Boolean(b) => ValueView::Boolean(*b),
            Value::String(s) => ValueView::String(s@),
            Value::Null => ValueView::Null,
            Value::Array(h) => ValueView::Array(*h as nat),
            Value::Object(h) => ValueView::Object(*h as nat),
            Value::Function(h) => ValueView::Function(*h as nat),
            Value::HostFunction(f) => ValueView::HostFunction(*f),
            Value::Method { receiver, name } => ValueView::Method {
                receiver: Box::new(receiver.model()),
                name: name@,
            },
        }
    }

    /// A copy of this value. The copy of a reference refers to the same
    /// array, object or function.
    pub fn copy(&self) -> (r: Value)
        ensures
            r@ == self@,
        decreases self,
    {
        match self {
            Value::Number(n) => Value::Number(*n),
            Value::Boolean(b) => Value::Boolean(*b),
            Value::String(s) => Value::String(copy_string(s)),
            Value::Null => Value::Null,
            Value::Array(h) => Value::Array(*h),
            Value::Object(h) => Value::Object(*h),
            Value::Function(h) => Value::Function(*h),
            Value::HostFunction(f) => Value::HostFunction(*f),
            Value::Method { receiver, name } => Value::Method {
                receiver: Box::new(receiver.copy()),
                name: copy_string(name),
            },
        }
    }

    pub fn is_truthy(&self) -> (r: bool)
        ensures
            r == truthy(self@),
    {
        match self {
            Value::Boolean(b) => *b,
            Value::Number(n) => n.is_truthy(),
            Value::String(s) => s.as_str().unicode_len() > 0,
            Value::Null => false,
            _ => true,
        }
    }

    /// Whether two values are equal.
    pub fn equals(&self, other: &Value) -> (r: bool)
        ensures
            r == same_value(self@, other@),
        decreases self,
    {
        match (self, other) {
            (Value::Number(x), Value::Number(y)) => x.equals(*y),
            (Value::Boolean(x), Value::Boolean(y)) => *x == *y,
            (Value::String(x), Value::String(y)) => *x == *y,
            (Value::Null, Value::Null) => true,
            (Value::Array(x), Value::Array(y)) => *x == *y,
            (Value::Object(x), Value::Object(y)) => *x == *y,
            (Value::Function(x), Value::Function(y)) => *x == *y,
            (Value::HostFunction(x), Value::HostFunction(y)) => *x == *y,
            (
                Value::Method { receiver: r1, name: n1 },
                Value::Method { receiver: r2, name: n2 },
            ) => *n1 == *n2 && r1.equals(r2),
            _ => false,
        }
    }

    /// The kind of this value.
    pub fn value_type(&self) -> (r: ValueType)
        ensures
            r == kind_of(self@),
    {
        match self {
            Value::Number(_) => ValueType::Number,
            Value::Boolean(_) => ValueType::Boolean,
            Value::String(_) => ValueType::String,
            Value::Null => ValueType::Null,
            Value::Array(_) => ValueType::Array,
            Value::Object(_) => ValueType::Object,
            Value::Function(_) => ValueType::Function,
            Value::HostFunction(_) => ValueType::Function,
            Value::Method { .. } => ValueType::Method,
        }
    }

    /// The name of the kind of this value.
    pub fn get_type(&self) -> (r: String)
        ensures
            r@ == kind_name(self@),
    {
        match self {
            Value::Number(_) => String::from_str("number"),
            Value::Boolean(_) => String::from_str("boolean"),
            Value::String(_) => String::from_str("string"),
            Value::Null => String::from_str("null"),
            Value::Array(_) => String::from_str("array"),
            Value::Object(_) => String::from_str("object"),
            Value::Function(_) => String::from_str("function"),
            Value::HostFunction(_) => String::from_str("function"),
            Value::Method { .. } => String::from_str("method"),
        }
    }
}

impl View for Value {
    type V = ValueView;

    open spec fn view(&self) -> ValueView {
        self.model()
    }
}

/// The views of a sequence of values.
pub open spec fn values_view(values: Seq<Value>) -> Seq<ValueView> {
    Seq::new(values.len(), |i: int| values[i]@)
}

/// The views of a sequence of names with their values.
pub open spec fn fields_view(fields: Seq<(String, Value)>) -> Seq<(Seq<char>, ValueView)> {
    Seq::new(fields.len(), |i: int| (fields[i].0@, fields[i].1@))
}

/// The texts of a sequence of strings.
pub open spec fn texts_view(texts: Seq<String>) -> Seq<Seq<char>> {
    Seq::new(texts.len(), |i: int| texts[i]@)
}

pub proof fn values_view_push(values: Seq<Value>, value: Value)
    ensures
        values_view(values.push(value)) == values_view(values).push(value@),
{
    assert(values_view(values.push(value)) =~= values_view(values).push(value@));
}

pub proof fn values_view_update(values: Seq<Value>, i: int, value: Value)
    requires
        0 <= i < values.len(),
    ensures
        values_view(values.update(i, value)) == values_view(values).update(i, value@),
{
    assert(values_view(values.update(i, value)) =~= values_view(values).update(i, value@));
}

pub proof fn fields_view_push(fields: Seq<(String, Value)>, name: String, value: Value)
    ensures
        fields_view(fields.push((name, value))) == fields_view(fields).push((name@, value@)),
{
    assert(fields_view(fields.push((name, value))) =~= fields_view(fields).push(
        (name@, value@),
    ));
}

pub proof fn fields_view_update(fields: Seq<(String, Value)>, i: int, name: String, value: Value)
    requires
        0 <= i < fields.len(),
    ensures
        fields_view(fields.update(i, (name, value))) == fields_view(fields).update(
            i,
            (name@, value@),
        ),
{
    assert(fields_view(fields.update(i, (name, value))) =~= fields_view(fields).update(
        i,
        (name@, value@),
    ));
}

pub proof fn texts_view_push(texts: Seq<String>, text: String)
    ensures
        texts_view(texts.push(text)) == texts_view(texts).push(text@),
{
    assert(texts_view(texts.push(text)) =~= texts_view(texts).push(text@));
}

/// A copy of a vector of values.
pub fn copy_values(values: &Vec<Value>) -> (r: Vec<Value>)
    ensures
        values_view(r@) == values_view(values@),
{
    let mut r: Vec<Value> = Vec::new();
    let mut i: usize = 0;
    while i < values.len()
        invariant
            i <= values.len(),
            r.len() == i,
            forall|j: int| 0 <= j < i ==> r@[j]@ == values@[j]@,
        decreases values.len() - i,
    {
        r.push(values[i].copy());
        i += 1;
    }
    assert(values_view(r@) =~= values_view(values@));
    r
}

} // verus!
