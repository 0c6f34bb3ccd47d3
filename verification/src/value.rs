//! Structured values: what crosses the boundary besides plain numbers.

use vstd::prelude::*;

verus! {

/// A self-describing value.
#[derive(Debug, PartialEq, Eq)]
pub enum Value {
    Null,
    Int(u64),
    String(String),
    Bytes(Vec<u8>),
    Array(Vec<Value>),
}

/// The mathematical content of a [`Value`].
pub ghost enum ValueView {
    Null,
    Int(u64),
    String(Seq<char>),
    Bytes(Seq<u8>),
    Array(Seq<ValueView>),
}

/// The mathematical content of `value`.
pub open spec fn content(value: Value) -> ValueView
    decreases value,
{
    match value {
        Value::Null => ValueView::Null,
        Value::Int(n) => ValueView::Int(n),
        Value::String(s) => ValueView::String(s@),
        Value::Bytes(b) => ValueView::Bytes(b@),
        Value::Array(items) => ValueView::Array(
            Seq::new(
                items@.len(),
                |i: int|
                    if 0 <= i < items@.len() {
                        content(items@[i])
                    } else {
                        ValueView::Null
                    },
            ),
        ),
    }
}

impl View for Value {
    type V = ValueView;

    open spec fn view(&self) -> ValueView {
        content(*self)
    }
}

/// The mathematical contents of a list of values, in their order.
pub open spec fn views(items: Seq<Value>) -> Seq<ValueView> {
    Seq::new(
        items.len(),
        |i: int|
            if 0 <= i < items.len() {
                items[i].view()
            } else {
                ValueView::Null
            },
    )
}

impl Value {
    /// The bytes of a byte string; none for a value of another kind.
    pub fn as_bytes(&self) -> (bytes: Option<&Vec<u8>>)
        ensures
            bytes is Some <==> self@ is Bytes,
            bytes matches Some(b) ==> self@ == ValueView::Bytes(b@),
    {
        match self {
            Value::Bytes(bytes) => Some(bytes),
            _ => None,
        }
    }

    /// The text of a string; none for a value of another kind.
    pub fn as_string(&self) -> (string: Option<&String>)
        ensures
            string is Some <==> self@ is String,
            string matches Some(s) ==> self@ == ValueView::String(s@),
    {
        match self {
            Value::String(string) => Some(string),
            _ => None,
        }
    }

    /// The items of an array, in their order; none for a value of another
    /// kind.
    pub fn as_array(&self) -> (array: Option<&Vec<Value>>)
        ensures
            array is Some <==> self@ is Array,
            array matches Some(items) ==> self@ == ValueView::Array(views(items@)),
    {
        match self {
            Value::Array(items) => {
                assert(self@->Array_0 =~= views(items@));
                Some(items)
            },
            _ => None,
        }
    }

    /// The number of an integer; none for a value of another kind.
    pub fn as_int(&self) -> (number: Option<u64>)
        ensures
            number is Some <==> self@ is Int,
            number matches Some(n) ==> self@ == ValueView::Int(n),
    {
        match self {
            Value::Int(n) => Some(*n),
            _ => None,
        }
    }

    /// A decoded payload viewed as opaque bytes. The payload has to be a
    /// byte string.
    pub fn into_bytes(self) -> (bytes: Vec<u8>)
        requires
            self@ is Bytes,
        ensures
            self@ == ValueView::Bytes(bytes@),
    {
        match self {
            Value::Bytes(bytes) => bytes,
            _ => Vec::new(),
        }
    }

    /// A decoded payload viewed as text. The payload has to be a string.
    pub fn into_string(self) -> (string: String)
        requires
            self@ is String,
        ensures
            self@ == ValueView::String(string@),
    {
        match self {
            Value::String(string) => string,
            _ => String::new(),
        }
    }

    /// A decoded payload viewed as a list of values. The payload has to be
    /// an array.
    pub fn into_array(self) -> (items: Vec<Value>)
        requires
            self@ is Array,
        ensures
            self@ == ValueView::Array(views(items@)),
    {
        match self {
            Value::Array(items) => {
                assert(self@->Array_0 =~= views(items@));
                items
            },
            _ => Vec::new(),
        }
    }
}

} // verus!
