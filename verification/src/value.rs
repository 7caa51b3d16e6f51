//! The generic structured value used for attributes and meta information:
//! null, booleans, numbers, strings, arrays, and ordered objects whose keys
//! are validated member names.

use vstd::prelude::*;

use crate::collections::KeyMap;
use crate::key::Key;

verus! {

/// Declares `serde_json::Number` so that values of it can be carried through
/// the library. The library never reads inside a number; it stores and
/// returns numbers unchanged.
#[verifier::external_type_specification]
#[verifier::external_body]
pub struct ExNumber(serde_json::Number);

/// A wire number, stored exactly as the wire codec represents it. The
/// library never reads inside it.
#[derive(Debug, PartialEq)]
pub struct Num(pub serde_json::Number);

impl DeepView for Num {
    type V = serde_json::Number;

    open spec fn deep_view(&self) -> serde_json::Number {
        self.0
    }
}

impl View for Num {
    type V = serde_json::Number;

    open spec fn view(&self) -> serde_json::Number {
        self.0
    }
}

impl Clone for Num {
    fn clone(&self) -> (r: Self)
        ensures
            r@ == self@,
    {
        Num(clone_number(&self.0))
    }
}

/// Relies on `serde_json::Number::clone`, a derived clone that returns its
/// receiver's value unchanged.
#[verifier::external_body]
pub(crate) fn clone_number(n: &serde_json::Number) -> (r: serde_json::Number)
    ensures
        r == *n,
{
    n.clone()
}

/// The mathematical model of a [`Value`]: strings are character sequences,
/// arrays are sequences, and objects are sequences of name-value pairs in
/// insertion order. Numbers stay abstract.
#[verifier::ext_equal]
pub enum ValueView {
    Null,
    Array(Seq<ValueView>),
    Bool(bool),
    Number(serde_json::Number),
    Object(Seq<(Seq<char>, ValueView)>),
    String(Seq<char>),
}

/// Represents any valid document member value.
///
/// Object keys are guaranteed to be valid member names, and object member
/// order is insertion order.
#[derive(Debug, PartialEq)]
pub enum Value {
    /// A null value.
    Null,
    /// An array of values.
    Array(Vec<Value>),
    /// A boolean value.
    Bool(bool),
    /// An integer or floating point value, stored exactly as the wire codec
    /// represents it.
    Number(Num),
    /// An object: a hash table with consistent order whose keys are valid
    /// member names.
    Object(KeyMap<Value>),
    /// A string value.
    String(String),
}

/// The model of a value.
pub open spec fn value_view(v: Value) -> ValueView
    decreases v, 0int,
{
    match v {
        Value::Null => ValueView::Null,
        Value::Array(_) => ValueView::Array(values_view(v->Array_0@)),
        Value::Bool(b) => ValueView::Bool(b),
        Value::Number(n) => ValueView::Number(n.0),
        Value::Object(_) => ValueView::Object(entry_views(v->Object_0.entries@)),
        Value::String(s) => ValueView::String(s@),
    }
}

/// The models of a sequence of values.
pub open spec fn values_view(s: Seq<Value>) -> Seq<ValueView>
    decreases s, 1int,
{
    if s.len() == 0 {
        Seq::empty()
    } else {
        seq![value_view(s[0])] + values_view(s.subrange(1, s.len() as int))
    }
}

/// The models of a sequence of name-value entries.
pub open spec fn entry_views(s: Seq<(Key, Value)>) -> Seq<(Seq<char>, ValueView)>
    decreases s, 1int,
    via entry_views_decreases
{
    if s.len() == 0 {
        Seq::empty()
    } else {
        seq![(s[0].0@, value_view(s[0].1))] + entry_views(s.subrange(1, s.len() as int))
    }
}

#[via_fn]
proof fn entry_views_decreases(s: Seq<(Key, Value)>) {
    if s.len() != 0 {
        assert(decreases_to!(s => s[0]));
        assert(decreases_to!(s[0] => s[0].1));
    }
}

/// The model of a value sequence, element by element.
pub broadcast proof fn lemma_values_view(s: Seq<Value>)
    ensures
        (#[trigger] values_view(s)).len() == s.len(),
        forall|i: int| 0 <= i < s.len() ==> values_view(s)[i] == value_view(s[i]),
    decreases s.len(),
{
    if s.len() != 0 {
        lemma_values_view(s.subrange(1, s.len() as int));
    }
}

/// The model of an entry sequence, element by element.
pub broadcast proof fn lemma_entry_views(s: Seq<(Key, Value)>)
    ensures
        (#[trigger] entry_views(s)).len() == s.len(),
        forall|i: int| #![trigger entry_views(s)[i]]
            0 <= i < s.len() ==> entry_views(s)[i] == (s[i].0@, value_view(s[i].1)),
    decreases s.len(),
{
    if s.len() != 0 {
        lemma_entry_views(s.subrange(1, s.len() as int));
    }
}

impl DeepView for Value {
    type V = ValueView;

    open spec fn deep_view(&self) -> ValueView {
        value_view(*self)
    }
}

impl View for Value {
    type V = ValueView;

    open spec fn view(&self) -> ValueView {
        value_view(*self)
    }
}

/// The model of a value object is the model of its key map.
pub broadcast proof fn lemma_object_view(m: KeyMap<Value>)
    ensures
        #[trigger] value_view(Value::Object(m)) == ValueView::Object(m@),
{
    broadcast use lemma_entry_views;

    assert(entry_views(m.entries@) =~= m@);
}

/// The model of a value array is the model of its vector.
pub broadcast proof fn lemma_array_view(items: Vec<Value>)
    ensures
        #[trigger] value_view(Value::Array(items)) == ValueView::Array(items.deep_view()),
{
    broadcast use lemma_values_view;

    assert(values_view(items@) =~= items.deep_view());
}

impl Value {
    /// Optionally get the underlying vector. Returns `None` if the `Value`
    /// is not an array.
    pub fn as_array(&self) -> (r: Option<&Vec<Value>>)
        ensures
            r is Some <==> self@ is Array,
            r is Some ==> Seq::new(r->0@.len(), |i: int| r->0@[i]@) == self@->Array_0,
    {
        match self {
            Value::Array(ref inner) => {
                proof {
                    broadcast use lemma_values_view;

                    assert(value_view(*self) == ValueView::Array(values_view((*self)->Array_0@)));
                    assert(Seq::new(inner@.len(), |i: int| inner@[i]@) =~= self@->Array_0);
                }
                Some(inner)
            },
            _ => None,
        }
    }

    /// Optionally get the inner boolean value. Returns `None` if the `Value`
    /// is not a boolean.
    pub fn as_bool(&self) -> (r: Option<bool>)
        ensures
            r is Some <==> self@ is Bool,
            r is Some ==> self@ == ValueView::Bool(r->0),
    {
        match *self {
            Value::Bool(inner) => Some(inner),
            _ => None,
        }
    }

    /// Returns `Some(())` if the `Value` is null.
    pub fn as_null(&self) -> (r: Option<()>)
        ensures
            r is Some <==> self@ is Null,
    {
        match *self {
            Value::Null => Some(()),
            _ => None,
        }
    }

    /// Optionally get a reference to the inner map. Returns `None` if the
    /// `Value` is not an object.
    pub fn as_object(&self) -> (r: Option<&KeyMap<Value>>)
        ensures
            r is Some <==> self@ is Object,
            r is Some ==> Seq::new(r->0@.len(), |i: int| (r->0@[i].0, r->0@[i].1))
                == self@->Object_0,
    {
        match self {
            Value::Object(ref inner) => {
                proof {
                    broadcast use lemma_entry_views;

                    assert(inner.entries@ == (*self)->Object_0.entries@);
                    assert(value_view(*self) == ValueView::Object(
                        entry_views((*self)->Object_0.entries@),
                    ));
                    assert(Seq::new(inner@.len(), |i: int| (inner@[i].0, inner@[i].1))
                        =~= self@->Object_0);
                }
                Some(inner)
            },
            _ => None,
        }
    }

    /// Optionally get the underlying string as a string slice. Returns
    /// `None` if the `Value` is not a string.
    pub fn as_str(&self) -> (r: Option<&str>)
        ensures
            r is Some <==> self@ is String,
            r is Some ==> self@ == ValueView::String(r->0@),
    {
        match self {
            Value::String(ref inner) => Some(inner.as_str()),
            _ => None,
        }
    }

    /// Returns true if the `Value` is an array.
    pub fn is_array(&self) -> (r: bool)
        ensures
            r == (self@ is Array),
    {
        match *self {
            Value::Array(_) => true,
            _ => false,
        }
    }

    /// Returns true if the `Value` is a boolean.
    pub fn is_boolean(&self) -> (r: bool)
        ensures
            r == (self@ is Bool),
    {
        match *self {
            Value::Bool(_) => true,
            _ => false,
        }
    }

    /// Returns true if the `Value` is null.
    pub fn is_null(&self) -> (r: bool)
        ensures
            r == (self@ is Null),
    {
        match *self {
            Value::Null => true,
            _ => false,
        }
    }

    /// Returns true if the `Value` is a number.
    pub fn is_number(&self) -> (r: bool)
        ensures
            r == (self@ is Number),
    {
        match *self {
            Value::Number(_) => true,
            _ => false,
        }
    }

    /// Returns true if the `Value` is an object.
    pub fn is_object(&self) -> (r: bool)
        ensures
            r == (self@ is Object),
    {
        match *self {
            Value::Object(_) => true,
            _ => false,
        }
    }

    /// Returns true if the `Value` is a string.
    pub fn is_string(&self) -> (r: bool)
        ensures
            r == (self@ is String),
    {
        match *self {
            Value::String(_) => true,
            _ => false,
        }
    }
}

impl Clone for Value {
    fn clone(&self) -> (r: Self)
        ensures
            r@ == self@,
        decreases *self,
    {
        match self {
            Value::Null => Value::Null,
            Value::Array(items) => {
                let mut out: Vec<Value> = Vec::new();
                let mut i: usize = 0;
                while i < items.len()
                    invariant
                        *self is Array,
                        items@ == self->Array_0@,
                        0 <= i <= items@.len(),
                        out@.len() == i as int,
                        forall|j: int| 0 <= j < i as int ==> out@[j]@ == items@[j]@,
                    decreases items@.len() - i,
                {
                    proof {
                        assert(decreases_to!(*self => self->Array_0));
                        assert(decreases_to!(self->Array_0 => self->Array_0@));
                        assert(decreases_to!(self->Array_0@ => self->Array_0@[i as int]));
                    }
                    out.push(items[i].clone());
                    i = i + 1;
                }
                let r = Value::Array(out);
                proof {
                    broadcast use lemma_values_view;

                    assert(value_view(r) == ValueView::Array(values_view(r->Array_0@)));
                    assert(value_view(*self) == ValueView::Array(values_view((*self)->Array_0@)));
                    assert(r->Array_0@ == out@);
                    assert(r@->Array_0 =~= self@->Array_0);
                    assert(r@ =~= self@);
                }
                r
            },
            Value::Bool(b) => Value::Bool(*b),
            Value::Number(n) => Value::Number(n.clone()),
            Value::Object(m) => {
                let mut entries: Vec<(Key, Value)> = Vec::new();
                let mut i: usize = 0;
                while i < m.entries.len()
                    invariant
                        *self is Object,
                        m.entries@ == self->Object_0.entries@,
                        0 <= i <= m.entries@.len(),
                        entries@.len() == i as int,
                        forall|j: int| #![all_triggers]
                            0 <= j < i as int ==> entries@[j].0@ == m.entries@[j].0@
                                && entries@[j].1@ == m.entries@[j].1@,
                    decreases m.entries@.len() - i,
                {
                    proof {
                        assert(decreases_to!(*self => self->Object_0));
                        assert(decreases_to!(self->Object_0 => self->Object_0.entries));
                        assert(decreases_to!(self->Object_0.entries => self->Object_0.entries@));
                        assert(decreases_to!(
                            self->Object_0.entries@ => self->Object_0.entries@[i as int]));
                        assert(decreases_to!(
                            self->Object_0.entries@[i as int]
                                => self->Object_0.entries@[i as int].1));
                    }
                    let k = m.entries[i].0.clone();
                    let v = m.entries[i].1.clone();
                    entries.push((k, v));
                    i = i + 1;
                }
                let r = Value::Object(KeyMap { entries });
                proof {
                    broadcast use lemma_entry_views;

                    assert(value_view(r) == ValueView::Object(entry_views(r->Object_0.entries@)));
                    assert(value_view(*self) == ValueView::Object(
                        entry_views((*self)->Object_0.entries@),
                    ));
                    assert(r->Object_0.entries@ == entries@);
                    assert(r@->Object_0 =~= self@->Object_0);
                    assert(r@ =~= self@);
                }
                r
            },
            Value::String(s) => Value::String(s.clone()),
        }
    }
}

impl Default for Value {
    /// The default value is null.
    fn default() -> (r: Self)
        ensures
            r@ == ValueView::Null,
    {
        Value::Null
    }
}

impl crate::Sealed for Value {}

} // verus!
