//! The tree of values that is rendered.

use crate::delimiters::{array_delimiters, object_delimiters, Delimiters, DelimitersView};
use crate::text::{
    decimal, decimal_text, lemma_decimal_is_injective, option_text, quoted, quoted_text,
    signed_decimal, signed_decimal_text,
};
use vstd::prelude::*;

verus! {

/// A numeric scalar.
#[derive(Debug, PartialEq)]
pub enum Number {
    /// An integer that is written without a sign.
    PosInt(u64),
    /// An integer that is written with a sign when it is below zero.
    NegInt(i64),
    /// A number that is no integer, held as the text that writes it.
    Float(String),
}

/// A hierarchical value: a scalar, an ordered sequence of values, or a mapping
/// from keys to values that keeps the order in which the keys were inserted.
#[derive(Debug, PartialEq)]
pub enum Value {
    Null,
    Bool(bool),
    Number(Number),
    String(String),
    Array(Vec<Value>),
    Object(Vec<(String, Value)>),
}

impl Number {
    /// The text that writes the number.
    pub open spec fn text(self) -> Seq<char> {
        match self {
            Number::PosInt(n) => decimal(n as nat),
            Number::NegInt(i) => signed_decimal(i as int),
            Number::Float(t) => t@,
        }
    }
}

impl Value {
    /// Whether the value has children: an array or an object, empty or not.
    pub open spec fn is_container(self) -> bool {
        self is Array || self is Object
    }

    /// The number of children; zero for a scalar.
    pub open spec fn child_count(self) -> nat {
        match self {
            Value::Array(items) => items@.len(),
            Value::Object(entries) => entries@.len(),
            _ => 0,
        }
    }

    /// The child at position `i`, in index order for an array and in
    /// insertion order for an object.
    pub open spec fn child(self, i: int) -> Value
        recommends
            0 <= i < self.child_count(),
    {
        match self {
            Value::Array(items) => items@[i],
            Value::Object(entries) => entries@[i].1,
            _ => Value::Null,
        }
    }

    /// The path segment that addresses child `i`: the decimal index in an
    /// array, the key in an object.
    pub open spec fn segment(self, i: int) -> Seq<char>
        recommends
            0 <= i < self.child_count(),
    {
        match self {
            Value::Object(entries) => entries@[i].0@,
            _ => decimal(i as nat),
        }
    }

    /// The label shown before child `i`: the bare decimal index in an array,
    /// the key between double quotes in an object.
    pub open spec fn child_label(self, i: int) -> Seq<char>
        recommends
            0 <= i < self.child_count(),
    {
        match self {
            Value::Object(entries) => quoted(entries@[i].0@),
            _ => decimal(i as nat),
        }
    }

    /// The textual form of a scalar: `null`, `true` or `false`, the number's
    /// text, or the string between double quotes. Empty for a container.
    pub open spec fn leaf_text(self) -> Seq<char> {
        match self {
            Value::Null => seq!['n', 'u', 'l', 'l'],
            Value::Bool(b) => if b {
                seq!['t', 'r', 'u', 'e']
            } else {
                seq!['f', 'a', 'l', 's', 'e']
            },
            Value::Number(n) => n.text(),
            Value::String(s) => quoted(s@),
            _ => Seq::empty(),
        }
    }

    /// The delimiters that frame the value when it is a container: those of
    /// an object for an object, those of an array otherwise.
    pub open spec fn delimiters(self) -> DelimitersView {
        if self is Object {
            object_delimiters()
        } else {
            array_delimiters()
        }
    }
}

impl Number {
    /// Writes the number.
    pub fn to_text(&self) -> (s: String)
        ensures
            s@ == self.text(),
    {
        match self {
            Number::PosInt(n) => decimal_text(*n),
            Number::NegInt(i) => signed_decimal_text(*i),
            Number::Float(t) => t.clone(),
        }
    }
}

impl Value {
    /// The number of children.
    pub fn len(&self) -> (n: usize)
        ensures
            n == self.child_count(),
    {
        match self {
            Value::Array(items) => items.len(),
            Value::Object(entries) => entries.len(),
            _ => 0,
        }
    }

    /// The child at position `i`, if there is one.
    pub fn child_at(&self, i: usize) -> (child: Option<&Value>)
        ensures
            child == (if i < self.child_count() {
                Some(&self.child(i as int))
            } else {
                None
            }),
    {
        match self {
            Value::Array(items) => if i < items.len() {
                Some(&items[i])
            } else {
                None
            },
            Value::Object(entries) => if i < entries.len() {
                Some(&entries[i].1)
            } else {
                None
            },
            _ => None,
        }
    }

    /// The path segment of child `i`, if there is such a child.
    pub fn segment_at(&self, i: usize) -> (s: Option<String>)
        ensures
            option_text(s) == (if i < self.child_count() {
                Some(self.segment(i as int))
            } else {
                None
            }),
    {
        if i >= self.len() {
            return None;
        }
        match self {
            Value::Object(entries) => Some(entries[i].0.clone()),
            _ => Some(decimal_text(i as u64)),
        }
    }

    /// The label shown before child `i`, if there is such a child.
    pub fn label_at(&self, i: usize) -> (s: Option<String>)
        ensures
            option_text(s) == (if i < self.child_count() {
                Some(self.child_label(i as int))
            } else {
                None
            }),
    {
        if i >= self.len() {
            return None;
        }
        match self {
            Value::Object(entries) => Some(quoted_text(entries[i].0.as_str())),
            _ => Some(decimal_text(i as u64)),
        }
    }

    /// Writes a scalar.
    pub fn to_leaf_text(&self) -> (s: String)
        ensures
            s@ == self.leaf_text(),
    {
        proof {
            reveal_strlit("null");
            reveal_strlit("true");
            reveal_strlit("false");
        }
        let s: String = match self {
            Value::Null => String::from_str("null"),
            Value::Bool(b) => if *b {
                String::from_str("true")
            } else {
                String::from_str("false")
            },
            Value::Number(n) => n.to_text(),
            Value::String(t) => quoted_text(t.as_str()),
            _ => String::new(),
        };
        assert(s@ =~= self.leaf_text());
        s
    }

    /// The delimiters that frame the value.
    pub fn to_delimiters(&self) -> (d: Delimiters)
        ensures
            d@ == self.delimiters(),
    {
        match self {
            Value::Object(_) => Delimiters::object(),
            _ => Delimiters::array(),
        }
    }
}

/// Whether no two children of `value` have the same key, where it is an
/// object; an array has no keys to repeat.
pub open spec fn keys_are_unique(value: Value) -> bool {
    match value {
        Value::Object(entries) => {
            let pairs = entries@;
            forall|i: int, j: int|
                0 <= i < j < pairs.len() ==> (#[trigger] pairs[i]).0@ != (#[trigger] pairs[j]).0@
        },
        _ => true,
    }
}

/// A path segment addresses one child: in a container whose keys are unique,
/// different children have different segments.
pub proof fn lemma_segment_addresses_one_child(value: Value, i: int, j: int)
    requires
        keys_are_unique(value),
        0 <= i < value.child_count(),
        0 <= j < value.child_count(),
        i != j,
    ensures
        value.segment(i) != value.segment(j),
{
    match value {
        Value::Object(entries) => {
            if i < j {
                assert(entries@[i].0@ != entries@[j].0@);
            } else {
                assert(entries@[j].0@ != entries@[i].0@);
            }
        },
        _ => {
            if decimal(i as nat) == decimal(j as nat) {
                lemma_decimal_is_injective(i as nat, j as nat);
            }
        },
    }
}

/// Whether `value` is rendered as a collapsible container rather than as a
/// single label.
pub fn is_expandable(value: &Value) -> (expandable: bool)
    ensures
        expandable == value.is_container(),
{
    match value {
        Value::Array(_) => true,
        Value::Object(_) => true,
        _ => false,
    }
}

} // verus!
