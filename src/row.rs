use vstd::prelude::*;

use crate::text::same_text;

verus! {

/// A numeric column value, as the row source delivered it.
#[derive(Debug, Clone, Copy, PartialEq, Eq, Structural)]
pub enum Number {
    Integer(i128),
    /// A floating-point value, held as its IEEE 754 bit pattern.
    Float(u64),
}

/// One dynamically typed value of a flat result row.
#[derive(Debug, Clone)]
pub enum Scalar {
    Null,
    Bool(bool),
    Number(Number),
    Text(String),
    /// An array or an object, which no column of a flat row should hold.
    Nested,
}

/// A named column of a result row.
#[derive(Debug, Clone)]
pub struct Field {
    pub name: String,
    pub value: Scalar,
}

/// A flat result row: column names with their values.  Where a name
/// occurs twice, the first occurrence is the one that counts.
#[derive(Debug, Clone)]
pub struct Row {
    pub fields: Vec<Field>,
}

/// The value of the first field from position `i` on that is named `key`.
pub open spec fn lookup_from(fields: Seq<Field>, key: Seq<char>, i: int) -> Option<Scalar>
    decreases fields.len() - i,
{
    if i < 0 || i >= fields.len() {
        None
    } else if fields[i].name@ == key {
        Some(fields[i].value)
    } else {
        lookup_from(fields, key, i + 1)
    }
}

pub open spec fn scalar_text(v: Scalar) -> Option<Seq<char>> {
    match v {
        Scalar::Text(s) => Some(s@),
        _ => None,
    }
}

/// An integer that fits in `u64`; no float, however whole, counts.
pub open spec fn scalar_unsigned(v: Scalar) -> Option<u64> {
    match v {
        Scalar::Number(Number::Integer(n)) => if 0 <= n <= u64::MAX {
            Some(n as u64)
        } else {
            None
        },
        _ => None,
    }
}

/// An integer that fits in `i64`; no float, however whole, counts.
pub open spec fn scalar_signed(v: Scalar) -> Option<i64> {
    match v {
        Scalar::Number(Number::Integer(n)) => if i64::MIN <= n <= i64::MAX {
            Some(n as i64)
        } else {
            None
        },
        _ => None,
    }
}

pub open spec fn scalar_number(v: Scalar) -> Option<Number> {
    match v {
        Scalar::Number(n) => Some(n),
        _ => None,
    }
}

impl Row {
    pub open spec fn field(self, key: Seq<char>) -> Option<Scalar> {
        lookup_from(self.fields@, key, 0)
    }

    /// The column `key` when it holds a string.
    pub open spec fn text(self, key: Seq<char>) -> Option<Seq<char>> {
        match self.field(key) {
            Some(v) => scalar_text(v),
            None => None,
        }
    }

    /// The column `key` as a string, or the empty string when it holds none.
    pub open spec fn text_or_empty(self, key: Seq<char>) -> Seq<char> {
        match self.text(key) {
            Some(s) => s,
            None => Seq::empty(),
        }
    }

    pub open spec fn unsigned(self, key: Seq<char>) -> Option<u64> {
        match self.field(key) {
            Some(v) => scalar_unsigned(v),
            None => None,
        }
    }

    pub open spec fn signed(self, key: Seq<char>) -> Option<i64> {
        match self.field(key) {
            Some(v) => scalar_signed(v),
            None => None,
        }
    }

    pub open spec fn number(self, key: Seq<char>) -> Option<Number> {
        match self.field(key) {
            Some(v) => scalar_number(v),
            None => None,
        }
    }

    /// The value of the column named `key`, if the row has one.
    pub fn get(&self, key: &str) -> (r: Option<&Scalar>)
        ensures
            r is None <==> self.field(key@) is None,
            r matches Some(v) ==> self.field(key@) == Some(*v),
    {
        let mut i: usize = 0;
        while i < self.fields.len()
            invariant
                i <= self.fields@.len(),
                lookup_from(self.fields@, key@, 0) == lookup_from(self.fields@, key@, i as int),
            decreases self.fields@.len() - i,
        {
            if same_text(self.fields[i].name.as_str(), key) {
                return Some(&self.fields[i].value);
            }
            i = i + 1;
        }
        None
    }

    pub fn get_text(&self, key: &str) -> (r: Option<&String>)
        ensures
            r is None <==> self.text(key@) is None,
            r matches Some(s) ==> self.text(key@) == Some(s@),
    {
        match self.get(key) {
            Some(Scalar::Text(s)) => Some(s),
            _ => None,
        }
    }

    /// The column `key` as a string; the empty string when it holds none.
    pub fn get_text_or_empty(&self, key: &str) -> (r: String)
        ensures
            r@ == self.text_or_empty(key@),
    {
        match self.get_text(key) {
            Some(s) => s.clone(),
            None => String::new(),
        }
    }

    pub fn get_unsigned(&self, key: &str) -> (r: Option<u64>)
        ensures
            r == self.unsigned(key@),
    {
        match self.get(key) {
            Some(Scalar::Number(Number::Integer(n))) => {
                if 0 <= *n && *n <= u64::MAX as i128 {
                    Some(*n as u64)
                } else {
                    None
                }
            },
            _ => None,
        }
    }

    pub fn get_signed(&self, key: &str) -> (r: Option<i64>)
        ensures
            r == self.signed(key@),
    {
        match self.get(key) {
            Some(Scalar::Number(Number::Integer(n))) => {
                if i64::MIN as i128 <= *n && *n <= i64::MAX as i128 {
                    Some(*n as i64)
                } else {
                    None
                }
            },
            _ => None,
        }
    }

    pub fn get_number(&self, key: &str) -> (r: Option<Number>)
        ensures
            r == self.number(key@),
    {
        match self.get(key) {
            Some(Scalar::Number(n)) => Some(*n),
            _ => None,
        }
    }
}

} // verus!
