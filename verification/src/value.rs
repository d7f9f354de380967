//! The tagged runtime value: a number, a piece of text, a boolean or null,
//! with the conversion rules the language defines between them.
//!
//! Numbers are machine integers: every arithmetic in the language is defined
//! over them, and the saturating operations are named where a sum could leave
//! the representable range.

use vstd::prelude::*;
use crate::text::{int_text, int_to_string, parse_i64, parse_integer, parse_integer_exec, str_to_chars};

verus! {

/// A tagged dialogue value.
#[derive(Clone, Debug)]
pub enum Value {
    /// A numeric value.
    Number(i64),
    /// A piece of text.
    Text(String),
    /// A truth value.
    Boolean(bool),
    /// The absent value.
    Null,
}

/// Value equality: by variant, then by payload.
pub open spec fn value_eq(a: Value, b: Value) -> bool {
    match (a, b) {
        (Value::Number(x), Value::Number(y)) => x == y,
        (Value::Text(x), Value::Text(y)) => x@ == y@,
        (Value::Boolean(x), Value::Boolean(y)) => x == y,
        (Value::Null, Value::Null) => true,
        _ => false,
    }
}

/// The textual rendering of a value: every value converts to text.
pub open spec fn value_text(v: Value) -> Seq<char> {
    match v {
        Value::Number(n) => int_text(n as int),
        Value::Text(s) => s@,
        Value::Boolean(b) => if b { "true"@ } else { "false"@ },
        Value::Null => "null"@,
    }
}

/// The numeric reading of a value: numbers are themselves, booleans read as
/// zero and one, text is parsed, and null has no numeric reading.
pub open spec fn value_number(v: Value) -> Option<int> {
    match v {
        Value::Number(n) => Some(n as int),
        Value::Boolean(b) => Some(if b { 1int } else { 0int }),
        Value::Text(s) => parse_integer(s@),
        Value::Null => None,
    }
}

/// The numeric reading of a value, limited to what the machine word can
/// hold: as `value_number`, but a textual numeral past the word's range has
/// no reading.
pub open spec fn value_number_fit(v: Value) -> Option<i64> {
    match v {
        Value::Number(n) => Some(n),
        Value::Boolean(b) => Some(if b { 1i64 } else { 0i64 }),
        Value::Text(s) => parse_i64(s@),
        Value::Null => None,
    }
}

/// The boolean reading of a value: booleans are themselves, a number is true
/// exactly when it is not zero, the texts `true` and `false` read as
/// themselves, and other text and null have no boolean reading.
pub open spec fn value_bool(v: Value) -> Option<bool> {
    match v {
        Value::Boolean(b) => Some(b),
        Value::Number(n) => Some(n != 0),
        Value::Text(s) => if s@ == "true"@ {
            Some(true)
        } else if s@ == "false"@ {
            Some(false)
        } else {
            None
        },
        Value::Null => None,
    }
}

impl Value {
    /// Tests two values for equality, by variant then payload.
    pub fn equals(&self, other: &Value) -> (r: bool)
        ensures
            r == value_eq(*self, *other),
    {
        match self {
            Value::Number(x) => match other {
                Value::Number(y) => *x == *y,
                _ => false,
            },
            Value::Text(x) => match other {
                Value::Text(y) => *x == *y,
                _ => false,
            },
            Value::Boolean(x) => match other {
                Value::Boolean(y) => *x == *y,
                _ => false,
            },
            Value::Null => match other {
                Value::Null => true,
                _ => false,
            },
        }
    }

    /// Converts the value to its textual rendering.
    pub fn to_text(&self) -> (r: String)
        ensures
            r@ == value_text(*self),
    {
        match self {
            Value::Number(n) => int_to_string(*n),
            Value::Text(s) => s.clone(),
            Value::Boolean(b) => {
                if *b {
                    String::from_str("true")
                } else {
                    String::from_str("false")
                }
            },
            Value::Null => String::from_str("null"),
        }
    }

    /// Converts the value to a number, or `None` where the value has no
    /// numeric reading (or, for text, where the numeral does not fit the
    /// machine word).
    pub fn to_number(&self) -> (r: Option<i64>)
        ensures
            r == value_number_fit(*self),
            r matches Some(x) ==> value_number(*self) == Some(x as int),
            value_number(*self) is None ==> r is None,
            self is Number || self is Boolean ==> r is Some,
    {
        match self {
            Value::Number(n) => Some(*n),
            Value::Boolean(b) => Some(if *b { 1 } else { 0 }),
            Value::Text(s) => {
                let chars = str_to_chars(s.as_str());
                let r = parse_integer_exec(&chars, 0, chars.len());
                proof {
                    assert(chars@.subrange(0, chars@.len() as int) =~= s@);
                }
                r
            },
            Value::Null => None,
        }
    }

    /// Converts the value to a boolean, or `None` where it has no boolean
    /// reading.
    pub fn to_bool(&self) -> (r: Option<bool>)
        ensures
            r == value_bool(*self),
    {
        match self {
            Value::Boolean(b) => Some(*b),
            Value::Number(n) => Some(*n != 0),
            Value::Text(s) => {
                let t = String::from_str("true");
                let f = String::from_str("false");
                if *s == t {
                    Some(true)
                } else if *s == f {
                    Some(false)
                } else {
                    None
                }
            },
            Value::Null => None,
        }
    }
}

} // verus!
