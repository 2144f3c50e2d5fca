//! Values as text.

use crate::model::{FunctionValView, ValueView};
use crate::value::float::{float_text, ieee_text};
use crate::value::function::FunctionVal;
use crate::value::list::List;
use crate::value::number::Number;
use crate::value::Value;
use std::rc::Rc;
use vstd::prelude::*;
use vstd::string::StringExecFns;

verus! {

/// The text of a string as the standard library's `Debug` prints it: in
/// double quotes, with what cannot stand there escaped.
pub uninterp spec fn debug_text(s: Seq<char>) -> Seq<char>;

/// Formats `s` with the standard library's `Debug` for `str`; the contract
/// names the text.
#[verifier::external_body]
pub(crate) fn quoted(s: &str) -> (r: String)
    ensures
        r@ == debug_text(s@),
{
    format!("{:?}", s)
}

/// The text of one decimal digit.
pub open spec fn digit_text(d: int) -> Seq<char> {
    if d == 0 {
        "0"@
    } else if d == 1 {
        "1"@
    } else if d == 2 {
        "2"@
    } else if d == 3 {
        "3"@
    } else if d == 4 {
        "4"@
    } else if d == 5 {
        "5"@
    } else if d == 6 {
        "6"@
    } else if d == 7 {
        "7"@
    } else if d == 8 {
        "8"@
    } else {
        "9"@
    }
}

/// The decimal digits of a natural number, without leading zeros.
pub open spec fn nat_text(n: nat) -> Seq<char>
    decreases n,
{
    if n < 10 {
        digit_text(n as int)
    } else {
        nat_text(n / 10) + digit_text((n % 10) as int)
    }
}

/// An integer in decimal, with a minus sign where it is negative.
pub open spec fn int_text(i: int) -> Seq<char> {
    if i < 0 {
        "-"@ + nat_text((-i) as nat)
    } else {
        nat_text(i as nat)
    }
}

/// The text of one decimal digit.
pub fn digit_str(d: u64) -> (r: &'static str)
    requires
        d < 10,
    ensures
        r@ == digit_text(d as int),
{
    if d == 0 {
        "0"
    } else if d == 1 {
        "1"
    } else if d == 2 {
        "2"
    } else if d == 3 {
        "3"
    } else if d == 4 {
        "4"
    } else if d == 5 {
        "5"
    } else if d == 6 {
        "6"
    } else if d == 7 {
        "7"
    } else if d == 8 {
        "8"
    } else {
        "9"
    }
}

/// An integer in decimal.
pub fn int_to_string(i: i64) -> (r: String)
    ensures
        r@ == int_text(i as int),
{
    let magnitude: u64 = if i < 0 {
        (-(i as i128)) as u64
    } else {
        i as u64
    };
    let mut n: u64 = magnitude;
    let mut digits = String::from_str(digit_str(n % 10));
    n = n / 10;
    while n > 0
        invariant
            nat_text(magnitude as nat) == if n > 0 {
                nat_text(n as nat) + digits@
            } else {
                digits@
            },
        decreases n,
    {
        let ghost before = digits@;
        digits = String::from_str(digit_str(n % 10)).concat(digits.as_str());
        proof {
            if n >= 10 {
                assert(nat_text(n as nat) + before =~= nat_text((n / 10) as nat) + digits@);
            }
        }
        n = n / 10;
    }
    if i < 0 {
        String::from_str("-").concat(digits.as_str())
    } else {
        digits
    }
}

/// The structural text of a value: what `debug` prints.
pub open spec fn repr(value: ValueView) -> Seq<char>
    decreases value, 0nat,
{
    match value {
        ValueView::Atom(name) => "Atom("@ + debug_text(name) + ")"@,
        ValueView::Number(Number::Int(i)) => int_text(i as int),
        ValueView::Number(Number::Float(bits)) => ieee_text(bits),
        ValueView::Str(s) => "String("@ + debug_text(s) + ")"@,
        ValueView::List(items) => "["@ + repr_items(items, 0) + "]"@,
        ValueView::Function(function) => match function.val {
            FunctionValView::Native(_) => "Function(<native function>)"@,
            FunctionValView::Lang { .. } => "Function(<function>)"@,
        },
        ValueView::Object(_) => "Object(<object>)"@,
    }
}

/// The structural texts of the items from number `from` on, with a comma and
/// a space before each but the very first.
pub open spec fn repr_items(items: Seq<ValueView>, from: nat) -> Seq<char>
    decreases items, items.len() - from,
{
    if from >= items.len() {
        Seq::empty()
    } else {
        (if from > 0 {
            ", "@
        } else {
            Seq::empty()
        }) + repr(items[from as int]) + repr_items(items, from + 1)
    }
}

/// The text of a value: a string is its characters, anything else its
/// structural text.
pub open spec fn display(value: ValueView) -> Seq<char> {
    match value {
        ValueView::Str(s) => s,
        _ => repr(value),
    }
}

impl Value {
    /// The structural text of the value.
    pub fn repr(&self) -> (r: String)
        ensures
            r@ == repr(self@),
        decreases self@,
    {
        match self {
            Value::Atom(name) => String::from_str("Atom(").concat(
                quoted(name.as_str()).as_str(),
            ).concat(")"),
            Value::Number(Number::Int(i)) => int_to_string(*i),
            Value::Number(Number::Float(bits)) => float_text(*bits),
            Value::String(s) => String::from_str("String(").concat(
                quoted(s.as_str()).as_str(),
            ).concat(")"),
            Value::List(list) => {
                let mut text = String::from_str("[");
                let mut rest: Rc<List> = list.clone();
                let ghost items = list@;
                let ghost mut done: nat = 0;
                let mut first = true;
                assert(items.skip(0) =~= items);
                loop
                    invariant
                        self@ == ValueView::List(items),
                        first == (done == 0),
                        done <= items.len(),
                        rest@ == items.skip(done as int),
                        "["@ + repr_items(items, 0) == text@ + repr_items(items, done),
                    decreases items.len() - done,
                {
                    let next = match rest.head() {
                        Some(value) => {
                            if !first {
                                text.append(", ");
                            }
                            first = false;
                            assert(value@ == items[done as int]);
                            assert(decreases_to!(self@ => self@->List_0));
                            assert(decreases_to!(self@->List_0 => self@->List_0[done as int]));
                            let item = value.repr();
                            text.append(item.as_str());
                            rest.tail()
                        },
                        None => {
                            text.append("]");
                            return text;
                        },
                    };
                    proof {
                        assert(items.skip(done as int).subrange(
                            1,
                            items.skip(done as int).len() as int,
                        ) =~= items.skip(done as int + 1));
                        done = done + 1;
                    }
                    rest = next;
                }
            },
            Value::Function(function) => match &function.val {
                FunctionVal::Native(_) => String::from_str("Function(<native function>)"),
                FunctionVal::Lang { .. } => String::from_str("Function(<function>)"),
            },
            Value::Object(_) => String::from_str("Object(<object>)"),
        }
    }

    /// The text of the value: a string gives its characters, anything else
    /// its structural text.
    pub fn to_string(&self) -> (r: String)
        ensures
            r@ == display(self@),
    {
        match self {
            Value::String(s) => s.clone(),
            _ => self.repr(),
        }
    }
}

} // verus!
