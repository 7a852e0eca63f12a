use vstd::prelude::*;
use vstd::string::{StrSliceExecFns, StringExecFns};

use crate::grammar::{decimal, digit_char};
use crate::IntegerType;

verus! {

/// A runtime value.
#[derive(Debug, Clone, Copy, PartialEq, Eq, Structural)]
pub enum Object {
    Integer(IntegerType),
    Boolean(bool),
}

/// The text of a value: an integer in decimal, with a leading `-` when it
/// is negative; a boolean as `true` or `false`.
pub open spec fn render(o: Object) -> Seq<char> {
    match o {
        Object::Integer(v) => if v < 0 {
            seq!['-'] + decimal((-v) as nat)
        } else {
            decimal(v as nat)
        },
        Object::Boolean(b) => if b {
            seq!['t', 'r', 'u', 'e']
        } else {
            seq!['f', 'a', 'l', 's', 'e']
        },
    }
}

/// The decimal numeral of `n`.
fn decimal_text(n: u128) -> (r: String)
    ensures
        r@ == decimal(n as nat),
    decreases n,
{
    let digits = "0123456789";
    proof {
        reveal_strlit("0123456789");
        assert(digits@ =~= seq!['0', '1', '2', '3', '4', '5', '6', '7', '8', '9']);
    }
    let d = (n % 10) as usize;
    let one = digits.substring_char(d, d + 1);
    assert(one@ =~= seq![digit_char(d as int)]);
    if n < 10 {
        one.to_owned()
    } else {
        let mut s = decimal_text(n / 10);
        s.append(one);
        s
    }
}

impl Object {
    /// The text of the value, as `render` gives it.
    pub fn to_text(&self) -> (r: String)
        ensures
            r@ == render(*self),
    {
        match self {
            Object::Integer(v) => {
                if *v < 0 {
                    let magnitude = (-(*v + 1)) as u128 + 1;
                    let sign = String::from_str("-");
                    proof {
                        reveal_strlit("-");
                    }
                    sign.concat(decimal_text(magnitude).as_str())
                } else {
                    decimal_text(*v as u128)
                }
            },
            Object::Boolean(b) => {
                if *b {
                    proof {
                        reveal_strlit("true");
                    }
                    let r = String::from_str("true");
                    assert(r@ =~= seq!['t', 'r', 'u', 'e']);
                    r
                } else {
                    proof {
                        reveal_strlit("false");
                    }
                    let r = String::from_str("false");
                    assert(r@ =~= seq!['f', 'a', 'l', 's', 'e']);
                    r
                }
            },
        }
    }
}

} // verus!
