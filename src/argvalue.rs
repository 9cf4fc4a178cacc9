//! Values that fill the arguments of a localized string.

use vstd::prelude::*;
use vstd::string::*;

verus! {

/// The value of one argument of a localized string.
#[derive(Debug, PartialEq, Eq, Clone)]
pub enum ArgValue {
    String(String),
    U32(u32),
    Error(String),
    Missing,
}

/// The character of a decimal digit.
pub open spec fn digit_char(d: nat) -> char {
    if d == 0 { '0' }
    else if d == 1 { '1' }
    else if d == 2 { '2' }
    else if d == 3 { '3' }
    else if d == 4 { '4' }
    else if d == 5 { '5' }
    else if d == 6 { '6' }
    else if d == 7 { '7' }
    else if d == 8 { '8' }
    else { '9' }
}

/// The decimal digits of `n`, most significant first, without leading zeros.
pub open spec fn decimal(n: nat) -> Seq<char>
    decreases n,
{
    if n < 10 {
        seq![digit_char(n)]
    } else {
        decimal(n / 10).push(digit_char(n % 10))
    }
}

/// The text that an argument value shows.
pub open spec fn arg_text(v: ArgValue) -> Seq<char> {
    match v {
        ArgValue::String(s) => s@,
        ArgValue::U32(n) => decimal(n as nat),
        ArgValue::Error(_) => seq!['E', 'r', 'r', 'o', 'r'],
        ArgValue::Missing => seq!['?', '?', '?'],
    }
}

fn digit_str(d: u32) -> (r: &'static str)
    requires
        d < 10,
    ensures
        r@ == seq![digit_char(d as nat)],
{
    let r = if d == 0 { "0" }
        else if d == 1 { "1" }
        else if d == 2 { "2" }
        else if d == 3 { "3" }
        else if d == 4 { "4" }
        else if d == 5 { "5" }
        else if d == 6 { "6" }
        else if d == 7 { "7" }
        else if d == 8 { "8" }
        else { "9" };
    proof {
        reveal_strlit("0");
        reveal_strlit("1");
        reveal_strlit("2");
        reveal_strlit("3");
        reveal_strlit("4");
        reveal_strlit("5");
        reveal_strlit("6");
        reveal_strlit("7");
        reveal_strlit("8");
        reveal_strlit("9");
        assert(r@ =~= seq![digit_char(d as nat)]);
    }
    r
}

/// Writes `n` in decimal.
pub fn decimal_string(n: u32) -> (r: String)
    ensures
        r@ == decimal(n as nat),
    decreases n,
{
    if n < 10 {
        String::from_str(digit_str(n))
    } else {
        let mut s = decimal_string(n / 10);
        s.append(digit_str(n % 10));
        proof {
            assert(s@ =~= decimal(n as nat));
        }
        s
    }
}

impl ArgValue {
    /// The text the value shows: a string as it is, a number in decimal,
    /// `Error` for an error and `???` for no value.
    pub fn to_string(&self) -> (r: String)
        ensures
            r@ == arg_text(*self),
    {
        match self {
            ArgValue::String(s) => s.clone(),
            ArgValue::U32(v) => decimal_string(*v),
            ArgValue::Error(_) => {
                let r = String::from_str("Error");
                proof {
                    reveal_strlit("Error");
                    assert(r@ =~= seq!['E', 'r', 'r', 'o', 'r']);
                }
                r
            },
            ArgValue::Missing => {
                let r = String::from_str("???");
                proof {
                    reveal_strlit("???");
                    assert(r@ =~= seq!['?', '?', '?']);
                }
                r
            },
        }
    }

    pub fn from_u32(v: u32) -> (r: ArgValue)
        ensures
            r == ArgValue::U32(v),
    {
        ArgValue::U32(v)
    }

    pub fn from_str(s: &str) -> (r: ArgValue)
        requires
            s@.len() <= crate::label::MAX_LABEL_LEN,
        ensures
            r matches ArgValue::String(t) && t@ == s@,
    {
        ArgValue::String(String::from_str(s))
    }
}

} // verus!
