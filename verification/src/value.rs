//! The erased property value: a closed set of concrete types behind one
//! uniform interface of string conversion, equality and a runtime type tag.
//!
//! A value is one of: a signed decimal integer, an unsigned integer shown in
//! hexadecimal, a boolean, or a string. Parsing is directed by the type tag
//! of the value already held, so a property keeps its concrete type for its
//! whole life.

use vstd::prelude::*;
use vstd::string::StrSliceExecFns;
use vstd::string::StringExecFns;
use crate::digits::{
    digits_of, is_digit, lemma_digits_of_val, parse_digits, parse_u64_digits, write_digits,
};
use crate::path::str_eq;

verus! {

/// A property value in its erased form.
#[derive(Debug, PartialEq, Eq)]
pub enum Value {
    /// A signed integer, written in decimal.
    Int(i64),
    /// An unsigned integer, written in hexadecimal and parsed with
    /// optional `!` (complement), `-` (negate) and `0x` prefixes.
    Hex(u64),
    /// A boolean, written `true` or `false`.
    Bool(bool),
    /// An arbitrary string; conversion is the identity.
    Str(String),
}

/// The mathematical form of a [`Value`]: strings become character sequences.
pub enum ValueV {
    Int(i64),
    Hex(u64),
    Bool(bool),
    Str(Seq<char>),
}

impl View for Value {
    type V = ValueV;

    open spec fn view(&self) -> ValueV {
        match self {
            Value::Int(i) => ValueV::Int(*i),
            Value::Hex(h) => ValueV::Hex(*h),
            Value::Bool(b) => ValueV::Bool(*b),
            Value::Str(s) => ValueV::Str(s@),
        }
    }
}

/// Whether two values have the same concrete type.
pub open spec fn same_tag(a: ValueV, b: ValueV) -> bool {
    match (a, b) {
        (ValueV::Int(_), ValueV::Int(_)) => true,
        (ValueV::Hex(_), ValueV::Hex(_)) => true,
        (ValueV::Bool(_), ValueV::Bool(_)) => true,
        (ValueV::Str(_), ValueV::Str(_)) => true,
        _ => false,
    }
}

/// The decimal form of a signed integer, `-` first when negative.
pub open spec fn int_fmt(i: int) -> Seq<char> {
    if i < 0 {
        seq!['-'] + digits_of((-i) as nat, 10)
    } else {
        digits_of(i as nat, 10)
    }
}

/// The hexadecimal form of an unsigned integer: `0` for zero, else `0x`
/// followed by lowercase hex digits.
pub open spec fn hex_fmt(h: u64) -> Seq<char> {
    if h == 0 {
        seq!['0']
    } else {
        seq!['0', 'x'] + digits_of(h as nat, 16)
    }
}

/// The textual form of a boolean.
pub open spec fn bool_fmt(b: bool) -> Seq<char> {
    if b {
        seq!['t', 'r', 'u', 'e']
    } else {
        seq!['f', 'a', 'l', 's', 'e']
    }
}

/// The display string of a value.
pub open spec fn value_fmt(v: ValueV) -> Seq<char> {
    match v {
        ValueV::Int(i) => int_fmt(i as int),
        ValueV::Hex(h) => hex_fmt(h),
        ValueV::Bool(b) => bool_fmt(b),
        ValueV::Str(s) => s,
    }
}

/// What parsing `s` as a signed decimal integer yields: an optional leading
/// `-` or `+`, then decimal digits, and the result must fit in an `i64`.
pub open spec fn int_parse(s: Seq<char>) -> Option<i64> {
    if s.len() > 0 && s[0] == '-' {
        let m = s.subrange(1, s.len() as int);
        match parse_u64_digits(m, 10) {
            Some(mag) => if mag <= i64::MAX as u64 {
                Some((-(mag as int)) as i64)
            } else if mag == i64::MAX as u64 + 1 {
                Some(i64::MIN)
            } else {
                None
            },
            None => None,
        }
    } else {
        let m = if s.len() > 0 && s[0] == '+' {
            s.subrange(1, s.len() as int)
        } else {
            s
        };
        match parse_u64_digits(m, 10) {
            Some(mag) => if mag <= i64::MAX as u64 {
                Some(mag as i64)
            } else {
                None
            },
            None => None,
        }
    }
}

/// Two's-complement negation of a `u64`.
pub open spec fn u64_neg(v: u64) -> u64 {
    if v == 0 {
        0u64
    } else {
        (u64::MAX - v + 1) as u64
    }
}

/// Bitwise complement of a `u64`.
pub open spec fn u64_not(v: u64) -> u64 {
    (u64::MAX - v) as u64
}

/// What parsing `s` as a hexadecimal value yields: an optional `!`
/// (complement), then an optional `-` (negate), then either `0x` and hex
/// digits or plain decimal digits, the digits themselves allowing one
/// leading `+`; negation is applied before complement.
pub open spec fn hex_parse(s: Seq<char>) -> Option<u64> {
    let (noted, s1) = if s.len() > 0 && s[0] == '!' {
        (true, s.subrange(1, s.len() as int))
    } else {
        (false, s)
    };
    let (negated, s2) = if s1.len() > 0 && s1[0] == '-' {
        (true, s1.subrange(1, s1.len() as int))
    } else {
        (false, s1)
    };
    let (radix, s3) = if s2.len() >= 2 && s2[0] == '0' && s2[1] == 'x' {
        (16, s2.subrange(2, s2.len() as int))
    } else {
        (10, s2)
    };
    let s4 = if s3.len() > 0 && s3[0] == '+' {
        s3.subrange(1, s3.len() as int)
    } else {
        s3
    };
    match parse_u64_digits(s4, radix) {
        Some(v) => {
            let v1 = if negated {
                u64_neg(v)
            } else {
                v
            };
            Some(
                if noted {
                    u64_not(v1)
                } else {
                    v1
                },
            )
        },
        None => None,
    }
}

/// What parsing `s` as a boolean yields.
pub open spec fn bool_parse(s: Seq<char>) -> Option<bool> {
    if s == bool_fmt(true) {
        Some(true)
    } else if s == bool_fmt(false) {
        Some(false)
    } else {
        None
    }
}

/// What parsing `s` at the concrete type of `cur` yields.
pub open spec fn value_parse(cur: ValueV, s: Seq<char>) -> Option<ValueV> {
    match cur {
        ValueV::Int(_) => match int_parse(s) {
            Some(i) => Some(ValueV::Int(i)),
            None => None,
        },
        ValueV::Hex(_) => match hex_parse(s) {
            Some(h) => Some(ValueV::Hex(h)),
            None => None,
        },
        ValueV::Bool(_) => match bool_parse(s) {
            Some(b) => Some(ValueV::Bool(b)),
            None => None,
        },
        ValueV::Str(_) => Some(ValueV::Str(s)),
    }
}

impl Value {
    /// Returns the display string of this value.
    pub fn to_display(&self) -> (r: String)
        ensures
            r@ == value_fmt(self@),
    {
        match self {
            Value::Int(i) => {
                let mut out = String::new();
                if *i < 0 {
                    proof {
                        reveal_strlit("-");
                    }
                    out.append("-");
                    let mag: u64 = if *i == i64::MIN {
                        9223372036854775808u64
                    } else {
                        (-*i) as u64
                    };
                    write_digits(mag, 10, &mut out);
                    proof {
                        assert(out@ =~= int_fmt(*i as int));
                    }
                } else {
                    write_digits(*i as u64, 10, &mut out);
                    proof {
                        assert(out@ =~= int_fmt(*i as int));
                    }
                }
                out
            },
            Value::Hex(h) => {
                let mut out = String::new();
                if *h == 0 {
                    proof {
                        reveal_strlit("0");
                    }
                    out.append("0");
                    proof {
                        assert(out@ =~= hex_fmt(*h));
                    }
                } else {
                    proof {
                        reveal_strlit("0x");
                    }
                    out.append("0x");
                    write_digits(*h, 16, &mut out);
                    proof {
                        assert(out@ =~= hex_fmt(*h));
                    }
                }
                out
            },
            Value::Bool(b) => {
                proof {
                    reveal_strlit("true");
                    reveal_strlit("false");
                }
                let r = if *b {
                    String::from_str("true")
                } else {
                    String::from_str("false")
                };
                proof {
                    assert(r@ =~= bool_fmt(*b));
                }
                r
            },
            Value::Str(s) => s.clone(),
        }
    }

    /// Parses `s` at the concrete type of this value.
    pub fn parse_as(&self, s: &str) -> (r: Option<Value>)
        ensures
            match (r, value_parse(self@, s@)) {
                (Some(v), Some(w)) => v@ == w,
                (None, None) => true,
                _ => false,
            },
    {
        match self {
            Value::Int(_) => match parse_int(s) {
                Some(i) => Some(Value::Int(i)),
                None => None,
            },
            Value::Hex(_) => match parse_hex(s) {
                Some(h) => Some(Value::Hex(h)),
                None => None,
            },
            Value::Bool(_) => match parse_bool(s) {
                Some(b) => Some(Value::Bool(b)),
                None => None,
            },
            Value::Str(_) => Some(Value::Str(String::from_str(s))),
        }
    }

    /// Whether this value and `other` have the same concrete type.
    pub fn tag_matches(&self, other: &Value) -> (r: bool)
        ensures
            r == same_tag(self@, other@),
    {
        match (self, other) {
            (Value::Int(_), Value::Int(_)) => true,
            (Value::Hex(_), Value::Hex(_)) => true,
            (Value::Bool(_), Value::Bool(_)) => true,
            (Value::Str(_), Value::Str(_)) => true,
            _ => false,
        }
    }

    /// Whether this value equals `other` (same type, same content).
    pub fn eq_value(&self, other: &Value) -> (r: bool)
        ensures
            r == (self@ == other@),
    {
        match self {
            Value::Int(a) => match other {
                Value::Int(b) => *a == *b,
                _ => false,
            },
            Value::Hex(a) => match other {
                Value::Hex(b) => *a == *b,
                _ => false,
            },
            Value::Bool(a) => match other {
                Value::Bool(b) => *a == *b,
                _ => false,
            },
            Value::Str(a) => match other {
                Value::Str(b) => str_eq(a.as_str(), b.as_str()),
                _ => false,
            },
        }
    }

    /// Returns a copy of this value.
    pub fn duplicate(&self) -> (r: Value)
        ensures
            r@ == self@,
    {
        match self {
            Value::Int(i) => Value::Int(*i),
            Value::Hex(h) => Value::Hex(*h),
            Value::Bool(b) => Value::Bool(*b),
            Value::Str(s) => Value::Str(s.clone()),
        }
    }
}

/// Parses a signed decimal integer.
fn parse_int(s: &str) -> (r: Option<i64>)
    ensures
        r == int_parse(s@),
{
    let len = s.unicode_len();
    if len > 0 && s.get_char(0) == '-' {
        let m = s.substring_char(1, len);
        match parse_digits(m, 10) {
            Some(mag) => {
                if mag <= i64::MAX as u64 {
                    Some(-(mag as i64))
                } else if mag == i64::MAX as u64 + 1 {
                    Some(i64::MIN)
                } else {
                    None
                }
            },
            None => None,
        }
    } else {
        let m: &str = if len > 0 && s.get_char(0) == '+' {
            s.substring_char(1, len)
        } else {
            s
        };
        match parse_digits(m, 10) {
            Some(mag) => if mag <= i64::MAX as u64 {
                Some(mag as i64)
            } else {
                None
            },
            None => None,
        }
    }
}

/// Parses a hexadecimal value with its optional `!`, `-` and `0x` prefixes.
fn parse_hex(s: &str) -> (r: Option<u64>)
    ensures
        r == hex_parse(s@),
{
    let mut rest: &str = s;
    let mut len = rest.unicode_len();
    let noted = len > 0 && rest.get_char(0) == '!';
    if noted {
        rest = rest.substring_char(1, len);
        len = len - 1;
    }
    let negated = len > 0 && rest.get_char(0) == '-';
    if negated {
        rest = rest.substring_char(1, len);
        len = len - 1;
    }
    let hexadecimal = len >= 2 && rest.get_char(0) == '0' && rest.get_char(1) == 'x';
    if hexadecimal {
        rest = rest.substring_char(2, len);
        len = len - 2;
    }
    if len > 0 && rest.get_char(0) == '+' {
        rest = rest.substring_char(1, len);
    }
    match parse_digits(rest, if hexadecimal { 16 } else { 10 }) {
        Some(v) => {
            let v1 = if negated {
                if v == 0 {
                    0
                } else {
                    u64::MAX - v + 1
                }
            } else {
                v
            };
            Some(if noted { u64::MAX - v1 } else { v1 })
        },
        None => None,
    }
}

/// Parses a boolean.
fn parse_bool(s: &str) -> (r: Option<bool>)
    ensures
        r == bool_parse(s@),
{
    proof {
        reveal_strlit("true");
        reveal_strlit("false");
        assert("true"@ =~= bool_fmt(true));
        assert("false"@ =~= bool_fmt(false));
    }
    if str_eq(s, "true") {
        Some(true)
    } else if str_eq(s, "false") {
        Some(false)
    } else {
        None
    }
}

/// The digits of a number never start with a sign or prefix character.
proof fn lemma_digits_no_sign(n: nat, radix: int)
    requires
        radix == 10 || radix == 16,
    ensures
        digits_of(n, radix)[0] != '-',
        digits_of(n, radix)[0] != '!',
        digits_of(n, radix)[0] != '+',
{
    lemma_digits_of_val(n, radix);
    assert(is_digit(digits_of(n, radix)[0], radix));
}

/// Round-trip at the value level: formatting any value and parsing the text
/// back at the same concrete type restores the value exactly. This is what
/// makes `set(v.to_string())` followed by a read yield `v` for every
/// property type.
pub proof fn lemma_value_roundtrip(cur: ValueV, v: ValueV)
    requires
        same_tag(cur, v),
    ensures
        value_parse(cur, value_fmt(v)) == Some(v),
{
    match v {
        ValueV::Int(i) => {
            lemma_int_roundtrip(i);
        },
        ValueV::Hex(h) => {
            lemma_hex_roundtrip(h);
        },
        ValueV::Bool(b) => {
            let t = bool_fmt(true);
            let f = bool_fmt(false);
            assert(t.len() == 4 && f.len() == 5);
            if b {
                assert(bool_parse(t) == Some(true));
            } else {
                assert(f != t);
                assert(bool_parse(f) == Some(false));
            }
        },
        ValueV::Str(_) => {},
    }
}

/// Round-trip for signed decimal integers.
pub proof fn lemma_int_roundtrip(i: i64)
    ensures
        int_parse(int_fmt(i as int)) == Some(i),
{
    if i >= 0 {
        let s = int_fmt(i as int);
        lemma_digits_of_val(i as nat, 10);
        lemma_digits_no_sign(i as nat, 10);
        assert(parse_u64_digits(s, 10) == Some(i as u64));
    } else {
        let mag = (-(i as int)) as nat;
        let d = digits_of(mag, 10);
        let s = seq!['-'] + d;
        assert(s[0] == '-');
        lemma_digits_of_val(mag, 10);
        assert(s.subrange(1, s.len() as int) =~= d);
        assert(parse_u64_digits(d, 10) == Some(mag as u64));
        if i == i64::MIN {
            assert(mag == i64::MAX as u64 + 1);
        } else {
            assert(mag <= i64::MAX as u64);
            assert((-(mag as int)) as i64 == i);
        }
    }
}

/// Round-trip for hexadecimal values.
pub proof fn lemma_hex_roundtrip(h: u64)
    ensures
        hex_parse(hex_fmt(h)) == Some(h),
{
    if h == 0 {
        let s = seq!['0'];
        assert(s.len() == 1);
        lemma_digits_of_val(0, 10);
        assert(digits_of(0, 10) =~= s);
        assert(parse_u64_digits(s, 10) == Some(0u64));
    } else {
        let d = digits_of(h as nat, 16);
        let s = seq!['0', 'x'] + d;
        lemma_digits_of_val(h as nat, 16);
        assert(s[0] == '0' && s[1] == 'x');
        assert(s.len() >= 2);
        assert(s.subrange(2, s.len() as int) =~= d);
        assert(parse_u64_digits(d, 16) == Some(h));
    }
}

/// Whether clamping is defined between `a` and `b`: both are numeric values
/// of the same concrete type.
pub open spec fn comparable(a: ValueV, b: ValueV) -> bool {
    match (a, b) {
        (ValueV::Int(_), ValueV::Int(_)) => true,
        (ValueV::Hex(_), ValueV::Hex(_)) => true,
        _ => false,
    }
}

/// Numeric order between two comparable values.
pub open spec fn value_lt(a: ValueV, b: ValueV) -> bool {
    match (a, b) {
        (ValueV::Int(x), ValueV::Int(y)) => x < y,
        (ValueV::Hex(x), ValueV::Hex(y)) => x < y,
        _ => false,
    }
}

/// `v` clamped into the inclusive range `[min, max]`; a missing bound leaves
/// that side open, and a bound of another concrete type does not apply.
pub open spec fn clamp_spec(v: ValueV, min: Option<ValueV>, max: Option<ValueV>) -> ValueV {
    let lo = match min {
        Some(m) => if comparable(v, m) && value_lt(v, m) {
            m
        } else {
            v
        },
        None => v,
    };
    match max {
        Some(m) => if comparable(lo, m) && value_lt(m, lo) {
            m
        } else {
            lo
        },
        None => lo,
    }
}

/// Clamps `v` into the inclusive range `[min, max]`.
pub fn clamp_value(v: Value, min: &Option<Value>, max: &Option<Value>) -> (r: Value)
    ensures
        r@ == clamp_spec(v@, opt_value_view(*min), opt_value_view(*max)),
{
    let lo = match min {
        Some(m) => if v.tag_matches(m) && value_below(&v, m) {
            m.duplicate()
        } else {
            v
        },
        None => v,
    };
    match max {
        Some(m) => if lo.tag_matches(m) && value_below(m, &lo) {
            m.duplicate()
        } else {
            lo
        },
        None => lo,
    }
}

/// Clamping with both bounds of the value's own numeric type lands exactly
/// on the nearer bound when the value lies outside the range, and leaves the
/// value unchanged when it lies within.
pub proof fn lemma_clamp_range(v: ValueV, lo: ValueV, hi: ValueV)
    requires
        comparable(v, lo),
        comparable(v, hi),
        !value_lt(hi, lo),
    ensures
        value_lt(v, lo) ==> clamp_spec(v, Some(lo), Some(hi)) == lo,
        value_lt(hi, v) ==> clamp_spec(v, Some(lo), Some(hi)) == hi,
        !value_lt(v, lo) && !value_lt(hi, v) ==> clamp_spec(v, Some(lo), Some(hi)) == v,
{
}

/// The view of an optional value.
pub open spec fn opt_value_view(o: Option<Value>) -> Option<ValueV> {
    match o {
        Some(v) => Some(v@),
        None => None,
    }
}

/// Whether `a` is numerically below `b` (only for comparable values).
fn value_below(a: &Value, b: &Value) -> (r: bool)
    ensures
        r == value_lt(a@, b@),
{
    match (a, b) {
        (Value::Int(x), Value::Int(y)) => x < y,
        (Value::Hex(x), Value::Hex(y)) => x < y,
        _ => false,
    }
}

} // verus!
