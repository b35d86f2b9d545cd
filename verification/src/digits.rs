//! Numeric text: formatting integers as decimal or hexadecimal strings and
//! parsing them back, with exact specifications relating both directions.

use vstd::prelude::*;
use vstd::string::StrSliceExecFns;
use vstd::string::StringExecFns;

verus! {

/// The character for one digit in the range `0 ..= 15` (lowercase).
pub open spec fn digit_char(d: int) -> char {
    if d == 0 {
        '0'
    } else if d == 1 {
        '1'
    } else if d == 2 {
        '2'
    } else if d == 3 {
        '3'
    } else if d == 4 {
        '4'
    } else if d == 5 {
        '5'
    } else if d == 6 {
        '6'
    } else if d == 7 {
        '7'
    } else if d == 8 {
        '8'
    } else if d == 9 {
        '9'
    } else if d == 10 {
        'a'
    } else if d == 11 {
        'b'
    } else if d == 12 {
        'c'
    } else if d == 13 {
        'd'
    } else if d == 14 {
        'e'
    } else {
        'f'
    }
}

/// Whether `c` is a digit of base `radix` (10 or 16; letters of either case).
pub open spec fn is_digit(c: char, radix: int) -> bool {
    if radix == 16 {
        ('0' <= c && c <= '9') || ('a' <= c && c <= 'f') || ('A' <= c && c <= 'F')
    } else {
        '0' <= c && c <= '9'
    }
}

/// The numeric value of the digit `c` in base `radix`.
pub open spec fn digit_val(c: char, radix: int) -> int {
    if '0' <= c && c <= '9' {
        c as int - '0' as int
    } else if 'a' <= c && c <= 'f' {
        c as int - 'a' as int + 10
    } else {
        c as int - 'A' as int + 10
    }
}

/// The number written by the digit string `s` in base `radix`.
pub open spec fn digits_val(s: Seq<char>, radix: int) -> int
    decreases s.len(),
{
    if s.len() == 0 {
        0
    } else {
        digits_val(s.drop_last(), radix) * radix + digit_val(s.last(), radix)
    }
}

/// Whether every character of `s` is a digit of base `radix`.
pub open spec fn all_digits(s: Seq<char>, radix: int) -> bool {
    forall|i: int| 0 <= i < s.len() ==> is_digit(#[trigger] s[i], radix)
}

/// The digit string of `n` in base `radix`, lowercase and without leading
/// zeros (except for `n == 0` itself).
pub open spec fn digits_of(n: nat, radix: int) -> Seq<char>
    decreases n via digits_of_decreases
{
    if n < radix || radix <= 1 {
        seq![digit_char(n as int)]
    } else {
        digits_of(n / radix as nat, radix) + seq![digit_char(n as int % radix)]
    }
}

#[via_fn]
proof fn digits_of_decreases(n: nat, radix: int) {
    if !(n < radix || radix <= 1) {
        assert((n >= radix && radix >= 2) ==> (n / (radix as nat) < n)) by (nonlinear_arith);
    }
}

/// What parsing a whole digit string as a `u64` yields: the written number if
/// the string is non-empty, made of digits only and the number fits.
pub open spec fn parse_u64_digits(s: Seq<char>, radix: int) -> Option<u64> {
    if s.len() > 0 && all_digits(s, radix) && digits_val(s, radix) <= u64::MAX {
        Some(digits_val(s, radix) as u64)
    } else {
        None
    }
}

/// A digit string never writes a negative number.
pub proof fn lemma_digits_val_nonneg(s: Seq<char>, radix: int)
    requires
        radix >= 2,
        all_digits(s, radix),
    ensures
        digits_val(s, radix) >= 0,
    decreases s.len(),
{
    if s.len() > 0 {
        assert(all_digits(s.drop_last(), radix));
        lemma_digits_val_nonneg(s.drop_last(), radix);
        assert(digit_val(s.last(), radix) >= 0);
    }
}

/// Extending a digit string on the right never shrinks its value.
pub proof fn lemma_digits_val_prefix_le(s: Seq<char>, i: int, radix: int)
    requires
        radix >= 2,
        all_digits(s, radix),
        0 <= i <= s.len(),
    ensures
        digits_val(s.take(i), radix) <= digits_val(s, radix),
    decreases s.len() - i,
{
    if i == s.len() {
        assert(s.take(i) =~= s);
    } else {
        lemma_digits_val_prefix_le(s, i + 1, radix);
        let t = s.take(i + 1);
        assert(t.drop_last() =~= s.take(i));
        assert(t.last() == s[i]);
        assert(all_digits(s.take(i), radix)) by {
            assert(forall|j: int|
                0 <= j < i ==> s.take(i)[j] == #[trigger] s[j]);
        }
        lemma_digits_val_nonneg(s.take(i), radix);
        assert(digit_val(s[i], radix) >= 0);
        assert(digits_val(s.take(i), radix) * radix >= digits_val(s.take(i), radix)) by (
        nonlinear_arith)
            requires
                digits_val(s.take(i), radix) >= 0,
                radix >= 2,
        ;
    }
}

/// The digits of `n` are digits of the base, and read back as `n`.
pub proof fn lemma_digits_of_val(n: nat, radix: int)
    requires
        radix == 10 || radix == 16,
    ensures
        digits_of(n, radix).len() > 0,
        all_digits(digits_of(n, radix), radix),
        digits_val(digits_of(n, radix), radix) == n,
    decreases n,
{
    if n < radix {
        let s = digits_of(n, radix);
        assert(s =~= seq![digit_char(n as int)]);
        assert(s.drop_last() =~= Seq::<char>::empty());
        assert(digits_val(Seq::<char>::empty(), radix) == 0);
        assert(is_digit(digit_char(n as int), radix));
        assert(digit_val(digit_char(n as int), radix) == n);
        assert(digits_val(s, radix) == 0 * radix + n);
    } else {
        let q = n / radix as nat;
        let r = n as int % radix;
        lemma_digits_of_val(q, radix);
        let s = digits_of(n, radix);
        let head = digits_of(q, radix);
        assert(s =~= head + seq![digit_char(r)]);
        assert(s.drop_last() =~= head);
        assert(s.last() == digit_char(r));
        assert(0 <= r < radix);
        assert(is_digit(digit_char(r), radix));
        assert(digit_val(digit_char(r), radix) == r);
        assert(forall|i: int| 0 <= i < s.len() ==> is_digit(#[trigger] s[i], radix));
        assert(q * radix + r == n) by (nonlinear_arith)
            requires
                radix >= 2,
                q == n / radix as nat,
                r == n as int % radix,
                n >= 0,
        ;
    }
}

/// The one-character string for the digit `d` (lowercase).
pub fn digit_str(d: u64) -> (r: &'static str)
    requires
        d < 16,
    ensures
        r@ =~= seq![digit_char(d as int)],
{
    proof {
        reveal_strlit("0");
        reveal_strlit("1");
        reveal_strlit("2");
        reveal_strlit("3");
        reveal_strlit("4");
        reveal_strlit("5");
        reveal_strlit("6");
        reveal_strlit("7");
        reveal_strlit("8");
        reveal_strlit("9");
        reveal_strlit("a");
        reveal_strlit("b");
        reveal_strlit("c");
        reveal_strlit("d");
        reveal_strlit("e");
        reveal_strlit("f");
    }
    match d {
        0 => "0",
        1 => "1",
        2 => "2",
        3 => "3",
        4 => "4",
        5 => "5",
        6 => "6",
        7 => "7",
        8 => "8",
        9 => "9",
        10 => "a",
        11 => "b",
        12 => "c",
        13 => "d",
        14 => "e",
        _ => "f",
    }
}

/// Writes `n` in base `radix` (10 or 16), appending to `out`.
pub fn write_digits(n: u64, radix: u64, out: &mut String)
    requires
        radix == 10 || radix == 16,
    ensures
        final(out)@ == old(out)@ + digits_of(n as nat, radix as int),
    decreases n,
{
    if n < radix {
        out.append(digit_str(n));
    } else {
        write_digits(n / radix, radix, out);
        out.append(digit_str(n % radix));
        proof {
            assert(old(out)@ + digits_of((n / radix) as nat, radix as int) + seq![
                digit_char(n as int % radix as int),
            ] =~= old(out)@ + digits_of(n as nat, radix as int));
        }
    }
}

/// Parses a whole string of base-`radix` digits as a `u64`.
pub fn parse_digits(s: &str, radix: u64) -> (r: Option<u64>)
    requires
        radix == 10 || radix == 16,
    ensures
        r == parse_u64_digits(s@, radix as int),
{
    let len = s.unicode_len();
    if len == 0 {
        return None;
    }
    let mut acc: u64 = 0;
    let mut i: usize = 0;
    while i < len
        invariant
            radix == 10 || radix == 16,
            0 <= i <= len,
            len == s@.len(),
            all_digits(s@.take(i as int), radix as int),
            acc == digits_val(s@.take(i as int), radix as int),
        decreases len - i,
    {
        let c = s.get_char(i);
        let d: u64 = if c >= '0' && c <= '9' {
            (c as u32 as u64) - ('0' as u32 as u64)
        } else if radix == 16 && c >= 'a' && c <= 'f' {
            (c as u32 as u64) - ('a' as u32 as u64) + 10
        } else if radix == 16 && c >= 'A' && c <= 'F' {
            (c as u32 as u64) - ('A' as u32 as u64) + 10
        } else {
            proof {
                assert(!is_digit(s@[i as int], radix as int));
            }
            return None;
        };
        proof {
            assert(is_digit(s@[i as int], radix as int));
            assert(d == digit_val(s@[i as int], radix as int));
        }
        let wide: u128 = (acc as u128) * (radix as u128) + (d as u128);
        proof {
            let t = s@.take(i as int + 1);
            assert(t.drop_last() =~= s@.take(i as int));
            assert(t.last() == s@[i as int]);
            assert(wide == digits_val(t, radix as int));
        }
        if wide > u64::MAX as u128 {
            proof {
                assert(all_digits(s@.take(i as int + 1), radix as int)) by {
                    assert(forall|j: int|
                        0 <= j < i + 1 ==> s@.take(i as int + 1)[j] == #[trigger] s@[j]);
                }
                if all_digits(s@, radix as int) {
                    lemma_digits_val_prefix_le(s@, i as int + 1, radix as int);
                }
            }
            return None;
        }
        acc = wide as u64;
        proof {
            assert(all_digits(s@.take(i as int + 1), radix as int)) by {
                assert(forall|j: int|
                    0 <= j < i + 1 ==> s@.take(i as int + 1)[j] == #[trigger] s@[j]);
            }
        }
        i += 1;
    }
    proof {
        assert(s@.take(len as int) =~= s@);
    }
    Some(acc)
}

} // verus!
