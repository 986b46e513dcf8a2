//! Reading and writing decimal numbers.
use vstd::prelude::*;

use crate::interpreter::chars::{is_ascii_digit, spec_is_ascii_digit};
use crate::util::text::push_char;

verus! {

/// The value of the decimal digits `d`.
pub open spec fn decimal_value(d: Seq<char>) -> nat
    decreases d.len(),
{
    if d.len() == 0 {
        0
    } else {
        decimal_value(d.drop_last()) * 10 + ((d.last() as u32) - ('0' as u32)) as nat
    }
}

pub open spec fn all_digits(d: Seq<char>) -> bool {
    forall|i: int| 0 <= i < d.len() ==> spec_is_ascii_digit(#[trigger] d[i])
}

/// What `str::parse` gives for an unsigned integer type whose largest value is
/// `max`: an optional `+` followed by at least one decimal digit, with a value
/// of at most `max`.
pub open spec fn spec_parse_unsigned(s: Seq<char>, max: nat) -> Option<nat> {
    let d = if s.len() > 0 && s[0] == '+' {
        s.drop_first()
    } else {
        s
    };
    if d.len() == 0 || !all_digits(d) || decimal_value(d) > max {
        None
    } else {
        Some(decimal_value(d))
    }
}

proof fn lemma_decimal_grows(d: Seq<char>, j: int)
    requires
        0 <= j <= d.len(),
        all_digits(d),
    ensures
        decimal_value(d.take(j)) <= decimal_value(d),
    decreases d.len() - j,
{
    if j < d.len() {
        lemma_decimal_grows(d, j + 1);
        assert(d.take(j + 1).drop_last() =~= d.take(j));
        assert(spec_is_ascii_digit(d[j]));
    } else {
        assert(d.take(j) =~= d);
    }
}

/// Reads `s` as `str::parse` reads an unsigned number no larger than `max`.
pub fn parse_unsigned(s: &Vec<char>, max: u64) -> (r: Option<u64>)
    ensures
        match r {
            Some(v) => spec_parse_unsigned(s@, max as nat) == Some(v as nat),
            None => spec_parse_unsigned(s@, max as nat) is None,
        },
{
    let n = s.len();
    let start: usize = if n > 0 && s[0] == '+' {
        1
    } else {
        0
    };
    let ghost d = if s@.len() > 0 && s@[0] == '+' {
        s@.drop_first()
    } else {
        s@
    };
    assert(d =~= s@.skip(start as int));
    if start == n {
        return None;
    }
    let mut v: u64 = 0;
    let mut i = start;
    while i < n
        invariant
            start <= i <= n == s.len(),
            d =~= s@.skip(start as int),
            d == (if s@.len() > 0 && s@[0] == '+' {
                s@.drop_first()
            } else {
                s@
            }),
            forall|k: int| 0 <= k < i - start ==> spec_is_ascii_digit(#[trigger] d[k]),
            v == decimal_value(d.take(i - start)),
            v <= max,
        decreases n - i,
    {
        let c = s[i];
        assert(d[i - start] == c);
        if !is_ascii_digit(c) {
            assert(!spec_is_ascii_digit(d[i - start]));
            assert(!all_digits(d));
            assert(spec_parse_unsigned(s@, max as nat) is None);
            return None;
        }
        let digit = (c as u32 - '0' as u32) as u64;
        assert(d.take(i - start + 1).drop_last() =~= d.take(i - start));
        if digit > max || v > (max - digit) / 10 {
            proof {
                let j = i - start + 1;
                if all_digits(d) {
                    lemma_decimal_grows(d, j);
                    assert(decimal_value(d.take(j)) == v * 10 + digit);
                    assert(v * 10 + digit > max) by (nonlinear_arith)
                        requires
                            digit > max || v > (max - digit) / 10,
                    ;
                }
            }
            return None;
        }
        assert(v * 10 + digit <= max) by (nonlinear_arith)
            requires
                digit <= max,
                v <= (max - digit) / 10,
        ;
        v = v * 10 + digit;
        i += 1;
    }
    assert(d.take(n - start) =~= d);
    Some(v)
}

/// The decimal digits of `n`, without leading zeros (`"0"` for zero).
pub open spec fn decimal_digits(n: nat) -> Seq<char>
    decreases n,
{
    if n < 10 {
        seq![(n + ('0' as u32)) as char]
    } else {
        decimal_digits(n / 10).push(((n % 10) + ('0' as u32)) as char)
    }
}

/// `n` written in decimal, as `format!("{}", n)` writes it.
pub fn u64_to_decimal(n: u64) -> (r: String)
    ensures
        r@ == decimal_digits(n as nat),
{
    let mut digits: Vec<char> = Vec::new();
    let mut m = n;
    // digits of n, least significant first
    while m >= 10
        invariant
            decimal_digits(n as nat) == decimal_digits(m as nat) + digits@.reverse(),
        decreases m,
    {
        let d = ((m % 10) as u8 + 48u8) as char;
        assert(decimal_digits(m as nat) == decimal_digits((m / 10) as nat).push(d));
        let ghost old_digits = digits@;
        digits.push(d);
        assert(digits@.reverse() =~= seq![d] + old_digits.reverse());
        m = m / 10;
    }
    let first = (m as u8 + 48u8) as char;
    assert(decimal_digits(m as nat) == seq![first]);
    let mut r = String::new();
    push_char(&mut r, first);
    let k = digits.len();
    let mut j = k;
    while j > 0
        invariant
            j <= k == digits.len(),
            decimal_digits(n as nat) == seq![first] + digits@.reverse(),
            r@ == seq![first] + digits@.reverse().take(k - j),
        decreases j,
    {
        assert(digits@.reverse().take(k - j + 1) =~= digits@.reverse().take(k - j).push(
            digits@[j - 1],
        ));
        push_char(&mut r, digits[j - 1]);
        j -= 1;
    }
    assert(digits@.reverse().take(k as int) =~= digits@.reverse());
    r
}

} // verus!
