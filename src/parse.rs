//! Parsing of setting values: unsigned integers, booleans and decimals.
use vstd::prelude::*;

use crate::text::{dec, digit_char, text_eq};

verus! {

pub open spec fn is_digit(c: char) -> bool {
    '0' <= c && c <= '9'
}

pub open spec fn digit_value(c: char) -> nat {
    (c as int - '0' as int) as nat
}

pub open spec fn all_digits(s: Seq<char>) -> bool {
    forall|i: int| 0 <= i < s.len() ==> is_digit(#[trigger] s[i])
}

/// The number that a run of decimal digits denotes.
pub open spec fn digits_value(s: Seq<char>) -> nat
    decreases s.len(),
{
    if s.len() == 0 {
        0
    } else {
        digits_value(s.drop_last()) * 10 + digit_value(s.last())
    }
}

/// Why a text is not an unsigned integer of the wanted width.
#[derive(Debug, Clone, Copy, PartialEq, Eq, Structural)]
pub enum IntErrorKind {
    Empty,
    InvalidDigit,
    PosOverflow,
}

/// Some run of leading digits of `s` already denotes a number above `max`.
pub open spec fn overflows(s: Seq<char>, max: nat) -> bool {
    exists|k: int|
        0 <= k <= s.len() && all_digits(s.take(k)) && #[trigger] digits_value(s.take(k)) > max
}

/// Unsigned integer syntax: an optional `+`, then decimal digits. Digits are
/// read from the left; the value overflowing `max` is reported as soon as it
/// happens, a character that is no digit when it is reached.
pub open spec fn parse_uint(s: Seq<char>, max: nat) -> Result<nat, IntErrorKind> {
    if s.len() == 0 {
        Err(IntErrorKind::Empty)
    } else {
        let body = if s[0] == '+' {
            s.drop_first()
        } else {
            s
        };
        if body.len() == 0 {
            Err(IntErrorKind::InvalidDigit)
        } else if overflows(body, max) {
            Err(IntErrorKind::PosOverflow)
        } else if !all_digits(body) {
            Err(IntErrorKind::InvalidDigit)
        } else {
            Ok(digits_value(body))
        }
    }
}

proof fn lemma_digits_value_monotone(s: Seq<char>, j: int, k: int)
    requires
        0 <= j <= k <= s.len(),
    ensures
        digits_value(s.take(j)) <= digits_value(s.take(k)),
    decreases k - j,
{
    if j < k {
        lemma_digits_value_monotone(s, j, k - 1);
        assert(s.take(k).drop_last() =~= s.take(k - 1));
    }
}

fn digit_of(c: char) -> (d: u64)
    requires
        is_digit(c),
    ensures
        d == digit_value(c),
{
    (c as u32 - '0' as u32) as u64
}

/// Parses an unsigned integer no larger than `max`.
pub fn parse_uint_text(s: &str, max: u64) -> (r: Result<u64, IntErrorKind>)
    ensures
        match parse_uint(s@, max as nat) {
            Ok(v) => v <= max && r == Ok::<u64, IntErrorKind>(v as u64),
            Err(k) => r == Err::<u64, IntErrorKind>(k),
        },
        r matches Ok(v) ==> v <= max,
{
    let n = s.unicode_len();
    if n == 0 {
        return Err(IntErrorKind::Empty);
    }
    let start: usize = if s.get_char(0) == '+' {
        1
    } else {
        0
    };
    let ghost body = s@.skip(start as int);
    assert(body =~= (if s@[0] == '+' { s@.drop_first() } else { s@ }));
    if start == n {
        return Err(IntErrorKind::InvalidDigit);
    }
    let mut m: u64 = 0;
    let mut i: usize = start;
    while i < n
        invariant
            n == s@.len(),
            start <= i <= n,
            body == s@.skip(start as int),
            body == (if s@[0] == '+' { s@.drop_first() } else { s@ }),
            start < n,
            all_digits(body.take(i - start)),
            m == digits_value(body.take(i - start)),
            m <= max,
        decreases n - i,
    {
        let c = s.get_char(i);
        let ghost k = i - start;
        assert(body[k] == c);
        if !('0' <= c && c <= '9') {
            proof {
                assert forall|j: int|
                    0 <= j <= body.len() && all_digits(body.take(j)) implies #[trigger] digits_value(
                    body.take(j),
                ) <= max by {
                    if j > k {
                        assert(body.take(j)[k] == c);
                    } else {
                        lemma_digits_value_monotone(body, j, k);
                    }
                }
                assert(!is_digit(body[k]));
            }
            return Err(IntErrorKind::InvalidDigit);
        }
        let d = digit_of(c);
        assert(body.take(k + 1).drop_last() =~= body.take(k));
        assert(body.take(k + 1).last() == c);
        let next = match m.checked_mul(10) {
            Some(x) => match x.checked_add(d) {
                Some(y) => if y <= max {
                    Some(y)
                } else {
                    None
                },
                None => None,
            },
            None => None,
        };
        match next {
            Some(y) => {
                m = y;
            },
            None => {
                proof {
                    assert(all_digits(body.take(k + 1)));
                    assert(digits_value(body.take(k + 1)) > max);
                }
                return Err(IntErrorKind::PosOverflow);
            },
        }
        i = i + 1;
    }
    proof {
        assert(body.take(n - start) =~= body);
        assert forall|j: int|
            0 <= j <= body.len() && all_digits(body.take(j)) implies #[trigger] digits_value(
            body.take(j),
        ) <= max by {
            lemma_digits_value_monotone(body, j, body.len() as int);
        }
    }
    Ok(m)
}

/// Boolean syntax: exactly `true` or `false`.
pub open spec fn parse_bool(s: Seq<char>) -> Option<bool> {
    if s == "true"@ {
        Some(true)
    } else if s == "false"@ {
        Some(false)
    } else {
        None
    }
}

/// Parses `true` or `false`.
pub fn parse_bool_text(s: &str) -> (r: Option<bool>)
    ensures
        r == parse_bool(s@),
{
    if text_eq(s, "true") {
        Some(true)
    } else if text_eq(s, "false") {
        Some(false)
    } else {
        None
    }
}

proof fn lemma_dec_digits(n: nat)
    ensures
        dec(n).len() > 0,
        all_digits(dec(n)),
        digits_value(dec(n)) == n,
    decreases n,
{
    if n < 10 {
        assert(dec(n) == seq![digit_char(n)]);
        assert(dec(n).drop_last() =~= Seq::<char>::empty());
        assert(digit_value(digit_char(n)) == n);
        assert(digits_value(dec(n)) == digits_value(dec(n).drop_last()) * 10 + digit_value(
            dec(n).last(),
        ));
    } else {
        assert(digit_value(digit_char(n % 10)) == n % 10);
        assert(n == (n / 10) * 10 + n % 10);
        lemma_dec_digits(n / 10);
        let d = dec(n);
        assert(d.drop_last() =~= dec(n / 10));
        assert(d.last() == digit_char(n % 10));
        assert(digits_value(d) == digits_value(d.drop_last()) * 10 + digit_value(d.last()));
        assert forall|i: int| 0 <= i < d.len() implies is_digit(#[trigger] d[i]) by {
            if i < d.len() - 1 {
                assert(d[i] == dec(n / 10)[i]);
            }
        }
    }
}

/// A number written in decimal reads back as itself.
pub proof fn lemma_dec_parses(n: nat, max: nat)
    requires
        n <= max,
    ensures
        parse_uint(dec(n), max) == Ok::<nat, IntErrorKind>(n),
{
    lemma_dec_digits(n);
    let s = dec(n);
    assert(is_digit(s[0]));
    assert forall|k: int|
        0 <= k <= s.len() && all_digits(s.take(k)) implies #[trigger] digits_value(s.take(k))
        <= max by {
        lemma_digits_value_monotone(s, k, s.len() as int);
        assert(s.take(s.len() as int) =~= s);
    }
}

} // verus!
