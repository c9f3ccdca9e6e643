//! Exact decimal numbers, as the similarity threshold is given.
use vstd::prelude::*;

use crate::parse::{digit_value, digits_value, is_digit, parse_uint, parse_uint_text};
use crate::text::{
    dec, first_index, lemma_first_index, lemma_first_index_is, lemma_first_index_none, u64_text,
};

verus! {

pub open spec fn pow10(n: nat) -> nat
    decreases n,
{
    if n == 0 {
        1
    } else {
        10 * pow10((n - 1) as nat)
    }
}

proof fn lemma_pow10_monotone(i: nat, j: nat)
    requires
        i <= j,
    ensures
        1 <= pow10(i) <= pow10(j),
    decreases j,
{
    if i < j {
        lemma_pow10_monotone(i, (j - 1) as nat);
    } else if i > 0 {
        lemma_pow10_monotone((i - 1) as nat, (i - 1) as nat);
    }
}

proof fn lemma_pow10_values()
    ensures
        pow10(19) == 10000000000000000000,
        pow10(20) == 100000000000000000000,
{
    reveal_with_fuel(pow10, 21);
}

/// The number `mantissa / 10^scale`, negated when `negative` is set.
#[derive(Debug, Clone, Copy, PartialEq, Eq, Structural)]
pub struct Decimal {
    pub negative: bool,
    pub mantissa: u64,
    pub scale: u32,
}

/// Number of `.` in `s`.
pub open spec fn dots(s: Seq<char>) -> nat
    decreases s.len(),
{
    if s.len() == 0 {
        0
    } else {
        dots(s.drop_last()) + if s.last() == '.' {
            1nat
        } else {
            0nat
        }
    }
}

/// `s` with every `.` taken out.
pub open spec fn strip_dots(s: Seq<char>) -> Seq<char>
    decreases s.len(),
{
    if s.len() == 0 {
        s
    } else if s.last() == '.' {
        strip_dots(s.drop_last())
    } else {
        strip_dots(s.drop_last()).push(s.last())
    }
}

/// Number of characters of `s` that follow a `.`.
pub open spec fn frac_len(s: Seq<char>) -> nat
    decreases s.len(),
{
    if s.len() == 0 {
        0
    } else {
        frac_len(s.drop_last()) + if dots(s.drop_last()) > 0 {
            1nat
        } else {
            0nat
        }
    }
}

/// Digits with at most one decimal point, and at least one digit.
pub open spec fn decimal_body(s: Seq<char>) -> bool {
    &&& forall|i: int| 0 <= i < s.len() ==> is_digit(#[trigger] s[i]) || s[i] == '.'
    &&& dots(s) <= 1
    &&& strip_dots(s).len() > 0
}

/// Why a text is not a decimal.
#[derive(Debug, Clone, Copy, PartialEq, Eq, Structural)]
pub enum DecimalErrorKind {
    Empty,
    Invalid,
}

pub open spec fn is_exp_mark(c: char) -> bool {
    c == 'e' || c == 'E'
}

/// The part before the first `e` or `E`, and the exponent text after it.
pub open spec fn split_exponent(body: Seq<char>) -> (Seq<char>, Option<Seq<char>>) {
    match first_index(body, |c: char| is_exp_mark(c)) {
        Some(i) => (body.take(i), Some(body.skip(i + 1))),
        None => (body, None),
    }
}

/// An exponent: an optional sign, then decimal digits whose value fits in a
/// `u32`.
pub open spec fn exponent_value(t: Seq<char>) -> Option<int> {
    let d = if t.len() > 0 && (t[0] == '-' || t[0] == '+') {
        t.drop_first()
    } else {
        t
    };
    if d.len() > 0 && d[0] != '+' && parse_uint(d, u32::MAX as nat) is Ok {
        let v = parse_uint(d, u32::MAX as nat)->Ok_0 as int;
        Some(
            if t[0] == '-' {
                -v
            } else {
                v
            },
        )
    } else {
        None
    }
}

/// The decimal `v * 10^e`, when its mantissa fits in a `u64` and its scale in
/// a `u32`.
pub open spec fn scaled(negative: bool, v: nat, e: int) -> Option<Decimal> {
    if e >= 0 {
        if v * pow10(e as nat) <= u64::MAX {
            Some(Decimal { negative, mantissa: (v * pow10(e as nat)) as u64, scale: 0 })
        } else {
            None
        }
    } else if -e <= u32::MAX {
        Some(Decimal { negative, mantissa: v as u64, scale: (-e) as u32 })
    } else {
        None
    }
}

/// Decimal syntax: an optional sign, digits with at most one point (`1.5`,
/// `-0.1`, `.5`, `2.`), then optionally `e` or `E` and a signed exponent
/// (`5e-1`, `1E0`). The digits together must fit in a `u64`; the value is
/// kept exactly, as a mantissa and a number of decimal places.
pub open spec fn parse_decimal(s: Seq<char>) -> Result<Decimal, DecimalErrorKind> {
    if s.len() == 0 {
        Err(DecimalErrorKind::Empty)
    } else {
        let body = if s[0] == '-' || s[0] == '+' {
            s.drop_first()
        } else {
            s
        };
        let m = split_exponent(body).0;
        let e = match split_exponent(body).1 {
            Some(t) => exponent_value(t),
            None => Some(0int),
        };
        if decimal_body(m) && digits_value(strip_dots(m)) <= u64::MAX && frac_len(m) <= u32::MAX
            && e is Some {
            match scaled(s[0] == '-', digits_value(strip_dots(m)), e->Some_0 - frac_len(m)) {
                Some(d) => Ok(d),
                None => Err(DecimalErrorKind::Invalid),
            }
        } else {
            Err(DecimalErrorKind::Invalid)
        }
    }
}

pub open spec fn zeros(n: int) -> Seq<char> {
    Seq::new(
        if n > 0 {
            n as nat
        } else {
            0
        },
        |i: int| '0',
    )
}

impl Decimal {
    /// The value times `10^scale`.
    pub open spec fn numerator(self) -> int {
        if self.negative {
            -(self.mantissa as int)
        } else {
            self.mantissa as int
        }
    }

    /// The value lies in `[0, 1]`.
    pub open spec fn spec_in_unit_interval(self) -> bool {
        0 <= self.numerator() <= pow10(self.scale as nat)
    }

    /// Rendering: sign, integer part, and for a non-zero scale a point and
    /// exactly `scale` fraction digits.
    pub open spec fn spec_text(self) -> Seq<char> {
        let p = pow10(self.scale as nat);
        let whole = dec(self.mantissa as nat / p);
        let frac = dec(self.mantissa as nat % p);
        let sign = if self.negative {
            "-"@
        } else {
            ""@
        };
        if self.scale == 0 {
            sign + whole
        } else {
            sign + whole + "."@ + zeros(self.scale - frac.len()) + frac
        }
    }

    /// Parses a decimal written as `parse_decimal` describes.
    pub fn parse(s: &str) -> (r: Result<Decimal, DecimalErrorKind>)
        ensures
            r == parse_decimal(s@),
    {
        let n = s.unicode_len();
        if n == 0 {
            return Err(DecimalErrorKind::Empty);
        }
        let first = s.get_char(0);
        let negative = first == '-';
        let start: usize = if first == '-' || first == '+' {
            1
        } else {
            0
        };
        let ghost body = s@.skip(start as int);
        assert(body =~= (if s@[0] == '-' || s@[0] == '+' { s@.drop_first() } else { s@ }));
        let epos = find_exp_mark(s, start);
        proof {
            lemma_first_index(body, |c: char| is_exp_mark(c));
        }
        let ghost m = split_exponent(body).0;
        assert(m =~= s@.subrange(start as int, epos as int));
        let (v, f) = match scan_mantissa(s, start, epos) {
            Some(p) => p,
            None => {
                return Err(DecimalErrorKind::Invalid);
            },
        };
        let e: i64 = if epos < n {
            let t = s.substring_char(epos + 1, n);
            assert(t@ =~= split_exponent(body).1->Some_0);
            match exponent_of(t) {
                Some(e) => e,
                None => {
                    return Err(DecimalErrorKind::Invalid);
                },
            }
        } else {
            0
        };
        let net: i64 = e - f as i64;
        if net >= 0 {
            if v == 0 {
                assert(0 * pow10(net as nat) == 0);
                return Ok(Decimal { negative, mantissa: 0, scale: 0 });
            }
            if net > 19 {
                proof {
                    lemma_pow10_values();
                    lemma_pow10_monotone(20, net as nat);
                    let p = pow10(net as nat);
                    assert(v * p >= p) by (nonlinear_arith)
                        requires
                            v >= 1,
                    ;
                }
                return Err(DecimalErrorKind::Invalid);
            }
            let p = pow10_u64(net as u32);
            match v.checked_mul(p) {
                Some(x) => Ok(Decimal { negative, mantissa: x, scale: 0 }),
                None => Err(DecimalErrorKind::Invalid),
            }
        } else {
            let places: i64 = -net;
            if places > u32::MAX as i64 {
                return Err(DecimalErrorKind::Invalid);
            }
            Ok(Decimal { negative, mantissa: v, scale: places as u32 })
        }
    }

    /// Whether the value lies in `[0, 1]`.
    pub fn in_unit_interval(&self) -> (r: bool)
        ensures
            r == self.spec_in_unit_interval(),
    {
        if self.negative {
            return self.mantissa == 0;
        }
        if self.scale >= 20 {
            proof {
                lemma_pow10_values();
                lemma_pow10_monotone(20, self.scale as nat);
            }
            return true;
        }
        let p = pow10_u64(self.scale);
        self.mantissa <= p
    }

    /// The decimal rendering of this number.
    pub fn text(&self) -> (r: String)
        ensures
            r@ == self.spec_text(),
    {
        let (whole, frac) = if self.scale >= 20 {
            proof {
                lemma_pow10_values();
                lemma_pow10_monotone(20, self.scale as nat);
                let p = pow10(self.scale as nat);
                vstd::arithmetic::div_mod::lemma_basic_div(self.mantissa as int, p as int);
                vstd::arithmetic::div_mod::lemma_small_mod(self.mantissa as nat, p);
            }
            (0u64, self.mantissa)
        } else {
            let p = pow10_u64(self.scale);
            (self.mantissa / p, self.mantissa % p)
        };
        let mut r = if self.negative {
            String::from_str("-")
        } else {
            String::from_str("")
        };
        let w = u64_text(whole);
        r.append(w.as_str());
        if self.scale == 0 {
            return r;
        }
        r.append(".");
        let f = u64_text(frac);
        let flen = f.unicode_len();
        let scale = self.scale as usize;
        let ghost before = r@;
        if flen < scale {
            let mut j: usize = flen;
            while j < scale
                invariant
                    flen <= j <= scale,
                    r@ == before + zeros(j - flen),
                decreases scale - j,
            {
                r.append("0");
                proof {
                    reveal_strlit("0");
                }
                assert(r@ =~= before + zeros(j + 1 - flen));
                j = j + 1;
            }
        } else {
            assert(zeros(scale - flen) =~= Seq::<char>::empty());
            assert(r@ =~= before + zeros(scale - flen));
        }
        r.append(f.as_str());
        r
    }
}

/// `10^e` for an exponent small enough that it fits.
fn pow10_u64(e: u32) -> (r: u64)
    requires
        e <= 19,
    ensures
        r == pow10(e as nat),
        r >= 1,
{
    proof {
        lemma_pow10_monotone(0, e as nat);
    }
    let mut p: u64 = 1;
    let mut i: u32 = 0;
    while i < e
        invariant
            i <= e <= 19,
            p == pow10(i as nat),
        decreases e - i,
    {
        proof {
            lemma_pow10_values();
            lemma_pow10_monotone((i + 1) as nat, 19);
        }
        p = p * 10;
        i = i + 1;
    }
    p
}

} // verus!

verus! {

/// The position of the first `e` or `E` at or after `start`, or the length.
fn find_exp_mark(s: &str, start: usize) -> (r: usize)
    requires
        start <= s@.len(),
    ensures
        start <= r <= s@.len(),
        match first_index(s@.skip(start as int), |c: char| is_exp_mark(c)) {
            Some(i) => r == start + i,
            None => r == s@.len(),
        },
{
    let n = s.unicode_len();
    let ghost body = s@.skip(start as int);
    let ghost p = |c: char| is_exp_mark(c);
    let mut i: usize = start;
    while i < n
        invariant
            n == s@.len(),
            start <= i <= n,
            body == s@.skip(start as int),
            p == (|c: char| is_exp_mark(c)),
            forall|j: int| 0 <= j < i - start ==> !p(#[trigger] body[j]),
        decreases n - i,
    {
        let c = s.get_char(i);
        assert(body[i - start] == c);
        if c == 'e' || c == 'E' {
            proof {
                lemma_first_index_is(body, p, i - start);
            }
            return i;
        }
        i = i + 1;
    }
    proof {
        lemma_first_index_none(body, p);
    }
    n
}

/// Reads the digits and point of `s@[start..end]`: the digits' value and the
/// number of digits after the point.
fn scan_mantissa(s: &str, start: usize, end: usize) -> (r: Option<(u64, i64)>)
    requires
        start <= end <= s@.len(),
    ensures
        ({
            let m = s@.subrange(start as int, end as int);
            match r {
                Some((v, f)) => decimal_body(m) && digits_value(strip_dots(m)) <= u64::MAX
                    && frac_len(m) <= u32::MAX && v == digits_value(strip_dots(m)) && f
                    == frac_len(m),
                None => !(decimal_body(m) && digits_value(strip_dots(m)) <= u64::MAX && frac_len(
                    m,
                ) <= u32::MAX),
            }
        }),
{
    let ghost body = s@.subrange(start as int, end as int);
    let mut m: u64 = 0;
    let mut overflow = false;
    let mut ndots: usize = 0;
    let mut ndigits: usize = 0;
    let mut frac: usize = 0;
    let mut i: usize = start;
    while i < end
        invariant
            end <= s@.len(),
            start <= i <= end,
            body == s@.subrange(start as int, end as int),
            forall|j: int| 0 <= j < i - start ==> is_digit(#[trigger] body[j]) || body[j] == '.',
            ndots == dots(body.take(i - start)),
            ndots <= i - start,
            ndigits == strip_dots(body.take(i - start)).len(),
            ndigits <= i - start,
            frac == frac_len(body.take(i - start)),
            frac <= i - start,
            !overflow ==> m == digits_value(strip_dots(body.take(i - start))),
            overflow ==> digits_value(strip_dots(body.take(i - start))) > u64::MAX,
        decreases end - i,
    {
        let c = s.get_char(i);
        let ghost k = i - start;
        let ghost pre = body.take(k);
        let ghost cur = body.take(k + 1);
        assert(body[k] == c);
        assert(cur.drop_last() =~= pre);
        assert(cur.last() == c);
        if c == '.' {
            if ndots > 0 {
                frac = frac + 1;
            }
            ndots = ndots + 1;
        } else if '0' <= c && c <= '9' {
            if ndots > 0 {
                frac = frac + 1;
            }
            let d = (c as u32 - '0' as u32) as u64;
            assert(d == digit_value(c));
            let ghost sp = strip_dots(pre);
            assert(strip_dots(cur) == sp.push(c));
            assert(sp.push(c).drop_last() =~= sp);
            if !overflow {
                match m.checked_mul(10) {
                    Some(x) => match x.checked_add(d) {
                        Some(y) => {
                            m = y;
                        },
                        None => {
                            overflow = true;
                        },
                    },
                    None => {
                        overflow = true;
                    },
                }
            }
            ndigits = ndigits + 1;
        } else {
            assert(!decimal_body(body));
            return None;
        }
        i = i + 1;
    }
    assert(body.take(end - start) =~= body);
    if ndots > 1 || ndigits == 0 || overflow || frac > u32::MAX as usize {
        return None;
    }
    Some((m, frac as i64))
}

/// Reads an exponent as `exponent_value` describes.
fn exponent_of(t: &str) -> (r: Option<i64>)
    ensures
        match exponent_value(t@) {
            Some(v) => r == Some(v as i64) && -(u32::MAX as int) <= v <= u32::MAX,
            None => r is None,
        },
{
    let len = t.unicode_len();
    let signed = len > 0 && (t.get_char(0) == '-' || t.get_char(0) == '+');
    let negative = len > 0 && t.get_char(0) == '-';
    let k: usize = if signed {
        1
    } else {
        0
    };
    let d = t.substring_char(k, len);
    assert(d@ =~= (if t@.len() > 0 && (t@[0] == '-' || t@[0] == '+') { t@.drop_first() } else { t@ }));
    if d.unicode_len() == 0 || d.get_char(0) == '+' {
        return None;
    }
    match parse_uint_text(d, u32::MAX as u64) {
        Ok(v) => Some(
            if negative {
                -(v as i64)
            } else {
                v as i64
            },
        ),
        Err(_) => None,
    }
}

} // verus!
