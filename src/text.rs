//! Decimal rendering of integers and small string helpers.
use vstd::prelude::*;

verus! {

/// The decimal digit character for `d`.
pub open spec fn digit_char(d: nat) -> char {
    if d < 10 { ((d + 48) as u8) as char } else { '?' }
}

/// Decimal rendering of a natural number, most significant digit first.
pub open spec fn dec(n: nat) -> Seq<char>
    decreases n,
{
    if n < 10 {
        seq![digit_char(n)]
    } else {
        dec(n / 10).push(digit_char(n % 10))
    }
}

fn digit_str(d: u64) -> (r: &'static str)
    requires
        d < 10,
    ensures
        r@ == seq![digit_char(d as nat)],
{
    proof {
        reveal_strlit("0");
        reveal_strlit("1");
        reveal_strlit("2");
        reveal_strlit("3");
        reveal_strlit("4");
        reveal_strlit("5");
        reveal_strlit("6");
        reveal_strlit("7");
        reveal_strlit("8");
        reveal_strlit("9");
    }
    match d {
        0 => "0",
        1 => "1",
        2 => "2",
        3 => "3",
        4 => "4",
        5 => "5",
        6 => "6",
        7 => "7",
        8 => "8",
        _ => "9",
    }
}

/// Renders `n` in decimal.
pub fn u64_text(n: u64) -> (r: String)
    ensures
        r@ == dec(n as nat),
    decreases n,
{
    if n < 10 {
        String::from_str(digit_str(n))
    } else {
        let mut s = u64_text(n / 10);
        s.append(digit_str(n % 10));
        s
    }
}

/// Whether `p` is a prefix of `s`.
pub open spec fn has_prefix(s: Seq<char>, p: Seq<char>) -> bool {
    p.len() <= s.len() && s.take(p.len() as int) == p
}

/// Whether `s` begins with `p`, compared character by character.
pub fn starts_with(s: &str, p: &str) -> (r: bool)
    ensures
        r == has_prefix(s@, p@),
{
    let n = s.unicode_len();
    let m = p.unicode_len();
    if m > n {
        return false;
    }
    let mut i: usize = 0;
    while i < m
        invariant
            m == p@.len(),
            n == s@.len(),
            m <= n,
            i <= m,
            s@.take(i as int) == p@.take(i as int),
        decreases m - i,
    {
        if s.get_char(i) != p.get_char(i) {
            assert(s@.take(m as int)[i as int] != p@[i as int]);
            return false;
        }
        assert(s@.take(i + 1) =~= s@.take(i as int).push(s@[i as int]));
        assert(p@.take(i + 1) =~= p@.take(i as int).push(p@[i as int]));
        i = i + 1;
    }
    assert(p@.take(m as int) =~= p@);
    true
}

/// Whether two texts are equal, compared character by character.
pub fn text_eq(a: &str, b: &str) -> (r: bool)
    ensures
        r == (a@ == b@),
{
    if a.unicode_len() != b.unicode_len() {
        return false;
    }
    let r = starts_with(a, b);
    assert(a@.take(b@.len() as int) =~= a@);
    r
}

/// The index of the first element of `s` that satisfies `p`.
pub open spec fn first_index<T>(s: Seq<T>, p: spec_fn(T) -> bool) -> Option<int>
    decreases s.len(),
{
    if s.len() == 0 {
        None
    } else {
        match first_index(s.drop_last(), p) {
            Some(i) => Some(i),
            None => if p(s.last()) {
                Some(s.len() - 1)
            } else {
                None
            },
        }
    }
}

pub proof fn lemma_first_index<T>(s: Seq<T>, p: spec_fn(T) -> bool)
    ensures
        match first_index(s, p) {
            Some(i) => 0 <= i < s.len() && p(s[i]) && forall|j: int| 0 <= j < i ==> !p(#[trigger] s[j]),
            None => forall|j: int| 0 <= j < s.len() ==> !p(#[trigger] s[j]),
        },
    decreases s.len(),
{
    if s.len() > 0 {
        let t = s.drop_last();
        lemma_first_index(t, p);
        match first_index(t, p) {
            Some(i) => {
                assert(s[i] == t[i]);
                assert forall|j: int| 0 <= j < i implies !p(#[trigger] s[j]) by {
                    assert(s[j] == t[j]);
                }
            },
            None => {
                assert forall|j: int| 0 <= j < s.len() - 1 implies !p(#[trigger] s[j]) by {
                    assert(s[j] == t[j]);
                }
            },
        }
    }
}

pub proof fn lemma_first_index_is<T>(s: Seq<T>, p: spec_fn(T) -> bool, i: int)
    requires
        0 <= i < s.len(),
        p(s[i]),
        forall|j: int| 0 <= j < i ==> !p(#[trigger] s[j]),
    ensures
        first_index(s, p) == Some(i),
{
    lemma_first_index(s, p);
}

pub proof fn lemma_first_index_none<T>(s: Seq<T>, p: spec_fn(T) -> bool)
    requires
        forall|j: int| 0 <= j < s.len() ==> !p(#[trigger] s[j]),
    ensures
        first_index(s, p) is None,
{
    lemma_first_index(s, p);
}

} // verus!
