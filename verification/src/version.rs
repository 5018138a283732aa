//! Parsing of `major.minor.patch` version strings.

use vstd::prelude::*;
use crate::text::{str_chars, decimal_digits, digit_char};

verus! {

/// An ASCII decimal digit.
pub open spec fn is_digit(c: char) -> bool {
    '0' <= c && c <= '9'
}

/// Every character is an ASCII decimal digit.
pub open spec fn all_digits(s: Seq<char>) -> bool {
    forall|i: int| 0 <= i < s.len() ==> is_digit(#[trigger] s[i])
}

/// The number that a string of decimal digits spells.
pub open spec fn digits_value(s: Seq<char>) -> nat
    decreases s.len(),
{
    if s.len() == 0 {
        0
    } else {
        digits_value(s.drop_last()) * 10 + ((s.last() as int - '0' as int) as nat)
    }
}

/// `u32::from_str`: an optional `+` followed by one or more ASCII digits whose
/// value fits in a `u32`.
pub open spec fn parse_u32_spec(s: Seq<char>) -> Option<u32> {
    let d = if s.len() > 0 && s[0] == '+' {
        s.drop_first()
    } else {
        s
    };
    if d.len() > 0 && all_digits(d) && digits_value(d) <= u32::MAX {
        Some(digits_value(d) as u32)
    } else {
        None
    }
}

/// Index of the first `c` at or after `from`, or the length of `s`.
pub open spec fn find_char(s: Seq<char>, c: char, from: int) -> int
    decreases s.len() - from,
{
    if from < 0 || from >= s.len() {
        s.len() as int
    } else if s[from] == c {
        from
    } else {
        find_char(s, c, from + 1)
    }
}

/// The pieces of `s` from `from` on between occurrences of `c` (`str::split`).
pub open spec fn split_from(s: Seq<char>, c: char, from: int) -> Seq<Seq<char>>
    decreases s.len() - from,
{
    if from < 0 || from > s.len() {
        Seq::empty()
    } else {
        let e = find_char(s, c, from);
        proof {
            lemma_find_char_bounds(s, c, from);
        }
        if e >= s.len() {
            seq![s.subrange(from, s.len() as int)]
        } else {
            seq![s.subrange(from, e)] + split_from(s, c, e + 1)
        }
    }
}

/// `s.split(c)`.
pub open spec fn split_on(s: Seq<char>, c: char) -> Seq<Seq<char>> {
    split_from(s, c, 0)
}

/// Length of the longest all-digit prefix of `s`.
pub open spec fn digit_prefix_len(s: Seq<char>) -> nat
    decreases s.len(),
{
    if s.len() == 0 || !is_digit(s[0]) {
        0
    } else {
        1 + digit_prefix_len(s.drop_first())
    }
}

/// The version a string names: at least three dot-separated pieces, the first
/// two parsing as `u32`, and the third's leading digits parsing as `u32`.
pub open spec fn version_spec(s: Seq<char>) -> Option<(u32, u32, u32)> {
    let parts = split_on(s, '.');
    if parts.len() >= 3 {
        match (
            parse_u32_spec(parts[0]),
            parse_u32_spec(parts[1]),
            parse_u32_spec(parts[2].take(digit_prefix_len(parts[2]) as int)),
        ) {
            (Some(a), Some(b), Some(c)) => Some((a, b, c)),
            _ => None,
        }
    } else {
        None
    }
}

/// The position `find_char` returns lies between `from` and the end.
pub proof fn lemma_find_char_bounds(s: Seq<char>, c: char, from: int)
    requires
        0 <= from <= s.len(),
    ensures
        from <= find_char(s, c, from) <= s.len(),
        find_char(s, c, from) < s.len() ==> s[find_char(s, c, from)] == c,
        forall|j: int| from <= j < find_char(s, c, from) ==> s[j] != c,
    decreases s.len() - from,
{
    if from < s.len() && s[from] != c {
        lemma_find_char_bounds(s, c, from + 1);
    }
}

proof fn lemma_digits_value_prefix(s: Seq<char>, k: int)
    requires
        0 <= k <= s.len(),
        all_digits(s),
    ensures
        digits_value(s.take(k)) <= digits_value(s),
    decreases s.len() - k,
{
    if k < s.len() {
        lemma_digits_value_prefix(s, k + 1);
        let t = s.take(k + 1);
        assert(t.drop_last() =~= s.take(k));
        assert(t.last() == s[k]);
        assert(is_digit(s[k]));
        assert(digits_value(t) == digits_value(s.take(k)) * 10 + ((s[k] as int - '0' as int) as nat));
    } else {
        assert(s.take(k) =~= s);
    }
}

fn find_char_exec(cs: &Vec<char>, c: char, from: usize) -> (r: usize)
    requires
        from <= cs@.len(),
    ensures
        r == find_char(cs@, c, from as int),
{
    let mut i = from;
    while i < cs.len()
        invariant
            from <= i <= cs@.len(),
            find_char(cs@, c, from as int) == find_char(cs@, c, i as int),
        decreases cs@.len() - i,
    {
        if cs[i] == c {
            return i;
        }
        i = i + 1;
    }
    i
}

/// Parses `cs[lo..hi]` as `u32::from_str` does.
fn parse_u32_range(cs: &Vec<char>, lo: usize, hi: usize) -> (r: Option<u32>)
    requires
        lo <= hi <= cs@.len(),
    ensures
        r == parse_u32_spec(cs@.subrange(lo as int, hi as int)),
{
    let ghost s = cs@.subrange(lo as int, hi as int);
    let mut start = lo;
    if lo < hi && cs[lo] == '+' {
        start = lo + 1;
    }
    let ghost d = cs@.subrange(start as int, hi as int);
    assert(d == (if s.len() > 0 && s[0] == '+' { s.drop_first() } else { s }));
    if start == hi {
        return None;
    }
    let mut value: u32 = 0;
    let mut i = start;
    while i < hi
        invariant
            lo <= start <= i <= hi <= cs@.len(),
            s == cs@.subrange(lo as int, hi as int),
            d == cs@.subrange(start as int, hi as int),
            d == (if s.len() > 0 && s[0] == '+' { s.drop_first() } else { s }),
            all_digits(cs@.subrange(start as int, i as int)),
            value == digits_value(cs@.subrange(start as int, i as int)),
        decreases hi - i,
    {
        let ch = cs[i];
        let ghost pre = cs@.subrange(start as int, i as int);
        let ghost next = cs@.subrange(start as int, i + 1);
        assert(next.drop_last() =~= pre);
        if !('0' <= ch && ch <= '9') {
            assert(!all_digits(d)) by {
                assert(d[i - start] == ch);
            }
            return None;
        }
        let digit = (ch as u32) - ('0' as u32);
        if value > (u32::MAX - digit) / 10 {
            proof {
                assert(digits_value(next) == value * 10 + digit);
                assert(value * 10 + digit > u32::MAX) by (nonlinear_arith)
                    requires
                        value > (u32::MAX - digit) / 10,
                        digit <= 9,
                ;
                if all_digits(d) {
                    assert(next =~= d.take(i + 1 - start));
                    lemma_digits_value_prefix(d, i + 1 - start);
                }
            }
            return None;
        }
        value = value * 10 + digit;
        i = i + 1;
        assert(all_digits(next));
    }
    assert(cs@.subrange(start as int, hi as int) =~= d);
    Some(value)
}

/// Parses a `major.minor.patch` version; trailing text after the patch digits is ignored.
pub fn parse_version(version_str: &str) -> (r: Option<(u32, u32, u32)>)
    ensures
        r == version_spec(version_str@),
{
    let cs = str_chars(version_str);
    let ghost s = cs@;
    let n = cs.len();
    proof {
        lemma_find_char_bounds(s, '.', 0);
    }
    let e1 = find_char_exec(&cs, '.', 0);
    if e1 == n {
        assert(split_on(s, '.') =~= seq![s.subrange(0, n as int)]);
        return None;
    }
    proof {
        lemma_find_char_bounds(s, '.', e1 + 1);
    }
    let e2 = find_char_exec(&cs, '.', e1 + 1);
    if e2 == n {
        assert(split_from(s, '.', e1 + 1) =~= seq![s.subrange(e1 + 1, n as int)]);
        assert(split_on(s, '.').len() == 2);
        return None;
    }
    proof {
        lemma_find_char_bounds(s, '.', e2 + 1);
    }
    let e3 = find_char_exec(&cs, '.', e2 + 1);
    let ghost parts = split_on(s, '.');
    let ghost tail = split_from(s, '.', e3 + 1);
    proof {
        assert(parts == seq![s.subrange(0, e1 as int)] + split_from(s, '.', e1 + 1));
        assert(split_from(s, '.', e1 + 1) == seq![s.subrange(e1 + 1, e2 as int)] + split_from(s, '.', e2 + 1));
        if e3 >= n {
            assert(split_from(s, '.', e2 + 1) == seq![s.subrange(e2 + 1, n as int)]);
        } else {
            assert(split_from(s, '.', e2 + 1) == seq![s.subrange(e2 + 1, e3 as int)] + tail);
        }
        assert(parts.len() >= 3);
        assert(parts[0] == s.subrange(0, e1 as int));
        assert(parts[1] == s.subrange(e1 + 1, e2 as int));
        assert(parts[2] == s.subrange(e2 + 1, e3 as int));
    }
    let major = match parse_u32_range(&cs, 0, e1) {
        Some(v) => v,
        None => return None,
    };
    let minor = match parse_u32_range(&cs, e1 + 1, e2) {
        Some(v) => v,
        None => return None,
    };
    let mut k = e2 + 1;
    while k < e3 && '0' <= cs[k] && cs[k] <= '9'
        invariant
            e2 + 1 <= k <= e3 <= n,
            n == s.len(),
            s == cs@,
            digit_prefix_len(s.subrange(e2 + 1, e3 as int)) == (k - (e2 + 1)) + digit_prefix_len(
                s.subrange(k as int, e3 as int),
            ),
        decreases e3 - k,
    {
        assert(s.subrange(k as int, e3 as int).drop_first() =~= s.subrange(k + 1, e3 as int));
        k = k + 1;
    }
    proof {
        let p2 = s.subrange(e2 + 1, e3 as int);
        assert(digit_prefix_len(s.subrange(k as int, e3 as int)) == 0);
        assert(p2.take(digit_prefix_len(p2) as int) =~= s.subrange(e2 + 1, k as int));
    }
    let patch = match parse_u32_range(&cs, e2 + 1, k) {
        Some(v) => v,
        None => return None,
    };
    Some((major, minor, patch))
}

pub(crate) proof fn lemma_decimal_digits_parse(n: nat)
    ensures
        decimal_digits(n).len() >= 1,
        all_digits(decimal_digits(n)),
        digits_value(decimal_digits(n)) == n,
    decreases n,
{
    let d = decimal_digits(n);
    if n < 10 {
        assert(digit_char(n) as int == n + 48);
        assert(d.drop_last() =~= Seq::<char>::empty());
        assert(d.last() == digit_char(n));
        assert(digits_value(d.drop_last()) == 0);
        assert(digits_value(d) == digits_value(d.drop_last()) * 10 + ((d.last() as int - '0' as int) as nat));
    } else {
        lemma_decimal_digits_parse(n / 10);
        let r = n % 10;
        assert(digit_char(r) as int == r + 48);
        assert(d.drop_last() =~= decimal_digits(n / 10));
        assert(d.last() == digit_char(r));
        assert(digits_value(d) == digits_value(d.drop_last()) * 10 + ((d.last() as int - '0' as int) as nat));
        assert(n == (n / 10) * 10 + n % 10) by (nonlinear_arith);
        assert forall|i: int| 0 <= i < d.len() implies is_digit(#[trigger] d[i]) by {
            if i < d.len() - 1 {
                assert(d[i] == decimal_digits(n / 10)[i]);
            }
        }
    }
}

/// The decimal representation of a number parses back to that number.
pub proof fn lemma_parse_u32_decimal(n: u32)
    ensures
        parse_u32_spec(decimal_digits(n as nat)) == Some(n),
{
    lemma_decimal_digits_parse(n as nat);
    assert(is_digit(decimal_digits(n as nat)[0]));
}

proof fn lemma_find_char_at(s: Seq<char>, c: char, from: int, k: int)
    requires
        0 <= from <= k <= s.len(),
        forall|j: int| from <= j < k ==> s[j] != c,
        k < s.len() ==> s[k] == c,
    ensures
        find_char(s, c, from) == k,
    decreases k - from,
{
    if from < k {
        lemma_find_char_at(s, c, from + 1, k);
    }
}

proof fn lemma_digit_prefix_all(s: Seq<char>)
    requires
        all_digits(s),
    ensures
        digit_prefix_len(s) == s.len(),
    decreases s.len(),
{
    if s.len() > 0 {
        assert(all_digits(s.drop_first())) by {
            assert(forall|i: int| 0 <= i < s.drop_first().len() ==> s.drop_first()[i] == s[i + 1]);
        }
        lemma_digit_prefix_all(s.drop_first());
    }
}

/// Version strings written as `major.minor.patch` in decimal parse back to
/// the same three numbers.
pub proof fn lemma_version_decimal_roundtrip(major: u32, minor: u32, patch: u32)
    ensures
        version_spec(decimal_digits(major as nat) + seq!['.'] + decimal_digits(minor as nat) + seq!['.']
            + decimal_digits(patch as nat)) == Some((major, minor, patch)),
{
    let a = decimal_digits(major as nat);
    let b = decimal_digits(minor as nat);
    let c = decimal_digits(patch as nat);
    lemma_decimal_digits_parse(major as nat);
    lemma_decimal_digits_parse(minor as nat);
    lemma_decimal_digits_parse(patch as nat);
    lemma_parse_u32_decimal(major);
    lemma_parse_u32_decimal(minor);
    lemma_parse_u32_decimal(patch);
    let s = a + seq!['.'] + b + seq!['.'] + c;
    let i1 = a.len() as int;
    let i2 = i1 + 1 + b.len();
    assert(forall|j: int| 0 <= j < i1 ==> s[j] == a[j]);
    assert(forall|j: int| i1 < j < i2 ==> s[j] == b[j - i1 - 1]);
    assert(forall|j: int| i2 < j < s.len() ==> s[j] == c[j - i2 - 1]);
    assert forall|j: int| 0 <= j < i1 implies s[j] != '.' by {
        assert(is_digit(a[j]));
    }
    assert forall|j: int| i1 < j < i2 implies s[j] != '.' by {
        assert(is_digit(b[j - i1 - 1]));
    }
    assert forall|j: int| i2 < j < s.len() implies s[j] != '.' by {
        assert(is_digit(c[j - i2 - 1]));
    }
    lemma_find_char_at(s, '.', 0, i1);
    lemma_find_char_at(s, '.', i1 + 1, i2);
    lemma_find_char_at(s, '.', i2 + 1, s.len() as int);
    assert(split_from(s, '.', i2 + 1) == seq![s.subrange(i2 + 1, s.len() as int)]);
    assert(split_from(s, '.', i1 + 1) == seq![s.subrange(i1 + 1, i2)] + split_from(s, '.', i2 + 1));
    assert(split_on(s, '.') == seq![s.subrange(0, i1)] + split_from(s, '.', i1 + 1));
    assert(s.subrange(0, i1) =~= a);
    assert(s.subrange(i1 + 1, i2) =~= b);
    assert(s.subrange(i2 + 1, s.len() as int) =~= c);
    lemma_digit_prefix_all(c);
    assert(c.take(c.len() as int) =~= c);
    let parts = split_on(s, '.');
    assert(parts =~= seq![a, b, c]);
}

} // verus!
