//! Character-level text helpers shared by the parsers and report builders.

use vstd::prelude::*;

verus! {

/// The characters of `s`, in order.
pub fn str_chars(s: &str) -> (v: Vec<char>)
    ensures
        v@ == s@,
{
    let n = s.unicode_len();
    let mut v: Vec<char> = Vec::new();
    let mut i: usize = 0;
    while i < n
        invariant
            n == s@.len(),
            i <= n,
            v@ == s@.subrange(0, i as int),
        decreases n - i,
    {
        v.push(s.get_char(i));
        i = i + 1;
        assert(v@ =~= s@.subrange(0, i as int));
    }
    assert(v@ =~= s@);
    v
}

/// `String::push`: appends one character. Growing the buffer past `isize::MAX`
/// bytes would panic; as for any allocation, that limit is left unsaid.
#[verifier::external_body]
pub fn push_char(s: &mut String, c: char)
    ensures
        final(s)@ == old(s)@.push(c),
{
    s.push(c)
}

/// The string holding exactly the characters `cs`.
pub fn string_from_chars(cs: &Vec<char>) -> (r: String)
    ensures
        r@ == cs@,
{
    let mut r = String::new();
    let mut i: usize = 0;
    while i < cs.len()
        invariant
            i <= cs@.len(),
            r@ == cs@.subrange(0, i as int),
        decreases cs@.len() - i,
    {
        push_char(&mut r, cs[i]);
        i = i + 1;
        assert(r@ =~= cs@.subrange(0, i as int));
    }
    assert(cs@.subrange(0, cs@.len() as int) =~= cs@);
    r
}

/// The ASCII digit character of `d` (for `d < 10`).
pub open spec fn digit_char(d: nat) -> char {
    ((d + 48) as u8) as char
}

/// The decimal representation of `n`, without leading zeros.
pub open spec fn decimal_digits(n: nat) -> Seq<char>
    decreases n,
{
    if n < 10 {
        seq![digit_char(n)]
    } else {
        decimal_digits(n / 10).push(digit_char(n % 10))
    }
}

/// Appends the decimal representation of `n`.
pub fn push_decimal(s: &mut String, n: u64)
    ensures
        final(s)@ == old(s)@ + decimal_digits(n as nat),
    decreases n,
{
    if n >= 10 {
        push_decimal(s, n / 10);
    }
    let c = ((n % 10) as u8 + 48u8) as char;
    push_char(s, c);
    assert(final(s)@ =~= old(s)@ + decimal_digits(n as nat));
}

/// The decimal representation of a signed number (`-` before negatives).
pub open spec fn signed_decimal(n: int) -> Seq<char> {
    if n < 0 {
        seq!['-'] + decimal_digits((-n) as nat)
    } else {
        decimal_digits(n as nat)
    }
}

/// Appends the decimal representation of `n`.
pub fn push_signed_decimal(s: &mut String, n: i64)
    ensures
        final(s)@ == old(s)@ + signed_decimal(n as int),
{
    if n < 0 {
        push_char(s, '-');
        let magnitude: u64 = (-(n + 1)) as u64 + 1;
        push_decimal(s, magnitude);
        assert(final(s)@ =~= old(s)@ + signed_decimal(n as int));
    } else {
        push_decimal(s, n as u64);
    }
}

/// `char::is_whitespace`: the Unicode `White_Space` property.
pub open spec fn is_white_space(c: char) -> bool {
    ||| c == '\t'
    ||| c == '\n'
    ||| c == '\u{0B}'
    ||| c == '\u{0C}'
    ||| c == '\r'
    ||| c == ' '
    ||| c == '\u{85}'
    ||| c == '\u{A0}'
    ||| c == '\u{1680}'
    ||| ('\u{2000}' <= c && c <= '\u{200A}')
    ||| c == '\u{2028}'
    ||| c == '\u{2029}'
    ||| c == '\u{202F}'
    ||| c == '\u{205F}'
    ||| c == '\u{3000}'
}

/// Executable test of the `White_Space` property.
pub fn char_is_white_space(c: char) -> (r: bool)
    ensures
        r == is_white_space(c),
{
    c == '\t' || c == '\n' || c == '\u{0B}' || c == '\u{0C}' || c == '\r' || c == ' ' || c == '\u{85}'
        || c == '\u{A0}' || c == '\u{1680}' || ('\u{2000}' <= c && c <= '\u{200A}') || c == '\u{2028}'
        || c == '\u{2029}' || c == '\u{202F}' || c == '\u{205F}' || c == '\u{3000}'
}

/// Number of white-space characters at the start of `s`.
pub open spec fn leading_white(s: Seq<char>) -> nat
    decreases s.len(),
{
    if s.len() > 0 && is_white_space(s[0]) {
        1 + leading_white(s.drop_first())
    } else {
        0
    }
}

/// Number of white-space characters at the end of `s`.
pub open spec fn trailing_white(s: Seq<char>) -> nat
    decreases s.len(),
{
    if s.len() > 0 && is_white_space(s.last()) {
        1 + trailing_white(s.drop_last())
    } else {
        0
    }
}

/// `str::trim`: `s` without leading and trailing white space.
pub open spec fn trim_spec(s: Seq<char>) -> Seq<char> {
    if leading_white(s) == s.len() {
        Seq::empty()
    } else {
        s.subrange(leading_white(s) as int, s.len() - trailing_white(s))
    }
}

proof fn lemma_leading_white_step(s: Seq<char>, i: int)
    requires
        0 <= i <= s.len(),
        forall|j: int| 0 <= j < i ==> is_white_space(#[trigger] s[j]),
    ensures
        leading_white(s) == i + leading_white(s.subrange(i, s.len() as int)),
    decreases i,
{
    if i > 0 {
        lemma_leading_white_step(s.drop_first(), i - 1);
        assert(s.drop_first().subrange(i - 1, s.drop_first().len() as int) =~= s.subrange(i, s.len() as int));
    } else {
        assert(s.subrange(0, s.len() as int) =~= s);
    }
}

proof fn lemma_trailing_white_step(s: Seq<char>, i: int)
    requires
        0 <= i <= s.len(),
        forall|j: int| s.len() - i <= j < s.len() ==> is_white_space(#[trigger] s[j]),
    ensures
        trailing_white(s) == i + trailing_white(s.subrange(0, s.len() - i)),
    decreases i,
{
    if i > 0 {
        lemma_trailing_white_step(s.drop_last(), i - 1);
        assert(s.drop_last().subrange(0, s.drop_last().len() - (i - 1)) =~= s.subrange(0, s.len() - i));
    } else {
        assert(s.subrange(0, s.len() as int) =~= s);
    }
}

/// Trims white space from both ends of `cs[lo..hi]`, returning the bounds of what is left.
pub fn trim_range(cs: &Vec<char>, lo: usize, hi: usize) -> (r: (usize, usize))
    requires
        lo <= hi <= cs@.len(),
    ensures
        lo <= r.0 <= r.1 <= hi,
        cs@.subrange(r.0 as int, r.1 as int) == trim_spec(cs@.subrange(lo as int, hi as int)),
{
    let ghost s = cs@.subrange(lo as int, hi as int);
    let mut a = lo;
    while a < hi && char_is_white_space(cs[a])
        invariant
            lo <= a <= hi <= cs@.len(),
            s == cs@.subrange(lo as int, hi as int),
            forall|j: int| 0 <= j < a - lo ==> is_white_space(#[trigger] s[j]),
        decreases hi - a,
    {
        a = a + 1;
    }
    proof {
        lemma_leading_white_step(s, a - lo);
        let rest = s.subrange(a - lo, s.len() as int);
        if a < hi {
            assert(rest[0] == cs@[a as int]);
            assert(leading_white(rest) == 0);
        } else {
            assert(rest.len() == 0);
        }
    }
    if a == hi {
        assert(cs@.subrange(a as int, a as int) =~= Seq::<char>::empty());
        return (a, a);
    }
    let mut b = hi;
    while b > a && char_is_white_space(cs[b - 1])
        invariant
            lo <= a < hi <= cs@.len(),
            a <= b <= hi,
            s == cs@.subrange(lo as int, hi as int),
            !is_white_space(cs@[a as int]),
            forall|j: int| b - lo <= j < s.len() ==> is_white_space(#[trigger] s[j]),
        decreases b - a,
    {
        b = b - 1;
    }
    proof {
        assert(b > a);
        lemma_trailing_white_step(s, hi - b);
        let front = s.subrange(0, b - lo);
        assert(front.last() == cs@[b - 1]);
        assert(trailing_white(front) == 0);
        assert(cs@.subrange(a as int, b as int) =~= s.subrange(a - lo, s.len() - trailing_white(s)));
    }
    (a, b)
}

/// `s.contains(m)`: `m` occurs as a contiguous run in `s`.
pub open spec fn contains_seq(s: Seq<char>, m: Seq<char>) -> bool {
    exists|i: int| 0 <= i && i + m.len() <= s.len() && #[trigger] s.subrange(i, i + m.len()) == m
}

/// Whether `m` occurs at position `i` of `s`.
fn occurs_at(s: &Vec<char>, m: &Vec<char>, i: usize) -> (r: bool)
    requires
        i + m@.len() <= s@.len(),
    ensures
        r == (s@.subrange(i as int, i + m@.len()) == m@),
{
    let n = s.len();
    let mut j: usize = 0;
    while j < m.len()
        invariant
            n == s@.len(),
            i + m@.len() <= s@.len(),
            j <= m@.len(),
            forall|k: int| 0 <= k < j ==> s@[i + k] == m@[k],
        decreases m@.len() - j,
    {
        if s[i + j] != m[j] {
            assert(s@.subrange(i as int, i + m@.len())[j as int] != m@[j as int]);
            return false;
        }
        j = j + 1;
    }
    assert(s@.subrange(i as int, i + m@.len()) =~= m@);
    true
}

/// `haystack.contains(needle)` for string slices.
pub fn str_contains(haystack: &str, needle: &str) -> (r: bool)
    ensures
        r == contains_seq(haystack@, needle@),
{
    let s = str_chars(haystack);
    let m = str_chars(needle);
    if m.len() > s.len() {
        assert(!contains_seq(haystack@, needle@));
        return false;
    }
    let last = s.len() - m.len();
    let mut i: usize = 0;
    while i <= last
        invariant
            last == s@.len() - m@.len(),
            s@ == haystack@,
            m@ == needle@,
            forall|k: int| 0 <= k < i ==> #[trigger] s@.subrange(k, k + m@.len()) != m@,
        decreases last + 1 - i,
    {
        if occurs_at(&s, &m, i) {
            assert(haystack@.subrange(i as int, i + needle@.len()) == needle@);
            return true;
        }
        if i == last {
            assert(!contains_seq(haystack@, needle@));
            return false;
        }
        i = i + 1;
    }
    assert(!contains_seq(haystack@, needle@));
    false
}

/// `list.join(sep)` on character sequences.
pub open spec fn seq_join(list: Seq<Seq<char>>, sep: Seq<char>) -> Seq<char>
    decreases list.len(),
{
    if list.len() == 0 {
        Seq::empty()
    } else if list.len() == 1 {
        list[0]
    } else {
        seq_join(list.drop_last(), sep) + sep + list.last()
    }
}

/// What a vector of strings holds, as character sequences.
pub open spec fn strings_view(v: Seq<String>) -> Seq<Seq<char>> {
    v.map_values(|s: String| s@)
}

/// `list.join(sep)`.
pub fn join_strings(list: &Vec<String>, sep: &str) -> (r: String)
    ensures
        r@ == seq_join(strings_view(list@), sep@),
{
    let mut r = String::new();
    let ghost lv = strings_view(list@);
    let mut i: usize = 0;
    while i < list.len()
        invariant
            i <= list@.len(),
            lv == strings_view(list@),
            r@ == seq_join(lv.take(i as int), sep@),
        decreases list@.len() - i,
    {
        if i > 0 {
            r.append(sep);
        }
        r.append(list[i].as_str());
        proof {
            assert(lv.take(i + 1).drop_last() =~= lv.take(i as int));
            assert(lv.take(i + 1).last() == list@[i as int]@);
            if i == 0 {
                assert(lv.take(1) =~= seq![list@[0]@]);
            }
        }
        i = i + 1;
    }
    assert(lv.take(list@.len() as int) =~= lv);
    r
}

} // verus!
