//! Character-level helpers shared by the rest of the library.
//!
//! Strings are viewed as sequences of characters; every helper here states its
//! result over that view.

use vstd::prelude::*;

verus! {

/// `String::push` appends one character at the end of the string.
pub assume_specification[ String::push ](s: &mut String, c: char)
    ensures
        final(s)@ == old(s)@.push(c),
;

/// The characters of `s`, in order.
pub fn chars_of(s: &str) -> (out: Vec<char>)
    ensures
        out@ == s@,
{
    let mut out: Vec<char> = Vec::new();
    for c in it: s.chars()
        invariant
            it.seq() == s@,
            out@ == s@.take(it.index() as int),
    {
        out.push(c);
        assert(s@.take(it.index() + 1) =~= s@.take(it.index() as int).push(c));
    }
    assert(s@.take(s@.len() as int) =~= s@);
    out
}

/// The string whose characters are `v`, in order.
pub fn string_of(v: &Vec<char>) -> (out: String)
    ensures
        out@ == v@,
{
    let mut out = String::new();
    let mut i: usize = 0;
    while i < v.len()
        invariant
            i <= v.len(),
            out@ == v@.take(i as int),
        decreases v.len() - i,
    {
        out.push(v[i]);
        assert(v@.take(i + 1) =~= v@.take(i as int).push(v@[i as int]));
        i += 1;
    }
    assert(v@.take(v@.len() as int) =~= v@);
    out
}

/// Appends the characters of `tail` to `out`.
pub fn push_all(out: &mut Vec<char>, tail: &Vec<char>)
    ensures
        final(out)@ == old(out)@ + tail@,
{
    let mut i: usize = 0;
    while i < tail.len()
        invariant
            i <= tail.len(),
            out@ == old(out)@ + tail@.take(i as int),
        decreases tail.len() - i,
    {
        out.push(tail[i]);
        assert(old(out)@ + tail@.take(i + 1) =~= (old(out)@ + tail@.take(i as int)).push(
            tail@[i as int],
        ));
        i += 1;
    }
    assert(tail@.take(tail@.len() as int) =~= tail@);
}

/// Appends the characters of the string `tail` to `out`.
pub fn push_str(out: &mut Vec<char>, tail: &str)
    ensures
        final(out)@ == old(out)@ + tail@,
{
    let t = chars_of(tail);
    push_all(out, &t);
}

/// Whether the two character sequences are the same.
pub fn same_chars(a: &Vec<char>, b: &Vec<char>) -> (r: bool)
    ensures
        r == (a@ == b@),
{
    if a.len() != b.len() {
        return false;
    }
    let mut i: usize = 0;
    while i < a.len()
        invariant
            i <= a.len(),
            a.len() == b.len(),
            a@.take(i as int) == b@.take(i as int),
        decreases a.len() - i,
    {
        if a[i] != b[i] {
            return false;
        }
        assert(a@.take(i + 1) =~= a@.take(i as int).push(a@[i as int]));
        assert(b@.take(i + 1) =~= b@.take(i as int).push(b@[i as int]));
        i += 1;
    }
    assert(a@.take(a@.len() as int) =~= a@);
    assert(b@.take(b@.len() as int) =~= b@);
    true
}

/// Whether the two strings hold the same characters.
pub fn same_text(a: &str, b: &str) -> (r: bool)
    ensures
        r == (a@ == b@),
{
    let x = chars_of(a);
    let y = chars_of(b);
    same_chars(&x, &y)
}

/// `p` occurs in `s` at position `at`.
pub open spec fn occurs_at<T>(s: Seq<T>, p: Seq<T>, at: int) -> bool {
    &&& 0 <= at
    &&& at + p.len() <= s.len()
    &&& s.subrange(at, at + p.len()) == p
}

/// `s` begins with `p`.
pub open spec fn spec_starts_with<T>(s: Seq<T>, p: Seq<T>) -> bool {
    occurs_at(s, p, 0)
}

/// `p` occurs somewhere in `s`.
pub open spec fn spec_contains<T>(s: Seq<T>, p: Seq<T>) -> bool {
    exists|at: int| occurs_at(s, p, at)
}

/// Whether `p` occurs in `s` at position `at`.
pub fn chars_occur_at(s: &Vec<char>, p: &Vec<char>, at: usize) -> (r: bool)
    ensures
        r == occurs_at(s@, p@, at as int),
{
    if at > s.len() || p.len() > s.len() - at {
        return false;
    }
    let mut i: usize = 0;
    while i < p.len()
        invariant
            i <= p.len(),
            at + p.len() <= s.len(),
            s@.subrange(at as int, at + i) == p@.take(i as int),
        decreases p.len() - i,
    {
        if s[at + i] != p[i] {
            assert(s@.subrange(at as int, at + p.len())[i as int] == s@[at + i]);
            return false;
        }
        assert(s@.subrange(at as int, at + i + 1) =~= s@.subrange(at as int, at + i).push(
            s@[at + i],
        ));
        assert(p@.take(i + 1) =~= p@.take(i as int).push(p@[i as int]));
        i += 1;
    }
    assert(p@.take(p@.len() as int) =~= p@);
    true
}

/// Whether `s` begins with `p`.
pub fn chars_start_with(s: &Vec<char>, p: &Vec<char>) -> (r: bool)
    ensures
        r == spec_starts_with(s@, p@),
{
    chars_occur_at(s, p, 0)
}

/// Whether `p` occurs somewhere in `s`.
pub fn chars_contain(s: &Vec<char>, p: &Vec<char>) -> (r: bool)
    ensures
        r == spec_contains(s@, p@),
{
    if p.len() > s.len() {
        return false;
    }
    let last: usize = s.len() - p.len();
    let mut at: usize = 0;
    loop
        invariant
            at <= last,
            last == s.len() - p.len(),
            forall|k: int| 0 <= k < at ==> !occurs_at(s@, p@, k),
        decreases last - at,
    {
        if chars_occur_at(s, p, at) {
            return true;
        }
        if at == last {
            return false;
        }
        at += 1;
    }
}

/// Whether the text `p` occurs somewhere in the text `s`.
pub fn text_contains(s: &str, p: &str) -> (r: bool)
    ensures
        r == spec_contains(s@, p@),
{
    let x = chars_of(s);
    let y = chars_of(p);
    chars_contain(&x, &y)
}

/// Whether the text `s` begins with the text `p`.
pub fn text_starts_with(s: &str, p: &str) -> (r: bool)
    ensures
        r == spec_starts_with(s@, p@),
{
    let x = chars_of(s);
    let y = chars_of(p);
    chars_start_with(&x, &y)
}

/// The position of the first `c` in `s`, or the length of `s` where there is none.
pub open spec fn spec_first_index(s: Seq<char>, c: char) -> int
    decreases s.len(),
{
    if s.len() == 0 {
        0
    } else if s[0] == c {
        0
    } else {
        1 + spec_first_index(s.drop_first(), c)
    }
}

/// `spec_first_index` is the least position that holds `c`.
pub proof fn lemma_first_index(s: Seq<char>, c: char)
    ensures
        0 <= spec_first_index(s, c) <= s.len(),
        forall|k: int| 0 <= k < spec_first_index(s, c) ==> s[k] != c,
        spec_first_index(s, c) < s.len() ==> s[spec_first_index(s, c)] == c,
    decreases s.len(),
{
    if s.len() != 0 && s[0] != c {
        let t = s.drop_first();
        lemma_first_index(t, c);
        assert forall|k: int| 0 <= k < spec_first_index(s, c) implies s[k] != c by {
            if k > 0 {
                assert(s[k] == t[k - 1]);
            }
        }
        if spec_first_index(s, c) < s.len() {
            assert(s[spec_first_index(s, c)] == t[spec_first_index(t, c)]);
        }
    }
}

/// A position that holds `c` and has no `c` before it is the first index of `c`.
pub proof fn lemma_first_index_is(s: Seq<char>, c: char, at: int)
    requires
        0 <= at <= s.len(),
        forall|k: int| 0 <= k < at ==> s[k] != c,
        at < s.len() ==> s[at] == c,
    ensures
        spec_first_index(s, c) == at,
{
    lemma_first_index(s, c);
}

/// The position of the first `c` in `s`, or the length of `s` where there is none.
pub fn first_index(s: &Vec<char>, c: char) -> (at: usize)
    ensures
        at == spec_first_index(s@, c),
{
    let mut at: usize = 0;
    while at < s.len() && s[at] != c
        invariant
            at <= s.len(),
            forall|k: int| 0 <= k < at ==> s@[k] != c,
        decreases s.len() - at,
    {
        at += 1;
    }
    proof {
        lemma_first_index_is(s@, c, at as int);
    }
    at
}

/// The position of the last `c` in `s`, or -1 where there is none.
pub open spec fn spec_last_index(s: Seq<char>, c: char) -> int
    decreases s.len(),
{
    if s.len() == 0 {
        -1
    } else if s.last() == c {
        s.len() - 1
    } else {
        spec_last_index(s.drop_last(), c)
    }
}

/// `spec_last_index` is the greatest position that holds `c`.
pub proof fn lemma_last_index(s: Seq<char>, c: char)
    ensures
        -1 <= spec_last_index(s, c) < s.len(),
        forall|k: int| spec_last_index(s, c) < k < s.len() ==> s[k] != c,
        0 <= spec_last_index(s, c) ==> s[spec_last_index(s, c)] == c,
    decreases s.len(),
{
    if s.len() != 0 && s.last() != c {
        let t = s.drop_last();
        lemma_last_index(t, c);
        assert forall|k: int| spec_last_index(s, c) < k < s.len() implies s[k] != c by {
            if k < s.len() - 1 {
                assert(s[k] == t[k]);
            }
        }
        if 0 <= spec_last_index(s, c) {
            assert(s[spec_last_index(s, c)] == t[spec_last_index(t, c)]);
        }
    }
}

/// The position of the last `c` in `s`, if there is one.
pub fn last_index(s: &Vec<char>, c: char) -> (at: Option<usize>)
    ensures
        match at {
            Some(i) => i == spec_last_index(s@, c),
            None => spec_last_index(s@, c) == -1,
        },
{
    let mut n: usize = s.len();
    while n > 0 && s[n - 1] != c
        invariant
            n <= s.len(),
            forall|k: int| n <= k < s.len() ==> s@[k] != c,
        decreases n,
    {
        n -= 1;
    }
    proof {
        lemma_last_index(s@, c);
    }
    if n == 0 {
        None
    } else {
        Some(n - 1)
    }
}

/// The decimal digit for `d`.
pub open spec fn spec_digit(d: int) -> char {
    if d == 0 {
        '0'
    } else if d == 1 {
        '1'
    } else if d == 2 {
        '2'
    } else if d == 3 {
        '3'
    } else if d == 4 {
        '4'
    } else if d == 5 {
        '5'
    } else if d == 6 {
        '6'
    } else if d == 7 {
        '7'
    } else if d == 8 {
        '8'
    } else {
        '9'
    }
}

/// The decimal numeral of a natural number, without leading zeros.
pub open spec fn spec_decimal_nat(n: nat) -> Seq<char>
    decreases n,
{
    if n < 10 {
        seq![spec_digit(n as int)]
    } else {
        spec_decimal_nat(n / 10).push(spec_digit((n % 10) as int))
    }
}

/// The decimal numeral of an integer, with a minus sign where it is negative.
pub open spec fn spec_decimal(n: int) -> Seq<char> {
    if n < 0 {
        seq!['-'] + spec_decimal_nat((-n) as nat)
    } else {
        spec_decimal_nat(n as nat)
    }
}

/// The decimal digit for `d`.
pub fn digit_char(d: u8) -> (c: char)
    requires
        d < 10,
    ensures
        c == spec_digit(d as int),
{
    if d == 0 {
        '0'
    } else if d == 1 {
        '1'
    } else if d == 2 {
        '2'
    } else if d == 3 {
        '3'
    } else if d == 4 {
        '4'
    } else if d == 5 {
        '5'
    } else if d == 6 {
        '6'
    } else if d == 7 {
        '7'
    } else if d == 8 {
        '8'
    } else {
        '9'
    }
}

/// The decimal numeral of `n`.
pub fn decimal_nat_chars(n: u64) -> (out: Vec<char>)
    ensures
        out@ == spec_decimal_nat(n as nat),
    decreases n,
{
    if n < 10 {
        let mut out: Vec<char> = Vec::new();
        out.push(digit_char(n as u8));
        assert(out@ =~= seq![spec_digit(n as int)]);
        out
    } else {
        let mut out = decimal_nat_chars(n / 10);
        out.push(digit_char((n % 10) as u8));
        out
    }
}

/// The decimal numeral of `n`.
pub fn decimal_chars(n: i64) -> (out: Vec<char>)
    ensures
        out@ == spec_decimal(n as int),
{
    if n < 0 {
        let magnitude: u64 = if n == i64::MIN {
            9223372036854775808u64
        } else {
            (-n) as u64
        };
        let mut out: Vec<char> = Vec::new();
        out.push('-');
        let digits = decimal_nat_chars(magnitude);
        push_all(&mut out, &digits);
        assert(out@ =~= seq!['-'] + spec_decimal_nat((-n) as nat));
        out
    } else {
        decimal_nat_chars(n as u64)
    }
}

} // verus!

verus! {

/// The lower-case form of a text, as `str::to_lowercase` gives it.
pub uninterp spec fn spec_lowercase(s: Seq<char>) -> Seq<char>;

/// Whether a character is white space: one of the code points with the
/// Unicode property White_Space.
pub open spec fn spec_is_whitespace(c: char) -> bool {
    let n = c as u32;
    ||| 0x09 <= n <= 0x0D
    ||| n == 0x20
    ||| n == 0x85
    ||| n == 0xA0
    ||| n == 0x1680
    ||| 0x2000 <= n <= 0x200A
    ||| n == 0x2028
    ||| n == 0x2029
    ||| n == 0x202F
    ||| n == 0x205F
    ||| n == 0x3000
}

/// `str::to_lowercase`: the lower-case form of `s` by the Unicode rules. The
/// contract only gives the result its name.
#[verifier::external_body]
pub(crate) fn lowercase(s: &str) -> (r: String)
    ensures
        r@ == spec_lowercase(s@),
{
    s.to_lowercase()
}

/// Whether a character is white space.
pub fn is_whitespace(c: char) -> (r: bool)
    ensures
        r == spec_is_whitespace(c),
{
    let n: u32 = c as u32;
    (0x09 <= n && n <= 0x0D) || n == 0x20 || n == 0x85 || n == 0xA0 || n == 0x1680 || (0x2000 <= n
        && n <= 0x200A) || n == 0x2028 || n == 0x2029 || n == 0x202F || n == 0x205F || n
        == 0x3000
}

/// The number of white-space characters at the start of `s`.
pub open spec fn spec_leading_space(s: Seq<char>) -> int
    decreases s.len(),
{
    if s.len() == 0 || !spec_is_whitespace(s[0]) {
        0
    } else {
        1 + spec_leading_space(s.drop_first())
    }
}

/// The number of white-space characters at the end of `s`.
pub open spec fn spec_trailing_space(s: Seq<char>) -> int
    decreases s.len(),
{
    if s.len() == 0 || !spec_is_whitespace(s.last()) {
        0
    } else {
        1 + spec_trailing_space(s.drop_last())
    }
}

/// `s` without the white space at its start and at its end.
pub open spec fn spec_trim(s: Seq<char>) -> Seq<char> {
    let rest = s.skip(spec_leading_space(s));
    rest.take(rest.len() - spec_trailing_space(rest))
}

/// The leading white space is a prefix of white-space characters that ends at
/// the first other character.
pub proof fn lemma_leading_space(s: Seq<char>)
    ensures
        0 <= spec_leading_space(s) <= s.len(),
        forall|k: int| 0 <= k < spec_leading_space(s) ==> spec_is_whitespace(s[k]),
        spec_leading_space(s) < s.len() ==> !spec_is_whitespace(s[spec_leading_space(s)]),
    decreases s.len(),
{
    if s.len() != 0 && spec_is_whitespace(s[0]) {
        let t = s.drop_first();
        lemma_leading_space(t);
        assert forall|k: int| 0 <= k < spec_leading_space(s) implies spec_is_whitespace(s[k]) by {
            if k > 0 {
                assert(s[k] == t[k - 1]);
            }
        }
        if spec_leading_space(s) < s.len() {
            assert(s[spec_leading_space(s)] == t[spec_leading_space(t)]);
        }
    }
}

/// The trailing white space is a suffix of white-space characters that begins
/// after the last other character.
pub proof fn lemma_trailing_space(s: Seq<char>)
    ensures
        0 <= spec_trailing_space(s) <= s.len(),
        forall|k: int|
            s.len() - spec_trailing_space(s) <= k < s.len() ==> spec_is_whitespace(s[k]),
        spec_trailing_space(s) < s.len() ==> !spec_is_whitespace(
            s[s.len() - spec_trailing_space(s) - 1],
        ),
    decreases s.len(),
{
    if s.len() != 0 && spec_is_whitespace(s.last()) {
        let t = s.drop_last();
        lemma_trailing_space(t);
        assert forall|k: int|
            s.len() - spec_trailing_space(s) <= k < s.len() implies spec_is_whitespace(s[k]) by {
            if k < s.len() - 1 {
                assert(s[k] == t[k]);
            }
        }
        if spec_trailing_space(s) < s.len() {
            assert(s[s.len() - spec_trailing_space(s) - 1] == t[t.len() - spec_trailing_space(t)
                - 1]);
        }
    }
}

/// `s` without the white space at its start and at its end.
pub fn trim_chars(s: &Vec<char>) -> (out: Vec<char>)
    ensures
        out@ == spec_trim(s@),
{
    let mut start: usize = 0;
    while start < s.len() && is_whitespace(s[start])
        invariant
            start <= s.len(),
            forall|k: int| 0 <= k < start ==> spec_is_whitespace(s@[k]),
        decreases s.len() - start,
    {
        start += 1;
    }
    proof {
        lemma_leading_space(s@);
    }
    assert(start == spec_leading_space(s@));
    let ghost rest = s@.skip(start as int);
    let mut end: usize = s.len();
    while end > start && is_whitespace(s[end - 1])
        invariant
            start <= end <= s.len(),
            rest == s@.skip(start as int),
            forall|k: int| end - start <= k < rest.len() ==> spec_is_whitespace(rest[k]),
        decreases end,
    {
        end -= 1;
    }
    proof {
        lemma_trailing_space(rest);
        if end > start {
            assert(rest[end - start - 1] == s@[end - 1]);
        }
    }
    assert(rest.len() - spec_trailing_space(rest) == end - start);
    let mut out: Vec<char> = Vec::new();
    let mut i: usize = start;
    while i < end
        invariant
            start <= i <= end <= s.len(),
            out@ == s@.subrange(start as int, i as int),
        decreases end - i,
    {
        out.push(s[i]);
        assert(s@.subrange(start as int, i + 1) =~= s@.subrange(start as int, i as int).push(
            s@[i as int],
        ));
        i += 1;
    }
    assert(s@.subrange(start as int, end as int) =~= rest.take(end - start));
    out
}

} // verus!
