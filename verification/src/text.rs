//! Character-level text handling: whitespace in the sense of Rust's
//! `char::is_whitespace`, trimming, words, searching and decimal numbers.
//! Texts are sequences of characters; positions are indices into them.
use vstd::prelude::*;

verus! {

/// The code points of the Unicode `White_Space` property, the characters for
/// which `char::is_whitespace` holds.
pub open spec fn is_white_code(v: u32) -> bool {
    ||| 9 <= v <= 13
    ||| v == 32
    ||| v == 0x85
    ||| v == 0xa0
    ||| v == 0x1680
    ||| 0x2000 <= v <= 0x200a
    ||| v == 0x2028
    ||| v == 0x2029
    ||| v == 0x202f
    ||| v == 0x205f
    ||| v == 0x3000
}

pub open spec fn is_white(c: char) -> bool {
    is_white_code(c as u32)
}

/// Whether `c` is a whitespace character.
pub fn is_white_char(c: char) -> (b: bool)
    ensures
        b == is_white(c),
{
    let v = c as u32;
    (9 <= v && v <= 13) || v == 32 || v == 0x85 || v == 0xa0 || v == 0x1680 || (0x2000 <= v
        && v <= 0x200a) || v == 0x2028 || v == 0x2029 || v == 0x202f || v == 0x205f || v
        == 0x3000
}

/// The first position at or after `i` that holds no whitespace, or the
/// length of `s` when there is none.
pub open spec fn skip_white(s: Seq<char>, i: int) -> int
    decreases s.len() - i,
{
    if i >= s.len() {
        s.len() as int
    } else if is_white(s[i]) {
        skip_white(s, i + 1)
    } else {
        i
    }
}

/// The first position at or after `i` that holds whitespace, or the length
/// of `s` when there is none.
pub open spec fn skip_word(s: Seq<char>, i: int) -> int
    decreases s.len() - i,
{
    if i >= s.len() {
        s.len() as int
    } else if !is_white(s[i]) {
        skip_word(s, i + 1)
    } else {
        i
    }
}

/// The end of `s.subrange(0, j)` once its trailing whitespace is removed.
pub open spec fn trim_end(s: Seq<char>, j: int) -> int
    decreases j,
{
    if j <= 0 {
        0
    } else if is_white(s[j - 1]) {
        trim_end(s, j - 1)
    } else {
        j
    }
}

/// `s` without its leading and trailing whitespace.
pub open spec fn trim(s: Seq<char>) -> Seq<char> {
    let a = skip_white(s, 0);
    let b = trim_end(s, s.len() as int);
    if a <= b {
        s.subrange(a, b)
    } else {
        Seq::empty()
    }
}

/// The first position at or after `i` that holds `c`, or the length of `s`
/// when there is none.
pub open spec fn find_char(s: Seq<char>, c: char, i: int) -> int
    decreases s.len() - i,
{
    if i >= s.len() {
        s.len() as int
    } else if s[i] == c {
        i
    } else {
        find_char(s, c, i + 1)
    }
}

/// The part of `s` before the first `c`; all of `s` when it holds no `c`.
pub open spec fn before_char(s: Seq<char>, c: char) -> Seq<char> {
    s.subrange(0, find_char(s, c, 0))
}

/// Whether `p` occurs in `s` at position `k`.
pub open spec fn occurs_at(s: Seq<char>, p: Seq<char>, k: int) -> bool {
    0 <= k && k + p.len() <= s.len() && s.subrange(k, k + p.len()) == p
}

/// Whether `s` begins with `p`.
pub open spec fn starts_with(s: Seq<char>, p: Seq<char>) -> bool {
    occurs_at(s, p, 0)
}

/// Whether `p` occurs anywhere in `s`.
pub open spec fn contains(s: Seq<char>, p: Seq<char>) -> bool {
    exists|k: int| occurs_at(s, p, k)
}

pub open spec fn is_digit(c: char) -> bool {
    48 <= c as u32 <= 57
}

/// Whether every character of `s` is a decimal digit.
pub open spec fn all_digits(s: Seq<char>) -> bool {
    forall|i: int| 0 <= i < s.len() ==> is_digit(#[trigger] s[i])
}

/// The number that the decimal digits `s` spell.
pub open spec fn digits_value(s: Seq<char>) -> int
    decreases s.len(),
{
    if s.len() == 0 {
        0
    } else {
        digits_value(s.drop_last()) * 10 + (s.last() as u32 - 48)
    }
}

/// The digits of a decimal number: `s` without one leading `+`.
pub open spec fn unsigned_digits(s: Seq<char>) -> Seq<char> {
    if s.len() > 0 && s[0] == '+' {
        s.subrange(1, s.len() as int)
    } else {
        s
    }
}

/// What `u32::from_str` gives for `s`: an optional `+`, then one or more
/// decimal digits whose value fits in a `u32`.
pub open spec fn parse_u32(s: Seq<char>) -> Option<u32> {
    let d = unsigned_digits(s);
    if d.len() > 0 && all_digits(d) && digits_value(d) <= u32::MAX {
        Some(digits_value(d) as u32)
    } else {
        None
    }
}

/// The first position at or after `i` without whitespace, else `s.len()`.
pub fn skip_white_from(s: &Vec<char>, i: usize) -> (r: usize)
    requires
        i <= s.len(),
    ensures
        r == skip_white(s@, i as int),
        i <= r <= s.len(),
        r < s.len() ==> !is_white(s@[r as int]),
{
    let mut j = i;
    while j < s.len() && is_white_char(s[j])
        invariant
            i <= j <= s.len(),
            skip_white(s@, j as int) == skip_white(s@, i as int),
        decreases s.len() - j,
    {
        j = j + 1;
    }
    j
}

/// The first position at or after `i` with whitespace, else `s.len()`.
pub fn skip_word_from(s: &Vec<char>, i: usize) -> (r: usize)
    requires
        i <= s.len(),
    ensures
        r == skip_word(s@, i as int),
        i <= r <= s.len(),
{
    let mut j = i;
    while j < s.len() && !is_white_char(s[j])
        invariant
            i <= j <= s.len(),
            skip_word(s@, j as int) == skip_word(s@, i as int),
        decreases s.len() - j,
    {
        j = j + 1;
    }
    j
}

/// The end of `s[..j]` without its trailing whitespace.
pub fn trim_end_from(s: &Vec<char>, j: usize) -> (r: usize)
    requires
        j <= s.len(),
    ensures
        r == trim_end(s@, j as int),
        r <= j,
        r > 0 ==> !is_white(s@[r - 1]),
{
    let mut k = j;
    while k > 0 && is_white_char(s[k - 1])
        invariant
            k <= j <= s.len(),
            trim_end(s@, k as int) == trim_end(s@, j as int),
        decreases k,
    {
        k = k - 1;
    }
    k
}

/// The characters of `s` from `lo` up to, not including, `hi`.
pub fn copy_range(s: &Vec<char>, lo: usize, hi: usize) -> (r: Vec<char>)
    requires
        lo <= hi <= s.len(),
    ensures
        r@ == s@.subrange(lo as int, hi as int),
{
    let mut r: Vec<char> = Vec::new();
    let mut k = lo;
    while k < hi
        invariant
            lo <= k <= hi <= s.len(),
            r@ == s@.subrange(lo as int, k as int),
        decreases hi - k,
    {
        r.push(s[k]);
        k = k + 1;
        assert(r@ =~= s@.subrange(lo as int, k as int));
    }
    r
}

/// `s` without its leading and trailing whitespace.
pub fn trimmed(s: &Vec<char>) -> (r: Vec<char>)
    ensures
        r@ == trim(s@),
{
    let a = skip_white_from(s, 0);
    let b = trim_end_from(s, s.len());
    if a <= b {
        copy_range(s, a, b)
    } else {
        Vec::new()
    }
}

/// The first position at or after `i` that holds `c`, else `s.len()`.
pub fn find_char_from(s: &Vec<char>, c: char, i: usize) -> (r: usize)
    requires
        i <= s.len(),
    ensures
        r == find_char(s@, c, i as int),
        i <= r <= s.len(),
{
    let mut j = i;
    while j < s.len() && s[j] != c
        invariant
            i <= j <= s.len(),
            find_char(s@, c, j as int) == find_char(s@, c, i as int),
        decreases s.len() - j,
    {
        j = j + 1;
    }
    j
}

/// The part of `s` before the first `c`, or all of `s`.
pub fn prefix_before(s: &Vec<char>, c: char) -> (r: Vec<char>)
    ensures
        r@ == before_char(s@, c),
{
    let e = find_char_from(s, c, 0);
    copy_range(s, 0, e)
}

/// Whether `p` occurs in `s` at position `k`.
pub fn occurs_at_exec(s: &Vec<char>, p: &Vec<char>, k: usize) -> (b: bool)
    ensures
        b == occurs_at(s@, p@, k as int),
{
    if k > s.len() || p.len() > s.len() - k {
        return false;
    }
    let mut i: usize = 0;
    while i < p.len()
        invariant
            k + p.len() <= s.len(),
            i <= p.len(),
            forall|m: int| 0 <= m < i ==> s@[k + m] == p@[m],
        decreases p.len() - i,
    {
        if s[k + i] != p[i] {
            assert(s@.subrange(k as int, k + p.len())[i as int] != p@[i as int]);
            return false;
        }
        i = i + 1;
    }
    assert(s@.subrange(k as int, k + p.len()) =~= p@);
    true
}

/// Whether `s` begins with `p`.
pub fn starts_with_exec(s: &Vec<char>, p: &Vec<char>) -> (b: bool)
    ensures
        b == starts_with(s@, p@),
{
    occurs_at_exec(s, p, 0)
}

/// Whether `p` occurs anywhere in `s`.
pub fn contains_exec(s: &Vec<char>, p: &Vec<char>) -> (b: bool)
    ensures
        b == contains(s@, p@),
{
    if p.len() > s.len() {
        return false;
    }
    let last = s.len() - p.len();
    let mut k: usize = 0;
    while k < last
        invariant
            k <= last,
            last == s.len() - p.len(),
            forall|m: int| 0 <= m < k ==> !occurs_at(s@, p@, m),
        decreases last - k,
    {
        if occurs_at_exec(s, p, k) {
            return true;
        }
        k = k + 1;
    }
    if occurs_at_exec(s, p, last) {
        return true;
    }
    assert forall|m: int| !occurs_at(s@, p@, m) by {
        if 0 <= m < k {
        }
    }
    false
}

/// The least of `v` and 2^32: a decimal value once it no longer fits a `u32`
/// is only known to be too large.
pub open spec fn capped(v: int) -> int {
    if v < 0x1_0000_0000 {
        v
    } else {
        0x1_0000_0000
    }
}

proof fn lemma_digits_value_nonneg(s: Seq<char>)
    requires
        forall|i: int| 0 <= i < s.len() ==> is_digit(#[trigger] s[i]),
    ensures
        digits_value(s) >= 0,
    decreases s.len(),
{
    if s.len() > 0 {
        assert forall|i: int| 0 <= i < s.drop_last().len() implies is_digit(
            #[trigger] s.drop_last()[i],
        ) by {
            assert(s.drop_last()[i] == s[i]);
        }
        lemma_digits_value_nonneg(s.drop_last());
        assert(is_digit(s[s.len() - 1]));
    }
}

/// What `u32::from_str` gives for `s`.
pub fn parse_u32_exec(s: &Vec<char>) -> (r: Option<u32>)
    ensures
        r == parse_u32(s@),
{
    let start: usize = if s.len() > 0 && s[0] == '+' {
        1
    } else {
        0
    };
    let ghost d = unsigned_digits(s@);
    assert(d =~= s@.subrange(start as int, s.len() as int));
    assert(start <= s.len());
    if start >= s.len() {
        assert(d.len() == 0);
        return None;
    }
    let mut acc: u64 = 0;
    let mut k = start;
    while k < s.len()
        invariant
            start <= k <= s.len(),
            d == s@.subrange(start as int, s.len() as int),
            d == unsigned_digits(s@),
            forall|i: int| 0 <= i < k - start ==> is_digit(#[trigger] d[i]),
            acc == capped(digits_value(d.subrange(0, k - start))),
        decreases s.len() - k,
    {
        let c = s[k];
        let code = c as u32;
        if !(48 <= code && code <= 57) {
            assert(d[k - start] == c);
            assert(!is_digit(c));
            assert(!is_digit(d[k - start]));
            assert(!all_digits(d));
            return None;
        }
        let digit = (code - 48) as u64;
        proof {
            let p = d.subrange(0, k + 1 - start);
            assert(p.drop_last() =~= d.subrange(0, k - start));
            assert(p.last() == c);
            assert forall|i: int| 0 <= i < p.drop_last().len() implies is_digit(
                #[trigger] p.drop_last()[i],
            ) by {
                assert(p.drop_last()[i] == d[i]);
            }
            lemma_digits_value_nonneg(p.drop_last());
        }
        if acc >= 0x1_0000_0000 {
            acc = 0x1_0000_0000;
        } else {
            acc = acc * 10 + digit;
            if acc > 0x1_0000_0000 {
                acc = 0x1_0000_0000;
            }
        }
        k = k + 1;
    }
    assert(d.subrange(0, k - start) =~= d);
    if acc <= 0xffff_ffff {
        Some(acc as u32)
    } else {
        None
    }
}


/// `skip_white` stays within `[i, s.len()]`.
pub proof fn lemma_skip_white_bounds(s: Seq<char>, i: int)
    requires
        0 <= i <= s.len(),
    ensures
        i <= skip_white(s, i) <= s.len(),
    decreases s.len() - i,
{
    if i < s.len() && is_white(s[i]) {
        lemma_skip_white_bounds(s, i + 1);
    }
}

/// `skip_word` stays within `[i, s.len()]`, and passes only characters that
/// are not whitespace.
pub proof fn lemma_skip_word_span(s: Seq<char>, i: int)
    requires
        0 <= i <= s.len(),
    ensures
        i <= skip_word(s, i) <= s.len(),
        forall|j: int| i <= j < skip_word(s, i) ==> !is_white(#[trigger] s[j]),
    decreases s.len() - i,
{
    if i < s.len() && !is_white(s[i]) {
        lemma_skip_word_span(s, i + 1);
    }
}

/// `find_char` stays within `[i, s.len()]`, and passes only characters other
/// than `c`.
pub proof fn lemma_find_char_span(s: Seq<char>, c: char, i: int)
    requires
        0 <= i <= s.len(),
    ensures
        i <= find_char(s, c, i) <= s.len(),
        forall|j: int| i <= j < find_char(s, c, i) ==> #[trigger] s[j] != c,
    decreases s.len() - i,
{
    if i < s.len() && s[i] != c {
        lemma_find_char_span(s, c, i + 1);
    }
}

} // verus!
