//! Character-level helpers shared by the crawler's parsers and normalizers.
//!
//! Strings are reasoned about through their character sequences (`s@`).

use vstd::prelude::*;

verus! {

// --- Trusted std operations ---------------------------------------------

/// Appends one character to a `String`: std's `String::push`, which the
/// documentation defines as appending the character at the end.
#[verifier::external_body]
pub(crate) fn push_char(s: &mut String, c: char)
    ensures
        final(s)@ == old(s)@.push(c),
{
    s.push(c);
}

/// What std's `str::to_lowercase` returns: the Unicode lowercase mapping of
/// the characters, which may change the length of the text.
pub uninterp spec fn unicode_lowercase(s: Seq<char>) -> Seq<char>;

/// std's `str::to_lowercase`. The contract claims only that the result is a
/// function of the input characters (it is named, not written out).
#[verifier::external_body]
pub fn lowercase(s: &str) -> (r: String)
    ensures
        r@ == unicode_lowercase(s@),
{
    s.to_lowercase()
}

// --- Building and reading strings ---------------------------------------

/// The characters of a string slice, in order.
pub fn chars_of(s: &str) -> (v: Vec<char>)
    ensures
        v@ == s@,
{
    let mut v: Vec<char> = Vec::new();
    for c in it: s.chars()
        invariant
            v@ == it.seq().take(it.index() as int),
            it.seq() == s@,
    {
        v.push(c);
    }
    v
}

/// A string made of `v[lo..hi]`.
pub fn string_from_range(v: &Vec<char>, lo: usize, hi: usize) -> (s: String)
    requires
        lo <= hi <= v.len(),
    ensures
        s@ == v@.subrange(lo as int, hi as int),
{
    let mut s = String::new();
    let mut i = lo;
    while i < hi
        invariant
            lo <= i <= hi <= v.len(),
            s@ == v@.subrange(lo as int, i as int),
        decreases hi - i,
    {
        push_char(&mut s, v[i]);
        i = i + 1;
        assert(s@ =~= v@.subrange(lo as int, i as int));
    }
    s
}

/// A string holding exactly the characters of `v`.
pub fn string_from_chars(v: &Vec<char>) -> (s: String)
    ensures
        s@ == v@,
{
    let s = string_from_range(v, 0, v.len());
    assert(v@.subrange(0, v@.len() as int) =~= v@);
    s
}

/// Appends a slice's characters to a string.
pub fn append_str(s: &mut String, t: &str)
    ensures
        final(s)@ == old(s)@ + t@,
{
    let ghost start = s@;
    for c in it: t.chars()
        invariant
            it.seq() == t@,
            s@ == start + it.seq().take(it.index() as int),
    {
        push_char(s, c);
        assert(start + it.seq().take(it.index() + 1) =~= (start + it.seq().take(
            it.index() as int,
        )).push(c));
    }
    assert(t@.take(t@.len() as int) =~= t@);
}

/// Character-wise equality of two slices.
pub fn str_eq(a: &str, b: &str) -> (r: bool)
    ensures
        r == (a@ == b@),
{
    let av = chars_of(a);
    let bv = chars_of(b);
    seq_eq(&av, &bv)
}

/// Element-wise equality of two character vectors.
pub fn seq_eq(a: &Vec<char>, b: &Vec<char>) -> (r: bool)
    ensures
        r == (a@ == b@),
{
    if a.len() != b.len() {
        return false;
    }
    let mut i: usize = 0;
    while i < a.len()
        invariant
            a.len() == b.len(),
            i <= a.len(),
            forall|j: int| 0 <= j < i ==> a@[j] == b@[j],
        decreases a.len() - i,
    {
        if a[i] != b[i] {
            return false;
        }
        i = i + 1;
    }
    assert(a@ =~= b@);
    true
}

// --- Whitespace and trimming --------------------------------------------

/// Unicode `White_Space`, the definition std's `char::is_whitespace` and
/// `str::trim` use.
pub open spec fn is_white_space(c: char) -> bool {
    ||| ('\u{9}' <= c && c <= '\u{d}')
    ||| c == ' '
    ||| c == '\u{85}'
    ||| c == '\u{a0}'
    ||| c == '\u{1680}'
    ||| ('\u{2000}' <= c && c <= '\u{200a}')
    ||| c == '\u{2028}'
    ||| c == '\u{2029}'
    ||| c == '\u{202f}'
    ||| c == '\u{205f}'
    ||| c == '\u{3000}'
}

pub fn white_space(c: char) -> (r: bool)
    ensures
        r == is_white_space(c),
{
    ('\u{9}' <= c && c <= '\u{d}') || c == ' ' || c == '\u{85}' || c == '\u{a0}' || c
        == '\u{1680}' || ('\u{2000}' <= c && c <= '\u{200a}') || c == '\u{2028}' || c
        == '\u{2029}' || c == '\u{202f}' || c == '\u{205f}' || c == '\u{3000}'
}

/// `s` without its leading white space.
pub open spec fn trim_start(s: Seq<char>) -> Seq<char>
    decreases s.len(),
{
    if s.len() > 0 && is_white_space(s[0]) {
        trim_start(s.drop_first())
    } else {
        s
    }
}

/// `s` without its trailing white space.
pub open spec fn trim_end(s: Seq<char>) -> Seq<char>
    decreases s.len(),
{
    if s.len() > 0 && is_white_space(s.last()) {
        trim_end(s.drop_last())
    } else {
        s
    }
}

/// `s` without leading and trailing white space (std's `str::trim`).
pub open spec fn trim(s: Seq<char>) -> Seq<char> {
    trim_end(trim_start(s))
}

proof fn lemma_trim_start_skip(s: Seq<char>, i: int)
    requires
        0 <= i <= s.len(),
        forall|j: int| 0 <= j < i ==> is_white_space(s[j]),
    ensures
        trim_start(s) == trim_start(s.subrange(i, s.len() as int)),
    decreases i,
{
    if i > 0 {
        assert(s.drop_first().subrange(i - 1, s.drop_first().len() as int) =~= s.subrange(
            i,
            s.len() as int,
        ));
        lemma_trim_start_skip(s.drop_first(), i - 1);
    } else {
        assert(s.subrange(0, s.len() as int) =~= s);
    }
}

proof fn lemma_trim_end_skip(s: Seq<char>, k: int)
    requires
        0 <= k <= s.len(),
        forall|j: int| k <= j < s.len() ==> is_white_space(s[j]),
    ensures
        trim_end(s) == trim_end(s.subrange(0, k)),
    decreases s.len() - k,
{
    if k < s.len() {
        assert(s.drop_last().subrange(0, k) =~= s.subrange(0, k));
        lemma_trim_end_skip(s.drop_last(), k);
    } else {
        assert(s.subrange(0, k) =~= s);
    }
}

/// Bounds `(lo, hi)` with `v[lo..hi] == trim(v)`.
pub fn trim_bounds(v: &Vec<char>) -> (r: (usize, usize))
    ensures
        r.0 <= r.1 <= v.len(),
        v@.subrange(r.0 as int, r.1 as int) == trim(v@),
        r.0 == r.1 || (!is_white_space(v@[r.0 as int]) && !is_white_space(v@[r.1 - 1])),
{
    let mut lo: usize = 0;
    while lo < v.len() && white_space(v[lo])
        invariant
            lo <= v.len(),
            forall|j: int| 0 <= j < lo ==> is_white_space(v@[j]),
        decreases v.len() - lo,
    {
        lo = lo + 1;
    }
    proof {
        lemma_trim_start_skip(v@, lo as int);
    }
    let ghost rest = v@.subrange(lo as int, v.len() as int);
    assert(trim_start(rest) == rest);
    let mut hi: usize = v.len();
    while hi > lo && white_space(v[hi - 1])
        invariant
            lo <= hi <= v.len(),
            forall|j: int| hi <= j < v.len() ==> is_white_space(v@[j]),
        decreases hi,
    {
        hi = hi - 1;
    }
    proof {
        lemma_trim_end_skip(rest, hi - lo);
        assert(rest.subrange(0, hi - lo) =~= v@.subrange(lo as int, hi as int));
        let t = v@.subrange(lo as int, hi as int);
        assert(trim_end(t) == t);
    }
    (lo, hi)
}

/// std's `str::trim`, returning an owned string.
pub fn trimmed(s: &str) -> (r: String)
    ensures
        r@ == trim(s@),
{
    let v = chars_of(s);
    let (lo, hi) = trim_bounds(&v);
    string_from_range(&v, lo, hi)
}

/// Whether the text is empty once trimmed (`s.trim().is_empty()`).
pub fn is_blank(s: &str) -> (r: bool)
    ensures
        r == (trim(s@).len() == 0),
{
    let v = chars_of(s);
    let (lo, hi) = trim_bounds(&v);
    lo == hi
}

// --- ASCII case ----------------------------------------------------------

pub open spec fn ascii_lower(c: char) -> char {
    if 'A' <= c && c <= 'Z' {
        ((c as u32) + 32) as char
    } else {
        c
    }
}

/// std's `to_ascii_lowercase` on text: only `A`..`Z` change.
pub open spec fn ascii_lowercase(s: Seq<char>) -> Seq<char> {
    s.map_values(|c: char| ascii_lower(c))
}

pub fn ascii_lower_char(c: char) -> (r: char)
    ensures
        r == ascii_lower(c),
{
    if 'A' <= c && c <= 'Z' {
        let code: u32 = (c as u32) + 32;
        assert(code == (c as u32) + 32);
        char_from_ascii_upper(code)
    } else {
        c
    }
}

fn char_from_ascii_upper(code: u32) -> (r: char)
    requires
        97 <= code <= 122,
    ensures
        r == code as char,
{
    let b: u8 = code as u8;
    b as char
}

pub fn ascii_lowercase_of(v: &Vec<char>) -> (r: Vec<char>)
    ensures
        r@ == ascii_lowercase(v@),
{
    let mut r: Vec<char> = Vec::new();
    let mut i: usize = 0;
    while i < v.len()
        invariant
            i <= v.len(),
            r@ == ascii_lowercase(v@.take(i as int)),
        decreases v.len() - i,
    {
        r.push(ascii_lower_char(v[i]));
        i = i + 1;
        assert(ascii_lowercase(v@.take(i as int)) =~= ascii_lowercase(v@.take(i - 1)).push(
            ascii_lower(v@[i - 1]),
        ));
    }
    assert(v@.take(v.len() as int) =~= v@);
    r
}

// --- Searching -----------------------------------------------------------

/// `needle` occurs in `hay` starting at `i`.
pub open spec fn occurs_at(hay: Seq<char>, needle: Seq<char>, i: int) -> bool {
    0 <= i && i + needle.len() <= hay.len() && hay.subrange(i, i + needle.len()) == needle
}

/// std's `str::contains` for a string pattern.
pub open spec fn contains_seq(hay: Seq<char>, needle: Seq<char>) -> bool {
    exists|i: int| occurs_at(hay, needle, i)
}

pub fn occurs_at_exec(hay: &Vec<char>, needle: &Vec<char>, i: usize) -> (r: bool)
    ensures
        r == occurs_at(hay@, needle@, i as int),
{
    if i > hay.len() || needle.len() > hay.len() - i {
        return false;
    }
    let mut k: usize = 0;
    while k < needle.len()
        invariant
            i + needle.len() <= hay.len(),
            k <= needle.len(),
            forall|j: int| 0 <= j < k ==> hay@[i + j] == needle@[j],
        decreases needle.len() - k,
    {
        if hay[i + k] != needle[k] {
            assert(hay@.subrange(i as int, i + needle.len())[k as int] != needle@[k as int]);
            return false;
        }
        k = k + 1;
    }
    assert(hay@.subrange(i as int, i + needle.len()) =~= needle@);
    true
}

pub fn contains_chars(hay: &Vec<char>, needle: &Vec<char>) -> (r: bool)
    ensures
        r == contains_seq(hay@, needle@),
{
    if needle.len() == 0 {
        assert(hay@.subrange(0, 0) =~= needle@);
        assert(occurs_at(hay@, needle@, 0));
        return true;
    }
    let mut i: usize = 0;
    while i < hay.len()
        invariant
            i <= hay.len(),
            needle.len() > 0,
            forall|j: int| 0 <= j < i ==> !occurs_at(hay@, needle@, j),
        decreases hay.len() - i,
    {
        if occurs_at_exec(hay, needle, i) {
            return true;
        }
        i = i + 1;
    }
    assert forall|j: int| !occurs_at(hay@, needle@, j) by {
        if 0 <= j && j + needle@.len() <= hay@.len() {
            assert(j < i);
        }
    }
    false
}

pub fn contains_str(hay: &str, needle: &str) -> (r: bool)
    ensures
        r == contains_seq(hay@, needle@),
{
    let h = chars_of(hay);
    let n = chars_of(needle);
    contains_chars(&h, &n)
}

/// The position of the first `c` in `v`, if any.
pub fn find_char(v: &Vec<char>, c: char) -> (r: Option<usize>)
    ensures
        r is None ==> forall|j: int| 0 <= j < v.len() ==> v@[j] != c,
        r matches Some(i) ==> i < v.len() && v@[i as int] == c && forall|j: int| 0 <= j < i ==> v@[j] != c,
{
    let mut i: usize = 0;
    while i < v.len()
        invariant
            i <= v.len(),
            forall|j: int| 0 <= j < i ==> v@[j] != c,
        decreases v.len() - i,
    {
        if v[i] == c {
            return Some(i);
        }
        i = i + 1;
    }
    None
}

// --- Decimal numbers ------------------------------------------------------

pub open spec fn is_digit(c: char) -> bool {
    '0' <= c && c <= '9'
}

pub open spec fn digit_value(c: char) -> int {
    (c as int) - ('0' as int)
}

/// The value of a run of decimal digits, most significant first.
pub open spec fn decimal_value(s: Seq<char>) -> int
    decreases s.len(),
{
    if s.len() == 0 {
        0
    } else {
        decimal_value(s.drop_last()) * 10 + digit_value(s.last())
    }
}

pub open spec fn all_digits(s: Seq<char>) -> bool {
    forall|i: int| 0 <= i < s.len() ==> is_digit(#[trigger] s[i])
}

/// What std's `FromStr` for an unsigned integer type with maximum `max`
/// accepts: an optional `+`, then one or more ASCII digits, with a value no
/// greater than `max`.
pub open spec fn unsigned_digits(s: Seq<char>) -> Seq<char> {
    if s.len() > 0 && s[0] == '+' {
        s.drop_first()
    } else {
        s
    }
}

pub open spec fn parse_unsigned(s: Seq<char>, max: int) -> Option<int> {
    let digits = unsigned_digits(s);
    if digits.len() > 0 && all_digits(digits) && decimal_value(digits) <= max {
        Some(decimal_value(digits))
    } else {
        None
    }
}

proof fn lemma_decimal_nonneg(s: Seq<char>)
    requires
        all_digits(s),
    ensures
        decimal_value(s) >= 0,
    decreases s.len(),
{
    if s.len() > 0 {
        assert(all_digits(s.drop_last()));
        lemma_decimal_nonneg(s.drop_last());
        assert(is_digit(s[s.len() - 1]));
    }
}

/// Digits `v[lo..i]` followed by one more keep a monotone value.
proof fn lemma_decimal_step(v: Seq<char>, lo: int, i: int)
    requires
        0 <= lo <= i < v.len(),
    ensures
        decimal_value(v.subrange(lo, i + 1)) == decimal_value(v.subrange(lo, i)) * 10
            + digit_value(v[i]),
{
    assert(v.subrange(lo, i + 1).drop_last() =~= v.subrange(lo, i));
}

proof fn lemma_decimal_grows(s: Seq<char>, k: int)
    requires
        all_digits(s),
        0 <= k <= s.len(),
    ensures
        decimal_value(s.take(k)) <= decimal_value(s),
    decreases s.len() - k,
{
    if k < s.len() {
        lemma_decimal_grows(s, k + 1);
        assert(s.take(k + 1).drop_last() =~= s.take(k));
        assert(all_digits(s.take(k)));
        lemma_decimal_nonneg(s.take(k));
        assert(is_digit(s[k]));
    } else {
        assert(s.take(k) =~= s);
    }
}

/// Parses an unsigned decimal number no greater than `max`, as std's
/// `FromStr` for `u8`..`u64`/`usize` does.
pub fn parse_unsigned_chars(v: &Vec<char>, max: u64) -> (r: Option<u64>)
    ensures
        r matches Some(n) ==> parse_unsigned(v@, max as int) == Some(n as int),
        r is None ==> parse_unsigned(v@, max as int) is None,
{
    let lo: usize = if v.len() > 0 && v[0] == '+' {
        1
    } else {
        0
    };
    let ghost digits = v@.subrange(lo as int, v.len() as int);
    assert(digits =~= unsigned_digits(v@));
    if lo >= v.len() {
        return None;
    }
    let mut value: u64 = 0;
    let mut i: usize = lo;
    while i < v.len()
        invariant
            lo <= i <= v.len(),
            digits == v@.subrange(lo as int, v.len() as int),
            digits == unsigned_digits(v@),
            all_digits(v@.subrange(lo as int, i as int)),
            value == decimal_value(v@.subrange(lo as int, i as int)),
            value <= max,
        decreases v.len() - i,
    {
        let c = v[i];
        if !('0' <= c && c <= '9') {
            assert(digits[i - lo] == c);
            assert(!is_digit(digits[i - lo]));
            return None;
        }
        let d: u64 = ((c as u32) - ('0' as u32)) as u64;
        proof {
            lemma_decimal_step(v@, lo as int, i as int);
        }
        if d > max {
            proof {
                assert(digits.take(i + 1 - lo) =~= v@.subrange(lo as int, i + 1));
                assert(all_digits(v@.subrange(lo as int, i as int)));
                lemma_decimal_nonneg(v@.subrange(lo as int, i as int));
                if all_digits(digits) {
                    lemma_decimal_grows(digits, i + 1 - lo);
                }
            }
            return None;
        }
        if value > (max - d) / 10 {
            proof {
                assert(value * 10 + d > max) by (nonlinear_arith)
                    requires
                        value > (max - d) / 10,
                        d <= max,
                ;
                assert(all_digits(v@.subrange(lo as int, i + 1)));
                assert(digits.take(i + 1 - lo) =~= v@.subrange(lo as int, i + 1));
                assert(all_digits(digits) ==> decimal_value(digits) > max) by {
                    if all_digits(digits) {
                        lemma_decimal_grows(digits, i + 1 - lo);
                    }
                }
            }
            return None;
        }
        proof {
            assert(value * 10 + d <= max) by (nonlinear_arith)
                requires
                    value <= (max - d) / 10,
                    d <= max,
            ;
        }
        value = value * 10 + d;
        i = i + 1;
        assert(all_digits(v@.subrange(lo as int, i as int)));
    }
    Some(value)
}

pub fn parse_u64(s: &str) -> (r: Option<u64>)
    ensures
        r matches Some(n) ==> parse_unsigned(s@, u64::MAX as int) == Some(n as int),
        r is None ==> parse_unsigned(s@, u64::MAX as int) is None,
{
    let v = chars_of(s);
    parse_unsigned_chars(&v, u64::MAX)
}

pub fn parse_u32(s: &str) -> (r: Option<u32>)
    ensures
        r matches Some(n) ==> parse_unsigned(s@, u32::MAX as int) == Some(n as int),
        r is None ==> parse_unsigned(s@, u32::MAX as int) is None,
{
    let v = chars_of(s);
    match parse_unsigned_chars(&v, u32::MAX as u64) {
        Some(n) => Some(n as u32),
        None => None,
    }
}

pub fn parse_usize(s: &str) -> (r: Option<usize>)
    ensures
        r matches Some(n) ==> parse_unsigned(s@, usize::MAX as int) == Some(n as int),
        r is None ==> parse_unsigned(s@, usize::MAX as int) is None,
{
    let v = chars_of(s);
    match parse_unsigned_chars(&v, usize::MAX as u64) {
        Some(n) => Some(n as usize),
        None => None,
    }
}

} // verus!

verus! {

// --- Decimal rendering ----------------------------------------------------

pub open spec fn digit_char(d: int) -> char {
    ((d + 48) as u32) as char
}

/// The decimal text of `n`, as `n.to_string()` writes it.
pub open spec fn decimal_text(n: nat) -> Seq<char>
    decreases n,
{
    if n < 10 {
        seq![digit_char(n as int)]
    } else {
        decimal_text(n / 10).push(digit_char((n % 10) as int))
    }
}

fn digit_to_char(d: u64) -> (c: char)
    requires
        d < 10,
    ensures
        c == digit_char(d as int),
{
    let b: u8 = (d as u8) + 48;
    b as char
}

/// `n.to_string()` for unsigned integers.
pub fn decimal_string(n: u64) -> (s: String)
    ensures
        s@ == decimal_text(n as nat),
    decreases n,
{
    if n < 10 {
        let mut s = String::new();
        push_char(&mut s, digit_to_char(n));
        assert(s@ =~= seq![digit_char(n as int)]);
        s
    } else {
        let mut s = decimal_string(n / 10);
        push_char(&mut s, digit_to_char(n % 10));
        s
    }
}

proof fn lemma_digit_char(d: int)
    requires
        0 <= d < 10,
    ensures
        is_digit(digit_char(d)),
        digit_value(digit_char(d)) == d,
        digit_char(d) != '+',
{
    assert(((d + 48) as u32) as char as int == d + 48);
}

/// The decimal text of a number is its digits: it reads back as the number.
pub proof fn lemma_decimal_text_reads_back(n: nat)
    ensures
        decimal_text(n).len() > 0,
        all_digits(decimal_text(n)),
        decimal_value(decimal_text(n)) == n,
        decimal_text(n)[0] != '+',
    decreases n,
{
    if n < 10 {
        lemma_digit_char(n as int);
        assert(decimal_text(n) =~= seq![digit_char(n as int)]);
        assert(decimal_text(n).drop_last() =~= Seq::<char>::empty());
        assert(decimal_value(Seq::<char>::empty()) == 0);
        assert(decimal_value(decimal_text(n)) == decimal_value(decimal_text(n).drop_last()) * 10
            + digit_value(decimal_text(n).last()));
    } else {
        lemma_decimal_text_reads_back(n / 10);
        lemma_digit_char((n % 10) as int);
        let t = decimal_text(n);
        assert(t.drop_last() =~= decimal_text(n / 10));
        assert(forall|i: int| 0 <= i < t.len() ==> is_digit(#[trigger] t[i])) by {
            assert forall|i: int| 0 <= i < t.len() implies is_digit(#[trigger] t[i]) by {
                if i < t.len() - 1 {
                    assert(t[i] == decimal_text(n / 10)[i]);
                }
            }
        }
        assert(t[0] == decimal_text(n / 10)[0]);
        assert(t.last() == digit_char((n % 10) as int));
        assert((n / 10) * 10 + n % 10 == n);
        assert(decimal_value(t) == decimal_value(t.drop_last()) * 10 + digit_value(t.last()));
    }
}

/// A number's decimal text parses back to it.
pub proof fn lemma_decimal_text_parses(n: nat, max: int)
    requires
        n <= max,
    ensures
        parse_unsigned(decimal_text(n), max) == Some(n as int),
{
    lemma_decimal_text_reads_back(n);
}

/// `n.to_string()` for wider unsigned integers.
pub fn decimal_string_wide(n: u128) -> (s: String)
    ensures
        s@ == decimal_text(n as nat),
    decreases n,
{
    if n < 10 {
        let mut s = String::new();
        push_char(&mut s, digit_to_char(n as u64));
        assert(s@ =~= seq![digit_char(n as int)]);
        s
    } else {
        let mut s = decimal_string_wide(n / 10);
        push_char(&mut s, digit_to_char((n % 10) as u64));
        s
    }
}

} // verus!

verus! {

// --- Splitting --------------------------------------------------------------

/// Index of the first `c` in `s`, or `s.len()` when there is none.
pub open spec fn index_of(s: Seq<char>, c: char) -> int
    decreases s.len(),
{
    if s.len() == 0 {
        0
    } else if s[0] == c {
        0
    } else {
        1 + index_of(s.drop_first(), c)
    }
}

/// std's `str::split_once` with a character pattern.
pub open spec fn split_once(s: Seq<char>, c: char) -> Option<(Seq<char>, Seq<char>)> {
    let i = index_of(s, c);
    if i < s.len() {
        Some((s.take(i), s.skip(i + 1)))
    } else {
        None
    }
}

pub proof fn lemma_index_of(s: Seq<char>, c: char, i: int)
    requires
        0 <= i <= s.len(),
        forall|j: int| 0 <= j < i ==> s[j] != c,
        i == s.len() || s[i] == c,
    ensures
        index_of(s, c) == i,
    decreases i,
{
    if i > 0 {
        lemma_index_of(s.drop_first(), c, i - 1);
    }
}

/// `s.split_once(c)`, owning both halves.
pub fn split_once_char(s: &str, c: char) -> (r: Option<(String, String)>)
    ensures
        r matches Some(p) ==> split_once(s@, c) == Some((p.0@, p.1@)),
        r is None ==> split_once(s@, c) is None,
{
    let v = chars_of(s);
    match find_char(&v, c) {
        Some(i) => {
            proof {
                lemma_index_of(v@, c, i as int);
            }
            let left = string_from_range(&v, 0, i);
            let right = string_from_range(&v, i + 1, v.len());
            assert(v@.subrange(0, i as int) =~= v@.take(i as int));
            assert(v@.subrange(i + 1, v.len() as int) =~= v@.skip(i + 1));
            Some((left, right))
        },
        None => {
            proof {
                lemma_index_of(v@, c, v@.len() as int);
            }
            None
        },
    }
}

// --- Hexadecimal --------------------------------------------------------------

pub open spec fn hex_digit(d: int) -> char {
    if d < 10 {
        ((d + 48) as u32) as char
    } else {
        ((d + 87) as u32) as char
    }
}

/// Lower-case hexadecimal of bytes, two digits per byte (`{:02x}`).
pub open spec fn hex_lower(bytes: Seq<u8>) -> Seq<char>
    decreases bytes.len(),
{
    if bytes.len() == 0 {
        Seq::empty()
    } else {
        hex_lower(bytes.drop_last()).push(hex_digit((bytes.last() / 16) as int)).push(
            hex_digit((bytes.last() % 16) as int),
        )
    }
}

fn hex_char(d: u8) -> (c: char)
    requires
        d < 16,
    ensures
        c == hex_digit(d as int),
{
    if d < 10 {
        let b: u8 = d + 48;
        b as char
    } else {
        let b: u8 = d + 87;
        b as char
    }
}

pub fn hex_string(bytes: &Vec<u8>) -> (s: String)
    ensures
        s@ == hex_lower(bytes@),
{
    let mut s = String::new();
    let mut i: usize = 0;
    while i < bytes.len()
        invariant
            i <= bytes.len(),
            s@ == hex_lower(bytes@.take(i as int)),
        decreases bytes.len() - i,
    {
        let b = bytes[i];
        push_char(&mut s, hex_char(b / 16));
        push_char(&mut s, hex_char(b % 16));
        i = i + 1;
        assert(bytes@.take(i as int).drop_last() =~= bytes@.take(i - 1));
    }
    assert(bytes@.take(bytes.len() as int) =~= bytes@);
    s
}

pub open spec fn is_hex_digit(c: char) -> bool {
    ('0' <= c && c <= '9') || ('a' <= c && c <= 'f') || ('A' <= c && c <= 'F')
}

} // verus!

verus! {

/// An owned copy of a slice.
pub fn owned(s: &str) -> (r: String)
    ensures
        r@ == s@,
{
    let mut r = String::new();
    append_str(&mut r, s);
    assert(r@ =~= s@);
    r
}

} // verus!

verus! {

// --- Trimming one character ---------------------------------------------------

/// std's `trim_start_matches(c)`.
pub open spec fn strip_leading(s: Seq<char>, c: char) -> Seq<char>
    decreases s.len(),
{
    if s.len() > 0 && s[0] == c {
        strip_leading(s.drop_first(), c)
    } else {
        s
    }
}

/// std's `trim_end_matches(c)`.
pub open spec fn strip_trailing(s: Seq<char>, c: char) -> Seq<char>
    decreases s.len(),
{
    if s.len() > 0 && s.last() == c {
        strip_trailing(s.drop_last(), c)
    } else {
        s
    }
}

proof fn lemma_strip_leading(s: Seq<char>, c: char, i: int)
    requires
        0 <= i <= s.len(),
        forall|j: int| 0 <= j < i ==> s[j] == c,
    ensures
        strip_leading(s, c) == strip_leading(s.subrange(i, s.len() as int), c),
    decreases i,
{
    if i > 0 {
        assert(s.drop_first().subrange(i - 1, s.drop_first().len() as int) =~= s.subrange(
            i,
            s.len() as int,
        ));
        lemma_strip_leading(s.drop_first(), c, i - 1);
    } else {
        assert(s.subrange(0, s.len() as int) =~= s);
    }
}

proof fn lemma_strip_trailing(s: Seq<char>, c: char, k: int)
    requires
        0 <= k <= s.len(),
        forall|j: int| k <= j < s.len() ==> s[j] == c,
    ensures
        strip_trailing(s, c) == strip_trailing(s.subrange(0, k), c),
    decreases s.len() - k,
{
    if k < s.len() {
        assert(s.drop_last().subrange(0, k) =~= s.subrange(0, k));
        lemma_strip_trailing(s.drop_last(), c, k);
    } else {
        assert(s.subrange(0, k) =~= s);
    }
}

pub fn trim_start_matches(s: &str, c: char) -> (r: String)
    ensures
        r@ == strip_leading(s@, c),
{
    let v = chars_of(s);
    let mut i: usize = 0;
    while i < v.len() && v[i] == c
        invariant
            i <= v.len(),
            forall|j: int| 0 <= j < i ==> v@[j] == c,
        decreases v.len() - i,
    {
        i = i + 1;
    }
    proof {
        lemma_strip_leading(v@, c, i as int);
    }
    string_from_range(&v, i, v.len())
}

pub fn trim_end_matches(s: &str, c: char) -> (r: String)
    ensures
        r@ == strip_trailing(s@, c),
{
    let v = chars_of(s);
    let mut k: usize = v.len();
    while k > 0 && v[k - 1] == c
        invariant
            k <= v.len(),
            forall|j: int| k <= j < v.len() ==> v@[j] == c,
        decreases k,
    {
        k = k - 1;
    }
    proof {
        lemma_strip_trailing(v@, c, k as int);
    }
    string_from_range(&v, 0, k)
}

/// The characters of an optional string.
pub open spec fn opt_view(o: Option<String>) -> Option<Seq<char>> {
    match o {
        Some(s) => Some(s@),
        None => None,
    }
}

pub open spec fn str_views(v: Seq<&str>) -> Seq<Seq<char>> {
    v.map_values(|s: &str| s@)
}

/// The characters of each string.
pub open spec fn views(v: Seq<String>) -> Seq<Seq<char>> {
    v.map_values(|s: String| s@)
}

} // verus!

verus! {

/// Whether one of the strings has the same characters as `key`.
pub fn contains_string(keys: &Vec<String>, key: &String) -> (r: bool)
    ensures
        r == views(keys@).contains(key@),
{
    let mut i: usize = 0;
    while i < keys.len()
        invariant
            i <= keys.len(),
            forall|j: int| 0 <= j < i ==> keys@[j]@ != key@,
        decreases keys.len() - i,
    {
        if str_eq(keys[i].as_str(), key.as_str()) {
            assert(views(keys@)[i as int] == key@);
            return true;
        }
        i = i + 1;
    }
    assert(!views(keys@).contains(key@)) by {
        if views(keys@).contains(key@) {
            let j = choose|j: int| 0 <= j < views(keys@).len() && views(keys@)[j] == key@;
            assert(keys@[j]@ == key@);
        }
    }
    false
}


/// The text after the last `c` (all of `s` when there is none): the first
/// item of `s.rsplit(c)`.
pub open spec fn after_last(s: Seq<char>, c: char) -> Seq<char>
    decreases s.len(),
{
    if s.len() == 0 {
        s
    } else if s.last() == c {
        Seq::empty()
    } else {
        after_last(s.drop_last(), c).push(s.last())
    }
}

pub proof fn lemma_after_last(s: Seq<char>, c: char, k: int)
    requires
        0 <= k <= s.len(),
        forall|j: int| k <= j < s.len() ==> s[j] != c,
        k == 0 || s[k - 1] == c,
    ensures
        after_last(s, c) == s.subrange(k, s.len() as int),
    decreases s.len() - k,
{
    if k < s.len() {
        lemma_after_last(s.drop_last(), c, k);
        assert(s.drop_last().subrange(k, s.len() - 1).push(s.last()) =~= s.subrange(
            k,
            s.len() as int,
        ));
    } else if k > 0 {
        assert(s.subrange(k, s.len() as int) =~= Seq::<char>::empty());
    } else {
        assert(s.len() == 0);
    }
}

pub fn after_last_char(s: &str, c: char) -> (r: String)
    ensures
        r@ == after_last(s@, c),
{
    let v = chars_of(s);
    let mut k: usize = v.len();
    while k > 0 && v[k - 1] != c
        invariant
            k <= v.len(),
            forall|j: int| k <= j < v.len() ==> v@[j] != c,
        decreases k,
    {
        k = k - 1;
    }
    proof {
        lemma_after_last(v@, c, k as int);
    }
    string_from_range(&v, k, v.len())
}

} // verus!
