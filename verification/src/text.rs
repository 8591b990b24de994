//! Text primitives shared by the rest of the library: decimal rendering and
//! parsing, character classes, trimming, and conversions between `&str`,
//! `String` and character vectors.

use vstd::prelude::*;

verus! {

/// `c` is one of the ASCII digits `0`-`9`.
pub open spec fn is_ascii_digit(c: char) -> bool {
    '0' <= c && c <= '9'
}

/// The value of an ASCII digit.
pub open spec fn digit_value(c: char) -> nat {
    (c as nat - '0' as nat) as nat
}

/// The ASCII digit whose value is `d` (for `d < 10`).
pub open spec fn digit_char(d: nat) -> char {
    (d + '0' as nat) as char
}

/// Every character of `s` is an ASCII digit.
pub open spec fn all_ascii_digits(s: Seq<char>) -> bool {
    forall|i: int| 0 <= i < s.len() ==> is_ascii_digit(#[trigger] s[i])
}

/// The number that a string of ASCII digits spells in base ten.
pub open spec fn digits_value(s: Seq<char>) -> nat
    decreases s.len(),
{
    if s.len() == 0 {
        0
    } else {
        digits_value(s.drop_last()) * 10 + digit_value(s.last())
    }
}

/// The shortest base-ten spelling of `n`, without sign or leading zeros.
pub open spec fn decimal(n: nat) -> Seq<char>
    decreases n,
{
    if n < 10 {
        seq![digit_char(n)]
    } else {
        decimal(n / 10).push(digit_char(n % 10))
    }
}

/// The base-ten spelling of a signed number: a `-` before the digits of a
/// negative one.
pub open spec fn signed_decimal(n: int) -> Seq<char> {
    if n < 0 {
        seq!['-'] + decimal((-n) as nat)
    } else {
        decimal(n as nat)
    }
}

/// The spelling of `n` is a non-empty run of ASCII digits that spells `n`.
pub proof fn lemma_decimal_digits(n: nat)
    ensures
        decimal(n).len() >= 1,
        all_ascii_digits(decimal(n)),
        digits_value(decimal(n)) == n,
    decreases n,
{
    assert(digit_value(digit_char(n % 10)) == n % 10);
    if n >= 10 {
        lemma_decimal_digits(n / 10);
        let s = decimal(n);
        assert(s.drop_last() =~= decimal(n / 10));
        assert(s.last() == digit_char(n % 10));
        assert(digits_value(s) == (n / 10) * 10 + n % 10);
    } else {
        let s = decimal(n);
        assert(s.drop_last() =~= Seq::<char>::empty());
        assert(digits_value(s.drop_last()) == 0);
        assert(digit_value(digit_char(n)) == n);
    }
}

/// `char::is_whitespace`: whether `c` has the Unicode `White_Space`
/// property.
pub uninterp spec fn white_space(c: char) -> bool;

/// The ASCII characters that have the Unicode `White_Space` property: tab,
/// line feed, vertical tab, form feed, carriage return and space.
pub open spec fn ascii_white_space(c: char) -> bool {
    c == '\t' || c == '\n' || c == '\u{0B}' || c == '\u{0C}' || c == '\r' || c == ' '
}

/// Calls `char::is_whitespace`, which tells whether `c` has the Unicode
/// `White_Space` property. Stated: the result is that property, and within
/// ASCII the property holds exactly of tab, line feed, vertical tab, form
/// feed, carriage return and space. Which non-ASCII characters have it is
/// left to the name.
#[verifier::external_body]
pub(crate) fn is_white_space(c: char) -> (r: bool)
    ensures
        r == white_space(c),
        (c as u32) < 128 ==> (r <==> ascii_white_space(c)),
{
    c.is_whitespace()
}

/// `regex`'s `\d`: whether `c` is in the Unicode `Decimal_Number` general
/// category.
pub uninterp spec fn decimal_number(c: char) -> bool;

/// Matches the one-character text `c` against `regex`'s `\d`. Stated: the
/// result is the `Decimal_Number` category, and within ASCII exactly the
/// digits `0`-`9` are in it. Which non-ASCII characters are is left to the
/// name.
#[verifier::external_body]
pub(crate) fn is_decimal_number(c: char) -> (r: bool)
    ensures
        r == decimal_number(c),
        (c as u32) < 128 ==> (r <==> is_ascii_digit(c)),
{
    let mut buf = [0u8; 4];
    regex::Regex::new(r"\A\d\z").unwrap().is_match(c.encode_utf8(&mut buf))
}

/// `regex_syntax::is_word_character`: whether `c` is a Unicode word
/// character, the class behind `regex`'s `\w` and `\b`.
pub uninterp spec fn word_character(c: char) -> bool;

/// The ASCII word characters: `[_0-9a-zA-Z]`.
pub open spec fn ascii_word_character(c: char) -> bool {
    c == '_' || is_ascii_digit(c) || ('a' <= c && c <= 'z') || ('A' <= c && c <= 'Z')
}

/// Calls `regex_syntax::is_word_character`. Stated: the result is the
/// Unicode word class; every `Decimal_Number` character is in it (the
/// function's documentation lists that category); within ASCII it is exactly
/// `[_0-9a-zA-Z]`. The rest of the class is left to the name.
#[verifier::external_body]
pub(crate) fn is_word_character(c: char) -> (r: bool)
    ensures
        r == word_character(c),
        decimal_number(c) ==> r,
        (c as u32) < 128 ==> (r <==> ascii_word_character(c)),
{
    regex_syntax::is_word_character(c)
}

/// Calls `String::push`, which appends `c`.
#[verifier::external_body]
pub(crate) fn push_char(s: &mut String, c: char)
    ensures
        final(s)@ == old(s)@.push(c),
{
    s.push(c)
}

/// The characters of `s`, in order.
pub fn chars_of(s: &str) -> (r: Vec<char>)
    ensures
        r@ == s@,
{
    let mut r: Vec<char> = Vec::new();
    for c in it: s.chars()
        invariant
            r@ == it.seq().take(it.index() as int),
            it.seq() == s@,
    {
        r.push(c);
    }
    r
}

/// Appends every character of `cs` to `out`.
pub fn push_chars(out: &mut String, cs: &[char])
    ensures
        final(out)@ == old(out)@ + cs@,
{
    let mut i: usize = 0;
    while i < cs.len()
        invariant
            i <= cs.len(),
            out@ == old(out)@ + cs@.take(i as int),
        decreases cs.len() - i,
    {
        push_char(out, cs[i]);
        assert(cs@.take(i + 1) =~= cs@.take(i as int).push(cs@[i as int]));
        i = i + 1;
    }
    assert(cs@.take(cs.len() as int) =~= cs@);
}

/// A `String` holding the characters of `cs`.
pub fn string_of(cs: &[char]) -> (r: String)
    ensures
        r@ == cs@,
{
    let mut r = String::new();
    push_chars(&mut r, cs);
    assert(r@ =~= cs@);
    r
}

/// Appends the string `s` to `out`.
pub fn push_str(out: &mut String, s: &str)
    ensures
        final(out)@ == old(out)@ + s@,
{
    let cs = chars_of(s);
    push_chars(out, cs.as_slice());
}

/// The decimal digits of `n`.
pub fn decimal_chars(n: u128) -> (r: Vec<char>)
    ensures
        r@ == decimal(n as nat),
    decreases n,
{
    let d: u8 = (n % 10) as u8;
    let c: char = (d + 48) as char;
    assert(c == digit_char((n % 10) as nat));
    if n < 10 {
        let mut r: Vec<char> = Vec::new();
        r.push(c);
        assert(r@ =~= seq![digit_char(n as nat)]);
        r
    } else {
        let mut r = decimal_chars(n / 10);
        r.push(c);
        r
    }
}

/// Appends the decimal spelling of `n` to `out`.
pub fn push_decimal(out: &mut String, n: u128)
    ensures
        final(out)@ == old(out)@ + decimal(n as nat),
{
    let ds = decimal_chars(n);
    push_chars(out, ds.as_slice());
}

/// Appends the decimal spelling of the signed `n` to `out`, with a `-` in
/// front of a negative number.
pub fn push_signed_decimal(out: &mut String, n: i128)
    ensures
        final(out)@ == old(out)@ + signed_decimal(n as int),
{
    if n < 0 {
        let magnitude: u128 = ((-(n + 1)) as u128) + 1;
        push_char(out, '-');
        push_decimal(out, magnitude);
        assert(out@ =~= old(out)@ + signed_decimal(n as int));
    } else {
        push_decimal(out, n as u128);
    }
}


/// The character classes that the fuzzer-output grammar uses.
#[derive(Clone, Copy, PartialEq, Eq, Debug)]
pub enum CharClass {
    /// Any character but a backtick: `[^`]`.
    NotBacktick,
    /// Any character but a line feed: `.`.
    NotNewline,
    /// A decimal digit: `\d`.
    Digit,
    /// A character without the `White_Space` property: `\S`.
    NotWhiteSpace,
    /// A character with the `White_Space` property, as `str::trim` removes.
    WhiteSpace,
}

/// `White_Space`, decided directly within ASCII.
pub open spec fn white_space_class(c: char) -> bool {
    if (c as u32) < 128 {
        ascii_white_space(c)
    } else {
        white_space(c)
    }
}

/// `\d` (Unicode `Decimal_Number`), decided directly within ASCII.
pub open spec fn digit_class(c: char) -> bool {
    if (c as u32) < 128 {
        is_ascii_digit(c)
    } else {
        decimal_number(c)
    }
}

/// `\w` (the Unicode word class), decided directly within ASCII.
pub open spec fn word_class(c: char) -> bool {
    if (c as u32) < 128 {
        ascii_word_character(c)
    } else {
        word_character(c)
    }
}

/// Whether `c` belongs to `class`.
pub open spec fn in_class(c: char, class: CharClass) -> bool {
    match class {
        CharClass::NotBacktick => c != '`',
        CharClass::NotNewline => c != '\n',
        CharClass::Digit => digit_class(c),
        CharClass::NotWhiteSpace => !white_space_class(c),
        CharClass::WhiteSpace => white_space_class(c),
    }
}

/// Decides `white_space_class`.
pub fn is_space(c: char) -> (r: bool)
    ensures
        r == white_space_class(c),
{
    if (c as u32) < 128 {
        c == '\t' || c == '\n' || c == '\u{0B}' || c == '\u{0C}' || c == '\r' || c == ' '
    } else {
        is_white_space(c)
    }
}

/// Decides `digit_class`.
pub fn is_digit(c: char) -> (r: bool)
    ensures
        r == digit_class(c),
{
    if (c as u32) < 128 {
        '0' <= c && c <= '9'
    } else {
        is_decimal_number(c)
    }
}

/// Decides `word_class`.
pub fn is_word(c: char) -> (r: bool)
    ensures
        r == word_class(c),
{
    if (c as u32) < 128 {
        c == '_' || ('0' <= c && c <= '9') || ('a' <= c && c <= 'z') || ('A' <= c && c <= 'Z')
    } else {
        is_word_character(c)
    }
}

/// Decides `in_class`.
pub fn class_contains(c: char, class: CharClass) -> (r: bool)
    ensures
        r == in_class(c, class),
{
    match class {
        CharClass::NotBacktick => c != '`',
        CharClass::NotNewline => c != '\n',
        CharClass::Digit => is_digit(c),
        CharClass::NotWhiteSpace => !is_space(c),
        CharClass::WhiteSpace => is_space(c),
    }
}

/// The end of the longest run of `class` characters of `t` that starts at
/// `i`: the first index at or after `i` that holds a character outside the
/// class, or the length of `t`.
pub open spec fn run_end(t: Seq<char>, i: int, class: CharClass) -> int
    decreases t.len() - i,
{
    if i < 0 || i >= t.len() || !in_class(t[i], class) {
        i
    } else {
        run_end(t, i + 1, class)
    }
}

/// `run_end` is where the maximal run ends: everything before it, from
/// `i`, is in the class, and it is the end of `t` or a character outside.
pub proof fn lemma_run_end(t: Seq<char>, i: int, class: CharClass)
    requires
        0 <= i <= t.len(),
    ensures
        i <= run_end(t, i, class) <= t.len(),
        forall|k: int| i <= k < run_end(t, i, class) ==> in_class(#[trigger] t[k], class),
        run_end(t, i, class) == t.len() || !in_class(t[run_end(t, i, class)], class),
    decreases t.len() - i,
{
    if i < t.len() && in_class(t[i], class) {
        lemma_run_end(t, i + 1, class);
    }
}

/// A run of class characters from `i` to `k`, followed by the end or by a
/// character outside the class, ends exactly at `k`.
pub proof fn lemma_run_end_at(t: Seq<char>, i: int, k: int, class: CharClass)
    requires
        0 <= i <= k <= t.len(),
        forall|j: int| i <= j < k ==> in_class(#[trigger] t[j], class),
        k == t.len() || !in_class(t[k], class),
    ensures
        run_end(t, i, class) == k,
    decreases k - i,
{
    if i < k {
        lemma_run_end_at(t, i + 1, k, class);
    }
}

/// Finds `run_end`.
pub fn find_run_end(t: &[char], i: usize, class: CharClass) -> (j: usize)
    requires
        i <= t@.len(),
    ensures
        j as int == run_end(t@, i as int, class),
        i <= j <= t@.len(),
{
    let mut j = i;
    while j < t.len() && class_contains(t[j], class)
        invariant
            i <= j <= t@.len(),
            run_end(t@, i as int, class) == run_end(t@, j as int, class),
        decreases t.len() - j,
    {
        j = j + 1;
    }
    j
}

/// `lit` occurs in `t` at index `i`.
pub open spec fn occurs_at(t: Seq<char>, i: int, lit: Seq<char>) -> bool {
    0 <= i && i + lit.len() <= t.len() && t.subrange(i, i + lit.len()) == lit
}

/// Decides `occurs_at`.
pub fn occurs_at_exec(t: &[char], i: usize, lit: &[char]) -> (r: bool)
    ensures
        r == occurs_at(t@, i as int, lit@),
{
    if i > t.len() || lit.len() > t.len() - i {
        return false;
    }
    let mut k: usize = 0;
    while k < lit.len()
        invariant
            k <= lit@.len(),
            i + lit@.len() <= t@.len(),
            t@.len() == t.len(),
            forall|m: int| 0 <= m < k ==> t@[i + m] == lit@[m],
        decreases lit.len() - k,
    {
        if t[i + k] != lit[k] {
            assert(t@.subrange(i as int, i + lit@.len())[k as int] != lit@[k as int]);
            return false;
        }
        k = k + 1;
    }
    assert(t@.subrange(i as int, i + lit@.len()) =~= lit@);
    true
}

/// The index of the first character of `s` that is not white space (the
/// length of `s` when there is none).
pub open spec fn trim_start(s: Seq<char>) -> int {
    run_end(s, 0, CharClass::WhiteSpace)
}

/// The length of the prefix `s[..k]` once its trailing white space is
/// removed.
pub open spec fn trim_end(s: Seq<char>, k: int) -> int
    decreases k,
{
    if k <= 0 || k > s.len() || !white_space_class(s[k - 1]) {
        k
    } else {
        trim_end(s, k - 1)
    }
}

/// `str::trim`: `s` without its leading and trailing white space.
pub open spec fn trimmed(s: Seq<char>) -> Seq<char> {
    if trim_start(s) >= s.len() {
        Seq::empty()
    } else {
        s.subrange(trim_start(s), trim_end(s, s.len() as int))
    }
}

pub proof fn lemma_trim_end(s: Seq<char>, k: int)
    requires
        0 <= k <= s.len(),
    ensures
        0 <= trim_end(s, k) <= k,
        trim_end(s, k) == 0 || !white_space_class(s[trim_end(s, k) - 1]),
        forall|j: int| trim_end(s, k) <= j < k ==> white_space_class(#[trigger] s[j]),
    decreases k,
{
    if k > 0 && white_space_class(s[k - 1]) {
        lemma_trim_end(s, k - 1);
    }
}

/// When `s` has a character that is not white space, the last such one
/// lies at or after the first one.
pub proof fn lemma_trim_bounds(s: Seq<char>)
    requires
        trim_start(s) < s.len(),
    ensures
        trim_start(s) < trim_end(s, s.len() as int) <= s.len(),
{
    lemma_run_end(s, 0, CharClass::WhiteSpace);
    lemma_trim_end(s, s.len() as int);
    let a = trim_start(s);
    let b = trim_end(s, s.len() as int);
    if b <= a {
        assert(white_space_class(s[a]));
    }
}

/// Trimming what trimming left changes nothing: it starts and ends with a
/// character that is not white space.
pub proof fn lemma_trimmed_twice(s: Seq<char>)
    ensures
        trimmed(trimmed(s)) == trimmed(s),
        trimmed(s).len() <= s.len(),
{
    let u = trimmed(s);
    if trim_start(s) < s.len() {
        lemma_trim_bounds(s);
        lemma_run_end(s, 0, CharClass::WhiteSpace);
        lemma_trim_end(s, s.len() as int);
        let a = trim_start(s);
        let b = trim_end(s, s.len() as int);
        assert(u[0] == s[a]);
        assert(u[u.len() - 1] == s[b - 1]);
        lemma_run_end_at(u, 0, 0, CharClass::WhiteSpace);
        lemma_trim_end(u, u.len() as int);
        assert(trim_end(u, u.len() as int) == u.len());
        assert(u.subrange(0, u.len() as int) =~= u);
    }
}

/// What trimming leaves of the end of a text `t` (its characters from `p`
/// on) ends where `t` ends once its trailing white space is removed.
pub proof fn lemma_trimmed_suffix(t: Seq<char>, p: int)
    requires
        0 <= p <= t.len(),
    ensures
        trimmed(t.skip(p)).len() <= trim_end(t, t.len() as int),
        trimmed(t.skip(p)) == t.subrange(
            trim_end(t, t.len() as int) - trimmed(t.skip(p)).len(),
            trim_end(t, t.len() as int),
        ),
{
    let s = t.skip(p);
    let e = trim_end(t, t.len() as int);
    lemma_trim_end(t, t.len() as int);
    if trim_start(s) < s.len() {
        lemma_trim_bounds(s);
        lemma_run_end(s, 0, CharClass::WhiteSpace);
        lemma_trim_end(s, s.len() as int);
        let a = trim_start(s);
        let b = trim_end(s, s.len() as int);
        assert(s[b - 1] == t[p + b - 1]);
        assert(!white_space_class(t[p + b - 1]));
        assert forall|j: int| p + b <= j < t.len() implies white_space_class(#[trigger] t[j]) by {
            assert(t[j] == s[j - p]);
        }
        if e > p + b {
            assert(white_space_class(t[e - 1]));
        }
        if e < p + b {
            assert(white_space_class(t[p + b - 1]));
        }
        assert(e == p + b);
        assert(trimmed(s) == s.subrange(a, b));
        assert(trimmed(s) =~= t.subrange(p + a, e));
    } else {
        assert(trimmed(s).len() == 0);
        assert(t.subrange(e, e) =~= Seq::<char>::empty());
    }
}

/// `str::trim`, on characters.
pub fn trim_chars(s: &[char]) -> (r: Vec<char>)
    ensures
        r@ == trimmed(s@),
{
    let a = find_run_end(s, 0, CharClass::WhiteSpace);
    if a >= s.len() {
        return Vec::new();
    }
    let mut b = s.len();
    while b > 0 && is_space(s[b - 1])
        invariant
            b <= s@.len(),
            trim_end(s@, s@.len() as int) == trim_end(s@, b as int),
        decreases b,
    {
        b = b - 1;
    }
    proof {
        lemma_trim_bounds(s@);
    }
    let mut r: Vec<char> = Vec::new();
    let mut i = a;
    while i < b
        invariant
            a <= i <= b <= s@.len(),
            r@ == s@.subrange(a as int, i as int),
        decreases b - i,
    {
        r.push(s[i]);
        assert(s@.subrange(a as int, i + 1) =~= s@.subrange(a as int, i as int).push(s@[i as int]));
        i = i + 1;
    }
    r
}

/// `str::trim`, giving a `String`.
pub fn trim_string(s: &[char]) -> (r: String)
    ensures
        r@ == trimmed(s@),
{
    let t = trim_chars(s);
    string_of(t.as_slice())
}

/// The characters of `s` from index `i` on, as a `String`.
pub fn suffix_string(s: &[char], i: usize) -> (r: String)
    requires
        i <= s@.len(),
    ensures
        r@ == s@.subrange(i as int, s@.len() as int),
{
    let mut r = String::new();
    let mut k = i;
    while k < s.len()
        invariant
            i <= k <= s@.len(),
            r@ == s@.subrange(i as int, k as int),
        decreases s.len() - k,
    {
        push_char(&mut r, s[k]);
        assert(s@.subrange(i as int, k + 1) =~= s@.subrange(i as int, k as int).push(s@[k as int]));
        k = k + 1;
    }
    r
}

/// The characters of `s` from index `i` up to `j`, as a `String`.
pub fn slice_string(s: &[char], i: usize, j: usize) -> (r: String)
    requires
        i <= j <= s@.len(),
    ensures
        r@ == s@.subrange(i as int, j as int),
{
    let mut r = String::new();
    let mut k = i;
    while k < j
        invariant
            i <= k <= j <= s@.len(),
            r@ == s@.subrange(i as int, k as int),
        decreases j - k,
    {
        push_char(&mut r, s[k]);
        assert(s@.subrange(i as int, k + 1) =~= s@.subrange(i as int, k as int).push(s@[k as int]));
        k = k + 1;
    }
    r
}

/// The characters of `s` from index `i` up to `j`.
pub fn sub_chars(s: &[char], i: usize, j: usize) -> (r: Vec<char>)
    requires
        i <= j <= s@.len(),
    ensures
        r@ == s@.subrange(i as int, j as int),
{
    let mut r: Vec<char> = Vec::new();
    let mut k = i;
    while k < j
        invariant
            i <= k <= j <= s@.len(),
            r@ == s@.subrange(i as int, k as int),
        decreases j - k,
    {
        r.push(s[k]);
        assert(s@.subrange(i as int, k + 1) =~= s@.subrange(i as int, k as int).push(s@[k as int]));
        k = k + 1;
    }
    r
}

/// A prefix of a string of digits spells no more than the whole string.
pub proof fn lemma_digits_value_prefix(s: Seq<char>, k: int)
    requires
        0 <= k <= s.len(),
    ensures
        digits_value(s.take(k)) <= digits_value(s),
    decreases s.len(),
{
    if k < s.len() {
        assert(s.drop_last().take(k) =~= s.take(k));
        lemma_digits_value_prefix(s.drop_last(), k);
    } else {
        assert(s.take(k) =~= s);
    }
}

/// Reads the digits `s[lo..hi]` as a number no larger than `max`, the way
/// `str::parse` reads an unsigned text: `None` when the run is empty, holds
/// a character other than an ASCII digit, or spells a number above `max`.
pub fn read_decimal(s: &[char], lo: usize, hi: usize, max: u64) -> (r: Option<u64>)
    requires
        lo <= hi <= s@.len(),
    ensures
        r is Some <==> (hi > lo && all_ascii_digits(s@.subrange(lo as int, hi as int))
            && digits_value(s@.subrange(lo as int, hi as int)) <= max),
        r matches Some(n) ==> n as nat == digits_value(s@.subrange(lo as int, hi as int)),
{
    let ghost w = s@.subrange(lo as int, hi as int);
    if hi == lo {
        return None;
    }
    let mut k = lo;
    while k < hi
        invariant
            lo <= k <= hi <= s@.len(),
            w == s@.subrange(lo as int, hi as int),
            forall|m: int| lo <= m < k ==> is_ascii_digit(#[trigger] s@[m]),
        decreases hi - k,
    {
        if !('0' <= s[k] && s[k] <= '9') {
            assert(!is_ascii_digit(w[k - lo]));
            return None;
        }
        k = k + 1;
    }
    assert(all_ascii_digits(w)) by {
        assert forall|i: int| 0 <= i < w.len() implies is_ascii_digit(#[trigger] w[i]) by {
            assert(w[i] == s@[lo + i]);
        }
    }
    let mut acc: u128 = 0;
    let mut k = lo;
    while k < hi
        invariant
            lo <= k <= hi <= s@.len(),
            w == s@.subrange(lo as int, hi as int),
            all_ascii_digits(w),
            acc as nat == digits_value(w.take(k - lo)),
            acc <= max,
        decreases hi - k,
    {
        assert(w[k - lo] == s@[k as int]);
        assert(is_ascii_digit(s@[k as int]));
        let d = (s[k] as u32 - 48) as u128;
        assert(w.take(k + 1 - lo).drop_last() =~= w.take(k - lo));
        assert(w.take(k + 1 - lo).last() == w[k - lo]);
        assert(d == digit_value(w[k - lo]));
        acc = acc * 10 + d;
        if acc > max as u128 {
            proof {
                lemma_digits_value_prefix(w, k + 1 - lo);
            }
            return None;
        }
        k = k + 1;
    }
    assert(w.take(hi - lo) =~= w);
    Some(acc as u64)
}

/// Whether two texts are the same characters.
pub fn same_text(a: &str, b: &str) -> (r: bool)
    ensures
        r == (a@ == b@),
{
    let x = chars_of(a);
    let y = chars_of(b);
    if x.len() != y.len() {
        return false;
    }
    let mut i: usize = 0;
    while i < x.len()
        invariant
            x@ == a@,
            y@ == b@,
            x@.len() == y@.len(),
            i <= x@.len(),
            forall|k: int| 0 <= k < i ==> x@[k] == y@[k],
        decreases x.len() - i,
    {
        if x[i] != y[i] {
            return false;
        }
        i = i + 1;
    }
    assert(x@ =~= y@);
    true
}

} // verus!
