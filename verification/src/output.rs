//! Reads a fuzzing run's captured output (`cargo fuzz run`, that is
//! libFuzzer's stdout and stderr together) into a structured result.
//!
//! Four line shapes are recognised, each the leftmost occurrence in the text
//! unless said otherwise:
//!
//! - ``invariant `NAME` violated at step N: MESSAGE`` — the text a
//!   [`Violation`](crate::violation::Violation) is reported as when a fuzz
//!   target panics with it. `NAME` is one or more characters other than a
//!   backtick, `N` one or more decimal digits, `MESSAGE` the rest of the line
//!   (at least one character).
//! - `Done N runs in` (or `run in`) — libFuzzer's final iteration count.
//! - `#N` at the start of a line, followed by the end of the text or by a
//!   character that is not a word character — libFuzzer's running counter;
//!   every such line counts.
//! - `Test unit written to PATH`, `PATH` one or more non-white-space
//!   characters — where libFuzzer saved the crashing input.
//!
//! Digits and word characters are Unicode's (`Decimal_Number` and the
//! Unicode word class), as in the `regex` crate's `\d` and `\w`; a number is
//! read back only when it is made of ASCII digits and fits its type, as
//! `str::parse` does.

use vstd::prelude::*;

use crate::violation::{violation_text, Violation};
use crate::text::{
    all_ascii_digits, chars_of, digits_value, find_run_end, is_word, occurs_at, occurs_at_exec,
    read_decimal, run_end, string_of, sub_chars, trim_chars, trimmed, trim_end,
    lemma_trimmed_suffix, lemma_trimmed_twice,
    slice_string, word_class, CharClass, lemma_run_end, lemma_run_end_at, decimal,
    lemma_decimal_digits, is_ascii_digit, digit_class,
};

verus! {

/// A recovered violation, in the shape a finding wants.
#[derive(Debug, Clone, PartialEq, Eq)]
pub struct ParsedViolation {
    pub invariant: String,
    pub step_index: i32,
    pub message: String,
}

#[derive(Debug, Clone, PartialEq, Eq)]
pub struct ParsedRun {
    pub iterations: i64,
    pub crashed: bool,
    pub artifact_path: Option<String>,
    pub finding: Option<ParsedViolation>,
}

/// `str::parse` of a run of digit-class characters into an integer type
/// whose largest value is `max`: the number, when every character is an
/// ASCII digit, there is at least one, and the number is at most `max`.
pub open spec fn parse_digits(s: Seq<char>, max: int) -> Option<int> {
    if s.len() > 0 && all_ascii_digits(s) && digits_value(s) <= max {
        Some(digits_value(s) as int)
    } else {
        None
    }
}

// ---------------------------------------------------------------------
// ``invariant `NAME` violated at step N: MESSAGE``
// ---------------------------------------------------------------------

/// Where the violation line matches when it starts at `s`: the bounds of
/// `NAME` (`a..b`), of `N` (`c..d`) and of `MESSAGE` (`e..f`).
pub open spec fn violation_match_at(t: Seq<char>, s: int) -> Option<(int, int, int, int, int, int)> {
    let a = s + "invariant `"@.len();
    let b = run_end(t, a, CharClass::NotBacktick);
    let c = b + "` violated at step "@.len();
    let d = run_end(t, c, CharClass::Digit);
    let e = d + ": "@.len();
    let f = run_end(t, e, CharClass::NotNewline);
    if occurs_at(t, s, "invariant `"@) && b > a && occurs_at(t, b, "` violated at step "@) && d > c
        && occurs_at(t, d, ": "@) && f > e {
        Some((a, b, c, d, e, f))
    } else {
        None
    }
}

/// The leftmost match of the violation line at or after `s`.
pub open spec fn first_violation_match(t: Seq<char>, s: int) -> Option<(int, int, int, int, int, int)>
    decreases t.len() + 1 - s,
{
    if s < 0 || s > t.len() {
        None
    } else if violation_match_at(t, s) is Some {
        violation_match_at(t, s)
    } else {
        first_violation_match(t, s + 1)
    }
}

/// What the text reports of a violation: the invariant's name, the step
/// (when it reads as an `i32`) and the trimmed message of the leftmost
/// violation line; nothing when there is no such line or its step does not
/// read.
pub open spec fn violation_fields(t: Seq<char>) -> Option<(Seq<char>, int, Seq<char>)> {
    match first_violation_match(t, 0) {
        None => None,
        Some((a, b, c, d, e, f)) => match parse_digits(t.subrange(c, d), i32::MAX as int) {
            None => None,
            Some(n) => Some((t.subrange(a, b), n, trimmed(t.subrange(e, f)))),
        },
    }
}

// ---------------------------------------------------------------------
// `Done N runs in`
// ---------------------------------------------------------------------

/// Where `Done N run(s) in` matches when it starts at `s`: the bounds of `N`.
pub open spec fn done_match_at(t: Seq<char>, s: int) -> Option<(int, int)> {
    let c = s + "Done "@.len();
    let d = run_end(t, c, CharClass::Digit);
    if occurs_at(t, s, "Done "@) && d > c && occurs_at(t, d, " run"@) && ((d + 4 < t.len()
        && t[d + 4] == 's' && occurs_at(t, d + 5, " in"@)) || occurs_at(t, d + 4, " in"@)) {
        Some((c, d))
    } else {
        None
    }
}

/// The leftmost match of `Done N run(s) in` at or after `s`.
pub open spec fn first_done_match(t: Seq<char>, s: int) -> Option<(int, int)>
    decreases t.len() + 1 - s,
{
    if s < 0 || s > t.len() {
        None
    } else if done_match_at(t, s) is Some {
        done_match_at(t, s)
    } else {
        first_done_match(t, s + 1)
    }
}

/// The value of the counter line `#N` that starts at `p`, if one does and
/// `N` reads as an `i64`.
pub open spec fn counter_at(t: Seq<char>, p: int) -> Option<int> {
    let d = run_end(t, p + 1, CharClass::Digit);
    if 0 <= p < t.len() && (p == 0 || t[p - 1] == '\n') && t[p] == '#' && d > p + 1 && (d
        == t.len() || !word_class(t[d])) {
        parse_digits(t.subrange(p + 1, d), i64::MAX as int)
    } else {
        None
    }
}

/// The largest counter value among the lines that start before `p`, or 0.
pub open spec fn max_counter(t: Seq<char>, p: int) -> int
    decreases p,
{
    if p <= 0 {
        0
    } else {
        let before = max_counter(t, p - 1);
        match counter_at(t, p - 1) {
            Some(v) => if v > before {
                v
            } else {
                before
            },
            None => before,
        }
    }
}

/// The number of iterations the text reports: the leftmost `Done N runs in`
/// when its `N` reads as an `i64`, else the largest counter value, else 0.
pub open spec fn reported_iterations(t: Seq<char>) -> int {
    let fallback = max_counter(t, t.len() as int);
    match first_done_match(t, 0) {
        Some((c, d)) => match parse_digits(t.subrange(c, d), i64::MAX as int) {
            Some(n) => n,
            None => fallback,
        },
        None => fallback,
    }
}

// ---------------------------------------------------------------------
// `Test unit written to PATH`
// ---------------------------------------------------------------------

/// Where `Test unit written to PATH` matches when it starts at `s`: the
/// bounds of `PATH`.
pub open spec fn artifact_match_at(t: Seq<char>, s: int) -> Option<(int, int)> {
    let c = s + "Test unit written to "@.len();
    let d = run_end(t, c, CharClass::NotWhiteSpace);
    if occurs_at(t, s, "Test unit written to "@) && d > c {
        Some((c, d))
    } else {
        None
    }
}

/// The leftmost match of `Test unit written to PATH` at or after `s`.
pub open spec fn first_artifact_match(t: Seq<char>, s: int) -> Option<(int, int)>
    decreases t.len() + 1 - s,
{
    if s < 0 || s > t.len() {
        None
    } else if artifact_match_at(t, s) is Some {
        artifact_match_at(t, s)
    } else {
        first_artifact_match(t, s + 1)
    }
}

/// The path the text reports the crashing input was written to.
pub open spec fn reported_artifact(t: Seq<char>) -> Option<Seq<char>> {
    match first_artifact_match(t, 0) {
        Some((c, d)) => Some(t.subrange(c, d)),
        None => None,
    }
}

// ---------------------------------------------------------------------
// tail
// ---------------------------------------------------------------------

/// The last `max_chars` characters of `t`, trimmed; all of `t`, trimmed,
/// when it is no longer than that.
pub open spec fn tail_of(t: Seq<char>, max_chars: int) -> Seq<char> {
    if t.len() <= max_chars {
        trimmed(t)
    } else {
        trimmed(t.skip(t.len() - max_chars))
    }
}

/// A tail is at most `max_chars` characters, already trimmed, and ends the
/// text once the text's trailing white space is removed; the tail of a tail
/// is itself.
pub proof fn lemma_tail(t: Seq<char>, max_chars: nat)
    ensures
        tail_of(t, max_chars as int).len() <= max_chars,
        trimmed(tail_of(t, max_chars as int)) == tail_of(t, max_chars as int),
        tail_of(t, max_chars as int).len() <= trim_end(t, t.len() as int),
        tail_of(t, max_chars as int) == t.subrange(
            trim_end(t, t.len() as int) - tail_of(t, max_chars as int).len(),
            trim_end(t, t.len() as int),
        ),
        tail_of(tail_of(t, max_chars as int), max_chars as int) == tail_of(t, max_chars as int),
{
    let p: int = if t.len() <= max_chars {
        0
    } else {
        t.len() - max_chars
    };
    assert(t.skip(0) =~= t);
    lemma_trimmed_suffix(t, p);
    lemma_trimmed_twice(t.skip(p));
    assert(tail_of(t, max_chars as int) == trimmed(t.skip(p)));
}

// ---------------------------------------------------------------------
// parse
// ---------------------------------------------------------------------

/// A run crashed when it was not killed by the sandbox's timeout and exited
/// with a code other than 0.
pub open spec fn crashed(exit_code: Option<i32>, timed_out: bool) -> bool {
    !timed_out && exit_code is Some && exit_code->0 != 0
}

/// The finding of a crashed run: the violation its output reports, or an
/// `undeclared_panic` at step 0 whose message is the last 2000 characters of the
/// output.
pub open spec fn reported_finding(t: Seq<char>) -> (Seq<char>, int, Seq<char>) {
    match violation_fields(t) {
        Some(v) => v,
        None => ("undeclared_panic"@, 0, tail_of(t, 2000)),
    }
}

pub open spec fn opt_string_view(o: Option<String>) -> Option<Seq<char>> {
    match o {
        Some(s) => Some(s@),
        None => None,
    }
}

impl ParsedViolation {
    pub open spec fn fields(&self) -> (Seq<char>, int, Seq<char>) {
        (self.invariant@, self.step_index as int, self.message@)
    }
}

/// Finds `violation_match_at`.
fn violation_match_at_exec(t: &[char], s: usize, p1: &[char], p2: &[char], p3: &[char]) -> (r:
    Option<(usize, usize, usize, usize, usize, usize)>)
    requires
        s <= t@.len(),
        p1@ == "invariant `"@,
        p2@ == "` violated at step "@,
        p3@ == ": "@,
    ensures
        match r {
            None => violation_match_at(t@, s as int) is None,
            Some((a, b, c, d, e, f)) => violation_match_at(t@, s as int) == Some(
                (a as int, b as int, c as int, d as int, e as int, f as int),
            ),
        },
{
    let n = t.len();
    if !occurs_at_exec(t, s, p1) {
        return None;
    }
    let a = s + p1.len();
    let b = find_run_end(t, a, CharClass::NotBacktick);
    if b <= a || !occurs_at_exec(t, b, p2) {
        return None;
    }
    let c = b + p2.len();
    let d = find_run_end(t, c, CharClass::Digit);
    if d <= c || !occurs_at_exec(t, d, p3) {
        return None;
    }
    let e = d + p3.len();
    let f = find_run_end(t, e, CharClass::NotNewline);
    if f <= e {
        return None;
    }
    Some((a, b, c, d, e, f))
}

/// Finds `first_violation_match(t, 0)`.
fn first_violation_match_exec(t: &[char]) -> (r: Option<(usize, usize, usize, usize, usize, usize)>)
    ensures
        match r {
            None => first_violation_match(t@, 0) is None,
            Some((a, b, c, d, e, f)) => first_violation_match(t@, 0) == Some(
                (a as int, b as int, c as int, d as int, e as int, f as int),
            ),
        },
{
    let p1 = chars_of("invariant `");
    let p2 = chars_of("` violated at step ");
    let p3 = chars_of(": ");
    let mut s: usize = 0;
    while s < t.len()
        invariant
            s <= t@.len(),
            p1@ == "invariant `"@,
            p2@ == "` violated at step "@,
            p3@ == ": "@,
            first_violation_match(t@, 0) == first_violation_match(t@, s as int),
        decreases t.len() - s,
    {
        let m = violation_match_at_exec(t, s, p1.as_slice(), p2.as_slice(), p3.as_slice());
        if m.is_some() {
            return m;
        }
        s = s + 1;
    }
    proof {
        reveal_strlit("invariant `");
        assert(violation_match_at(t@, s as int) is None);
        assert(first_violation_match(t@, s + 1) is None);
    }
    None
}

/// The violation the text reports, if any.
fn parse_violation(t: &[char]) -> (r: Option<ParsedViolation>)
    ensures
        match r {
            None => violation_fields(t@) is None,
            Some(v) => violation_fields(t@) == Some(v.fields()),
        },
{
    match first_violation_match_exec(t) {
        None => None,
        Some((a, b, c, d, e, f)) => {
            proof {
                let m = first_violation_match(t@, 0)->0;
                assert(m == (a as int, b as int, c as int, d as int, e as int, f as int));
                lemma_first_violation_match_bounds(t@, 0);
            }
            match read_decimal(t, c, d, 2147483647) {
                None => None,
                Some(n) => {
                    let message = sub_chars(t, e, f);
                    let trimmed_message = trim_chars(message.as_slice());
                    Some(
                        ParsedViolation {
                            invariant: slice_string(t, a, b),
                            step_index: n as i32,
                            message: string_of(trimmed_message.as_slice()),
                        },
                    )
                },
            }
        },
    }
}

/// A match lies within the text, its parts in order.
proof fn lemma_violation_match_bounds(t: Seq<char>, s: int)
    requires
        violation_match_at(t, s) is Some,
    ensures
        ({
            let (a, b, c, d, e, f) = violation_match_at(t, s)->0;
            0 <= a <= b <= c <= d <= e <= f <= t.len()
        }),
{
    let a = s + "invariant `"@.len();
    lemma_run_end(t, a, CharClass::NotBacktick);
    let b = run_end(t, a, CharClass::NotBacktick);
    let c = b + "` violated at step "@.len();
    lemma_run_end(t, c, CharClass::Digit);
    let d = run_end(t, c, CharClass::Digit);
    let e = d + ": "@.len();
    lemma_run_end(t, e, CharClass::NotNewline);
}

proof fn lemma_first_violation_match_bounds(t: Seq<char>, s: int)
    requires
        first_violation_match(t, s) is Some,
    ensures
        ({
            let (a, b, c, d, e, f) = first_violation_match(t, s)->0;
            0 <= a <= b <= c <= d <= e <= f <= t.len()
        }),
    decreases t.len() + 1 - s,
{
    if violation_match_at(t, s) is Some {
        lemma_violation_match_bounds(t, s);
    } else {
        lemma_first_violation_match_bounds(t, s + 1);
    }
}

/// Finds `done_match_at`.
fn done_match_at_exec(t: &[char], s: usize, done: &[char], run: &[char], inn: &[char]) -> (r: Option<(usize, usize)>)
    requires
        s <= t@.len(),
        done@ == "Done "@,
        run@ == " run"@,
        inn@ == " in"@,
    ensures
        match r {
            None => done_match_at(t@, s as int) is None,
            Some((c, d)) => done_match_at(t@, s as int) == Some((c as int, d as int)),
        },
{
    let n = t.len();
    if !occurs_at_exec(t, s, done) {
        return None;
    }
    let c = s + done.len();
    let d = find_run_end(t, c, CharClass::Digit);
    if d <= c || !occurs_at_exec(t, d, run) {
        return None;
    }
    proof {
        reveal_strlit(" run");
    }
    let after = d + 4;
    if (after < n && t[after] == 's' && occurs_at_exec(t, after + 1, inn)) || occurs_at_exec(t, after, inn) {
        Some((c, d))
    } else {
        None
    }
}

/// Finds `first_done_match(t, 0)`.
fn first_done_match_exec(t: &[char]) -> (r: Option<(usize, usize)>)
    ensures
        match r {
            None => first_done_match(t@, 0) is None,
            Some((c, d)) => first_done_match(t@, 0) == Some((c as int, d as int)),
        },
{
    let done = chars_of("Done ");
    let run = chars_of(" run");
    let inn = chars_of(" in");
    let mut s: usize = 0;
    while s < t.len()
        invariant
            s <= t@.len(),
            done@ == "Done "@,
            run@ == " run"@,
            inn@ == " in"@,
            first_done_match(t@, 0) == first_done_match(t@, s as int),
        decreases t.len() - s,
    {
        let m = done_match_at_exec(t, s, done.as_slice(), run.as_slice(), inn.as_slice());
        if m.is_some() {
            return m;
        }
        s = s + 1;
    }
    proof {
        reveal_strlit("Done ");
        assert(done_match_at(t@, s as int) is None);
        assert(first_done_match(t@, s + 1) is None);
    }
    None
}

proof fn lemma_done_match_bounds(t: Seq<char>, s: int)
    requires
        first_done_match(t, s) is Some,
    ensures
        ({
            let (c, d) = first_done_match(t, s)->0;
            0 <= c <= d <= t.len()
        }),
    decreases t.len() + 1 - s,
{
    if done_match_at(t, s) is Some {
        lemma_run_end(t, s + "Done "@.len(), CharClass::Digit);
    } else {
        lemma_done_match_bounds(t, s + 1);
    }
}

/// Finds `counter_at`.
fn counter_at_exec(t: &[char], p: usize) -> (r: Option<u64>)
    requires
        p < t@.len(),
    ensures
        match r {
            None => counter_at(t@, p as int) is None,
            Some(v) => counter_at(t@, p as int) == Some(v as int),
        },
{
    if !(p == 0 || t[p - 1] == '\n') || t[p] != '#' {
        return None;
    }
    let d = find_run_end(t, p + 1, CharClass::Digit);
    if d <= p + 1 {
        return None;
    }
    if d < t.len() && is_word(t[d]) {
        return None;
    }
    read_decimal(t, p + 1, d, 9223372036854775807)
}

/// Computes `max_counter(t, t.len())`.
fn max_counter_exec(t: &[char]) -> (r: u64)
    ensures
        r as int == max_counter(t@, t@.len() as int),
        r <= i64::MAX,
{
    let mut best: u64 = 0;
    let mut p: usize = 0;
    while p < t.len()
        invariant
            p <= t@.len(),
            best as int == max_counter(t@, p as int),
            best <= i64::MAX,
        decreases t.len() - p,
    {
        match counter_at_exec(t, p) {
            Some(v) => {
                if v > best {
                    best = v;
                }
            },
            None => {},
        }
        p = p + 1;
    }
    best
}

/// Computes `reported_iterations`.
fn parse_iterations(t: &[char]) -> (r: i64)
    ensures
        r as int == reported_iterations(t@),
{
    match first_done_match_exec(t) {
        Some((c, d)) => {
            proof {
                lemma_done_match_bounds(t@, 0);
            }
            match read_decimal(t, c, d, 9223372036854775807) {
                Some(n) => n as i64,
                None => max_counter_exec(t) as i64,
            }
        },
        None => max_counter_exec(t) as i64,
    }
}

/// Finds `artifact_match_at`.
fn artifact_match_at_exec(t: &[char], s: usize, lit: &[char]) -> (r: Option<(usize, usize)>)
    requires
        s <= t@.len(),
        lit@ == "Test unit written to "@,
    ensures
        match r {
            None => artifact_match_at(t@, s as int) is None,
            Some((c, d)) => artifact_match_at(t@, s as int) == Some((c as int, d as int)),
        },
{
    let n = t.len();
    if !occurs_at_exec(t, s, lit) {
        return None;
    }
    let c = s + lit.len();
    let d = find_run_end(t, c, CharClass::NotWhiteSpace);
    if d <= c {
        None
    } else {
        Some((c, d))
    }
}

/// Computes `reported_artifact`.
fn parse_artifact_path(t: &[char]) -> (r: Option<String>)
    ensures
        opt_string_view(r) == reported_artifact(t@),
{
    let lit = chars_of("Test unit written to ");
    let mut s: usize = 0;
    while s < t.len()
        invariant
            s <= t@.len(),
            lit@ == "Test unit written to "@,
            first_artifact_match(t@, 0) == first_artifact_match(t@, s as int),
        decreases t.len() - s,
    {
        match artifact_match_at_exec(t, s, lit.as_slice()) {
            Some((c, d)) => {
                proof {
                    lemma_run_end(t@, c as int, CharClass::NotWhiteSpace);
                }
                return Some(slice_string(t, c, d));
            },
            None => {},
        }
        s = s + 1;
    }
    proof {
        reveal_strlit("Test unit written to ");
        assert(artifact_match_at(t@, s as int) is None);
        assert(first_artifact_match(t@, s + 1) is None);
    }
    None
}

/// Computes `tail_of`.
fn tail_chars(t: &[char], max_chars: usize) -> (r: String)
    ensures
        r@ == tail_of(t@, max_chars as int),
{
    if t.len() <= max_chars {
        let r = trim_chars(t);
        return string_of(r.as_slice());
    }
    let rest = sub_chars(t, t.len() - max_chars, t.len());
    proof {
        assert(rest@ =~= t@.skip(t@.len() - max_chars));
    }
    let r = trim_chars(rest.as_slice());
    string_of(r.as_slice())
}

/// The last `max_chars` characters of `text`, trimmed; all of `text`,
/// trimmed, when it is no longer than that. Used both as the message of a
/// crash that reports no violation and as a run's log tail.
pub fn tail(text: &str, max_chars: usize) -> (r: String)
    ensures
        r@ == tail_of(text@, max_chars as int),
{
    let t = chars_of(text);
    tail_chars(t.as_slice(), max_chars)
}

/// Reads a fuzzing run's combined stdout and stderr. A sandbox timeout is
/// never a crash (the runner reports it as its own failure), nor is a
/// missing exit code; a crash always has a finding, the reported violation
/// or else an `undeclared_panic` carrying the output's tail.
pub fn parse(combined_output: &str, exit_code: Option<i32>, timed_out: bool) -> (r: ParsedRun)
    ensures
        r.iterations as int == reported_iterations(combined_output@),
        r.crashed == crashed(exit_code, timed_out),
        opt_string_view(r.artifact_path) == reported_artifact(combined_output@),
        r.finding is Some <==> r.crashed,
        r.finding matches Some(f) ==> f.fields() == reported_finding(combined_output@),
{
    let t = chars_of(combined_output);
    let iterations = parse_iterations(t.as_slice());
    let artifact_path = parse_artifact_path(t.as_slice());
    let crashed = !timed_out && match exit_code {
        Some(code) => code != 0,
        None => false,
    };
    let finding = if crashed {
        match parse_violation(t.as_slice()) {
            Some(v) => Some(v),
            None => {
                let message = tail_chars(t.as_slice(), 2000);
                Some(
                    ParsedViolation {
                        invariant: String::from_str("undeclared_panic"),
                        step_index: 0,
                        message,
                    },
                )
            },
        }
    } else {
        None
    };
    ParsedRun { iterations, crashed, artifact_path, finding }
}

/// The leftmost violation line at or after `s` is the one at or after `p`
/// when none starts in between.
proof fn lemma_first_violation_skips(t: Seq<char>, s: int, p: int)
    requires
        0 <= s <= p <= t.len(),
        forall|k: int| s <= k < p ==> #[trigger] violation_match_at(t, k) is None,
    ensures
        first_violation_match(t, s) == first_violation_match(t, p),
    decreases p - s,
{
    if s < p {
        lemma_first_violation_skips(t, s + 1, p);
    }
}

/// A violation's reported line reads back as that violation wherever it
/// sits in a run's output: when ``invariant `NAME` violated at step N:
/// MESSAGE`` (`v.text()`, which is `violation_text` of `v`'s fields) follows
/// `before` and is followed by the end of the output or a
/// line break, and no violation line starts earlier, parsing gives `NAME`,
/// `N` and the trimmed `MESSAGE` again, provided the name is non-empty and
/// holds no backtick, the message is non-empty and holds no line break, and
/// the step fits an `i32`. So `parse` of such an output with a crashing
/// exit code reports exactly this finding (see its `ensures`). This is how
/// a crash's finding is recovered from a fuzz target's panic without
/// linking the target.
pub proof fn lemma_violation_line_reads_back(v: Violation, before: Seq<char>, after: Seq<char>)
    requires
        v.invariant@.len() > 0,
        forall|i: int| 0 <= i < v.invariant@.len() ==> v.invariant@[i] != '`',
        v.message@.len() > 0,
        forall|i: int| 0 <= i < v.message@.len() ==> v.message@[i] != '\n',
        v.step_index <= i32::MAX,
        after.len() == 0 || after[0] == '\n',
        forall|k: int|
            0 <= k < before.len() ==> #[trigger] violation_match_at(before + v.text() + after, k) is None,
    ensures
        violation_fields(before + v.text() + after) == Some(
            (v.invariant@, v.step_index as int, crate::text::trimmed(v.message@)),
        ),
        reported_finding(before + v.text() + after) == (
            v.invariant@,
            v.step_index as int,
            crate::text::trimmed(v.message@),
        ),
{
    reveal_strlit("invariant `");
    reveal_strlit("` violated at step ");
    reveal_strlit(": ");
    let p1 = "invariant `"@;
    let p2 = "` violated at step "@;
    let p3 = ": "@;
    let name = v.invariant@;
    let digits = decimal(v.step_index as nat);
    let msg = v.message@;
    lemma_decimal_digits(v.step_index as nat);
    assert(violation_text(name, v.step_index as nat, msg) == v.text());
    let t = before + v.text() + after;
    assert(t =~= before + p1 + name + p2 + digits + p3 + msg + after);
    let s0 = before.len() as int;
    let a = s0 + p1.len();
    let b = a + name.len();
    let c = b + p2.len();
    let d = c + digits.len();
    let e = d + p3.len();
    let f = e + msg.len();
    assert(f + after.len() == t.len());
    assert(t.subrange(s0, a) =~= p1);
    assert(t.subrange(a, b) =~= name);
    assert(t.subrange(b, c) =~= p2);
    assert(t.subrange(c, d) =~= digits);
    assert(t.subrange(d, e) =~= p3);
    assert(t.subrange(e, f) =~= msg);
    assert forall|j: int| a <= j < b implies crate::text::in_class(#[trigger] t[j], CharClass::NotBacktick) by {
        assert(t[j] == t.subrange(a, b)[j - a]);
    }
    assert(t[b] == t.subrange(b, c)[0]);
    lemma_run_end_at(t, a, b, CharClass::NotBacktick);
    assert forall|j: int| c <= j < d implies crate::text::in_class(#[trigger] t[j], CharClass::Digit) by {
        assert(t[j] == t.subrange(c, d)[j - c]);
        assert(is_ascii_digit(digits[j - c]));
    }
    assert(t[d] == t.subrange(d, e)[0]);
    assert(!digit_class(t[d]));
    lemma_run_end_at(t, c, d, CharClass::Digit);
    assert forall|j: int| e <= j < f implies crate::text::in_class(#[trigger] t[j], CharClass::NotNewline) by {
        assert(t[j] == t.subrange(e, f)[j - e]);
    }
    if after.len() > 0 {
        assert(t[f] == after[0]);
    }
    lemma_run_end_at(t, e, f, CharClass::NotNewline);
    assert(violation_match_at(t, s0) == Some((a, b, c, d, e, f)));
    lemma_first_violation_skips(t, 0, s0);
    assert(first_violation_match(t, s0) == Some((a, b, c, d, e, f)));
    assert(parse_digits(t.subrange(c, d), i32::MAX as int) == Some(v.step_index as int));
}

/// A violation's reported text, on its own, reads back as that violation
/// (see `lemma_violation_line_reads_back`).
pub proof fn lemma_violation_text_reads_back(v: Violation)
    requires
        v.invariant@.len() > 0,
        forall|i: int| 0 <= i < v.invariant@.len() ==> v.invariant@[i] != '`',
        v.message@.len() > 0,
        forall|i: int| 0 <= i < v.message@.len() ==> v.message@[i] != '\n',
        v.step_index <= i32::MAX,
    ensures
        violation_fields(v.text()) == Some(
            (v.invariant@, v.step_index as int, crate::text::trimmed(v.message@)),
        ),
{
    let empty = Seq::<char>::empty();
    assert(empty + v.text() + empty =~= v.text());
    lemma_violation_line_reads_back(v, empty, empty);
}

} // verus!
