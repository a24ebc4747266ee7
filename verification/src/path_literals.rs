use vstd::prelude::*;
use vstd::slice::{slice_subrange, slice_to_vec};

use crate::numbers::{digit_value, digits_value, is_digit};
use crate::text::chars_of;

verus! {

/// A character that a number literal of a path can hold: an ASCII letter or digit, `+`, `-`
/// or `_`. None of them ends a token of a JSONPath.
pub open spec fn literal_char(c: char) -> bool {
    is_digit(c) || ('a' <= c <= 'z') || ('A' <= c <= 'Z') || c == '+' || c == '-' || c == '_'
}

/// Where the run of literal characters that starts at `i` ends.
pub open spec fn run_end(s: Seq<char>, i: int) -> int
    decreases s.len() - i,
{
    if 0 <= i < s.len() && literal_char(s[i]) {
        run_end(s, i + 1)
    } else {
        i
    }
}

/// Where the run of ASCII digits that starts at `i` ends.
pub open spec fn digit_run(s: Seq<char>, i: int) -> int
    decreases s.len() - i,
{
    if 0 <= i < s.len() && is_digit(s[i]) {
        digit_run(s, i + 1)
    } else {
        i
    }
}

/// Where the run of `0` characters that starts at `i` ends.
pub open spec fn zero_run(s: Seq<char>, i: int) -> int
    decreases s.len() - i,
{
    if 0 <= i < s.len() && s[i] == '0' {
        zero_run(s, i + 1)
    } else {
        i
    }
}

/// Whether a character is the given lower-case ASCII letter, in either case.
pub open spec fn letter_ieq(c: char, lower: char) -> bool {
    c == lower || (c as u32) + 32 == (lower as u32)
}

/// Whether the text from `from` on is the given lower-case word, letters in either case.
pub open spec fn word_ieq(t: Seq<char>, from: int, w: Seq<char>) -> bool {
    &&& t.len() - from == w.len()
    &&& forall|k: int| 0 <= k < w.len() ==> letter_ieq(#[trigger] t[from + k], w[k])
}

/// The length of a text's sign: 1 where it starts with `+` or `-`, else 0.
pub open spec fn sign_len(t: Seq<char>) -> int {
    if t.len() > 0 && (t[0] == '+' || t[0] == '-') { 1 } else { 0 }
}

/// Whether a text is, after an optional sign, one of the words that `str::parse::<f64>`
/// reads as an infinity or NaN, in any case.
pub open spec fn nonfinite_word(t: Seq<char>) -> bool {
    let a = sign_len(t);
    word_ieq(t, a, "inf"@) || word_ieq(t, a, "infinity"@) || word_ieq(t, a, "nan"@)
}

/// Whether the exponent that starts at `i2` (an `e` or `E`, an optional sign and digits up to
/// the end) is well formed and, added to the count of significant integer digits, exceeds 308.
pub open spec fn exponent_overflows(t: Seq<char>, i2: int, significant: int) -> bool {
    let negative = i2 + 1 < t.len() && t[i2 + 1] == '-';
    let b = if i2 + 1 < t.len() && (t[i2 + 1] == '+' || t[i2 + 1] == '-') { i2 + 2 } else { i2 + 1 };
    let i3 = digit_run(t, b);
    let x = digits_value(t.subrange(b, i3)) as int;
    &&& i3 == t.len()
    &&& i3 > b
    &&& significant + (if negative { -x } else { x }) > 308
}

/// Whether a text is a decimal float literal `d.dEx` (sign, digits, fraction and exponent as
/// `str::parse::<f64>` reads them) whose value is not below `10^308` by its count of
/// significant integer digits plus its exponent.
pub open spec fn decimal_may_overflow(t: Seq<char>) -> bool {
    let a = sign_len(t);
    let i1 = digit_run(t, a);
    let dot = i1 < t.len() && t[i1] == '.';
    let i2 = if dot { digit_run(t, i1 + 1) } else { i1 };
    let mantissa_digits = (i1 - a) + if dot { i2 - i1 - 1 } else { 0 };
    let significant = i1 - zero_run(t, a);
    if mantissa_digits == 0 {
        false
    } else if i2 == t.len() {
        significant > 308
    } else if t[i2] == 'e' || t[i2] == 'E' {
        exponent_overflows(t, i2, significant)
    } else {
        false
    }
}

/// Whether `str::parse::<f64>` may read an infinite or NaN value from a text: an infinity or
/// NaN word, or a decimal literal whose value may reach `10^308`. Any other text is either
/// not a float literal (and does not parse) or has a finite value below `10^308`.
pub open spec fn may_be_nonfinite(t: Seq<char>) -> bool {
    nonfinite_word(t) || decimal_may_overflow(t)
}

/// Whether a run of literal characters starts at `i` with a digit or `-`: the form of a token
/// that jsonpath_lib's parser reads as a number where a filter expects a term.
pub open spec fn numeric_run_at(s: Seq<char>, i: int) -> bool {
    &&& 0 <= i < s.len()
    &&& (is_digit(s[i]) || s[i] == '-')
    &&& (i == 0 || !literal_char(s[i - 1]))
}

/// The numbers that jsonpath_lib's parser may read from the run at `i` (the run alone, and
/// the run joined by `.` to the run after it) are finite.
pub open spec fn literal_texts_finite_at(s: Seq<char>, i: int) -> bool {
    let j = run_end(s, i);
    &&& !may_be_nonfinite(s.subrange(i, j))
    &&& (j < s.len() && s[j] == '.') ==> !may_be_nonfinite(s.subrange(i, run_end(s, j + 1)))
}

/// Whether every number literal that jsonpath_lib's parser may read from a path has a finite
/// `f64` value.
pub open spec fn finite_number_literals(path: Seq<char>) -> bool {
    forall|i: int| #[trigger] numeric_run_at(path, i) ==> literal_texts_finite_at(path, i)
}

fn is_literal_char(c: char) -> (r: bool)
    ensures
        r == literal_char(c),
{
    ('0' <= c && c <= '9') || ('a' <= c && c <= 'z') || ('A' <= c && c <= 'Z') || c == '+' || c == '-'
        || c == '_'
}

fn run_end_exec(s: &Vec<char>, i: usize) -> (j: usize)
    requires
        i <= s.len(),
    ensures
        i <= j <= s.len(),
        j == run_end(s@, i as int),
{
    let mut j = i;
    while j < s.len() && is_literal_char(s[j])
        invariant
            i <= j <= s.len(),
            run_end(s@, j as int) == run_end(s@, i as int),
        decreases s.len() - j,
    {
        j = j + 1;
    }
    j
}

fn digit_run_exec(s: &Vec<char>, i: usize) -> (j: usize)
    requires
        i <= s.len(),
    ensures
        i <= j <= s.len(),
        j == digit_run(s@, i as int),
        forall|k: int| i <= k < j ==> is_digit(#[trigger] s@[k]),
{
    let mut j = i;
    while j < s.len() && '0' <= s[j] && s[j] <= '9'
        invariant
            i <= j <= s.len(),
            digit_run(s@, j as int) == digit_run(s@, i as int),
            forall|k: int| i <= k < j ==> is_digit(#[trigger] s@[k]),
        decreases s.len() - j,
    {
        j = j + 1;
    }
    j
}

fn zero_run_exec(s: &Vec<char>, i: usize) -> (j: usize)
    requires
        i <= s.len(),
    ensures
        i <= j <= s.len(),
        j == zero_run(s@, i as int),
        forall|k: int| i <= k < j ==> s@[k] == '0',
{
    let mut j = i;
    while j < s.len() && s[j] == '0'
        invariant
            i <= j <= s.len(),
            zero_run(s@, j as int) == zero_run(s@, i as int),
            forall|k: int| i <= k < j ==> s@[k] == '0',
        decreases s.len() - j,
    {
        j = j + 1;
    }
    j
}

fn word_ieq_exec(t: &Vec<char>, from: usize, w: &Vec<char>) -> (r: bool)
    requires
        from <= t.len(),
    ensures
        r == word_ieq(t@, from as int, w@),
{
    if t.len() - from != w.len() {
        return false;
    }
    let mut k: usize = 0;
    while k < w.len()
        invariant
            from <= t.len(),
            t.len() - from == w.len(),
            k <= w.len(),
            forall|m: int| 0 <= m < k ==> letter_ieq(#[trigger] t@[from + m], w@[m]),
        decreases w.len() - k,
    {
        let c = t[from + k];
        let l = w[k];
        if !(c == l || (c as u32 as u64) + 32 == (l as u32 as u64)) {
            assert(!letter_ieq(t@[from + k as int], w@[k as int]));
            return false;
        }
        k = k + 1;
    }
    true
}

proof fn lemma_digit_run_bound(s: Seq<char>, i: int)
    requires
        0 <= i <= s.len(),
    ensures
        i <= digit_run(s, i) <= s.len(),
        zero_run(s, i) <= digit_run(s, i),
    decreases s.len() - i,
{
    if i < s.len() && is_digit(s[i]) {
        lemma_digit_run_bound(s, i + 1);
    }
}

/// The value of the exponent digits from `b` to `e`, capped at `cap`.
fn capped_digits_value(t: &Vec<char>, b: usize, e: usize, cap: u128) -> (v: u128)
    requires
        b <= e <= t.len(),
        forall|k: int| b <= k < e ==> is_digit(#[trigger] t@[k]),
        cap <= u64::MAX as u128 + 1000,
    ensures
        v == (if digits_value(t@.subrange(b as int, e as int)) < cap {
            digits_value(t@.subrange(b as int, e as int)) as int
        } else {
            cap as int
        }),
{
    let mut v: u128 = 0;
    let mut k = b;
    assert(t@.subrange(b as int, b as int) =~= Seq::<char>::empty());
    while k < e
        invariant
            b <= k <= e <= t.len(),
            forall|m: int| b <= m < e ==> is_digit(#[trigger] t@[m]),
            cap <= u64::MAX as u128 + 1000,
            v == (if digits_value(t@.subrange(b as int, k as int)) < cap {
                digits_value(t@.subrange(b as int, k as int)) as int
            } else {
                cap as int
            }),
        decreases e - k,
    {
        let ghost before = digits_value(t@.subrange(b as int, k as int));
        assert(t@.subrange(b as int, k + 1).drop_last() =~= t@.subrange(b as int, k as int));
        assert(is_digit(t@[k as int]));
        let d: u128 = (t[k] as u32 - 48) as u128;
        assert(digits_value(t@.subrange(b as int, k + 1)) == before * 10 + d);
        if v < cap {
            let next = v * 10 + d;
            if next < cap {
                v = next;
            } else {
                v = cap;
            }
        }
        k = k + 1;
    }
    v
}

fn nonfinite_word_exec(t: &Vec<char>) -> (r: bool)
    ensures
        r == nonfinite_word(t@),
{
    let a: usize = if t.len() > 0 && (t[0] == '+' || t[0] == '-') { 1 } else { 0 };
    let inf = chars_of("inf");
    let infinity = chars_of("infinity");
    let nan = chars_of("nan");
    word_ieq_exec(t, a, &inf) || word_ieq_exec(t, a, &infinity) || word_ieq_exec(t, a, &nan)
}

fn exponent_overflows_exec(t: &Vec<char>, i2: usize, significant: usize) -> (r: bool)
    requires
        i2 < t.len(),
        significant <= t.len(),
    ensures
        r == exponent_overflows(t@, i2 as int, significant as int),
{
    let negative = i2 + 1 < t.len() && t[i2 + 1] == '-';
    let b = if i2 + 1 < t.len() && (t[i2 + 1] == '+' || t[i2 + 1] == '-') { i2 + 2 } else { i2 + 1 };
    let i3 = digit_run_exec(t, b);
    if i3 != t.len() || i3 == b {
        return false;
    }
    let cap: u128 = t.len() as u128 + 1000;
    let x = capped_digits_value(t, b, i3, cap);
    if negative {
        significant as u128 > 308 + x
    } else {
        significant as u128 + x > 308
    }
}

fn decimal_may_overflow_exec(t: &Vec<char>) -> (r: bool)
    ensures
        r == decimal_may_overflow(t@),
{
    let a: usize = if t.len() > 0 && (t[0] == '+' || t[0] == '-') { 1 } else { 0 };
    let i1 = digit_run_exec(t, a);
    let dot = i1 < t.len() && t[i1] == '.';
    let i2 = if dot { digit_run_exec(t, i1 + 1) } else { i1 };
    let z = zero_run_exec(t, a);
    proof {
        lemma_digit_run_bound(t@, a as int);
    }
    let mantissa_digits: usize = (i1 - a) + if dot { i2 - i1 - 1 } else { 0 };
    let significant: usize = i1 - z;
    if mantissa_digits == 0 {
        false
    } else if i2 == t.len() {
        significant > 308
    } else if t[i2] == 'e' || t[i2] == 'E' {
        exponent_overflows_exec(t, i2, significant)
    } else {
        false
    }
}

fn may_be_nonfinite_exec(t: &Vec<char>) -> (r: bool)
    ensures
        r == may_be_nonfinite(t@),
{
    nonfinite_word_exec(t) || decimal_may_overflow_exec(t)
}

/// Tells whether every number literal that jsonpath_lib's parser may read from a path has a
/// finite `f64` value.
pub fn number_literals_finite(path: &str) -> (r: bool)
    ensures
        r == finite_number_literals(path@),
{
    let s = chars_of(path);
    let mut i: usize = 0;
    while i < s.len()
        invariant
            s@ == path@,
            i <= s.len(),
            forall|k: int| 0 <= k < i && #[trigger] numeric_run_at(s@, k) ==> literal_texts_finite_at(s@, k),
        decreases s.len() - i,
    {
        let c = s[i];
        if ('0' <= c && c <= '9' || c == '-') && (i == 0 || !is_literal_char(s[i - 1])) {
            assert(numeric_run_at(s@, i as int));
            let j = run_end_exec(&s, i);
            let run = slice_to_vec(slice_subrange(s.as_slice(), i, j));
            if may_be_nonfinite_exec(&run) {
                return false;
            }
            if j < s.len() && s[j] == '.' {
                let j2 = run_end_exec(&s, j + 1);
                let joined = slice_to_vec(slice_subrange(s.as_slice(), i, j2));
                if may_be_nonfinite_exec(&joined) {
                    return false;
                }
            }
        }
        i = i + 1;
    }
    true
}

/// A character that may stand between a `:` of a range and its step: every character that
/// `char::is_whitespace` accepts is among these (ASCII spaces and all non-ASCII characters).
pub open spec fn skippable(c: char) -> bool {
    c == ' ' || ('\t' <= c <= '\r') || (c as u32) >= 128
}

/// Where the run of skippable characters that starts at `i` ends.
pub open spec fn skip_end(s: Seq<char>, i: int) -> int
    decreases s.len() - i,
{
    if 0 <= i < s.len() && skippable(s[i]) {
        skip_end(s, i + 1)
    } else {
        i
    }
}

/// Whether a text reads as zero for `str::parse::<usize>`: an optional `+`, then zeros only.
pub open spec fn zero_text(t: Seq<char>) -> bool {
    let a: int = if t.len() > 0 && t[0] == '+' { 1 } else { 0 };
    t.len() > a && forall|k: int| a <= k < t.len() ==> t[k] == '0'
}

/// Whether a `:` comes before position `i` with no bracket between it and `i`.
pub open spec fn colon_before(s: Seq<char>, i: int) -> bool
    decreases i,
{
    if i <= 0 || i > s.len() {
        false
    } else if s[i - 1] == ':' {
        true
    } else if s[i - 1] == '[' || s[i - 1] == ']' {
        false
    } else {
        colon_before(s, i - 1)
    }
}

/// Whether the `:` at `i` may be the second of a range whose step reads as zero.
pub open spec fn zero_step_at(s: Seq<char>, i: int) -> bool {
    let j = skip_end(s, i + 1);
    &&& s[i] == ':'
    &&& colon_before(s, i)
    &&& zero_text(s.subrange(j, run_end(s, j)))
}

/// Whether no range of the path may have a step of zero, which jsonpath_lib's selector hands
/// to `step_by` (a panic).
pub open spec fn no_zero_step(path: Seq<char>) -> bool {
    forall|i: int| 0 <= i < path.len() ==> !#[trigger] zero_step_at(path, i)
}

/// Whether no `,` or `:` comes after a filter begins: keys, unions and ranges inside a filter
/// are left `unimplemented!` by jsonpath_lib's selector.
pub open spec fn no_list_in_filter(path: Seq<char>) -> bool {
    forall|i: int, k: int| 0 <= i < k < path.len() && #[trigger] path[i] == '?' ==> #[trigger] path[k] != ',' && path[k] != ':'
}

/// Whether jsonpath_lib's selector evaluates the path without reaching one of the panics
/// that a path can lead it to: a number literal that is not a finite `f64`, a range step of
/// zero, or a key list, union or range inside a filter.
pub open spec fn selectable_path(path: Seq<char>) -> bool {
    &&& finite_number_literals(path)
    &&& no_zero_step(path)
    &&& no_list_in_filter(path)
}

fn skip_end_exec(s: &Vec<char>, i: usize) -> (j: usize)
    requires
        i <= s.len(),
    ensures
        i <= j <= s.len(),
        j == skip_end(s@, i as int),
{
    let mut j = i;
    while j < s.len() && (s[j] == ' ' || ('\t' <= s[j] && s[j] <= '\r') || (s[j] as u32) >= 128)
        invariant
            i <= j <= s.len(),
            skip_end(s@, j as int) == skip_end(s@, i as int),
        decreases s.len() - j,
    {
        j = j + 1;
    }
    j
}

fn zero_text_exec(s: &Vec<char>, lo: usize, hi: usize) -> (r: bool)
    requires
        lo <= hi <= s.len(),
    ensures
        r == zero_text(s@.subrange(lo as int, hi as int)),
{
    let ghost t = s@.subrange(lo as int, hi as int);
    let a: usize = if hi > lo && s[lo] == '+' { 1 } else { 0 };
    if hi - lo <= a {
        return false;
    }
    let mut k = lo + a;
    while k < hi
        invariant
            lo + a <= k <= hi <= s.len(),
            t == s@.subrange(lo as int, hi as int),
            a == (if t.len() > 0 && t[0] == '+' { 1int } else { 0 }),
            forall|m: int| a <= m < k - lo ==> t[m] == '0',
        decreases hi - k,
    {
        if s[k] != '0' {
            assert(t[k - lo] != '0');
            return false;
        }
        k = k + 1;
    }
    true
}

fn no_zero_step_exec(s: &Vec<char>) -> (r: bool)
    ensures
        r == no_zero_step(s@),
{
    let mut i: usize = 0;
    let mut seen = false;
    while i < s.len()
        invariant
            i <= s.len(),
            seen == colon_before(s@, i as int),
            forall|k: int| 0 <= k < i ==> !#[trigger] zero_step_at(s@, k),
        decreases s.len() - i,
    {
        if s[i] == ':' && seen {
            let j = skip_end_exec(s, i + 1);
            let e = run_end_exec(s, j);
            if zero_text_exec(s, j, e) {
                assert(zero_step_at(s@, i as int));
                return false;
            }
        }
        assert(!zero_step_at(s@, i as int));
        seen = s[i] == ':' || (s[i] != '[' && s[i] != ']' && seen);
        i = i + 1;
    }
    true
}

fn no_list_in_filter_exec(s: &Vec<char>) -> (r: bool)
    ensures
        r == no_list_in_filter(s@),
{
    let mut k: usize = 0;
    let mut seen = false;
    while k < s.len()
        invariant
            k <= s.len(),
            seen <==> exists|i: int| 0 <= i < k && s@[i] == '?',
            forall|i: int, m: int| 0 <= i < m < k && #[trigger] s@[i] == '?' ==> #[trigger] s@[m] != ',' && s@[m] != ':',
        decreases s.len() - k,
    {
        if seen && (s[k] == ',' || s[k] == ':') {
            let ghost i = choose|i: int| 0 <= i < k && s@[i] == '?';
            assert(s@[i] == '?' && !(s@[k as int] != ',' && s@[k as int] != ':'));
            return false;
        }
        if s[k] == '?' {
            seen = true;
        }
        k = k + 1;
    }
    true
}

/// Tells whether jsonpath_lib's selector evaluates a path without reaching a panic that the
/// path can lead it to.
pub fn path_selectable(path: &str) -> (r: bool)
    ensures
        r == selectable_path(path@),
{
    let s = chars_of(path);
    number_literals_finite(path) && no_zero_step_exec(&s) && no_list_in_filter_exec(&s)
}

} // verus!
