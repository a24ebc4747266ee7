use vstd::prelude::*;

verus! {

/// Appends one character to a string (std's `String::push`); the documentation says the
/// character is added to the end, and that is all this contract claims.
#[verifier::external_body]
pub(crate) fn push_char(s: &mut String, c: char)
    ensures
        final(s)@ == old(s)@.push(c),
{
    s.push(c);
}

/// The characters of a string slice, in order.
pub fn chars_of(s: &str) -> (out: Vec<char>)
    ensures
        out@ == s@,
{
    let mut out: Vec<char> = Vec::new();
    for c in it: s.chars()
        invariant
            it.seq() == s@,
            out@ == it.seq().take(it.index() as int),
    {
        out.push(c);
    }
    out
}

/// A string made of the characters `chars[lo..hi]`.
pub fn string_of_range(chars: &Vec<char>, lo: usize, hi: usize) -> (out: String)
    requires
        lo <= hi <= chars.len(),
    ensures
        out@ == chars@.subrange(lo as int, hi as int),
{
    let mut out = String::new();
    let mut i = lo;
    while i < hi
        invariant
            lo <= i <= hi <= chars.len(),
            out@ == chars@.subrange(lo as int, i as int),
        decreases hi - i,
    {
        push_char(&mut out, chars[i]);
        assert(chars@.subrange(lo as int, i + 1) == chars@.subrange(lo as int, i as int).push(chars@[i as int]));
        i = i + 1;
    }
    out
}

/// Whether two string slices hold the same characters.
pub fn str_eq(a: &str, b: &str) -> (r: bool)
    ensures
        r == (a@ == b@),
{
    let x = chars_of(a);
    let y = chars_of(b);
    if x.len() != y.len() {
        return false;
    }
    let mut i: usize = 0;
    while i < x.len()
        invariant
            x@ == a@,
            y@ == b@,
            x.len() == y.len(),
            i <= x.len(),
            forall|j: int| 0 <= j < i ==> x@[j] == y@[j],
        decreases x.len() - i,
    {
        if x[i] != y[i] {
            return false;
        }
        i = i + 1;
    }
    assert(x@ == y@);
    true
}

} // verus!

verus! {

/// `p` occurs in `s` at position `i`.
pub open spec fn occurs_at(s: Seq<char>, p: Seq<char>, i: int) -> bool {
    &&& 0 <= i
    &&& i + p.len() <= s.len()
    &&& forall|j: int| 0 <= j < p.len() ==> s[i + j] == p[j]
}

/// The first position at or after `i` where `p` occurs in `s`, or -1 when there is none.
pub open spec fn first_occurrence_from(s: Seq<char>, p: Seq<char>, i: int) -> int
    decreases s.len() - i,
{
    if i < 0 || i + p.len() > s.len() {
        -1
    } else if occurs_at(s, p, i) {
        i
    } else {
        first_occurrence_from(s, p, i + 1)
    }
}

/// The first occurrence found from `i` on lies at or after `i`, and is an occurrence.
pub proof fn lemma_first_occurrence_from(s: Seq<char>, p: Seq<char>, i: int)
    requires
        0 <= i,
    ensures
        first_occurrence_from(s, p, i) == -1 || (i <= first_occurrence_from(s, p, i)
            && occurs_at(s, p, first_occurrence_from(s, p, i))),
        first_occurrence_from(s, p, i) == -1 ==> forall|k: int|
            i <= k ==> !#[trigger] occurs_at(s, p, k),
        first_occurrence_from(s, p, i) != -1 ==> forall|k: int|
            i <= k < first_occurrence_from(s, p, i) ==> !#[trigger] occurs_at(s, p, k),
    decreases s.len() - i,
{
    if i < 0 || i + p.len() > s.len() {
    } else if occurs_at(s, p, i) {
    } else {
        lemma_first_occurrence_from(s, p, i + 1);
    }
}

/// The pieces of `s` between the non-overlapping occurrences of the non-empty pattern `p`,
/// searched from the left, starting at `start`.
pub open spec fn split_from(s: Seq<char>, p: Seq<char>, start: int) -> Seq<Seq<char>>
    decreases s.len() - start,
    when 0 <= start <= s.len() && p.len() > 0
{
    let k = first_occurrence_from(s, p, start);
    if k < 0 {
        seq![s.subrange(start, s.len() as int)]
    } else {
        proof {
            lemma_first_occurrence_from(s, p, start);
        }
        seq![s.subrange(start, k)] + split_from(s, p, k + p.len())
    }
}

/// What `str::split` gives for the pattern `p`: with a non-empty pattern, the pieces between
/// its occurrences; with the empty pattern, an empty piece, then each character, then an
/// empty piece.
pub open spec fn split_spec(s: Seq<char>, p: Seq<char>) -> Seq<Seq<char>> {
    if p.len() == 0 {
        seq![Seq::<char>::empty()] + s.map_values(|c: char| seq![c]) + seq![Seq::<char>::empty()]
    } else {
        split_from(s, p, 0)
    }
}

/// Whether `p` occurs in `chars` at position `i`.
fn occurs_at_exec(chars: &Vec<char>, p: &Vec<char>, i: usize) -> (r: bool)
    requires
        i + p.len() <= chars.len(),
    ensures
        r == occurs_at(chars@, p@, i as int),
{
    let mut j: usize = 0;
    while j < p.len()
        invariant
            i + p.len() <= chars.len(),
            j <= p.len(),
            forall|k: int| 0 <= k < j ==> chars@[i + k] == p@[k],
        decreases p.len() - j,
    {
        if chars[i + j] != p[j] {
            return false;
        }
        j = j + 1;
    }
    true
}

/// Splits a character sequence at the occurrences of a non-empty pattern.
fn split_chars_nonempty(chars: &Vec<char>, p: &Vec<char>) -> (out: Vec<String>)
    requires
        p.len() > 0,
    ensures
        out.deep_view() == split_from(chars@, p@, 0),
        out.len() >= 1,
{
    let mut out: Vec<String> = Vec::new();
    let mut start: usize = 0;
    let mut i: usize = 0;
    let plen = p.len();
    let slen = chars.len();
    while i <= slen && slen - i >= plen
        invariant
            plen == p.len() > 0,
            slen == chars.len(),
            start <= i <= slen,
            first_occurrence_from(chars@, p@, start as int) == first_occurrence_from(chars@, p@, i as int),
            out.deep_view() + split_from(chars@, p@, start as int) == split_from(chars@, p@, 0),
        decreases slen - i,
    {
        if occurs_at_exec(chars, p, i) {
            let piece = string_of_range(chars, start, i);
            let ghost old_out = out.deep_view();
            proof {
                assert(first_occurrence_from(chars@, p@, i as int) == i);
                assert(split_from(chars@, p@, start as int) == seq![chars@.subrange(start as int, i as int)]
                    + split_from(chars@, p@, i + plen));
                assert(old_out.push(piece@) + split_from(chars@, p@, i + plen)
                    =~= old_out + split_from(chars@, p@, start as int));
            }
            out.push(piece);
            assert(out.deep_view() =~= old_out.push(piece@));
            start = i + plen;
            i = start;
        } else {
            i = i + 1;
        }
    }
    proof {
        assert(first_occurrence_from(chars@, p@, i as int) == -1);
    }
    let last = string_of_range(chars, start, slen);
    let ghost old_out = out.deep_view();
    out.push(last);
    assert(out.deep_view() =~= old_out.push(last@));
    out
}

} // verus!

verus! {

/// Splits `s` at every occurrence of `sep`, as `str::split` with a string pattern does.
pub fn split(s: &str, sep: &str) -> (out: Vec<String>)
    ensures
        out.deep_view() == split_spec(s@, sep@),
        out.len() >= 1,
{
    let chars = chars_of(s);
    let p = chars_of(sep);
    if p.len() > 0 {
        return split_chars_nonempty(&chars, &p);
    }
    let mut out: Vec<String> = Vec::new();
    out.push(String::new());
    let mut i: usize = 0;
    while i < chars.len()
        invariant
            chars@ == s@,
            i <= chars.len(),
            out.deep_view() =~= seq![Seq::<char>::empty()] + chars@.take(i as int).map_values(
                |c: char| seq![c],
            ),
        decreases chars.len() - i,
    {
        let piece = string_of_range(&chars, i, i + 1);
        let ghost old_out = out.deep_view();
        out.push(piece);
        proof {
            assert(chars@.subrange(i as int, i + 1) =~= seq![chars@[i as int]]);
            assert(chars@.take(i + 1).map_values(|c: char| seq![c]) =~= chars@.take(
                i as int,
            ).map_values(|c: char| seq![c]).push(seq![chars@[i as int]]));
            assert(out.deep_view() =~= old_out.push(piece@));
        }
        i = i + 1;
    }
    let ghost old_out = out.deep_view();
    out.push(String::new());
    assert(out.deep_view() =~= old_out.push(Seq::<char>::empty()));
    assert(chars@.take(chars@.len() as int) =~= chars@);
    out
}

/// Unicode's White_Space property, which `char::is_whitespace` tests.
pub open spec fn is_whitespace(c: char) -> bool {
    ||| ('\u{9}' <= c && c <= '\u{d}')
    ||| c == ' '
    ||| c == '\u{85}'
    ||| c == '\u{a0}'
    ||| c == '\u{1680}'
    ||| ('\u{2000}' <= c && c <= '\u{200a}')
    ||| c == '\u{2028}'
    ||| c == '\u{2029}'
    ||| c == '\u{202f}'
    ||| c == '\u{205f}'
    ||| c == '\u{3000}'
}

fn is_whitespace_exec(c: char) -> (r: bool)
    ensures
        r == is_whitespace(c),
{
    ('\u{9}' <= c && c <= '\u{d}') || c == ' ' || c == '\u{85}' || c == '\u{a0}' || c == '\u{1680}'
        || ('\u{2000}' <= c && c <= '\u{200a}') || c == '\u{2028}' || c == '\u{2029}' || c
        == '\u{202f}' || c == '\u{205f}' || c == '\u{3000}'
}

/// `s` without its leading whitespace.
pub open spec fn trim_start_spec(s: Seq<char>) -> Seq<char>
    decreases s.len(),
{
    if s.len() > 0 && is_whitespace(s[0]) {
        trim_start_spec(s.drop_first())
    } else {
        s
    }
}

/// `s` without its trailing whitespace.
pub open spec fn trim_end_spec(s: Seq<char>) -> Seq<char>
    decreases s.len(),
{
    if s.len() > 0 && is_whitespace(s.last()) {
        trim_end_spec(s.drop_last())
    } else {
        s
    }
}

/// `s` without leading and trailing whitespace, as `str::trim` gives it.
pub open spec fn trim_spec(s: Seq<char>) -> Seq<char> {
    trim_end_spec(trim_start_spec(s))
}

proof fn lemma_trim_start_skip(s: Seq<char>, i: int)
    requires
        0 <= i <= s.len(),
        forall|j: int| 0 <= j < i ==> is_whitespace(s[j]),
    ensures
        trim_start_spec(s) == trim_start_spec(s.skip(i)),
    decreases i,
{
    if i > 0 {
        assert(s.drop_first().skip(i - 1) =~= s.skip(i));
        lemma_trim_start_skip(s.drop_first(), i - 1);
    } else {
        assert(s.skip(0) =~= s);
    }
}

proof fn lemma_trim_end_take(s: Seq<char>, i: int)
    requires
        0 <= i <= s.len(),
        forall|j: int| i <= j < s.len() ==> is_whitespace(s[j]),
    ensures
        trim_end_spec(s) == trim_end_spec(s.take(i)),
    decreases s.len() - i,
{
    if i < s.len() {
        assert(s.drop_last().take(i) =~= s.take(i));
        lemma_trim_end_take(s.drop_last(), i);
    } else {
        assert(s.take(i) =~= s);
    }
}

/// `s` with leading and trailing whitespace removed, as `str::trim` does.
pub fn trim(s: &str) -> (out: String)
    ensures
        out@ == trim_spec(s@),
{
    let chars = chars_of(s);
    let mut lo: usize = 0;
    while lo < chars.len() && is_whitespace_exec(chars[lo])
        invariant
            chars@ == s@,
            lo <= chars.len(),
            forall|j: int| 0 <= j < lo ==> is_whitespace(chars@[j]),
        decreases chars.len() - lo,
    {
        lo = lo + 1;
    }
    let mut hi: usize = chars.len();
    while hi > lo && is_whitespace_exec(chars[hi - 1])
        invariant
            chars@ == s@,
            lo <= hi <= chars.len(),
            forall|j: int| hi <= j < chars.len() ==> is_whitespace(chars@[j]),
        decreases hi - lo,
    {
        hi = hi - 1;
    }
    proof {
        lemma_trim_start_skip(s@, lo as int);
        let t = s@.skip(lo as int);
        if lo < chars.len() {
            assert(!is_whitespace(t[0]));
        }
        assert(trim_start_spec(t) == t);
        lemma_trim_end_take(t, hi - lo);
        assert(t.take(hi - lo) =~= s@.subrange(lo as int, hi as int));
        if hi > lo {
            assert(!is_whitespace(t.take(hi - lo).last()));
        }
    }
    string_of_range(&chars, lo, hi)
}

} // verus!

verus! {

/// A copy of a list of strings.
pub fn clone_strings(v: &Vec<String>) -> (out: Vec<String>)
    ensures
        out.deep_view() == v.deep_view(),
{
    let mut out: Vec<String> = Vec::new();
    let mut i: usize = 0;
    while i < v.len()
        invariant
            i <= v.len(),
            out.deep_view() =~= v.deep_view().take(i as int),
        decreases v.len() - i,
    {
        let ghost old_out = out.deep_view();
        out.push(v[i].clone());
        assert(out.deep_view() =~= old_out.push(v[i as int]@));
        i = i + 1;
    }
    assert(v.deep_view().take(v.len() as int) =~= v.deep_view());
    out
}

} // verus!

verus! {

/// The pieces joined, with `sep` between each two neighbours.
pub open spec fn join_spec(parts: Seq<Seq<char>>, sep: Seq<char>) -> Seq<char>
    decreases parts.len(),
{
    if parts.len() == 0 {
        Seq::empty()
    } else if parts.len() == 1 {
        parts[0]
    } else {
        join_spec(parts.drop_last(), sep) + sep + parts.last()
    }
}

/// What `str::replace` gives: every occurrence of `from` replaced by `to`.
pub open spec fn replace_spec(s: Seq<char>, from: Seq<char>, to: Seq<char>) -> Seq<char> {
    join_spec(split_spec(s, from), to)
}

/// Joins strings with a separator between neighbours.
pub fn join(parts: &Vec<String>, sep: &str) -> (out: String)
    ensures
        out@ == join_spec(parts.deep_view(), sep@),
{
    let mut out = String::new();
    let mut i: usize = 0;
    while i < parts.len()
        invariant
            i <= parts.len(),
            out@ == join_spec(parts.deep_view().take(i as int), sep@),
        decreases parts.len() - i,
    {
        let ghost before = parts.deep_view().take(i as int);
        if i > 0 {
            out.append(sep);
        }
        out.append(parts[i].as_str());
        proof {
            let now = parts.deep_view().take(i + 1);
            assert(now.drop_last() =~= before);
            if i == 0 {
                assert(now =~= seq![parts@[0]@]);
            }
        }
        i = i + 1;
    }
    assert(parts.deep_view().take(parts.len() as int) =~= parts.deep_view());
    out
}

/// Replaces every occurrence of `from` in `s` by `to`, as `str::replace` does.
pub fn replace(s: &str, from: &str, to: &str) -> (out: String)
    ensures
        out@ == replace_spec(s@, from@, to@),
{
    let parts = split(s, from);
    join(&parts, to)
}

/// `s` without the leading characters equal to `c`, as `str::trim_start_matches` with a
/// character gives it.
pub open spec fn trim_start_matches_spec(s: Seq<char>, c: char) -> Seq<char>
    decreases s.len(),
{
    if s.len() > 0 && s[0] == c {
        trim_start_matches_spec(s.drop_first(), c)
    } else {
        s
    }
}

proof fn lemma_trim_start_matches_skip(s: Seq<char>, c: char, i: int)
    requires
        0 <= i <= s.len(),
        forall|j: int| 0 <= j < i ==> s[j] == c,
    ensures
        trim_start_matches_spec(s, c) == trim_start_matches_spec(s.skip(i), c),
    decreases i,
{
    if i > 0 {
        assert(s.drop_first().skip(i - 1) =~= s.skip(i));
        lemma_trim_start_matches_skip(s.drop_first(), c, i - 1);
    } else {
        assert(s.skip(0) =~= s);
    }
}

/// `s` without its leading characters equal to `c`.
pub fn trim_start_matches(s: &str, c: char) -> (out: String)
    ensures
        out@ == trim_start_matches_spec(s@, c),
{
    let chars = chars_of(s);
    let mut lo: usize = 0;
    while lo < chars.len() && chars[lo] == c
        invariant
            chars@ == s@,
            lo <= chars.len(),
            forall|j: int| 0 <= j < lo ==> chars@[j] == c,
        decreases chars.len() - lo,
    {
        lo = lo + 1;
    }
    proof {
        lemma_trim_start_matches_skip(s@, c, lo as int);
        assert(s@.skip(lo as int) =~= s@.subrange(lo as int, s@.len() as int));
    }
    string_of_range(&chars, lo, chars.len())
}

} // verus!

verus! {

proof fn lemma_join_prepend(a: Seq<char>, rest: Seq<Seq<char>>, sep: Seq<char>)
    requires
        rest.len() > 0,
    ensures
        join_spec(seq![a] + rest, sep) == a + sep + join_spec(rest, sep),
    decreases rest.len(),
{
    let all = seq![a] + rest;
    if rest.len() == 1 {
        assert(all.drop_last() =~= seq![a]);
        assert(all.last() == rest[0]);
        assert(join_spec(rest, sep) == rest[0]);
        assert(join_spec(seq![a], sep) == a);
    } else {
        lemma_join_prepend(a, rest.drop_last(), sep);
        assert(all.drop_last() =~= seq![a] + rest.drop_last());
        assert(all.last() == rest.last());
        assert(join_spec(rest, sep) == join_spec(rest.drop_last(), sep) + sep + rest.last());
        assert(a + sep + join_spec(rest.drop_last(), sep) + sep + rest.last() =~= a + sep + (join_spec(rest.drop_last(), sep) + sep + rest.last()));
    }
}

proof fn lemma_join_split_from(s: Seq<char>, p: Seq<char>, start: int)
    requires
        p.len() > 0,
        0 <= start <= s.len(),
    ensures
        split_from(s, p, start).len() > 0,
        join_spec(split_from(s, p, start), p) == s.subrange(start, s.len() as int),
    decreases s.len() - start,
{
    let k = first_occurrence_from(s, p, start);
    lemma_first_occurrence_from(s, p, start);
    if k < 0 {
        assert(join_spec(seq![s.subrange(start, s.len() as int)], p) == s.subrange(start, s.len() as int));
    } else {
        lemma_join_split_from(s, p, k + p.len());
        let rest = split_from(s, p, k + p.len());
        lemma_join_prepend(s.subrange(start, k), rest, p);
        assert(s.subrange(k, k + p.len()) =~= p);
        assert(s.subrange(start, k) + p + s.subrange(k + p.len(), s.len() as int) =~= s.subrange(start, s.len() as int));
    }
}

/// Joining the pieces that splitting at a non-empty separator gives, with that separator,
/// gives back the text.
pub proof fn lemma_join_split(s: Seq<char>, p: Seq<char>)
    requires
        p.len() > 0,
    ensures
        join_spec(split_spec(s, p), p) == s,
{
    lemma_join_split_from(s, p, 0);
    assert(s.subrange(0, s.len() as int) =~= s);
}

} // verus!
