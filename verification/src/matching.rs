use vstd::prelude::*;
use vstd::utf8::encode_utf8;

use crate::text::push_char;

verus! {

/// The message of the error that the regex crate's `Regex::new` gives for a pattern, or
/// `None` when the pattern compiles.
pub uninterp spec fn regex_compile_error(pattern: Seq<char>) -> Option<Seq<char>>;

/// Whether the compiled pattern matches somewhere in the text (`Regex::is_match`).
pub uninterp spec fn regex_is_match(pattern: Seq<char>, text: Seq<char>) -> bool;

/// The capture groups of the leftmost-first match of the pattern in the text
/// (`Regex::captures`), each group's text where it took part in the match; `None` where the
/// pattern does not match.
pub uninterp spec fn regex_first_captures(pattern: Seq<char>, text: Seq<char>) -> Option<Seq<Option<Seq<char>>>>;

/// The pieces of the text around the non-overlapping matches of the pattern, in order
/// (`Regex::split`).
pub uninterp spec fn regex_split_pieces(pattern: Seq<char>, text: Seq<char>) -> Seq<Seq<char>>;

/// The texts of the non-overlapping matches of the pattern, in order (`Regex::find_iter`).
pub uninterp spec fn regex_match_texts(pattern: Seq<char>, text: Seq<char>) -> Seq<Seq<char>>;

/// Each fill followed by the piece after it, all joined.
pub open spec fn fills_then(fills: Seq<Seq<char>>, pieces: Seq<Seq<char>>) -> Seq<char>
    decreases fills.len(),
{
    if fills.len() == 0 || pieces.len() == 0 {
        Seq::empty()
    } else {
        fills[0] + pieces[0] + fills_then(fills.drop_first(), pieces.drop_first())
    }
}

/// The pieces with the fills between them: the first piece, then each fill and the piece
/// after it.
pub open spec fn interleave(pieces: Seq<Seq<char>>, fills: Seq<Seq<char>>) -> Seq<char> {
    if pieces.len() == 0 {
        Seq::empty()
    } else {
        pieces[0] + fills_then(fills, pieces.drop_first())
    }
}

/// The text with every non-overlapping match of the pattern replaced by as many `X` as the
/// match has bytes: the pieces around the matches, each match masked by [`mask_spec`].
pub open spec fn regex_masked(pattern: Seq<char>, text: Seq<char>) -> Seq<char> {
    interleave(
        regex_split_pieces(pattern, text),
        regex_match_texts(pattern, text).map_values(|m: Seq<char>| mask_spec(m)),
    )
}

/// The text with every non-overlapping match of the pattern replaced by the replacement
/// string, its `$` group references expanded (`Regex::replace_all` with a string).
pub uninterp spec fn regex_replaced(pattern: Seq<char>, text: Seq<char>, replacement: Seq<char>) -> Seq<char>;

/// Whether a pattern compiles.
pub open spec fn compiles(pattern: Seq<char>) -> bool {
    regex_compile_error(pattern) is None
}

/// Compiles the pattern with the regex crate's `Regex::new` and hands back the error's
/// message where it fails. Claims only that the outcome is the named result for the pattern.
#[verifier::external_body]
fn pattern_error(pattern: &str) -> (r: Option<String>)
    ensures
        r is Some == regex_compile_error(pattern@) is Some,
        r is Some ==> r.unwrap()@ == regex_compile_error(pattern@).unwrap(),
{
    regex::Regex::new(pattern).err().map(|e| e.to_string())
}

/// Calls `Regex::is_match` on a pattern that compiles. Claims only that the answer is the
/// named result.
#[verifier::external_body]
fn pattern_matches(pattern: &str, text: &str) -> (r: bool)
    requires
        compiles(pattern@),
    ensures
        r == regex_is_match(pattern@, text@),
{
    match regex::Regex::new(pattern) {
        Ok(re) => re.is_match(text),
        Err(_) => false,
    }
}

/// Calls `Regex::captures` on a pattern that compiles and turns each group into an owned
/// string. Claims the named result and, as the crate documents, that there are captures
/// exactly when the pattern matches, and that group 0, the whole match, is then present.
#[verifier::external_body]
fn first_captures(pattern: &str, text: &str) -> (r: Option<Vec<Option<String>>>)
    requires
        compiles(pattern@),
    ensures
        r is Some == regex_first_captures(pattern@, text@) is Some,
        r is Some ==> groups_view(r.unwrap()@) == regex_first_captures(pattern@, text@).unwrap(),
        r is Some == regex_is_match(pattern@, text@),
        r is Some ==> r.unwrap()@.len() > 0 && r.unwrap()@[0] is Some,
{
    match regex::Regex::new(pattern) {
        Ok(re) => re.captures(text).map(|c| c.iter().map(|g| g.map(|m| m.as_str().to_string())).collect()),
        Err(_) => None,
    }
}

/// Calls `Regex::split` on a pattern that compiles and turns each piece into an owned
/// string. Claims only that the pieces are the named result.
#[verifier::external_body]
fn split_pieces(pattern: &str, text: &str) -> (r: Vec<String>)
    requires
        compiles(pattern@),
    ensures
        r.deep_view() == regex_split_pieces(pattern@, text@),
{
    match regex::Regex::new(pattern) {
        Ok(re) => re.split(text).map(|p| p.to_string()).collect(),
        Err(_) => vec![text.to_string()],
    }
}

/// Calls `Regex::find_iter` on a pattern that compiles and keeps each match's text. Claims the
/// named result and, as the crate's source shows (`split` yields the spans between the matches
/// of the same search, and the rest after the last), that the pieces of `split` are one more
/// than the matches and, joined with the matches between them, give back the text; and, as
/// the crate documents, that there is a match exactly when the pattern matches.
#[verifier::external_body]
fn match_texts(pattern: &str, text: &str) -> (r: Vec<String>)
    requires
        compiles(pattern@),
    ensures
        r.deep_view() == regex_match_texts(pattern@, text@),
        regex_split_pieces(pattern@, text@).len() == r.len() + 1,
        interleave(regex_split_pieces(pattern@, text@), r.deep_view()) == text@,
        r.len() > 0 <==> regex_is_match(pattern@, text@),
{
    match regex::Regex::new(pattern) {
        Ok(re) => re.find_iter(text).map(|m| m.as_str().to_string()).collect(),
        Err(_) => vec![],
    }
}

/// Every match of a pattern that compiles replaced by as many `X` as it has bytes.
fn mask_matches(pattern: &str, text: &str) -> (r: String)
    requires
        compiles(pattern@),
    ensures
        r@ == regex_masked(pattern@, text@),
        !regex_is_match(pattern@, text@) ==> r@ == text@,
{
    let pieces = split_pieces(pattern, text);
    let matches = match_texts(pattern, text);
    let ghost pv = pieces.deep_view();
    let ghost mv = matches.deep_view();
    let ghost fills = mv.map_values(|m: Seq<char>| mask_spec(m));
    let ghost rest = pv.drop_first();
    let mut out = pieces[0].clone();
    let mut i: usize = 0;
    assert(fills.skip(0) =~= fills);
    assert(rest.skip(0) =~= rest);
    while i < matches.len()
        invariant
            pieces.len() == matches.len() + 1,
            pv == pieces.deep_view(),
            mv == matches.deep_view(),
            fills == mv.map_values(|m: Seq<char>| mask_spec(m)),
            rest == pv.drop_first(),
            i <= matches.len(),
            out@ + fills_then(fills.skip(i as int), rest.skip(i as int)) == interleave(pv, fills),
        decreases matches.len() - i,
    {
        let masked = mask(matches[i].as_str());
        assert(fills.skip(i as int)[0] == masked@);
        assert(rest.skip(i as int)[0] == pieces@[i + 1]@);
        assert(fills.skip(i as int).drop_first() =~= fills.skip(i + 1));
        assert(rest.skip(i as int).drop_first() =~= rest.skip(i + 1));
        let ghost before = out@;
        out.append(masked.as_str());
        out.append(pieces[i + 1].as_str());
        assert(before + fills_then(fills.skip(i as int), rest.skip(i as int)) =~= out@ + fills_then(
            fills.skip(i + 1),
            rest.skip(i + 1),
        ));
        i = i + 1;
    }
    assert(fills_then(fills.skip(i as int), rest.skip(i as int)) =~= Seq::<char>::empty());
    assert(out@ + Seq::<char>::empty() =~= out@);
    proof {
        if !regex_is_match(pattern@, text@) {
            assert(mv.len() == 0);
            assert(fills_then(mv, rest) =~= Seq::<char>::empty());
            assert(pv[0] + Seq::<char>::empty() =~= pv[0]);
        }
    }
    out
}

/// Calls `Regex::replace_all` with a replacement string on a pattern that compiles. Claims the
/// named result and, as the crate documents, that the text comes back unchanged where the
/// pattern does not match.
#[verifier::external_body]
fn replace_matches(pattern: &str, text: &str, replacement: &str) -> (r: String)
    requires
        compiles(pattern@),
    ensures
        r@ == regex_replaced(pattern@, text@, replacement@),
        !regex_is_match(pattern@, text@) ==> r@ == text@,
{
    match regex::Regex::new(pattern) {
        Ok(re) => re.replace_all(text, replacement).into_owned(),
        Err(_) => text.to_string(),
    }
}

/// The capture groups of the first match of a pattern: `None` where the pattern does not
/// compile; inside it, `None` where the pattern does not match.
pub fn first_captures_of(pattern: &str, text: &str) -> (r: Option<Option<Vec<Option<String>>>>)
    ensures
        r is Some == compiles(pattern@),
        r matches Some(c) ==> (c is Some == regex_first_captures(pattern@, text@) is Some),
        r matches Some(Some(g)) ==> groups_view(g@) == regex_first_captures(pattern@, text@).unwrap(),
{
    match pattern_error(pattern) {
        Some(_) => None,
        None => Some(first_captures(pattern, text)),
    }
}

/// Every match of a pattern replaced by a replacement string: `None` where the pattern does
/// not compile.
pub fn replace_all_of(pattern: &str, text: &str, replacement: &str) -> (r: Option<String>)
    ensures
        r is Some == compiles(pattern@),
        r matches Some(s) ==> s@ == regex_replaced(pattern@, text@, replacement@),
{
    match pattern_error(pattern) {
        Some(_) => None,
        None => Some(replace_matches(pattern, text, replacement)),
    }
}

/// The groups of a capture as abstract values.
pub open spec fn groups_view(groups: Seq<Option<String>>) -> Seq<Option<Seq<char>>> {
    groups.map_values(|g: Option<String>| match g {
        Some(s) => Some(s@),
        None => None,
    })
}

/// As many `X` as the text has bytes.
pub open spec fn mask_spec(text: Seq<char>) -> Seq<char> {
    Seq::new(encode_utf8(text).len(), |i: int| 'X')
}

/// As many `X` as the text has bytes: what the redact operation puts in place of a match.
pub fn mask(text: &str) -> (out: String)
    ensures
        out@ == mask_spec(text@),
{
    let n = text.as_bytes().len();
    let mut out = String::new();
    let mut i: usize = 0;
    while i < n
        invariant
            n == encode_utf8(text@).len(),
            i <= n,
            out@ == Seq::new(i as nat, |k: int| 'X'),
        decreases n - i,
    {
        push_char(&mut out, 'X');
        i = i + 1;
        assert(out@ =~= Seq::new(i as nat, |k: int| 'X'));
    }
    assert(out@ =~= mask_spec(text@));
    out
}

/// The error that the regex operations give for a pattern that does not compile.
pub open spec fn invalid_pattern_message(error: Seq<char>) -> Seq<char> {
    "Invalid Regex Pattern: "@ + error
}

/// The match operation: whether the pattern matches the input; for a pattern that does not
/// compile, the error `Invalid Regex Pattern: <reason>`.
pub fn match_(input: &str, pattern: &str) -> (r: Result<bool, String>)
    ensures
        match regex_compile_error(pattern@) {
            Some(e) => r matches Err(msg) && msg@ == invalid_pattern_message(e),
            None => r == Ok::<bool, String>(regex_is_match(pattern@, input@)),
        },
{
    match pattern_error(pattern) {
        Some(e) => {
            let mut msg = String::from_str("Invalid Regex Pattern: ");
            msg.append(e.as_str());
            Err(msg)
        },
        None => Ok(pattern_matches(pattern, input)),
    }
}

/// The groups that took part in a capture, in order.
pub open spec fn present_groups(groups: Seq<Option<Seq<char>>>) -> Seq<Seq<char>>
    decreases groups.len(),
{
    if groups.len() == 0 {
        Seq::empty()
    } else {
        let rest = present_groups(groups.drop_last());
        match groups.last() {
            Some(g) => rest.push(g),
            None => rest,
        }
    }
}

/// What the capture operation gives for a pattern that compiles: the texts of the groups of
/// the first match that took part in it, the whole match first; nothing where there is no
/// match.
pub open spec fn captured_spec(pattern: Seq<char>, input: Seq<char>) -> Seq<Seq<char>> {
    match regex_first_captures(pattern, input) {
        Some(groups) => present_groups(groups),
        None => Seq::empty(),
    }
}

/// The capture operation lists the groups that took part in a match, in group order, and
/// skips exactly the groups that did not: a present group after an absent one is still listed.
pub proof fn law_present_groups_keep_every_present_group(groups: Seq<Option<Seq<char>>>)
    ensures
        present_groups(groups) == groups.filter_map(|g: Option<Seq<char>>| g),
    decreases groups.len(),
{
    if groups.len() > 0 {
        law_present_groups_keep_every_present_group(groups.drop_last());
        match groups.last() {
            Some(g) => {
                assert(present_groups(groups.drop_last()).push(g) =~= groups.drop_last().filter_map(
                    |g: Option<Seq<char>>| g,
                ) + seq![g]);
            },
            None => {},
        }
    }
}

/// For a pattern that matches, the capture operation gives the texts of all groups of the
/// first match that took part in it, in group order (the whole match first); where the
/// pattern does not match, nothing.
pub proof fn law_capture_gives_all_present_groups(pattern: Seq<char>, input: Seq<char>)
    ensures
        captured_spec(pattern, input) == match regex_first_captures(pattern, input) {
            Some(groups) => groups.filter_map(|g: Option<Seq<char>>| g),
            None => Seq::<Seq<char>>::empty(),
        },
{
    match regex_first_captures(pattern, input) {
        Some(groups) => law_present_groups_keep_every_present_group(groups),
        None => {},
    }
}

/// The capture operation: the groups of the first match of the pattern; for a pattern that
/// does not compile, the error `Invalid Regex Pattern: <reason>`.
pub fn capture(input: &str, pattern: &str) -> (r: Result<Vec<String>, String>)
    ensures
        match regex_compile_error(pattern@) {
            Some(e) => r matches Err(msg) && msg@ == invalid_pattern_message(e),
            None => r matches Ok(v) && v.deep_view() == captured_spec(pattern@, input@),
        },
{
    match pattern_error(pattern) {
        Some(e) => {
            let mut msg = String::from_str("Invalid Regex Pattern: ");
            msg.append(e.as_str());
            Err(msg)
        },
        None => {
            let mut out: Vec<String> = Vec::new();
            match first_captures(pattern, input) {
                None => {
                    assert(out.deep_view() =~= captured_spec(pattern@, input@));
                },
                Some(groups) => {
                    let ghost gv = groups_view(groups@);
                    let mut i: usize = 0;
                    while i < groups.len()
                        invariant
                            gv == groups_view(groups@),
                            i <= groups.len(),
                            out.deep_view() == present_groups(gv.take(i as int)),
                        decreases groups.len() - i,
                    {
                        assert(gv.take(i + 1).drop_last() =~= gv.take(i as int));
                        match &groups[i] {
                            Some(g) => {
                                out.push(g.clone());
                                assert(out.deep_view() =~= present_groups(gv.take(i as int)).push(g@));
                            },
                            None => {},
                        }
                        i = i + 1;
                    }
                    assert(gv.take(groups.len() as int) =~= gv);
                },
            }
            Ok(out)
        },
    }
}

/// The first pattern of a list that does not compile, with its error message, as the redact
/// operation reports it before reading any line; `None` when all compile.
pub open spec fn first_bad_pattern(patterns: Seq<Seq<char>>) -> Option<Seq<char>>
    decreases patterns.len(),
{
    if patterns.len() == 0 {
        None
    } else {
        match regex_compile_error(patterns[0]) {
            Some(e) => Some(e),
            None => first_bad_pattern(patterns.drop_first()),
        }
    }
}

/// Compiles every pattern of the list, in order, and stops at the first that fails with its
/// error message.
pub fn check_patterns(patterns: &Vec<String>) -> (r: Result<(), String>)
    ensures
        match first_bad_pattern(patterns.deep_view()) {
            Some(e) => r matches Err(msg) && msg@ == e,
            None => r is Ok,
        },
{
    let ghost all = patterns.deep_view();
    let mut i: usize = 0;
    assert(all.skip(0) =~= all);
    while i < patterns.len()
        invariant
            all == patterns.deep_view(),
            i <= patterns.len(),
            first_bad_pattern(all) == first_bad_pattern(all.skip(i as int)),
        decreases patterns.len() - i,
    {
        assert(all.skip(i as int).drop_first() =~= all.skip(i + 1));
        assert(all.skip(i as int)[0] == patterns@[i as int]@);
        match pattern_error(patterns[i].as_str()) {
            Some(e) => {
                return Err(e);
            },
            None => {},
        }
        i = i + 1;
    }
    assert(all.skip(patterns.len() as int) =~= Seq::<Seq<char>>::empty());
    Ok(())
}

/// The line after masking the matches of each pattern in turn.
pub open spec fn redacted(patterns: Seq<Seq<char>>, line: Seq<char>) -> Seq<char>
    decreases patterns.len(),
{
    if patterns.len() == 0 {
        line
    } else {
        redacted(patterns.drop_first(), regex_masked(patterns[0], line))
    }
}

/// Whether no pattern of a list matches a text.
pub open spec fn no_pattern_matches(patterns: Seq<Seq<char>>, text: Seq<char>) -> bool {
    forall|i: int| 0 <= i < patterns.len() ==> !regex_is_match(#[trigger] patterns[i], text)
}

/// Whether every pattern of a list compiles.
pub open spec fn all_compile(patterns: Seq<Seq<char>>) -> bool {
    forall|i: int| 0 <= i < patterns.len() ==> compiles(#[trigger] patterns[i])
}

/// The redact operation on one line: every match of each pattern, in turn, replaced by as
/// many `X` as it has bytes.
pub fn redact_line(patterns: &Vec<String>, line: String) -> (out: String)
    requires
        all_compile(patterns.deep_view()),
    ensures
        out@ == redacted(patterns.deep_view(), line@),
        no_pattern_matches(patterns.deep_view(), line@) ==> out@ == line@,
{
    let ghost all = patterns.deep_view();
    let mut cur = line;
    let mut i: usize = 0;
    assert(all.skip(0) =~= all);
    while i < patterns.len()
        invariant
            all == patterns.deep_view(),
            all_compile(all),
            i <= patterns.len(),
            redacted(all, line@) == redacted(all.skip(i as int), cur@),
            no_pattern_matches(all, line@) ==> cur@ == line@,
        decreases patterns.len() - i,
    {
        assert(all.skip(i as int).drop_first() =~= all.skip(i + 1));
        assert(all.skip(i as int)[0] == all[i as int]);
        assert(compiles(all[i as int]));
        cur = mask_matches(patterns[i].as_str(), cur.as_str());
        i = i + 1;
    }
    assert(all.skip(patterns.len() as int) =~= Seq::<Seq<char>>::empty());
    cur
}

/// The redact operation: the error of the first pattern that does not compile, or else the
/// redacted lines.
pub fn redact(patterns: &Vec<String>, lines: Vec<String>) -> (r: Result<Vec<String>, String>)
    ensures
        match first_bad_pattern(patterns.deep_view()) {
            Some(e) => r matches Err(msg) && msg@ == e,
            None => r matches Ok(out) && out.len() == lines.len() && forall|i: int|
                0 <= i < lines.len() ==> #[trigger] out@[i]@ == redacted(patterns.deep_view(), lines@[i]@),
        },
{
    match check_patterns(patterns) {
        Err(e) => Err(e),
        Ok(()) => {
            proof {
                lemma_no_bad_pattern(patterns.deep_view());
            }
            let mut out: Vec<String> = Vec::new();
            let mut i: usize = 0;
            while i < lines.len()
                invariant
                    all_compile(patterns.deep_view()),
                    i <= lines.len(),
                    out.len() == i,
                    forall|k: int| 0 <= k < i ==> #[trigger] out@[k]@ == redacted(patterns.deep_view(), lines@[k]@),
                decreases lines.len() - i,
            {
                let l = redact_line(patterns, lines[i].clone());
                out.push(l);
                i = i + 1;
            }
            Ok(out)
        },
    }
}

/// A list with no failing pattern is a list whose patterns all compile.
pub proof fn lemma_no_bad_pattern(patterns: Seq<Seq<char>>)
    requires
        first_bad_pattern(patterns) is None,
    ensures
        all_compile(patterns),
    decreases patterns.len(),
{
    if patterns.len() > 0 {
        lemma_no_bad_pattern(patterns.drop_first());
        assert forall|i: int| 0 <= i < patterns.len() implies compiles(#[trigger] patterns[i]) by {
            if i > 0 {
                assert(patterns.drop_first()[i - 1] == patterns[i]);
            }
        }
    }
}

} // verus!
