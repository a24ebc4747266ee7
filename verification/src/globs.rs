use vstd::prelude::*;

verus! {

/// The message of the error that the glob crate's `Pattern::new` gives for a pattern, or
/// `None` when the pattern compiles.
pub uninterp spec fn glob_pattern_error(pattern: Seq<char>) -> Option<Seq<char>>;

/// Whether a compiled glob pattern matches a text under the given match options
/// (`Pattern::matches_with`).
pub uninterp spec fn glob_matches_with(
    pattern: Seq<char>,
    text: Seq<char>,
    case_sensitive: bool,
    require_literal_separator: bool,
    require_literal_leading_dot: bool,
) -> bool;

/// Compiles a glob pattern with `Pattern::new` and hands back the error's message where it
/// fails. Claims only that the outcome is the named result for the pattern.
#[verifier::external_body]
fn glob_error(pattern: &str) -> (r: Option<String>)
    ensures
        r is Some == glob_pattern_error(pattern@) is Some,
        r is Some ==> r.unwrap()@ == glob_pattern_error(pattern@).unwrap(),
{
    glob::Pattern::new(pattern).err().map(|e| e.to_string())
}

/// Calls `Pattern::matches_with` on a pattern that compiles. Claims only that the answer is
/// the named result.
#[verifier::external_body]
fn pattern_matches_with(
    pattern: &str,
    text: &str,
    case_sensitive: bool,
    require_literal_separator: bool,
    require_literal_leading_dot: bool,
) -> (r: bool)
    requires
        glob_pattern_error(pattern@) is None,
    ensures
        r == glob_matches_with(pattern@, text@, case_sensitive, require_literal_separator, require_literal_leading_dot),
{
    let options = glob::MatchOptions { case_sensitive, require_literal_separator, require_literal_leading_dot };
    match glob::Pattern::new(pattern) {
        Ok(p) => p.matches_with(text, options),
        Err(_) => false,
    }
}

/// Calls `Pattern::matches` on a pattern that compiles. As the crate's source shows, that is
/// `matches_with` under the default options: case-sensitive, no literal separator, no literal
/// leading dot; that is what this contract states.
#[verifier::external_body]
fn pattern_matches(pattern: &str, text: &str) -> (r: bool)
    requires
        glob_pattern_error(pattern@) is None,
    ensures
        r == glob_matches_with(pattern@, text@, true, false, false),
{
    match glob::Pattern::new(pattern) {
        Ok(p) => p.matches(text),
        Err(_) => false,
    }
}

/// Whether an item of the array, read as a glob pattern, admits the value: the value matches
/// it ignoring case with separators kept literal, or the value's own pattern matches the item.
pub open spec fn item_admits(item: Seq<char>, value: Seq<char>) -> bool {
    glob_matches_with(item, value, false, true, false) || glob_matches_with(value, item, true, false, false)
}

/// The answer for a list of items: the errors of the items that do not compile, met
/// before the first item that admits the value, and whether one does.
pub open spec fn scan_items(items: Seq<Seq<char>>, value: Seq<char>) -> (Seq<Seq<char>>, bool)
    decreases items.len(),
{
    if items.len() == 0 {
        (Seq::empty(), false)
    } else {
        match glob_pattern_error(items[0]) {
            Some(e) => {
                let rest = scan_items(items.drop_first(), value);
                (seq![e] + rest.0, rest.1)
            },
            None => if item_admits(items[0], value) {
                (Seq::empty(), true)
            } else {
                scan_items(items.drop_first(), value)
            },
        }
    }
}

/// The includes-glob operation's answer for one value, given the JSON texts of the value and
/// of the array's items.
pub struct GlobAnswer {
    /// The errors sent while the items were read.
    pub errors: Vec<String>,
    /// Whether an item admits the value; the value's own pattern error where it has one.
    pub result: Result<bool, String>,
}

/// The includes-glob operation for one value: where the value's text is not a glob pattern,
/// its error; else, reading the items in order, the error of each that is not a pattern and
/// whether one admits the value, stopping at the first that does.
pub fn includes_glob(value: &str, items: &Vec<String>) -> (out: GlobAnswer)
    ensures
        match glob_pattern_error(value@) {
            Some(e) => out.errors@.len() == 0 && (out.result matches Err(m) && m@ == e),
            None => {
                let s = scan_items(items.deep_view(), value@);
                &&& out.errors.deep_view() == s.0
                &&& out.result == Ok::<bool, String>(s.1)
            },
        },
{
    match glob_error(value) {
        Some(e) => GlobAnswer { errors: Vec::new(), result: Err(e) },
        None => {
            let ghost all = items.deep_view();
            let mut errors: Vec<String> = Vec::new();
            let mut i: usize = 0;
            assert(all.skip(0) =~= all);
            assert(errors.deep_view() =~= Seq::<Seq<char>>::empty());
            while i < items.len()
                invariant
                    all == items.deep_view(),
                    glob_pattern_error(value@) is None,
                    i <= items.len(),
                    scan_items(all, value@).1 == scan_items(all.skip(i as int), value@).1,
                    scan_items(all, value@).0 == errors.deep_view() + scan_items(all.skip(i as int), value@).0,
                decreases items.len() - i,
            {
                let ghost rest = all.skip(i as int);
                assert(rest[0] == items@[i as int]@);
                assert(rest.drop_first() =~= all.skip(i + 1));
                let item = items[i].as_str();
                match glob_error(item) {
                    Some(e) => {
                        let ghost before = errors.deep_view();
                        errors.push(e);
                        assert(errors.deep_view() =~= before.push(e@));
                        assert(before + scan_items(rest, value@).0 =~= errors.deep_view() + scan_items(all.skip(i + 1), value@).0);
                    },
                    None => {
                        if pattern_matches_with(item, value, false, true, false) || pattern_matches(value, item) {
                            assert(scan_items(rest, value@).0 =~= Seq::<Seq<char>>::empty());
                            assert(errors.deep_view() + Seq::<Seq<char>>::empty() =~= errors.deep_view());
                            return GlobAnswer { errors, result: Ok(true) };
                        }
                    },
                }
                i = i + 1;
            }
            assert(all.skip(items.len() as int) =~= Seq::<Seq<char>>::empty());
            assert(errors.deep_view() + Seq::<Seq<char>>::empty() =~= errors.deep_view());
            GlobAnswer { errors, result: Ok(false) }
        },
    }
}

} // verus!
