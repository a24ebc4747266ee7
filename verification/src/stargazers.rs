use vstd::prelude::*;

use crate::matching::{first_captures_of, regex_compile_error, regex_first_captures};
use crate::numbers::{parse_u32, parse_u32_spec};
use crate::text::clone_strings;

verus! {

/// The pattern that finds the number of the last page in a `link` header.
pub open spec fn last_page_pattern() -> Seq<char> {
    "page=(\\d+)>; rel=.last"@
}

/// The text of the first group where the last-page pattern matches a `link` header.
pub open spec fn last_page_capture(link: Seq<char>) -> Option<Seq<char>> {
    match regex_first_captures(last_page_pattern(), link) {
        Some(groups) => if groups.len() > 1 && groups[1] is Some {
            groups[1]
        } else {
            None
        },
        None => None,
    }
}

/// Whether a `link` header can be read: the pattern compiles, and where it matches, the page
/// number it finds is a `u32`.
pub open spec fn link_readable(link: Seq<char>) -> bool {
    &&& regex_compile_error(last_page_pattern()) is None
    &&& (last_page_capture(link) matches Some(c) ==> parse_u32_spec(c) is Some)
}

/// The page count after a `link` header: the last page it names, or the count before where it
/// names none.
pub open spec fn pages_after_link(pages: u32, link: Seq<char>) -> u32 {
    match last_page_capture(link) {
        Some(c) => parse_u32_spec(c).unwrap(),
        None => pages,
    }
}

/// Reads the page count from a `link` header; `None` where the header cannot be read.
pub fn read_link_pages(pages: u32, link: &str) -> (r: Option<u32>)
    ensures
        match r {
            Some(p) => link_readable(link@) && p == pages_after_link(pages, link@),
            None => !link_readable(link@),
        },
{
    let pattern = "page=(\\d+)>; rel=.last";
    proof {
        reveal_strlit("page=(\\d+)>; rel=.last");
    }
    match first_captures_of(pattern, link) {
        None => None,
        Some(None) => Some(pages),
        Some(Some(groups)) => {
            if groups.len() > 1 {
                match &groups[1] {
                    Some(c) => parse_u32(c.as_str()),
                    None => Some(pages),
                }
            } else {
                Some(pages)
            }
        },
    }
}

/// Where the stargazers operation stands for one repository: the page count, the next page
/// to fetch, and the logins collected so far.
pub struct StargazerState {
    pub pages: u32,
    pub page: u32,
    pub stargazers: Vec<String>,
}

/// What the stargazers operation does next: fetch a page, or send the logins collected.
pub enum StargazerAction {
    Fetch(u32),
    Send(Vec<String>),
}

/// The action that follows a state: fetch the next page while it is not past the last, else
/// send the logins.
pub open spec fn action_after(s: StargazerState, a: StargazerAction) -> bool {
    if s.page <= s.pages {
        a == StargazerAction::Fetch(s.page)
    } else {
        a matches StargazerAction::Send(v) && v.deep_view() == s.stargazers.deep_view()
    }
}

/// The action that follows a state.
pub fn next_action(s: &StargazerState) -> (a: StargazerAction)
    ensures
        action_after(*s, a),
{
    if s.page <= s.pages {
        StargazerAction::Fetch(s.page)
    } else {
        let v = clone_strings(&s.stargazers);
        StargazerAction::Send(v)
    }
}

/// The first page's answer: the page count taken from its `link` header where there is one
/// (the count carried over otherwise), its logins, and page 2 next; `None` where the header
/// cannot be read. The count carried over is the one left by the previous repository: the
/// operation keeps it across repositories, so a repository without a `link` header is read to
/// the page count of the one before.
pub fn first_page(pages: u32, link: Option<&str>, logins: Vec<String>) -> (r: Option<(StargazerState, StargazerAction)>)
    ensures
        match link {
            Some(l) => r is Some == link_readable(l@),
            None => r is Some,
        },
        r matches Some((s, a)) ==> {
            &&& s.pages == (match link { Some(l) => pages_after_link(pages, l@), None => pages })
            &&& s.page == 2
            &&& s.stargazers@ == logins@
            &&& action_after(s, a)
        },
{
    let p = match link {
        Some(l) => match read_link_pages(pages, l) {
            Some(p) => p,
            None => {
                return None;
            },
        },
        None => pages,
    };
    let s = StargazerState { pages: p, page: 2, stargazers: logins };
    let a = next_action(&s);
    Some((s, a))
}

/// A later page's answer: its logins added after those collected, and the page counter moved
/// on by one; `None` where the counter would pass the largest `u32`.
pub fn later_page(s: StargazerState, logins: Vec<String>) -> (r: Option<StargazerState>)
    ensures
        r is Some == (s.page < u32::MAX),
        r matches Some(t) ==> {
            &&& t.pages == s.pages
            &&& t.page == s.page + 1
            &&& t.stargazers@ == s.stargazers@ + logins@
        },
{
    if s.page == u32::MAX {
        return None;
    }
    let mut all = s.stargazers;
    let mut more = logins;
    all.append(&mut more);
    Some(StargazerState { pages: s.pages, page: s.page + 1, stargazers: all })
}

} // verus!
