use vstd::prelude::*;

use crate::codec::{basic_parse_cookies, basic_parsed_cookies, pairs_view};
use crate::text::str_eq;

verus! {

/// The value of the first cookie named `name` among the pairs, if any.
pub open spec fn first_cookie_value(pairs: Seq<(Seq<char>, Seq<char>)>, name: Seq<char>) -> Option<Seq<char>>
    decreases pairs.len(),
{
    if pairs.len() == 0 {
        None
    } else if pairs[0].0 == name {
        Some(pairs[0].1)
    } else {
        first_cookie_value(pairs.drop_first(), name)
    }
}

/// Why the cookies operation fails for a header.
#[derive(Debug, PartialEq, Eq)]
pub enum CookieError {
    /// The header does not parse as cookies.
    Parse,
    /// No cookie has the configured name; the message is `cookie <name> not found`.
    NotFound(String),
}

/// The outcome for a header: the value of the first cookie with the name, or the error.
pub open spec fn cookie_lookup(header: Seq<char>, name: Seq<char>) -> Result<Seq<char>, Option<Seq<char>>> {
    match basic_parsed_cookies(header) {
        None => Err(None),
        Some(pairs) => match first_cookie_value(pairs, name) {
            Some(v) => Ok(v),
            None => Err(Some("cookie "@ + name + " not found"@)),
        },
    }
}

/// The outcome as an abstract value: the value, or the error (`None` for a parse error, else
/// the not-found message).
pub open spec fn lookup_view(r: Result<String, CookieError>) -> Result<Seq<char>, Option<Seq<char>>> {
    match r {
        Ok(v) => Ok(v@),
        Err(CookieError::Parse) => Err(None),
        Err(CookieError::NotFound(m)) => Err(Some(m@)),
    }
}

/// The cookies operation: the value of the configured cookie in a `Cookie` header.
pub fn get(header: &str, name: &str) -> (r: Result<String, CookieError>)
    ensures
        lookup_view(r) == cookie_lookup(header@, name@),
{
    let pairs = match basic_parse_cookies(header) {
        None => return Err(CookieError::Parse),
        Some(p) => p,
    };
    let mut i: usize = 0;
    assert(pairs_view(pairs@).skip(0) =~= pairs_view(pairs@));
    while i < pairs.len()
        invariant
            i <= pairs.len(),
            basic_parsed_cookies(header@) == Some(pairs_view(pairs@)),
            first_cookie_value(pairs_view(pairs@), name@) == first_cookie_value(pairs_view(pairs@).skip(i as int), name@),
        decreases pairs.len() - i,
    {
        proof {
            let s = pairs_view(pairs@).skip(i as int);
            assert(s.drop_first() =~= pairs_view(pairs@).skip(i + 1));
            assert(s[0] == (pairs@[i as int].0@, pairs@[i as int].1@));
        }
        if str_eq(pairs[i].0.as_str(), name) {
            return Ok(pairs[i].1.clone());
        }
        i = i + 1;
    }
    assert(pairs_view(pairs@).skip(i as int) =~= Seq::empty());
    let mut msg = String::from_str("cookie ");
    msg.append(name);
    msg.append(" not found");
    Err(CookieError::NotFound(msg))
}

} // verus!
