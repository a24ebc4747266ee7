use vstd::prelude::*;

use crate::text::{clone_strings, str_eq};

verus! {

/// The map that a list of (name, values) entries stands for; a later entry wins over an
/// earlier one with the same name.
pub open spec fn map_of(entries: Seq<(Seq<char>, Seq<Seq<char>>)>) -> Map<Seq<char>, Seq<Seq<char>>>
    decreases entries.len(),
{
    if entries.len() == 0 {
        Map::empty()
    } else {
        map_of(entries.drop_last()).insert(entries.last().0, entries.last().1)
    }
}

/// No name occurs twice among the entries.
pub open spec fn names_distinct(entries: Seq<(Seq<char>, Seq<Seq<char>>)>) -> bool {
    forall|i: int, j: int|
        0 <= i < entries.len() && 0 <= j < entries.len() && i != j ==> entries[i].0 != entries[j].0
}

/// The abstract entries of a list of (name, values) pairs of strings.
pub open spec fn entries_view(entries: Seq<(String, Vec<String>)>) -> Seq<(Seq<char>, Seq<Seq<char>>)> {
    entries.map_values(|e: (String, Vec<String>)| (e.0@, e.1.deep_view()))
}

proof fn lemma_map_of_lookup(e: Seq<(Seq<char>, Seq<Seq<char>>)>)
    requires
        names_distinct(e),
    ensures
        forall|k: Seq<char>| #[trigger] map_of(e).dom().contains(k) <==> exists|i: int|
            0 <= i < e.len() && e[i].0 == k,
        forall|i: int| 0 <= i < e.len() ==> map_of(e)[#[trigger] e[i].0] == e[i].1,
    decreases e.len(),
{
    if e.len() > 0 {
        let d = e.drop_last();
        assert(names_distinct(d));
        lemma_map_of_lookup(d);
        assert forall|k: Seq<char>| #[trigger] map_of(e).dom().contains(k) implies exists|i: int|
            0 <= i < e.len() && e[i].0 == k by {
            if k != e.last().0 {
                assert(map_of(d).dom().contains(k));
                let i = choose|i: int| 0 <= i < d.len() && d[i].0 == k;
                assert(d[i] == e[i]);
                assert(e[i].0 == k);
            } else {
                assert(e[e.len() - 1].0 == k);
            }
        }
        assert forall|k: Seq<char>| (exists|i: int| 0 <= i < e.len() && e[i].0 == k) implies #[trigger] map_of(e).dom().contains(k) by {
            let i = choose|i: int| 0 <= i < e.len() && e[i].0 == k;
            if i < e.len() - 1 {
                assert(d[i].0 == k);
            }
        }
        assert forall|i: int| 0 <= i < e.len() implies map_of(e)[#[trigger] e[i].0] == e[i].1 by {
            if i < e.len() - 1 {
                assert(d[i] == e[i]);
                assert(e[i].0 != e.last().0);
            }
        }
    }
}

proof fn lemma_map_of_update(e: Seq<(Seq<char>, Seq<Seq<char>>)>, i: int, v: Seq<Seq<char>>)
    requires
        names_distinct(e),
        0 <= i < e.len(),
    ensures
        map_of(e.update(i, (e[i].0, v))) == map_of(e).insert(e[i].0, v),
        names_distinct(e.update(i, (e[i].0, v))),
    decreases e.len(),
{
    let u = e.update(i, (e[i].0, v));
    if i == e.len() - 1 {
        assert(u.drop_last() =~= e.drop_last());
        assert(map_of(u) =~= map_of(e).insert(e[i].0, v));
    } else {
        let d = e.drop_last();
        assert(names_distinct(d));
        lemma_map_of_update(d, i, v);
        assert(u.drop_last() =~= d.update(i, (e[i].0, v)));
        assert(e[i].0 != e.last().0);
        assert(map_of(u) =~= map_of(e).insert(e[i].0, v));
    }
}

/// The headers (or query parameters) of an HTTP message: each name maps to a list of values.
/// Stored as a list of entries in which no name occurs twice.
pub struct HeaderMap {
    entries: Vec<(String, Vec<String>)>,
}

impl HeaderMap {
    #[verifier::type_invariant]
    spec fn inv(self) -> bool {
        names_distinct(entries_view(self.entries@))
    }

    /// The map from each header name to its values.
    pub closed spec fn view(&self) -> Map<Seq<char>, Seq<Seq<char>>> {
        map_of(entries_view(self.entries@))
    }

    /// A map with no headers.
    pub fn new() -> (out: HeaderMap)
        ensures
            out.view() == Map::<Seq<char>, Seq<Seq<char>>>::empty(),
    {
        let out = HeaderMap { entries: Vec::new() };
        assert(entries_view(out.entries@) =~= Seq::empty());
        out
    }

    fn find(&self, name: &str) -> (r: Option<usize>)
        ensures
            match r {
                Some(i) => i < self.entries.len() && self.entries@[i as int].0@ == name@,
                None => forall|i: int| 0 <= i < self.entries.len() ==> self.entries@[i].0@ != name@,
            },
    {
        let mut i: usize = 0;
        while i < self.entries.len()
            invariant
                i <= self.entries.len(),
                forall|j: int| 0 <= j < i ==> self.entries@[j].0@ != name@,
            decreases self.entries.len() - i,
        {
            if str_eq(self.entries[i].0.as_str(), name) {
                return Some(i);
            }
            i = i + 1;
        }
        None
    }

    /// The values stored under `name`, if there are any.
    pub fn get(&self, name: &str) -> (r: Option<&Vec<String>>)
        ensures
            match r {
                Some(v) => self.view().dom().contains(name@) && v.deep_view() == self.view()[name@],
                None => !self.view().dom().contains(name@),
            },
    {
        proof {
            use_type_invariant(self);
            lemma_map_of_lookup(entries_view(self.entries@));
        }
        match self.find(name) {
            Some(i) => {
                assert(entries_view(self.entries@)[i as int].0 == name@);
                Some(&self.entries[i].1)
            },
            None => {
                assert forall|j: int| 0 <= j < entries_view(self.entries@).len() implies entries_view(self.entries@)[j].0 != name@ by {
                    assert(entries_view(self.entries@)[j].0 == self.entries@[j].0@);
                }
                None
            },
        }
    }

    /// Stores `values` under `name`, replacing whatever was stored there.
    pub fn insert(&mut self, name: String, values: Vec<String>)
        ensures
            final(self).view() == old(self).view().insert(name@, values.deep_view()),
    {
        proof {
            use_type_invariant(&*self);
        }
        let ghost e = entries_view(self.entries@);
        match self.find(name.as_str()) {
            Some(i) => {
                let ghost vv = values.deep_view();
                proof {
                    lemma_map_of_update(e, i as int, vv);
                }
                let mut entries: Vec<(String, Vec<String>)> = Vec::new();
                std::mem::swap(&mut entries, &mut self.entries);
                entries.set(i, (name, values));
                assert(entries_view(entries@) =~= e.update(i as int, (e[i as int].0, vv)));
                self.entries = entries;
            },
            None => {
                let ghost k = name@;
                let ghost vv = values.deep_view();
                let mut entries: Vec<(String, Vec<String>)> = Vec::new();
                std::mem::swap(&mut entries, &mut self.entries);
                entries.push((name, values));
                assert(entries_view(entries@) =~= e.push((k, vv)));
                assert(entries_view(entries@).drop_last() =~= e);
                assert forall|j: int| 0 <= j < e.len() implies e[j].0 != k by {
                    assert(e[j].0 == old(self).entries@[j].0@);
                }
                self.entries = entries;
            },
        }
    }

    /// The stored entries, one per name.
    pub fn entries(&self) -> (r: &Vec<(String, Vec<String>)>)
        ensures
            map_of(entries_view(r@)) == self.view(),
            names_distinct(entries_view(r@)),
    {
        proof {
            use_type_invariant(self);
        }
        &self.entries
    }
}

} // verus!

verus! {

/// The HTTP version of a message.
#[derive(Clone, Copy, Debug, PartialEq, Eq, Structural)]
pub enum HttpVersion {
    Http10,
    Http11,
    Http20,
}

/// The HTTP status codes that the components send or test for.
#[derive(Clone, Copy, Debug, PartialEq, Eq, Structural)]
pub enum StatusCode {
    OK,
    TemporaryRedirect,
    BadRequest,
    Unauthorized,
    Forbidden,
    NotFound,
    MethodNotAllowed,
    InternalServerError,
}

/// The HTTP request methods.
#[derive(Clone, Copy, Debug, PartialEq, Eq, Structural)]
pub enum HttpMethod {
    Get,
    Head,
    Post,
    Put,
    Delete,
    Connect,
    Options,
    Trace,
    Patch,
}

/// The parts of an HTTP request that the middleware components read and forward.
pub struct HttpRequest {
    pub method: HttpMethod,
    pub path: String,
    pub uri: String,
    pub query_parameters: HeaderMap,
    pub headers: HeaderMap,
    pub remote_addr: String,
}

/// The head of an HTTP response.
pub struct HttpResponse {
    pub version: HttpVersion,
    pub status: StatusCode,
    pub headers: HeaderMap,
}

/// What a request middleware hands on: the request (possibly changed), or a response that
/// ends the request's way through the flow.
pub enum RequestMiddlewareResponse {
    HttpRequest(HttpRequest),
    HttpResponse(HttpResponse),
}

/// A header value given either as one string or as a list of strings.
pub enum Strings {
    String(String),
    StringList(Vec<String>),
}

/// The values that a `Strings` stands for, in order.
pub open spec fn strings_values(v: Strings) -> Seq<Seq<char>> {
    match v {
        Strings::String(s) => seq![s@],
        Strings::StringList(l) => l.deep_view(),
    }
}

/// A map holding just `name` with the single value `value`.
pub fn single_header(name: &str, value: &str) -> (out: HeaderMap)
    ensures
        out.view() == Map::<Seq<char>, Seq<Seq<char>>>::empty().insert(name@, seq![value@]),
{
    let mut out = HeaderMap::new();
    let mut values: Vec<String> = Vec::new();
    values.push(String::from_str(value));
    assert(values.deep_view() =~= seq![value@]);
    out.insert(String::from_str(name), values);
    out
}

} // verus!
