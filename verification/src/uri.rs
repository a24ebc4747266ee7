use vstd::prelude::*;

use crate::codec::{form_urlencoded_pairs, pairs_view, parse_form_urlencoded};
use crate::text::{
    chars_of, clone_strings, first_occurrence_from, lemma_first_occurrence_from, occurs_at, split,
    split_spec, str_eq, string_of_range,
};

verus! {

/// The map that (name, value) pairs give when collected one after the other: a later pair
/// wins over an earlier one with the same name.
pub open spec fn pairs_to_map(pairs: Seq<(Seq<char>, Seq<char>)>) -> Map<Seq<char>, Seq<char>>
    decreases pairs.len(),
{
    if pairs.len() == 0 {
        Map::empty()
    } else {
        pairs_to_map(pairs.drop_last()).insert(pairs.last().0, pairs.last().1)
    }
}

/// No name occurs twice.
pub open spec fn distinct_names(pairs: Seq<(Seq<char>, Seq<char>)>) -> bool {
    forall|i: int, j: int| 0 <= i < pairs.len() && 0 <= j < pairs.len() && i != j ==> pairs[i].0 != pairs[j].0
}

proof fn lemma_pairs_to_map_lookup(p: Seq<(Seq<char>, Seq<char>)>)
    requires
        distinct_names(p),
    ensures
        forall|k: Seq<char>| #[trigger] pairs_to_map(p).dom().contains(k) <==> exists|i: int|
            0 <= i < p.len() && p[i].0 == k,
    decreases p.len(),
{
    if p.len() > 0 {
        let d = p.drop_last();
        assert(distinct_names(d));
        lemma_pairs_to_map_lookup(d);
        assert forall|k: Seq<char>| #[trigger] pairs_to_map(p).dom().contains(k) implies exists|i: int|
            0 <= i < p.len() && p[i].0 == k by {
            if k != p.last().0 {
                assert(pairs_to_map(d).dom().contains(k));
                let i = choose|i: int| 0 <= i < d.len() && d[i].0 == k;
                assert(p[i] == d[i]);
            } else {
                assert(p[p.len() - 1].0 == k);
            }
        }
        assert forall|k: Seq<char>| (exists|i: int| 0 <= i < p.len() && p[i].0 == k) implies #[trigger] pairs_to_map(p).dom().contains(k) by {
            let i = choose|i: int| 0 <= i < p.len() && p[i].0 == k;
            if i < p.len() - 1 {
                assert(d[i].0 == k);
            }
        }
    }
}

proof fn lemma_pairs_to_map_update(p: Seq<(Seq<char>, Seq<char>)>, i: int, v: Seq<char>)
    requires
        distinct_names(p),
        0 <= i < p.len(),
    ensures
        pairs_to_map(p.update(i, (p[i].0, v))) == pairs_to_map(p).insert(p[i].0, v),
    decreases p.len(),
{
    let u = p.update(i, (p[i].0, v));
    if i == p.len() - 1 {
        assert(u.drop_last() =~= p.drop_last());
        assert(pairs_to_map(u) =~= pairs_to_map(p).insert(p[i].0, v));
    } else {
        let d = p.drop_last();
        assert(distinct_names(d));
        lemma_pairs_to_map_update(d, i, v);
        assert(p[i].0 != p.last().0);
        assert(u.drop_last() =~= d.update(i, (p[i].0, v)));
        assert(pairs_to_map(u) =~= pairs_to_map(p).insert(p[i].0, v));
    }
}

/// A map from names to values, each name held once.
pub struct ParamMap {
    entries: Vec<(String, String)>,
}

impl ParamMap {
    #[verifier::type_invariant]
    spec fn inv(self) -> bool {
        distinct_names(pairs_view(self.entries@))
    }

    /// The map the entries stand for.
    pub closed spec fn view(&self) -> Map<Seq<char>, Seq<char>> {
        pairs_to_map(pairs_view(self.entries@))
    }

    /// The empty map.
    pub fn new() -> (out: ParamMap)
        ensures
            out.view() == Map::<Seq<char>, Seq<char>>::empty(),
    {
        let out = ParamMap { entries: Vec::new() };
        assert(pairs_view(out.entries@) =~= Seq::empty());
        out
    }

    fn find(&self, name: &str) -> (r: Option<usize>)
        ensures
            match r {
                Some(i) => i < self.entries.len() && self.entries@[i as int].0@ == name@,
                None => forall|i: int| 0 <= i < self.entries.len() ==> self.entries@[i].0@ != name@,
            },
    {
        let mut i: usize = 0;
        while i < self.entries.len()
            invariant
                i <= self.entries.len(),
                forall|j: int| 0 <= j < i ==> self.entries@[j].0@ != name@,
            decreases self.entries.len() - i,
        {
            if str_eq(self.entries[i].0.as_str(), name) {
                return Some(i);
            }
            i = i + 1;
        }
        None
    }

    /// The value of a name, where the map holds it.
    pub fn get(&self, name: &str) -> (r: Option<&String>)
        ensures
            match r {
                Some(v) => self.view().dom().contains(name@) && v@ == self.view()[name@],
                None => !self.view().dom().contains(name@),
            },
    {
        proof {
            use_type_invariant(self);
            lemma_pairs_to_map_lookup(pairs_view(self.entries@));
        }
        match self.find(name) {
            Some(i) => {
                proof {
                    let p = pairs_view(self.entries@);
                    lemma_pairs_to_map_update(p, i as int, p[i as int].1);
                    assert(p.update(i as int, (p[i as int].0, p[i as int].1)) =~= p);
                }
                Some(&self.entries[i].1)
            },
            None => {
                assert forall|j: int| 0 <= j < pairs_view(self.entries@).len() implies pairs_view(self.entries@)[j].0 != name@ by {
                    assert(pairs_view(self.entries@)[j].0 == self.entries@[j].0@);
                }
                None
            },
        }
    }

    /// Sets the value of a name, replacing the value it had.
    pub fn insert(&mut self, name: String, value: String)
        ensures
            final(self).view() == old(self).view().insert(name@, value@),
    {
        proof {
            use_type_invariant(&*self);
        }
        let ghost e = pairs_view(self.entries@);
        match self.find(name.as_str()) {
            Some(i) => {
                let ghost vv = value@;
                proof {
                    lemma_pairs_to_map_update(e, i as int, vv);
                }
                let mut entries: Vec<(String, String)> = Vec::new();
                std::mem::swap(&mut entries, &mut self.entries);
                entries.set(i, (name, value));
                assert(pairs_view(entries@) =~= e.update(i as int, (e[i as int].0, vv)));
                self.entries = entries;
            },
            None => {
                let ghost k = name@;
                let ghost vv = value@;
                let mut entries: Vec<(String, String)> = Vec::new();
                std::mem::swap(&mut entries, &mut self.entries);
                entries.push((name, value));
                assert(pairs_view(entries@) =~= e.push((k, vv)));
                assert(pairs_view(entries@).drop_last() =~= e);
                assert forall|j: int| 0 <= j < e.len() implies e[j].0 != k by {
                    assert(e[j].0 == old(self).entries@[j].0@);
                }
                self.entries = entries;
            },
        }
    }

    /// The entries, each name once.
    pub fn entries(&self) -> (r: &Vec<(String, String)>)
        ensures
            pairs_to_map(pairs_view(r@)) == self.view(),
            distinct_names(pairs_view(r@)),
    {
        proof {
            use_type_invariant(self);
        }
        &self.entries
    }
}

/// Collects (name, value) pairs into a map, a later pair winning over an earlier one.
pub fn collect_pairs(pairs: &Vec<(String, String)>) -> (out: ParamMap)
    ensures
        out.view() == pairs_to_map(pairs_view(pairs@)),
{
    let mut out = ParamMap::new();
    let mut i: usize = 0;
    while i < pairs.len()
        invariant
            i <= pairs.len(),
            out.view() == pairs_to_map(pairs_view(pairs@).take(i as int)),
        decreases pairs.len() - i,
    {
        assert(pairs_view(pairs@).take(i + 1).drop_last() =~= pairs_view(pairs@).take(i as int));
        out.insert(pairs[i].0.clone(), pairs[i].1.clone());
        i = i + 1;
    }
    assert(pairs_view(pairs@).take(pairs.len() as int) =~= pairs_view(pairs@));
    out
}

} // verus!

verus! {

/// The last piece of a list that names something: neither empty nor `.`.
pub open spec fn last_named(pieces: Seq<Seq<char>>) -> Option<Seq<char>>
    decreases pieces.len(),
{
    if pieces.len() == 0 {
        None
    } else if pieces.last() == ""@ || pieces.last() == "."@ {
        last_named(pieces.drop_last())
    } else {
        Some(pieces.last())
    }
}

/// The file name of a path, as `Path::file_name` gives it: its last component that names
/// something, unless that is `..`.
pub open spec fn file_name_spec(path: Seq<char>) -> Option<Seq<char>> {
    match last_named(split_spec(path, "/"@)) {
        Some(p) => if p == ".."@ {
            None
        } else {
            Some(p)
        },
        None => None,
    }
}

/// The position of the last `c` in `s`, or -1.
pub open spec fn last_position(s: Seq<char>, c: char) -> int
    decreases s.len(),
{
    if s.len() == 0 {
        -1
    } else if s.last() == c {
        s.len() - 1
    } else {
        last_position(s.drop_last(), c)
    }
}

/// The extension of a path, as `Path::extension` gives it: what follows the last `.` of the
/// file name; nothing where there is no file name, no `.`, or only a leading `.`.
pub open spec fn path_extension_spec(path: Seq<char>) -> Option<Seq<char>> {
    match file_name_spec(path) {
        Some(f) => {
            let k = last_position(f, '.');
            if k <= 0 {
                None
            } else {
                Some(f.subrange(k + 1, f.len() as int))
            }
        },
        None => None,
    }
}

/// `s` up to the first `c`, or all of `s` where it has none (`split_once` keeping the head).
pub open spec fn before_first(s: Seq<char>, c: char) -> Seq<char> {
    let k = first_occurrence_from(s, seq![c], 0);
    if k < 0 {
        s
    } else {
        s.subrange(0, k)
    }
}

/// The extension that the uri parse operation reports: the path extension of the whole
/// address, cut at the first `?` and then at the first `#`.
pub open spec fn uri_extension_spec(url: Seq<char>) -> Seq<char> {
    let ext = match path_extension_spec(url) {
        Some(e) => e,
        None => Seq::empty(),
    };
    before_first(before_first(ext, '?'), '#')
}

fn last_named_exec(pieces: &Vec<String>) -> (r: Option<usize>)
    ensures
        match r {
            Some(i) => i < pieces.len() && last_named(pieces.deep_view()) == Some(pieces@[i as int]@),
            None => last_named(pieces.deep_view()) is None,
        },
{
    let ghost all = pieces.deep_view();
    let mut n: usize = pieces.len();
    assert(all.take(n as int) =~= all);
    while n > 0
        invariant
            all == pieces.deep_view(),
            n <= pieces.len(),
            last_named(all) == last_named(all.take(n as int)),
        decreases n,
    {
        let p = &pieces[n - 1];
        assert(all.take(n as int).last() == p@);
        assert(all.take(n as int).drop_last() =~= all.take(n - 1));
        if !(str_eq(p.as_str(), "") || str_eq(p.as_str(), ".")) {
            return Some(n - 1);
        }
        n = n - 1;
    }
    None
}

fn before_first_exec(s: &str, c: char) -> (out: String)
    ensures
        out@ == before_first(s@, c),
{
    let chars = chars_of(s);
    let ghost pat = seq![c];
    let mut i: usize = 0;
    while i < chars.len()
        invariant
            chars@ == s@,
            pat == seq![c],
            i <= chars.len(),
            forall|k: int| 0 <= k < i ==> chars@[k] != c,
        decreases chars.len() - i,
    {
        if chars[i] == c {
            proof {
                lemma_first_occurrence_from(s@, pat, 0);
                assert(occurs_at(s@, pat, i as int));
                let f = first_occurrence_from(s@, pat, 0);
                if f != i {
                    assert(s@[f + 0] == pat[0]);
                }
            }
            return string_of_range(&chars, 0, i);
        }
        i = i + 1;
    }
    proof {
        lemma_first_occurrence_from(s@, pat, 0);
        let f = first_occurrence_from(s@, pat, 0);
        if f != -1 {
            assert(s@[f + 0] == pat[0]);
        }
    }
    string_of_range(&chars, 0, chars.len())
}

/// The extension of a path, as `Path::extension` gives it.
pub fn path_extension(path: &str) -> (r: Option<String>)
    ensures
        match r {
            Some(e) => path_extension_spec(path@) == Some(e@),
            None => path_extension_spec(path@) is None,
        },
{
    let pieces = split(path, "/");
    proof {
        reveal_strlit("/");
    }
    match last_named_exec(&pieces) {
        None => None,
        Some(i) => {
            let f = &pieces[i];
            if str_eq(f.as_str(), "..") {
                return None;
            }
            let chars = chars_of(f.as_str());
            let mut n: usize = chars.len();
            assert(chars@.take(n as int) =~= chars@);
            while n > 0 && chars[n - 1] != '.'
                invariant
                    chars@ == f@,
                    n <= chars.len(),
                    last_position(chars@, '.') == last_position(chars@.take(n as int), '.'),
                decreases n,
            {
                assert(chars@.take(n as int).drop_last() =~= chars@.take(n - 1));
                n = n - 1;
            }
            if n <= 1 {
                proof {
                    if n == 1 {
                        assert(chars@.take(1).last() == '.');
                    }
                }
                None
            } else {
                assert(chars@.take(n as int).last() == '.');
                Some(string_of_range(&chars, n, chars.len()))
            }
        },
    }
}

/// The extension that the uri parse operation reports for an address.
pub fn uri_extension(url: &str) -> (out: String)
    ensures
        out@ == uri_extension_spec(url@),
{
    let ext = match path_extension(url) {
        Some(e) => e,
        None => String::new(),
    };
    let no_query = before_first_exec(ext.as_str(), '?');
    before_first_exec(no_query.as_str(), '#')
}

} // verus!

verus! {

/// What the url crate reads from an address, as plain values.
pub struct UrlParts {
    pub scheme: String,
    /// The host: a domain as written, or an address in its usual notation.
    pub host: Option<String>,
    /// The host as it stands in the address (an IPv6 address keeps its brackets).
    pub host_str: Option<String>,
    /// The port, or the scheme's usual one.
    pub port: Option<u16>,
    pub path: String,
    /// The segments of the path, where the address has a hierarchical path.
    pub path_segments: Option<Vec<String>>,
    pub query: Option<String>,
    pub fragment: Option<String>,
    pub username: String,
    pub password: Option<String>,
}

/// [`UrlParts`] as abstract values.
pub struct UrlPartsView {
    pub scheme: Seq<char>,
    pub host: Option<Seq<char>>,
    pub host_str: Option<Seq<char>>,
    pub port: Option<u16>,
    pub path: Seq<char>,
    pub path_segments: Option<Seq<Seq<char>>>,
    pub query: Option<Seq<char>>,
    pub fragment: Option<Seq<char>>,
    pub username: Seq<char>,
    pub password: Option<Seq<char>>,
}

/// An optional string as an optional abstract value.
pub open spec fn opt_str(o: Option<String>) -> Option<Seq<char>> {
    match o {
        Some(s) => Some(s@),
        None => None,
    }
}

/// [`UrlParts`] as abstract values.
pub open spec fn parts_view(p: UrlParts) -> UrlPartsView {
    UrlPartsView {
        scheme: p.scheme@,
        host: opt_str(p.host),
        host_str: opt_str(p.host_str),
        port: p.port,
        path: p.path@,
        path_segments: match p.path_segments {
            Some(v) => Some(v.deep_view()),
            None => None,
        },
        query: opt_str(p.query),
        fragment: opt_str(p.fragment),
        username: p.username@,
        password: opt_str(p.password),
    }
}

/// Whether the url crate's `Url::parse` accepts an address.
pub uninterp spec fn url_parses(text: Seq<char>) -> bool;

/// The scheme, host (a domain as written, or an address in its usual notation), host as
/// written in the address, and port (or the scheme's usual one) that the url crate reads from
/// an address it accepts.
pub uninterp spec fn url_location(text: Seq<char>) -> (Seq<char>, Option<Seq<char>>, Option<Seq<char>>, Option<u16>);

/// The path, path segments (for a hierarchical path), query, fragment, user name and password
/// that the url crate reads from an address it accepts.
pub uninterp spec fn url_resource(text: Seq<char>) -> (Seq<char>, Option<Seq<Seq<char>>>, Option<Seq<char>>, Option<Seq<char>>, Seq<char>, Option<Seq<char>>);

/// What the url crate reads from an address, or `None` where it refuses the address.
pub open spec fn parsed_url(text: Seq<char>) -> Option<UrlPartsView> {
    if url_parses(text) {
        let l = url_location(text);
        let r = url_resource(text);
        Some(UrlPartsView {
            scheme: l.0,
            host: l.1,
            host_str: l.2,
            port: l.3,
            path: r.0,
            path_segments: r.1,
            query: r.2,
            fragment: r.3,
            username: r.4,
            password: r.5,
        })
    } else {
        None
    }
}

/// Calls `Url::parse` and reads the scheme, host, host string and port through its accessors.
/// Claims only that the outcome is the named result.
#[verifier::external_body]
fn parse_url_location(text: &str) -> (r: Option<(String, Option<String>, Option<String>, Option<u16>)>)
    ensures
        r is Some == url_parses(text@),
        r matches Some(l) ==> url_location(text@) == (l.0@, opt_str(l.1), opt_str(l.2), l.3),
{
    let u = url::Url::parse(text).ok()?;
    let host = u.host().map(|h| match h {
        url::Host::Domain(d) => d.to_string(),
        url::Host::Ipv4(a) => a.to_string(),
        url::Host::Ipv6(a) => a.to_string(),
    });
    Some((u.scheme().to_string(), host, u.host_str().map(String::from), u.port_or_known_default()))
}

/// Calls `Url::parse` and reads the path, path segments, query, fragment, user name and
/// password through its accessors. Claims only that the outcome is the named result.
#[verifier::external_body]
fn parse_url_resource(text: &str) -> (r: Option<(String, Option<Vec<String>>, Option<String>, Option<String>, String, Option<String>)>)
    ensures
        r is Some == url_parses(text@),
        r matches Some(p) ==> url_resource(text@) == (
            p.0@,
            match p.1 { Some(v) => Some(v.deep_view()), None => None },
            opt_str(p.2),
            opt_str(p.3),
            p.4@,
            opt_str(p.5),
        ),
{
    let u = url::Url::parse(text).ok()?;
    let segments = u.path_segments().map(|s| s.map(String::from).collect());
    let f = |o: Option<&str>| o.map(String::from);
    Some((u.path().to_string(), segments, f(u.query()), f(u.fragment()), u.username().to_string(), f(u.password())))
}

/// What the url crate reads from an address.
pub fn parse_url(text: &str) -> (r: Option<UrlParts>)
    ensures
        r is Some == parsed_url(text@) is Some,
        r is Some ==> parts_view(r.unwrap()) == parsed_url(text@).unwrap(),
{
    let l = parse_url_location(text)?;
    let p = parse_url_resource(text)?;
    let parts = UrlParts {
        scheme: l.0,
        host: l.1,
        host_str: l.2,
        port: l.3,
        path: p.0,
        path_segments: p.1,
        query: p.2,
        fragment: p.3,
        username: p.4,
        password: p.5,
    };
    Some(parts)
}

/// The parts of an address as the uri parse operation reports them.
pub struct Uri {
    pub scheme: String,
    pub host: String,
    pub host_segments: Vec<String>,
    pub port: Option<u32>,
    pub path: String,
    pub path_segments: Vec<String>,
    pub path_extension: String,
    pub query: String,
    pub query_params: ParamMap,
    pub fragment: Option<String>,
    pub username: Option<String>,
    pub password: Option<String>,
}

/// Whether the parts can be reported: the address has a host and a hierarchical path.
pub open spec fn reportable(p: UrlPartsView) -> bool {
    p.host_str is Some && p.path_segments is Some
}

/// The query parameters of a query: its form-urlencoded pairs, a later pair winning.
pub open spec fn query_params_spec(query: Option<Seq<char>>) -> Map<Seq<char>, Seq<char>> {
    match query {
        Some(q) => pairs_to_map(form_urlencoded_pairs(q)),
        None => Map::empty(),
    }
}

/// The report for an address and its parts.
pub open spec fn uri_matches(u: Uri, url: Seq<char>, p: UrlPartsView) -> bool {
    &&& u.scheme@ == p.scheme
    &&& u.host@ == (match p.host { Some(h) => h, None => Seq::empty() })
    &&& u.host_segments.deep_view() == split_spec(p.host_str.unwrap(), "."@)
    &&& u.port == (match p.port { Some(n) => Some(n as u32), None => None })
    &&& u.path@ == p.path
    &&& u.path_segments.deep_view() == p.path_segments.unwrap()
    &&& u.path_extension@ == uri_extension_spec(url)
    &&& u.query@ == (match p.query { Some(q) => q, None => Seq::empty() })
    &&& u.query_params.view() == query_params_spec(p.query)
    &&& opt_str(u.fragment) == p.fragment
    &&& opt_str(u.username) == Some(p.username)
    &&& opt_str(u.password) == p.password
}

fn clone_opt(o: &Option<String>) -> (r: Option<String>)
    ensures
        opt_str(r) == opt_str(*o),
{
    match o {
        Some(s) => Some(s.clone()),
        None => None,
    }
}

/// The report for an address whose parts have a host and a hierarchical path.
pub fn uri_from_parts(url: &str, parts: &UrlParts) -> (u: Uri)
    requires
        reportable(parts_view(*parts)),
    ensures
        uri_matches(u, url@, parts_view(*parts)),
{
    let host = match &parts.host {
        Some(h) => h.clone(),
        None => String::new(),
    };
    let host_segments = match &parts.host_str {
        Some(h) => split(h.as_str(), "."),
        None => Vec::new(),
    };
    proof {
        reveal_strlit(".");
    }
    let port = match parts.port {
        Some(n) => Some(n as u32),
        None => None,
    };
    let path_segments = match &parts.path_segments {
        Some(s) => clone_strings(s),
        None => Vec::new(),
    };
    let query = match &parts.query {
        Some(q) => q.clone(),
        None => String::new(),
    };
    let query_params = match &parts.query {
        Some(q) => {
            let pairs = parse_form_urlencoded(q.as_str());
            collect_pairs(&pairs)
        },
        None => ParamMap::new(),
    };
    Uri {
        scheme: parts.scheme.clone(),
        host,
        host_segments,
        port,
        path: parts.path.clone(),
        path_segments,
        path_extension: uri_extension(url),
        query,
        query_params,
        fragment: clone_opt(&parts.fragment),
        username: Some(parts.username.clone()),
        password: clone_opt(&parts.password),
    }
}

/// The error that the uri parse operation answers an address it cannot parse with.
pub struct PayloadError {
    pub code: u32,
    pub msg: String,
}

/// Why the uri parse operation gives no report.
pub enum UriFailure {
    /// The address does not parse: code 400, `Invalid URL`.
    Invalid(PayloadError),
    /// The address has no host or no hierarchical path, where the operation gives up.
    Unreportable,
}

/// The uri parse operation: the parts of an address; the 400 `Invalid URL` error where it does
/// not parse; `Unreportable` where it has no host or no hierarchical path.
pub fn parse(url: &str) -> (r: Result<Uri, UriFailure>)
    ensures
        match parsed_url(url@) {
            None => r matches Err(UriFailure::Invalid(e)) && e.code == 400 && e.msg@ == "Invalid URL"@,
            Some(p) => if reportable(p) {
                r matches Ok(u) && uri_matches(u, url@, p)
            } else {
                r matches Err(UriFailure::Unreportable)
            },
        },
{
    match parse_url(url) {
        None => Err(UriFailure::Invalid(PayloadError { code: 400, msg: String::from_str("Invalid URL") })),
        Some(parts) => {
            if parts.host_str.is_some() && parts.path_segments.is_some() {
                Ok(uri_from_parts(url, &parts))
            } else {
                Err(UriFailure::Unreportable)
            }
        },
    }
}

/// The parts of an address as the url parse operation was to report them.
pub struct Url {
    pub protocol: String,
    pub host: String,
    pub port: u32,
    pub path: String,
    pub path_fragements: Vec<String>,
    pub query: String,
    pub query_params: ParamMap,
}

} // verus!
