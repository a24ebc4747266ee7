use vstd::prelude::*;

use crate::http::HeaderMap;
use crate::text::{
    first_occurrence_from, lemma_first_occurrence_from, occurs_at, split, split_from, split_spec, trim, trim_spec,
};

verus! {

/// The `x-forwarded-for` value that the operation reads: the first value of the header, or
/// the empty string where the header is absent.
pub open spec fn forwarded_for(headers: Map<Seq<char>, Seq<Seq<char>>>) -> Seq<char> {
    if headers.dom().contains("x-forwarded-for"@) {
        headers["x-forwarded-for"@][0]
    } else {
        Seq::empty()
    }
}

/// The client's address: the first entry of `x-forwarded-for`, trimmed, or the peer address
/// where that header is missing or empty.
pub open spec fn client_ip_spec(headers: Map<Seq<char>, Seq<Seq<char>>>, remote_addr: Seq<char>) -> Seq<char> {
    let xff = forwarded_for(headers);
    if xff.len() == 0 {
        remote_addr
    } else {
        trim_spec(split_spec(xff, ","@)[0])
    }
}

/// The client's address is the first `x-forwarded-for` entry whenever that header's first
/// value is not empty: the text before its first comma (the whole value where it has none),
/// trimmed, whatever follows.
pub proof fn law_first_forwarded_entry_wins(headers: Map<Seq<char>, Seq<Seq<char>>>, remote_addr: Seq<char>, k: int)
    requires
        forwarded_for(headers).len() > 0,
        0 <= k <= forwarded_for(headers).len(),
        forall|i: int| 0 <= i < k ==> forwarded_for(headers)[i] != ',',
        k == forwarded_for(headers).len() || forwarded_for(headers)[k] == ',',
    ensures
        client_ip_spec(headers, remote_addr) == trim_spec(forwarded_for(headers).take(k)),
{
    let xff = forwarded_for(headers);
    let p = ","@;
    reveal_strlit(",");
    assert(p.len() == 1 && p[0] == ',');
    lemma_first_occurrence_from(xff, p, 0);
    let r = first_occurrence_from(xff, p, 0);
    if k < xff.len() {
        assert(occurs_at(xff, p, k));
        assert(r == k) by {
            if r == -1 {
                assert(!occurs_at(xff, p, k));
            } else if r < k {
                assert(occurs_at(xff, p, r));
                assert(xff[r + 0] == p[0]);
            } else if r > k {
                assert(!occurs_at(xff, p, k));
            }
        }
        assert(split_from(xff, p, 0)[0] == xff.subrange(0, k));
    } else {
        assert(r == -1) by {
            if r != -1 {
                assert(occurs_at(xff, p, r));
                assert(xff[r + 0] == p[0]);
            }
        }
        assert(split_from(xff, p, 0)[0] == xff.subrange(0, xff.len() as int));
    }
    assert(xff.subrange(0, k) =~= xff.take(k));
}

/// The peer address is the answer exactly when there is no forwarded address: the header is
/// absent or its first value empty.
pub proof fn law_peer_address_only_without_forwarding(headers: Map<Seq<char>, Seq<Seq<char>>>, remote_addr: Seq<char>)
    requires
        forwarded_for(headers).len() == 0,
    ensures
        client_ip_spec(headers, remote_addr) == remote_addr,
{
}

/// The address that the http-client-ip operation reports for a request.
pub fn get_ip(headers: &HeaderMap, remote_addr: &str) -> (ip: String)
    requires
        headers.view().dom().contains("x-forwarded-for"@) ==> headers.view()["x-forwarded-for"@].len() > 0,
    ensures
        ip@ == client_ip_spec(headers.view(), remote_addr@),
{
    let first: Option<&String> = match headers.get("x-forwarded-for") {
        Some(values) => {
            assert(values.deep_view()[0] == values@[0]@);
            Some(&values[0])
        },
        None => None,
    };
    match first {
        Some(xff) if !xff.as_str().is_empty() => {
            let parts = split(xff.as_str(), ",");
            assert(parts.deep_view()[0] == parts@[0]@);
            trim(parts[0].as_str())
        },
        _ => String::from_str(remote_addr),
    }
}

} // verus!
