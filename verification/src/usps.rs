use vstd::prelude::*;

use crate::matching::{regex_compile_error, regex_replaced, replace_all_of};

verus! {

/// The root element of an address validation request, as serialised.
pub open spec fn request_root() -> Seq<char> {
    "<AddressValidateRequest>"@
}

/// The root element with the user id and the revision that the service expects.
pub open spec fn root_with_user_id(user_id: Seq<char>) -> Seq<char> {
    "<AddressValidateRequest USERID=\""@ + user_id + "\"><Revision>1</Revision>"@
}

/// The root element with the user id and the revision.
pub fn user_id_root(user_id: &str) -> (out: String)
    ensures
        out@ == root_with_user_id(user_id@),
{
    let mut out = String::from_str("<AddressValidateRequest USERID=\"");
    out.append(user_id);
    out.append("\"><Revision>1</Revision>");
    out
}

/// The request XML with the user id put in: every root element replaced, as a regex
/// replacement, by the root with the user id; `None` where the root pattern does not compile.
pub fn with_user_id(xml: &str, user_id: &str) -> (r: Option<String>)
    ensures
        r is Some == (regex_compile_error(request_root()) is None),
        r matches Some(s) ==> s@ == regex_replaced(request_root(), xml@, root_with_user_id(user_id@)),
{
    let root = user_id_root(user_id);
    let pattern = "<AddressValidateRequest>";
    proof {
        reveal_strlit("<AddressValidateRequest>");
    }
    replace_all_of(pattern, xml, root.as_str())
}

/// The two address fields that the verify operation fills in before sending: a missing first
/// address line becomes empty, a missing ZIP+4 becomes 0.
pub fn address_defaults(address1: Option<String>, zip4: Option<u32>) -> (out: (String, u32))
    ensures
        out.0@ == (match address1 { Some(a) => a@, None => Seq::empty() }),
        out.1 == (match zip4 { Some(z) => z, None => 0 }),
{
    let a = match address1 {
        Some(a) => a,
        None => String::new(),
    };
    let z = match zip4 {
        Some(z) => z,
        None => 0,
    };
    (a, z)
}

} // verus!
