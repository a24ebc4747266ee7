use vstd::prelude::*;

verus! {

/// The greeting that the hello-world operation sends for a name: `Hello, ` followed by the name.
pub open spec fn greeting_text(name: Seq<char>) -> Seq<char> {
    "Hello, "@ + name
}

/// Builds the greeting for one name.
pub fn greet(name: &str) -> (out: String)
    ensures
        out@ == greeting_text(name@),
{
    let mut out = String::from_str("Hello, ");
    out.append(name);
    out
}

} // verus!

verus! {

/// The string operation `concatenate`: the left string followed by the right one.
pub fn concatenate(left: &str, right: &str) -> (out: String)
    ensures
        out@ == left@ + right@,
{
    let mut out = String::from_str(left);
    out.append(right);
    out
}

} // verus!
