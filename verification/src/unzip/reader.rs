use vstd::prelude::*;

verus! {

/// What the unzip operation asks its reader for: the archive's source.
pub struct Inputs {
    pub source: String,
}

} // verus!
