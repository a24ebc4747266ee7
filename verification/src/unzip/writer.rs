use vstd::prelude::*;

verus! {

/// The first packet that the unzip operation sends its writer for a file: where it goes.
pub struct InputFirst {
    pub dest: String,
}

} // verus!
