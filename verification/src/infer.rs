use vstd::prelude::*;

use crate::text::str_eq;

verus! {

/// The inference component's settings: where the model and tokenizer files lie.
pub struct RootConfig {
    pub model_dir: String,
    pub model: String,
    pub tokenizer: String,
}

impl Default for RootConfig {
    fn default() -> (r: RootConfig)
        ensures
            r.model_dir@ == Seq::<char>::empty(),
            r.model@ == Seq::<char>::empty(),
            r.tokenizer@ == Seq::<char>::empty(),
    {
        RootConfig { model_dir: String::new(), model: String::new(), tokenizer: String::new() }
    }
}

impl PartialEq for RootConfig {
    fn eq(&self, other: &RootConfig) -> (r: bool) {
        str_eq(self.model_dir.as_str(), other.model_dir.as_str()) && str_eq(self.model.as_str(), other.model.as_str())
            && str_eq(self.tokenizer.as_str(), other.tokenizer.as_str())
    }
}

impl vstd::std_specs::cmp::PartialEqSpecImpl for RootConfig {
    open spec fn obeys_eq_spec() -> bool {
        true
    }

    open spec fn eq_spec(&self, other: &RootConfig) -> bool {
        self.model_dir@ == other.model_dir@ && self.model@ == other.model@ && self.tokenizer@ == other.tokenizer@
    }
}

/// The generate operation's settings: it has none.
#[derive(Clone, Copy, Debug, PartialEq, Eq, Structural)]
pub struct Config {}

} // verus!
