use vstd::prelude::*;

use crate::text::chars_of;

verus! {

/// The sizes of the YOLOv8 model that the detector accepts.
#[derive(Clone, Copy, Debug, PartialEq, Eq, Structural)]
pub enum ModelSize {
    N,
    S,
    M,
    L,
    X,
}

/// The size that a size name selects: "n", "s", "m", "l" or "x".
pub open spec fn size_of_name(name: Seq<char>) -> Option<ModelSize> {
    if name == seq!['n'] {
        Some(ModelSize::N)
    } else if name == seq!['s'] {
        Some(ModelSize::S)
    } else if name == seq!['m'] {
        Some(ModelSize::M)
    } else if name == seq!['l'] {
        Some(ModelSize::L)
    } else if name == seq!['x'] {
        Some(ModelSize::X)
    } else {
        None
    }
}

/// The detector model: its weights (safetensors bytes) and the size they are loaded as.
pub struct Model {
    pub weights: Vec<u8>,
    pub size: ModelSize,
}

impl Model {
    /// Accepts the weights for a model of the named size; refuses a size name other than
    /// n, s, m, l or x with the message the detector gives. The weights are not checked here:
    /// building the network from them (candle tensors, floats) is not part of this library, so
    /// bytes that are not valid safetensors, or lack a tensor, are accepted where the detector
    /// would fail on them while loading.
    pub fn new(data: Vec<u8>, model_size: &str) -> (out: Result<Model, String>)
        ensures
            match out {
                Ok(m) => size_of_name(model_size@) == Some(m.size) && m.weights@ == data@,
                Err(msg) => size_of_name(model_size@).is_none()
                    && msg@ == "invalid model size: must be n, s, m, l or x"@,
            },
    {
        let name = chars_of(model_size);
        let size = if name.len() != 1 {
            None
        } else if name[0] == 'n' {
            Some(ModelSize::N)
        } else if name[0] == 's' {
            Some(ModelSize::S)
        } else if name[0] == 'm' {
            Some(ModelSize::M)
        } else if name[0] == 'l' {
            Some(ModelSize::L)
        } else if name[0] == 'x' {
            Some(ModelSize::X)
        } else {
            None
        };
        assert(name.len() == 1 ==> name@ == seq![name@[0]]);
        match size {
            Some(size) => Ok(Model { weights: data, size }),
            None => Err(String::from_str("invalid model size: must be n, s, m, l or x")),
        }
    }
}

} // verus!
