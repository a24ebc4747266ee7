use vstd::prelude::*;

use crate::numbers::{decimal_spec, decimal_text};
use crate::text::{replace, replace_spec};

verus! {

/// The integer that four bytes hold in little-endian order, read as a signed 32-bit value.
pub open spec fn le_i32(b0: u8, b1: u8, b2: u8, b3: u8) -> i32 {
    (b0 as int + 256 * (b1 as int) + 65536 * (b2 as int) + 16777216 * (b3 as int)) as u32 as i32
}

/// Reads a little-endian `i32` at `offset`; `None` where fewer than four bytes are left.
pub fn read_i32(bytes: &[u8], offset: usize) -> (r: Option<i32>)
    ensures
        match r {
            Some(v) => offset + 4 <= bytes@.len() && v == le_i32(
                bytes@[offset as int],
                bytes@[offset + 1],
                bytes@[offset + 2],
                bytes@[offset + 3],
            ),
            None => offset + 4 > bytes@.len(),
        },
{
    if bytes.len() < 4 || offset > bytes.len() - 4 {
        return None;
    }
    let v: u32 = bytes[offset] as u32 + 256 * (bytes[offset + 1] as u32) + 65536 * (bytes[offset + 2] as u32)
        + 16777216 * (bytes[offset + 3] as u32);
    Some(v as i32)
}

/// The sizes that head a llama2.c checkpoint. The norm epsilon that the loader sets beside
/// them is a float and is not held here.
#[derive(Clone, Copy, Debug, PartialEq, Eq, Structural)]
pub struct Config {
    pub dim: usize,
    pub hidden_dim: usize,
    pub n_layers: usize,
    pub n_heads: usize,
    pub n_kv_heads: usize,
    pub vocab_size: usize,
    pub seq_len: usize,
}

/// The `i32` at the `k`-th header position of a checkpoint.
pub open spec fn header_field(bytes: Seq<u8>, k: int) -> i32 {
    le_i32(bytes[4 * k], bytes[4 * k + 1], bytes[4 * k + 2], bytes[4 * k + 3])
}

impl Config {
    /// Reads the checkpoint header: seven little-endian `i32`, each taken as a `usize`; `None`
    /// where the bytes end before the header does.
    pub fn from_bytes(bytes: &[u8]) -> (r: Option<Config>)
        ensures
            match r {
                Some(c) => bytes@.len() >= 28 && {
                    &&& c.dim == header_field(bytes@, 0) as usize
                    &&& c.hidden_dim == header_field(bytes@, 1) as usize
                    &&& c.n_layers == header_field(bytes@, 2) as usize
                    &&& c.n_heads == header_field(bytes@, 3) as usize
                    &&& c.n_kv_heads == header_field(bytes@, 4) as usize
                    &&& c.vocab_size == header_field(bytes@, 5) as usize
                    &&& c.seq_len == header_field(bytes@, 6) as usize
                },
                None => bytes@.len() < 28,
            },
    {
        if bytes.len() < 28 {
            return None;
        }
        let dim = read_i32(bytes, 0).unwrap();
        let hidden_dim = read_i32(bytes, 4).unwrap();
        let n_layers = read_i32(bytes, 8).unwrap();
        let n_heads = read_i32(bytes, 12).unwrap();
        let n_kv_heads = read_i32(bytes, 16).unwrap();
        let vocab_size = read_i32(bytes, 20).unwrap();
        let seq_len = read_i32(bytes, 24).unwrap();
        Some(Config {
            dim: dim as usize,
            hidden_dim: hidden_dim as usize,
            n_layers: n_layers as usize,
            n_heads: n_heads as usize,
            n_kv_heads: n_kv_heads as usize,
            vocab_size: vocab_size as usize,
            seq_len: seq_len as usize,
        })
    }

    /// The size of one attention head: the model width shared among the heads.
    pub fn head_size(&self) -> (r: usize)
        requires
            self.n_heads > 0,
        ensures
            r == self.dim / self.n_heads,
    {
        self.dim / self.n_heads
    }
}

/// The causal mask for `t` positions, row by row: 1 where a position would look ahead of the
/// row's own, 0 elsewhere.
pub open spec fn causal_mask_spec(t: nat) -> Seq<u8> {
    Seq::new(t * t, |k: int| if k % (t as int) > k / (t as int) { 1u8 } else { 0u8 })
}

/// The causal mask for `t` positions.
pub fn causal_mask(t: usize) -> (out: Vec<u8>)
    requires
        t * t <= usize::MAX,
    ensures
        out@ == causal_mask_spec(t as nat),
{
    let mut out: Vec<u8> = Vec::new();
    let mut i: usize = 0;
    while i < t
        invariant
            t * t <= usize::MAX,
            i <= t,
            out@.len() == i * t,
            forall|k: int| 0 <= k < out@.len() ==> #[trigger] out@[k] == (if k % (t as int) > k / (t as int) { 1u8 } else { 0u8 }),
        decreases t - i,
    {
        let mut j: usize = 0;
        while j < t
            invariant
                t * t <= usize::MAX,
                i < t,
                j <= t,
                out@.len() == i * t + j,
                forall|k: int| 0 <= k < out@.len() ==> #[trigger] out@[k] == (if k % (t as int) > k / (t as int) { 1u8 } else { 0u8 }),
            decreases t - j,
        {
            let ghost k = (i * t + j) as int;
            assert(k % (t as int) == j as int && k / (t as int) == i as int) by (nonlinear_arith)
                requires
                    k == i * t + j,
                    j < t,
                    0 <= i,
                    0 <= j,
            ;
            if j > i {
                out.push(1u8);
            } else {
                out.push(0u8);
            }
            j = j + 1;
        }
        assert((i + 1) * t == i * t + t) by (nonlinear_arith);
        i = i + 1;
    }
    assert(out@ =~= causal_mask_spec(t as nat));
    out
}

/// Where the generation loop stands: the next step's number, and how many tokens it holds.
/// The step's input starts at the returned position (all tokens at the first step, the last
/// one after); `None` where the loop stops: the tokens fill the model's window or the steps
/// reach the limit.
pub fn next_context(index: usize, n_tokens: usize, seq_len: usize, max_seq: usize) -> (r: Option<usize>)
    ensures
        match r {
            Some(start) => n_tokens < seq_len && index < max_seq && start == (if index > 0 {
                if n_tokens >= 1 { n_tokens - 1 } else { 0 }
            } else {
                0
            }),
            None => n_tokens >= seq_len || index >= max_seq,
        },
{
    if n_tokens >= seq_len || index >= max_seq {
        return None;
    }
    let context_size: usize = if index > 0 { 1 } else { n_tokens };
    Some(n_tokens.saturating_sub(context_size))
}

/// Where the window of tokens that the repeat penalty looks at starts: the last
/// `repeat_last_n` tokens, or all of them where there are fewer.
pub fn repeat_start(n_tokens: usize, repeat_last_n: usize) -> (r: usize)
    ensures
        r == (if n_tokens >= repeat_last_n { n_tokens - repeat_last_n } else { 0 }),
{
    n_tokens.saturating_sub(repeat_last_n)
}

/// The text sent for a generated token: the tokenizer's word-start mark `▁` becomes a space
/// and the byte token `<0x0A>` a line break.
pub open spec fn token_text_spec(token: Seq<char>) -> Seq<char> {
    replace_spec(replace_spec(token, "\u{2581}"@, " "@), "<0x0A>"@, "\n"@)
}

/// The text sent for a generated token.
pub fn token_text(token: &str) -> (out: String)
    ensures
        out@ == token_text_spec(token@),
{
    let spaced = replace(token, "\u{2581}", " ");
    replace(spaced.as_str(), "<0x0A>", "\n")
}

/// Which checkpoint tensor a named weight of the model is taken from.
#[derive(Clone, Copy, Debug, PartialEq, Eq, Structural)]
pub enum WeightSource {
    /// The real part of the rotary frequency table.
    FreqCisReal,
    /// The imaginary part of the rotary frequency table.
    FreqCisImag,
    /// The token embedding table.
    TokenEmbedding,
    /// The token embedding table again, as the output head (laid out transposed on a CPU
    /// without MKL).
    OutputHead,
    /// The final RMS norm weight.
    FinalNorm,
    /// A layer's slice of the query projection (`wq`).
    Query(usize),
    /// A layer's slice of the key projection (`wk`).
    Key(usize),
    /// A layer's slice of the value projection (`wv`).
    Value(usize),
    /// A layer's slice of the attention output projection (`wo`).
    AttentionOutput(usize),
    /// A layer's slice of the feed-forward gate projection (`w1`).
    Gate(usize),
    /// A layer's slice of the feed-forward down projection (`w2`).
    Down(usize),
    /// A layer's slice of the feed-forward up projection (`w3`).
    Up(usize),
    /// A layer's slice of the attention RMS norm weight.
    AttentionNorm(usize),
    /// A layer's slice of the feed-forward RMS norm weight.
    FeedForwardNorm(usize),
}

/// The names under which the weights of one layer are handed to the model, with their sources.
pub open spec fn layer_weights(layer: usize) -> Seq<(Seq<char>, WeightSource)> {
    let p = "model.layers."@ + decimal_spec(layer as nat);
    seq![
        (p + ".self_attn.q_proj.weight"@, WeightSource::Query(layer)),
        (p + ".self_attn.k_proj.weight"@, WeightSource::Key(layer)),
        (p + ".self_attn.v_proj.weight"@, WeightSource::Value(layer)),
        (p + ".self_attn.o_proj.weight"@, WeightSource::AttentionOutput(layer)),
        (p + ".mlp.gate_proj.weight"@, WeightSource::Gate(layer)),
        (p + ".mlp.down_proj.weight"@, WeightSource::Down(layer)),
        (p + ".mlp.up_proj.weight"@, WeightSource::Up(layer)),
        (p + ".input_layernorm.weight"@, WeightSource::AttentionNorm(layer)),
        (p + ".post_attention_layernorm.weight"@, WeightSource::FeedForwardNorm(layer)),
    ]
}

/// The names under which a checkpoint's weights are handed to the model: the rotary tables,
/// the embedding, the output head and the final norm, then each layer's weights in order.
pub open spec fn weight_names_spec(n_layers: nat) -> Seq<(Seq<char>, WeightSource)>
    decreases n_layers,
{
    if n_layers == 0 {
        seq![
            ("rot.freq_cis_real"@, WeightSource::FreqCisReal),
            ("rot.freq_cis_imag"@, WeightSource::FreqCisImag),
            ("model.embed_tokens.weight"@, WeightSource::TokenEmbedding),
            ("lm_head.weight"@, WeightSource::OutputHead),
            ("model.norm.weight"@, WeightSource::FinalNorm),
        ]
    } else {
        weight_names_spec((n_layers - 1) as nat) + layer_weights((n_layers - 1) as usize)
    }
}

/// The view of a list of named weights.
pub open spec fn named_weights_view(v: Seq<(String, WeightSource)>) -> Seq<(Seq<char>, WeightSource)> {
    v.map_values(|e: (String, WeightSource)| (e.0@, e.1))
}

fn layer_name(prefix: &String, suffix: &str) -> (out: String)
    ensures
        out@ == prefix@ + suffix@,
{
    let mut out = prefix.clone();
    out.append(suffix);
    out
}

/// The names under which a checkpoint's weights are handed to the model, with the tensor each
/// is taken from.
pub fn weight_names(n_layers: usize) -> (out: Vec<(String, WeightSource)>)
    ensures
        named_weights_view(out@) == weight_names_spec(n_layers as nat),
{
    let mut out: Vec<(String, WeightSource)> = Vec::new();
    out.push((String::from_str("rot.freq_cis_real"), WeightSource::FreqCisReal));
    out.push((String::from_str("rot.freq_cis_imag"), WeightSource::FreqCisImag));
    out.push((String::from_str("model.embed_tokens.weight"), WeightSource::TokenEmbedding));
    out.push((String::from_str("lm_head.weight"), WeightSource::OutputHead));
    out.push((String::from_str("model.norm.weight"), WeightSource::FinalNorm));
    assert(named_weights_view(out@) =~= weight_names_spec(0));
    let mut layer: usize = 0;
    while layer < n_layers
        invariant
            layer <= n_layers,
            named_weights_view(out@) == weight_names_spec(layer as nat),
        decreases n_layers - layer,
    {
        let ghost before = out@;
        let mut prefix = String::from_str("model.layers.");
        let number = decimal_text(layer as u64);
        prefix.append(number.as_str());
        assert(prefix@ == "model.layers."@ + decimal_spec(layer as nat));
        out.push((layer_name(&prefix, ".self_attn.q_proj.weight"), WeightSource::Query(layer)));
        out.push((layer_name(&prefix, ".self_attn.k_proj.weight"), WeightSource::Key(layer)));
        out.push((layer_name(&prefix, ".self_attn.v_proj.weight"), WeightSource::Value(layer)));
        out.push((layer_name(&prefix, ".self_attn.o_proj.weight"), WeightSource::AttentionOutput(layer)));
        out.push((layer_name(&prefix, ".mlp.gate_proj.weight"), WeightSource::Gate(layer)));
        out.push((layer_name(&prefix, ".mlp.down_proj.weight"), WeightSource::Down(layer)));
        out.push((layer_name(&prefix, ".mlp.up_proj.weight"), WeightSource::Up(layer)));
        out.push((layer_name(&prefix, ".input_layernorm.weight"), WeightSource::AttentionNorm(layer)));
        out.push((layer_name(&prefix, ".post_attention_layernorm.weight"), WeightSource::FeedForwardNorm(layer)));
        assert(named_weights_view(out@) =~= named_weights_view(before) + layer_weights(layer));
        layer = layer + 1;
    }
    out
}

} // verus!
