use vstd::prelude::*;

use crate::error::DomainError;
use crate::loom_backend::is_finite_bits;
use crate::manifest::{text_is, LoomModelLayout};

verus! {

/// Bit pattern of the `f32` value 10000.0, the rotary frequency base used
/// when an artifact declares none.
pub const DEFAULT_ROPE_FREQUENCY_BASE_BITS: u32 = 0x461c_4000;

/// Whether the `f32` with bit pattern `bits` is finite and greater than zero.
pub open spec fn is_positive_finite_bits(bits: u32) -> bool {
    &&& is_finite_bits(bits)
    &&& bits & 0x8000_0000u32 == 0
    &&& bits & 0x7fff_ffffu32 != 0
}

/// The metadata of a GGUF artifact that Loom reads, each entry absent when the
/// artifact does not hold it with the expected type; `f32` entries are given
/// by their bit patterns.
pub struct LlamaMetadata {
    pub architecture: Option<String>,
    pub block_count: Option<u32>,
    pub embedding_width: Option<u32>,
    pub vocabulary_size: Option<u32>,
    pub attention_heads: Option<u32>,
    pub key_value_heads: Option<u32>,
    pub rope_dimension: Option<u32>,
    pub context_limit: Option<u32>,
    pub rms_epsilon_bits: Option<u32>,
    pub rope_frequency_base_bits: Option<u32>,
    /// The embedded tokenizer's token list: its length, and whether every
    /// entry is a string.
    pub tokenizer: Option<(usize, bool)>,
}

/// The dimensions of a Llama artifact that Loom accepts.
#[derive(Clone, Copy, Debug, PartialEq, Eq, Structural)]
pub struct LlamaLayout {
    pub block_count: u32,
    pub embedding_width: u32,
    pub vocabulary_size: u32,
    pub attention_heads: u32,
    pub key_value_heads: u32,
    pub rope_dimension: u32,
    pub context_limit: u32,
    pub rms_epsilon_bits: u32,
    pub rope_frequency_base_bits: u32,
}

/// Whether every dimension of `l` is usable: all non-zero, heads dividing the
/// width and key/value heads dividing the heads, the rotary dimension within
/// a head, and a positive finite norm epsilon and frequency base.
pub open spec fn layout_usable(l: LlamaLayout) -> bool {
    &&& l.block_count != 0
    &&& l.embedding_width != 0
    &&& l.vocabulary_size != 0
    &&& l.attention_heads != 0
    &&& l.key_value_heads != 0
    &&& l.rope_dimension != 0
    &&& l.context_limit != 0
    &&& l.embedding_width % l.attention_heads == 0
    &&& l.attention_heads % l.key_value_heads == 0
    &&& l.rope_dimension <= l.embedding_width / l.attention_heads
    &&& is_positive_finite_bits(l.rms_epsilon_bits)
    &&& is_positive_finite_bits(l.rope_frequency_base_bits)
}

/// The layout `m` declares, when every required entry is present: the
/// vocabulary defaults to the embedded tokenizer's size and the frequency base
/// to 10000.0.
pub open spec fn declared_layout(m: LlamaMetadata) -> Option<LlamaLayout> {
    match (
        m.block_count,
        m.embedding_width,
        m.attention_heads,
        m.key_value_heads,
        m.rope_dimension,
        m.context_limit,
        m.rms_epsilon_bits,
        m.tokenizer,
    ) {
        (
            Some(block_count),
            Some(embedding_width),
            Some(attention_heads),
            Some(key_value_heads),
            Some(rope_dimension),
            Some(context_limit),
            Some(rms_epsilon_bits),
            Some(tokenizer),
        ) => if tokenizer.0 > u32::MAX {
            None
        } else {
            Some(
                LlamaLayout {
                    block_count,
                    embedding_width,
                    vocabulary_size: match m.vocabulary_size {
                        Some(v) => v,
                        None => tokenizer.0 as u32,
                    },
                    attention_heads,
                    key_value_heads,
                    rope_dimension,
                    context_limit,
                    rms_epsilon_bits,
                    rope_frequency_base_bits: match m.rope_frequency_base_bits {
                        Some(b) => b,
                        None => DEFAULT_ROPE_FREQUENCY_BASE_BITS,
                    },
                },
            )
        },
        _ => None,
    }
}

/// Whether `m` describes a Llama artifact with one string token per vocabulary entry.
pub open spec fn is_llama(m: LlamaMetadata) -> bool {
    match m.architecture {
        Some(a) => a@ == "llama"@,
        None => false,
    }
}

/// Reads and checks the layout of a Llama artifact from its metadata.
pub fn llama_layout(m: &LlamaMetadata) -> (r: Result<LlamaLayout, DomainError>)
    ensures
        r is Ok <==> match declared_layout(*m) {
            Some(l) => {
                &&& is_llama(*m)
                &&& layout_usable(l)
                &&& m.tokenizer matches Some(t) && t.0 == l.vocabulary_size && t.1
            },
            None => false,
        },
        r matches Ok(l) ==> declared_layout(*m) == Some(l),
        r is Err ==> r == Err::<LlamaLayout, DomainError>(DomainError::BackendIncompatible),
{
    let missing = Err(DomainError::BackendIncompatible);
    let block_count = match m.block_count { Some(v) => v, None => return missing };
    let embedding_width = match m.embedding_width { Some(v) => v, None => return missing };
    let tokenizer = match m.tokenizer { Some(t) => t, None => return missing };
    if tokenizer.0 > u32::MAX as usize {
        return missing;
    }
    let vocabulary_size = match m.vocabulary_size { Some(v) => v, None => tokenizer.0 as u32 };
    let attention_heads = match m.attention_heads { Some(v) => v, None => return missing };
    let key_value_heads = match m.key_value_heads { Some(v) => v, None => return missing };
    let rope_dimension = match m.rope_dimension { Some(v) => v, None => return missing };
    let context_limit = match m.context_limit { Some(v) => v, None => return missing };
    let rms_epsilon_bits = match m.rms_epsilon_bits { Some(v) => v, None => return missing };
    let rope_frequency_base_bits = match m.rope_frequency_base_bits {
        Some(b) => b,
        None => DEFAULT_ROPE_FREQUENCY_BASE_BITS,
    };
    let layout = LlamaLayout {
        block_count,
        embedding_width,
        vocabulary_size,
        attention_heads,
        key_value_heads,
        rope_dimension,
        context_limit,
        rms_epsilon_bits,
        rope_frequency_base_bits,
    };
    assert(declared_layout(*m) == Some(layout));
    let llama = match &m.architecture {
        Some(a) => text_is(a, "llama"),
        None => false,
    };
    if !llama || block_count == 0 || embedding_width == 0 || vocabulary_size == 0
        || attention_heads == 0 || key_value_heads == 0 || rope_dimension == 0 || context_limit
        == 0 || embedding_width % attention_heads != 0 || attention_heads % key_value_heads != 0
        || rope_dimension > embedding_width / attention_heads || !positive_finite_bits(
        rms_epsilon_bits,
    ) || !positive_finite_bits(rope_frequency_base_bits) {
        return missing;
    }
    if tokenizer.0 != vocabulary_size as usize || !tokenizer.1 {
        return missing;
    }
    Ok(layout)
}

/// Whether the `f32` with bit pattern `bits` is finite and greater than zero.
pub fn positive_finite_bits(bits: u32) -> (r: bool)
    ensures
        r == is_positive_finite_bits(bits),
{
    (bits >> 23u32) & 0xffu32 != 0xffu32 && bits & 0x8000_0000u32 == 0 && bits & 0x7fff_ffffu32
        != 0
}

impl LlamaLayout {
    /// The dimensions the adapter checks against the plan.
    pub fn model_layout(&self) -> (r: LoomModelLayout)
        ensures
            r == (LoomModelLayout {
                layer_count: self.block_count,
                activation_width: self.embedding_width,
                vocabulary_size: self.vocabulary_size,
            }),
    {
        LoomModelLayout {
            layer_count: self.block_count,
            activation_width: self.embedding_width,
            vocabulary_size: self.vocabulary_size,
        }
    }

    /// Width of one attention head.
    pub fn head_dimension(&self) -> (r: u32)
        requires
            self.attention_heads != 0,
        ensures
            r == self.embedding_width / self.attention_heads,
    {
        self.embedding_width / self.attention_heads
    }
}

} // verus!
