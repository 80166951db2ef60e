use vstd::prelude::*;

use crate::error::DomainError;
use crate::frame::{extensions_view, DecodedFrame, FrameExtension, FrameView, TensorDtype};

verus! {

/// Extension tag that carries the first token position represented by a data frame.
pub const POSITION_START_EXTENSION_TAG: u8 = 2;

/// Validated input of one pipeline stage. Boundary activations are kept as the
/// IEEE-754 bit patterns of their little-endian `f32` words.
#[derive(Debug, PartialEq, Eq)]
pub enum StageInput {
    TokenIds { token_ids: Vec<u32>, position_start: u64 },
    Boundary { activation_bits: Vec<u32>, token_count: usize, position_start: u64 },
}

/// The little-endian 32-bit word at word index `i` of `b`.
pub open spec fn le_word(b: Seq<u8>, i: int) -> u32 {
    (b[4 * i] as int + b[4 * i + 1] as int * 256 + b[4 * i + 2] as int * 65536 + b[4 * i + 3] as int
        * 16777216) as u32
}

/// The little-endian 32-bit words of `b`.
pub open spec fn le_words(b: Seq<u8>) -> Seq<u32> {
    Seq::new((b.len() / 4) as nat, |i: int| le_word(b, i))
}

/// The big-endian eight bytes of `p`.
pub open spec fn be_bytes(p: u64) -> Seq<u8> {
    seq![
        (p >> 56u64) as u8,
        (p >> 48u64) as u8,
        (p >> 40u64) as u8,
        (p >> 32u64) as u8,
        (p >> 24u64) as u8,
        (p >> 16u64) as u8,
        (p >> 8u64) as u8,
        p as u8,
    ]
}

/// The number whose big-endian bytes are the eight bytes of `b`.
pub open spec fn be_value(b: Seq<u8>) -> u64 {
    (b[0] as u64) << 56u64 | (b[1] as u64) << 48u64 | (b[2] as u64) << 40u64 | (b[3] as u64)
        << 32u64 | (b[4] as u64) << 24u64 | (b[5] as u64) << 16u64 | (b[6] as u64) << 8u64 | (
    b[7] as u64)
}

pub open spec fn is_position_extension(e: (u8, Seq<u8>)) -> bool {
    e.0 == POSITION_START_EXTENSION_TAG
}

/// The position extensions among `e`, in order.
pub open spec fn position_extensions(e: Seq<(u8, Seq<u8>)>) -> Seq<(u8, Seq<u8>)> {
    e.filter(|x: (u8, Seq<u8>)| is_position_extension(x))
}

/// A frame's first token position: it must carry exactly one position
/// extension, of exactly eight bytes.
pub open spec fn spec_position_start(e: Seq<(u8, Seq<u8>)>) -> Result<u64, DomainError> {
    let p = position_extensions(e);
    if p.len() == 1 && p[0].1.len() == 8 {
        Ok(be_value(p[0].1))
    } else {
        Err(DomainError::FrameInvalid)
    }
}

/// A token tensor has one dimension equal to the number of tokens.
pub open spec fn token_shape_ok(dimensions: Seq<u32>, token_count: int) -> bool {
    dimensions.len() == 1 && dimensions[0] == token_count
}

/// A boundary tensor is `tokens x width`, both non-zero, matching the element count.
pub open spec fn boundary_shape_ok(dimensions: Seq<u32>, element_count: int) -> bool {
    &&& dimensions.len() == 2
    &&& dimensions[0] != 0
    &&& dimensions[1] != 0
    &&& dimensions[0] as int * dimensions[1] as int == element_count
}

/// The stage input a frame carries, given by its content: the first stage takes
/// a one-dimensional `u32` tensor of token ids, later stages a two-dimensional
/// `f32` tensor of activations; any other element type is unsupported.
pub open spec fn spec_stage_input(f: FrameView, first_stage: bool) -> Result<
    (Seq<u32>, int, u64, bool),
    DomainError,
> {
    match f.envelope.tensor {
        None => Err(DomainError::FrameInvalid),
        Some(tensor) => match spec_position_start(f.extensions) {
            Err(e) => Err(e),
            Ok(position) => if first_stage && tensor.0 == TensorDtype::U32 {
                if f.payload.len() % 4 != 0 || !token_shape_ok(tensor.1, (f.payload.len() / 4) as int) {
                    Err(DomainError::FrameInvalid)
                } else {
                    Ok((le_words(f.payload), (f.payload.len() / 4) as int, position, true))
                }
            } else if !first_stage && tensor.0 == TensorDtype::F32 {
                if f.payload.len() % 4 != 0 || !boundary_shape_ok(tensor.1, (f.payload.len() / 4) as int) {
                    Err(DomainError::FrameInvalid)
                } else {
                    Ok((le_words(f.payload), tensor.1[0] as int, position, false))
                }
            } else {
                Err(DomainError::FrameDtypeUnsupported)
            },
        },
    }
}

impl StageInput {
    /// The input as (words, token count, first position, whether it is token ids).
    pub open spec fn spec_parts(&self) -> (Seq<u32>, int, u64, bool) {
        match self {
            StageInput::TokenIds { token_ids, position_start } => (
                token_ids@,
                token_ids@.len() as int,
                *position_start,
                true,
            ),
            StageInput::Boundary { activation_bits, token_count, position_start } => (
                activation_bits@,
                *token_count as int,
                *position_start,
                false,
            ),
        }
    }
}

/// Splits `payload` into little-endian 32-bit words.
pub fn parse_words(payload: &[u8]) -> (r: Result<Vec<u32>, DomainError>)
    ensures
        r is Ok <==> payload@.len() % 4 == 0,
        r matches Ok(w) ==> w@ == le_words(payload@),
        r matches Err(e) ==> e == DomainError::FrameInvalid,
{
    if payload.len() % 4 != 0 {
        return Err(DomainError::FrameInvalid);
    }
    let len = payload.len();
    let count = len / 4;
    let mut words: Vec<u32> = Vec::new();
    let mut i: usize = 0;
    while i < count
        invariant
            i <= count,
            len == payload@.len(),
            count == payload@.len() / 4,
            payload@.len() % 4 == 0,
            words@ == le_words(payload@).subrange(0, i as int),
        decreases count - i,
    {
        assert(4 * i + 3 < len);
        let b0 = payload[4 * i] as u32;
        let b1 = payload[4 * i + 1] as u32;
        let b2 = payload[4 * i + 2] as u32;
        let b3 = payload[4 * i + 3] as u32;
        let word = b0 + b1 * 256 + b2 * 65536 + b3 * 16777216;
        words.push(word);
        i += 1;
        assert(words@ =~= le_words(payload@).subrange(0, i as int));
    }
    assert(le_words(payload@).subrange(0, count as int) =~= le_words(payload@));
    Ok(words)
}

/// Checks that a token tensor's shape matches the number of tokens.
pub fn validate_token_shape(dimensions: &[u32], token_count: usize) -> (r: Result<(), DomainError>)
    ensures
        r is Ok <==> token_shape_ok(dimensions@, token_count as int),
        r matches Err(e) ==> e == DomainError::FrameInvalid,
{
    if dimensions.len() != 1 || dimensions[0] as usize != token_count {
        return Err(DomainError::FrameInvalid);
    }
    Ok(())
}

/// The number of tokens in a `tokens x width` boundary tensor.
pub fn boundary_token_count(dimensions: &[u32], element_count: usize) -> (r: Result<usize, DomainError>)
    ensures
        r is Ok <==> boundary_shape_ok(dimensions@, element_count as int),
        r matches Ok(n) ==> n == dimensions@[0],
        r matches Err(e) ==> e == DomainError::FrameInvalid,
{
    if dimensions.len() != 2 {
        return Err(DomainError::FrameInvalid);
    }
    let token_count = dimensions[0] as usize;
    let width = dimensions[1] as usize;
    if token_count == 0 || width == 0 {
        return Err(DomainError::FrameInvalid);
    }
    match token_count.checked_mul(width) {
        Some(expected) => {
            if expected != element_count {
                return Err(DomainError::FrameInvalid);
            }
        },
        None => {
            assert(token_count as int * width as int > usize::MAX);
            return Err(DomainError::FrameInvalid);
        },
    }
    Ok(token_count)
}

pub proof fn lemma_be_round_trip(p: u64)
    ensures
        be_value(be_bytes(p)) == p,
{
    let b = be_bytes(p);
    let b0 = b[0];
    let b1 = b[1];
    let b2 = b[2];
    let b3 = b[3];
    let b4 = b[4];
    let b5 = b[5];
    let b6 = b[6];
    let b7 = b[7];
    assert(b0 == (p >> 56u64) as u8);
    assert(b7 == p as u8);
    assert((b0 as u64) << 56u64 | (b1 as u64) << 48u64 | (b2 as u64) << 40u64 | (b3 as u64) << 32u64
        | (b4 as u64) << 24u64 | (b5 as u64) << 16u64 | (b6 as u64) << 8u64 | (b7 as u64) == p)
        by (bit_vector)
        requires
            b0 == (p >> 56u64) as u8,
            b1 == (p >> 48u64) as u8,
            b2 == (p >> 40u64) as u8,
            b3 == (p >> 32u64) as u8,
            b4 == (p >> 24u64) as u8,
            b5 == (p >> 16u64) as u8,
            b6 == (p >> 8u64) as u8,
            b7 == p as u8,
    ;
}

/// The position extension for a frame whose first token is at `position_start`.
pub fn position_extension(position_start: u64) -> (r: FrameExtension)
    ensures
        r@ == (POSITION_START_EXTENSION_TAG, be_bytes(position_start)),
{
    let p = position_start;
    let value = vec![
        (p >> 56u64) as u8,
        (p >> 48u64) as u8,
        (p >> 40u64) as u8,
        (p >> 32u64) as u8,
        (p >> 24u64) as u8,
        (p >> 16u64) as u8,
        (p >> 8u64) as u8,
        p as u8,
    ];
    assert(value@ =~= be_bytes(p));
    FrameExtension { tag: POSITION_START_EXTENSION_TAG, value }
}

/// Reads a frame's first token position from its extensions.
pub fn position_start(extensions: &Vec<FrameExtension>) -> (r: Result<u64, DomainError>)
    ensures
        r == spec_position_start(extensions_view(extensions@)),
{
    let ghost all = extensions_view(extensions@);
    let ghost pred = |x: (u8, Seq<u8>)| is_position_extension(x);
    let mut found: Option<usize> = None;
    let mut count: usize = 0;
    let mut i: usize = 0;
    while i < extensions.len()
        invariant
            i <= extensions.len(),
            all == extensions_view(extensions@),
            pred == (|x: (u8, Seq<u8>)| is_position_extension(x)),
            count == all.subrange(0, i as int).filter(pred).len(),
            count <= i,
            count == 0 <==> found is None,
            found matches Some(j) ==> j < i && all.subrange(0, i as int).filter(pred)[0] == all[j as int],
        decreases extensions.len() - i,
    {
        proof {
            reveal_with_fuel(Seq::<_>::filter, 1);
            assert(all.subrange(0, i + 1).drop_last() =~= all.subrange(0, i as int));
            assert(all.subrange(0, i + 1).last() == all[i as int]);
            assert(all[i as int] == extensions@[i as int]@);
        }
        if extensions[i].tag == POSITION_START_EXTENSION_TAG {
            if found.is_none() {
                found = Some(i);
            }
            proof {
                let before = all.subrange(0, i as int).filter(pred);
                assert(all.subrange(0, i + 1).filter(pred) == before.push(all[i as int]));
            }
            count += 1;
        }
        i += 1;
    }
    assert(all.subrange(0, extensions@.len() as int) =~= all);
    if count != 1 {
        return Err(DomainError::FrameInvalid);
    }
    let j = match found {
        Some(j) => j,
        None => return Err(DomainError::FrameInvalid),
    };
    let value = &extensions[j].value;
    if value.len() != 8 {
        return Err(DomainError::FrameInvalid);
    }
    let r = (value[0] as u64) << 56u64 | (value[1] as u64) << 48u64 | (value[2] as u64) << 40u64 | (
    value[3] as u64) << 32u64 | (value[4] as u64) << 24u64 | (value[5] as u64) << 16u64 | (
    value[6] as u64) << 8u64 | (value[7] as u64);
    Ok(r)
}

/// Validates and decodes the input a pipeline stage receives in `frame`.
pub fn parse_stage_input(frame: &DecodedFrame, first_stage: bool) -> (r: Result<StageInput, DomainError>)
    ensures
        match (r, spec_stage_input(frame@, first_stage)) {
            (Ok(input), Ok(parts)) => input.spec_parts() == parts,
            (Err(e), Err(s)) => e == s,
            _ => false,
        },
{
    let tensor = match &frame.envelope.tensor {
        Some(t) => t,
        None => return Err(DomainError::FrameInvalid),
    };
    let position = match position_start(&frame.extensions) {
        Ok(p) => p,
        Err(e) => return Err(e),
    };
    if first_stage && tensor.dtype == TensorDtype::U32 {
        let token_ids = match parse_words(frame.payload.as_slice()) {
            Ok(w) => w,
            Err(e) => return Err(e),
        };
        match validate_token_shape(tensor.dimensions.as_slice(), token_ids.len()) {
            Ok(()) => {},
            Err(e) => return Err(e),
        }
        Ok(StageInput::TokenIds { token_ids, position_start: position })
    } else if !first_stage && tensor.dtype == TensorDtype::F32 {
        let activation_bits = match parse_words(frame.payload.as_slice()) {
            Ok(w) => w,
            Err(e) => return Err(e),
        };
        let token_count = match boundary_token_count(
            tensor.dimensions.as_slice(),
            activation_bits.len(),
        ) {
            Ok(n) => n,
            Err(e) => return Err(e),
        };
        Ok(StageInput::Boundary { activation_bits, token_count, position_start: position })
    } else {
        Err(DomainError::FrameDtypeUnsupported)
    }
}

/// The first token position of a stage frame, parsed as the element type implies.
pub fn stage_position(frame: &DecodedFrame) -> (r: Result<u64, DomainError>)
    ensures
        ({
            let first = match frame@.envelope.tensor {
                Some(t) => t.0 == TensorDtype::U32,
                None => false,
            };
            match (r, spec_stage_input(frame@, first)) {
                (Ok(p), Ok(parts)) => p == parts.2,
                (Err(e), Err(s)) => e == s,
                _ => false,
            }
        }),
{
    let first = match &frame.envelope.tensor {
        Some(t) => t.dtype == TensorDtype::U32,
        None => false,
    };
    match parse_stage_input(frame, first) {
        Ok(StageInput::TokenIds { position_start, .. }) => Ok(position_start),
        Ok(StageInput::Boundary { position_start, .. }) => Ok(position_start),
        Err(e) => Err(e),
    }
}

/// A frame that carries only the extension written for position `p` reads back `p`.
pub proof fn law_position_extension_round_trip(p: u64)
    ensures
        spec_position_start(seq![(POSITION_START_EXTENSION_TAG, be_bytes(p))]) == Ok::<
            u64,
            DomainError,
        >(p),
{
    let e = seq![(POSITION_START_EXTENSION_TAG, be_bytes(p))];
    reveal_with_fuel(Seq::<_>::filter, 2);
    assert(e.drop_last() =~= Seq::<(u8, Seq<u8>)>::empty());
    assert(position_extensions(e) =~= e);
    lemma_be_round_trip(p);
}

} // verus!
