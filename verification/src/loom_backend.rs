use vstd::prelude::*;

use crate::error::DomainError;
use crate::frame::{
    copy_text, DecodedFrame, EnvelopeView, FrameEnvelope, FrameMessageType, FrameTarget,
    FrameView, TensorDescriptor, TensorDtype,
};
use crate::manifest::{
    is_final_stage, LayerRange, shard_view, validate_model, LoomModelLayout, ModelManifest, ShardPlan, ShardSpec,
    spec_loom_compatible,
};
use crate::stage_input::{
    be_bytes, law_position_extension_round_trip, le_word, le_words, parse_stage_input,
    position_extension, spec_stage_input, stage_position, StageInput,
    POSITION_START_EXTENSION_TAG,
};

verus! {

/// Whether the IEEE-754 single-precision value with bit pattern `bits` is
/// finite: its exponent field is not all ones.
pub open spec fn is_finite_bits(bits: u32) -> bool {
    (bits >> 23u32) & 0xffu32 != 0xffu32
}

/// Whether every value of `words` is finite.
pub open spec fn all_finite(words: Seq<u32>) -> bool {
    forall|i: int| 0 <= i < words.len() ==> is_finite_bits(#[trigger] words[i])
}

/// `a * b`, saturated at the largest `usize`.
pub open spec fn saturating_product(a: int, b: int) -> int {
    if a * b > usize::MAX {
        usize::MAX as int
    } else {
        a * b
    }
}

/// The little-endian bytes of `words`, four per word.
pub open spec fn le_bytes(words: Seq<u32>) -> Seq<u8> {
    Seq::new((4 * words.len()) as nat, |k: int| (words[k / 4] >> (8 * (k % 4)) as u32) as u8)
}

/// Whether the IEEE-754 value with bit pattern `bits` is finite.
pub fn finite_bits(bits: u32) -> (r: bool)
    ensures
        r == is_finite_bits(bits),
{
    (bits >> 23u32) & 0xffu32 != 0xffu32
}

/// Whether every value of `words` is finite.
pub fn words_finite(words: &Vec<u32>) -> (r: bool)
    ensures
        r == all_finite(words@),
{
    let mut i: usize = 0;
    while i < words.len()
        invariant
            i <= words@.len(),
            forall|j: int| 0 <= j < i ==> is_finite_bits(#[trigger] words@[j]),
        decreases words.len() - i,
    {
        if !finite_bits(words[i]) {
            assert(!is_finite_bits(words@[i as int]));
            return false;
        }
        i += 1;
    }
    true
}

/// `a * b` saturated at the largest `usize`.
fn saturating_mul(a: usize, b: usize) -> (r: usize)
    ensures
        r == saturating_product(a as int, b as int),
{
    match a.checked_mul(b) {
        Some(p) => p,
        None => usize::MAX,
    }
}

/// Checks that a stage input fits the model: token ids must not be empty, and
/// boundary activations must be exactly `token_count x activation_width`
/// finite values.
pub fn validate_input_width(input: &StageInput, activation_width: u32) -> (r: Result<
    (),
    DomainError,
>)
    ensures
        r is Ok <==> match input {
            StageInput::TokenIds { token_ids, .. } => token_ids@.len() > 0,
            StageInput::Boundary { activation_bits, token_count, .. } => {
                &&& activation_bits@.len() == saturating_product(
                    *token_count as int,
                    activation_width as int,
                )
                &&& all_finite(activation_bits@)
            },
        },
        r is Err ==> r == Err::<(), DomainError>(DomainError::FrameInvalid),
{
    match input {
        StageInput::TokenIds { token_ids, .. } => {
            if token_ids.len() > 0 {
                Ok(())
            } else {
                Err(DomainError::FrameInvalid)
            }
        },
        StageInput::Boundary { activation_bits, token_count, .. } => {
            if activation_bits.len() != saturating_mul(*token_count, activation_width as usize) {
                return Err(DomainError::FrameInvalid);
            }
            if !words_finite(activation_bits) {
                return Err(DomainError::FrameInvalid);
            }
            Ok(())
        },
    }
}

/// Checks an inspected artifact against its plan: the layer count must match
/// the plan's, and the activation width and vocabulary must not be empty.
pub fn check_layout(layout: &LoomModelLayout, declared_layers: u32) -> (r: Result<(), DomainError>)
    ensures
        r is Ok <==> (layout.layer_count == declared_layers && layout.activation_width != 0
            && layout.vocabulary_size != 0),
        r is Err ==> r == Err::<(), DomainError>(DomainError::BackendIncompatible),
{
    if layout.layer_count != declared_layers || layout.activation_width == 0
        || layout.vocabulary_size == 0 {
        Err(DomainError::BackendIncompatible)
    } else {
        Ok(())
    }
}

/// The number of layers a plan covers: where its last shard ends.
pub open spec fn plan_layers(plan: ShardPlan) -> u32 {
    if plan.shards@.len() == 0 {
        0
    } else {
        plan.shards@.last().layer_range.end_exclusive
    }
}

/// The layers `plan` covers.
pub fn total_layers(plan: &ShardPlan) -> (r: u32)
    ensures
        r == plan_layers(*plan),
{
    let n = plan.shards.len();
    if n == 0 {
        0
    } else {
        plan.shards[n - 1].layer_range.end_exclusive
    }
}

/// Checks, before the artifact is inspected, that the session was not
/// cancelled, that Loom can run the model and that `shard` is part of its plan;
/// tells whether the shard is the last stage.
pub fn plan_stage(manifest: &ModelManifest, shard: &ShardSpec, cancelled: bool) -> (r: Result<
    bool,
    DomainError,
>)
    ensures
        cancelled ==> r == Err::<bool, DomainError>(DomainError::SessionCancelled),
        !cancelled && !spec_loom_compatible(*manifest) ==> r == Err::<bool, DomainError>(
            DomainError::BackendIncompatible,
        ),
        !cancelled && spec_loom_compatible(*manifest) ==> r == is_final_stage_result(
            *manifest,
            *shard,
        ),
{
    if cancelled {
        return Err(DomainError::SessionCancelled);
    }
    match validate_model(manifest) {
        Ok(()) => {},
        Err(e) => return Err(e),
    }
    let r = is_final_stage(manifest, shard);
    assert(r == is_final_stage_result(*manifest, *shard));
    r
}

/// What `is_final_stage` answers for `shard` in `manifest`'s plan.
pub open spec fn is_final_stage_result(manifest: ModelManifest, shard: ShardSpec) -> Result<
    bool,
    DomainError,
> {
    match manifest.execution_plan {
        None => Err(DomainError::ShardPlanInvalid),
        Some(plan) => {
            let shards = plan.shards@.map_values(|s: ShardSpec| crate::manifest::shard_view(s));
            if shards.contains(crate::manifest::shard_view(shard)) {
                Ok(
                    shards.last() == crate::manifest::shard_view(shard) && forall|i: int|
                        0 <= i < shards.len() - 1 ==> shards[i] != crate::manifest::shard_view(
                            shard,
                        ),
                )
            } else {
                Err(DomainError::ShardPlanInvalid)
            }
        },
    }
}

/// Whether stage input with the given parts fits a model `activation_width`
/// wide: token ids must not be empty, activations must be exactly
/// `token_count x activation_width` finite values.
pub open spec fn parts_fit(parts: (Seq<u32>, int, u64, bool), activation_width: u32) -> bool {
    if parts.3 {
        parts.0.len() > 0
    } else {
        parts.0.len() == saturating_product(parts.1, activation_width as int) && all_finite(parts.0)
    }
}

/// Checks, once the artifact is inspected, that its layout matches the plan,
/// and reads the stage input from `frame`: token ids for the shard that starts
/// at layer 0, activations otherwise, fitting the layout's width.
pub fn stage_input(
    manifest: &ModelManifest,
    shard: &ShardSpec,
    layout: &LoomModelLayout,
    frame: &DecodedFrame,
) -> (r: Result<StageInput, DomainError>)
    ensures
        match manifest.execution_plan {
            None => r == Err::<StageInput, DomainError>(DomainError::ShardPlanInvalid),
            Some(plan) => if !(layout.layer_count == plan_layers(plan) && layout.activation_width
                != 0 && layout.vocabulary_size != 0) {
                r == Err::<StageInput, DomainError>(DomainError::BackendIncompatible)
            } else {
                match spec_stage_input(frame@, shard.layer_range.start == 0) {
                    Err(e) => r == Err::<StageInput, DomainError>(e),
                    Ok(parts) => {
                        &&& r is Ok <==> parts_fit(parts, layout.activation_width)
                        &&& r matches Ok(input) ==> input.spec_parts() == parts
                        &&& r matches Err(e) ==> e == DomainError::FrameInvalid
                    },
                }
            },
        },
{
    let declared_layers = match &manifest.execution_plan {
        Some(plan) => total_layers(plan),
        None => return Err(DomainError::ShardPlanInvalid),
    };
    match check_layout(layout, declared_layers) {
        Ok(()) => {},
        Err(e) => return Err(e),
    }
    let input = match parse_stage_input(frame, shard.layer_range.start == 0) {
        Ok(input) => input,
        Err(e) => return Err(e),
    };
    match validate_input_width(&input, layout.activation_width) {
        Ok(()) => Ok(input),
        Err(e) => Err(e),
    }
}

/// Decides whether work may go on: a cancelled session stops with
/// `SessionCancelled`, then work that has used up its remaining deadline (the
/// elapsed whole milliseconds reach it) stops with `DeadlineExceeded`.
pub fn check_progress(cancelled: bool, elapsed_ms: u128, remaining_deadline_ms: u64) -> (r: Result<
    (),
    DomainError,
>)
    ensures
        cancelled ==> r == Err::<(), DomainError>(DomainError::SessionCancelled),
        !cancelled && elapsed_ms >= remaining_deadline_ms ==> r == Err::<(), DomainError>(
            DomainError::DeadlineExceeded,
        ),
        !cancelled && elapsed_ms < remaining_deadline_ms ==> r == Ok::<(), DomainError>(()),
{
    if cancelled {
        Err(DomainError::SessionCancelled)
    } else if elapsed_ms >= remaining_deadline_ms as u128 {
        Err(DomainError::DeadlineExceeded)
    } else {
        Ok(())
    }
}

/// A validated request handed from the adapter to the Loom engine.
#[derive(Debug, PartialEq, Eq)]
pub struct LoomExecutionRequest {
    pub model: String,
    pub session_id: String,
    pub declared_range: LayerRange,
    pub input: StageInput,
    pub final_stage: bool,
    pub remaining_deadline_ms: u64,
}

/// A result of the Loom engine, with each `f32` given by its bit pattern.
#[derive(Debug, PartialEq, Eq)]
pub enum LoomExecutionOutput {
    Boundary { activation_bits: Vec<u32>, token_count: usize },
    FinalLogits(Vec<u32>),
}

/// What a stage hands on: a boundary frame for the next stage, or the final logits.
#[derive(Debug, PartialEq, Eq)]
pub enum ShardExecutionOutput {
    Boundary(DecodedFrame),
    FinalLogits(DecodedFrame),
}

impl ShardExecutionOutput {
    pub open spec fn frame(&self) -> DecodedFrame {
        match self {
            ShardExecutionOutput::Boundary(f) => *f,
            ShardExecutionOutput::FinalLogits(f) => *f,
        }
    }
}

/// What a stage output is, as values: whether it carries the final logits, and its frame.
pub open spec fn output_view(o: ShardExecutionOutput) -> (bool, FrameView) {
    match o {
        ShardExecutionOutput::Boundary(f) => (false, f@),
        ShardExecutionOutput::FinalLogits(f) => (true, f@),
    }
}

impl ShardExecutionOutput {
    /// A copy with the same content.
    pub fn copy(&self) -> (r: ShardExecutionOutput)
        ensures
            output_view(r) == output_view(*self),
    {
        match self {
            ShardExecutionOutput::Boundary(f) => ShardExecutionOutput::Boundary(f.copy()),
            ShardExecutionOutput::FinalLogits(f) => ShardExecutionOutput::FinalLogits(f.copy()),
        }
    }
}

/// What a shard execution is asked to do.
#[derive(Debug, PartialEq, Eq)]
pub struct ShardExecutionRequest {
    pub target: FrameTarget,
    pub next_target: Option<FrameTarget>,
    pub shard: ShardSpec,
    pub input: DecodedFrame,
    pub remaining_deadline_ms: u64,
}

/// A shard execution request as values.
pub struct ShardRequestView {
    pub target: (Seq<char>, Seq<char>),
    pub next_target: Option<(Seq<char>, Seq<char>)>,
    pub shard: (Seq<char>, Seq<char>, LayerRange, u8),
    pub input: FrameView,
    pub remaining_deadline_ms: u64,
}

impl View for ShardExecutionRequest {
    type V = ShardRequestView;

    open spec fn view(&self) -> ShardRequestView {
        ShardRequestView {
            target: self.target@,
            next_target: match self.next_target {
                Some(t) => Some(t@),
                None => None,
            },
            shard: shard_view(self.shard),
            input: self.input@,
            remaining_deadline_ms: self.remaining_deadline_ms,
        }
    }
}

impl ShardExecutionRequest {
    /// A copy with the same content.
    pub fn copy(&self) -> (r: ShardExecutionRequest)
        ensures
            r@ == self@,
    {
        let next_target = match &self.next_target {
            Some(t) => Some(t.copy()),
            None => None,
        };
        ShardExecutionRequest {
            target: self.target.copy(),
            next_target,
            shard: self.shard.copy(),
            input: self.input.copy(),
            remaining_deadline_ms: self.remaining_deadline_ms,
        }
    }
}

/// The parts of a shard execution request that shape its output frame.
pub struct StageRequest {
    pub target: FrameTarget,
    pub next_target: Option<FrameTarget>,
    pub input: DecodedFrame,
    pub remaining_deadline_ms: u64,
}

/// The first token position of a stage frame, parsed as its element type implies.
pub open spec fn spec_stage_position(f: FrameView) -> Result<u64, DomainError> {
    let first = match f.envelope.tensor {
        Some(t) => t.0 == TensorDtype::U32,
        None => false,
    };
    match spec_stage_input(f, first) {
        Ok(parts) => Ok(parts.2),
        Err(e) => Err(e),
    }
}

/// The values, the tensor shape and the target a stage's output goes to: a
/// non-final stage hands on `token_count x activation_width` activations to the
/// next shard, the final stage its vocabulary of logits to its own target.
pub open spec fn spec_output_parts(
    request: StageRequest,
    output: LoomExecutionOutput,
    final_stage: bool,
    activation_width: u32,
    vocabulary_size: u32,
) -> Result<(Seq<u32>, Seq<u32>, (Seq<char>, Seq<char>)), DomainError> {
    match output {
        LoomExecutionOutput::Boundary { activation_bits, token_count } => if !final_stage
            && activation_bits@.len() == saturating_product(
            token_count as int,
            activation_width as int,
        ) {
            match request.next_target {
                None => Err(DomainError::ShardPlanInvalid),
                Some(next) => if token_count > u32::MAX {
                    Err(DomainError::FrameBoundsExceeded)
                } else {
                    Ok((activation_bits@, seq![token_count as u32, activation_width], next@))
                },
            }
        } else {
            Err(DomainError::GenerationFailed)
        },
        LoomExecutionOutput::FinalLogits(values) => if final_stage && values@.len()
            == vocabulary_size {
            Ok((values@, seq![vocabulary_size], request.target@))
        } else {
            Err(DomainError::GenerationFailed)
        },
    }
}

/// The frame a stage emits: a data frame of little-endian `f32` values on the
/// input's session and stream with the next sequence number, the request's
/// deadline and trace, and the input's first token position.
pub open spec fn output_frame(
    request: StageRequest,
    words: Seq<u32>,
    shape: Seq<u32>,
    target: (Seq<char>, Seq<char>),
    position: u64,
) -> FrameView {
    FrameView {
        envelope: EnvelopeView {
            message_type: FrameMessageType::Data,
            session_id: request.input.envelope.session_id@,
            stream_id: request.input.envelope.stream_id,
            sequence: (request.input.envelope.sequence + 1) as u64,
            target,
            tensor: Some((TensorDtype::F32, shape)),
            remaining_deadline_ms: request.remaining_deadline_ms,
        },
        payload: le_bytes(words),
        trace_id: request.input@.trace_id,
        extensions: seq![(POSITION_START_EXTENSION_TAG, be_bytes(position))],
    }
}

/// The bytes of `words`, little-endian, four per word.
pub fn words_to_le_bytes(words: &Vec<u32>) -> (r: Vec<u8>)
    ensures
        r@ == le_bytes(words@),
{
    let mut out: Vec<u8> = Vec::new();
    let mut i: usize = 0;
    while i < words.len()
        invariant
            i <= words@.len(),
            out@.len() == 4 * i,
            forall|k: int| 0 <= k < 4 * i ==> out@[k] == le_bytes(words@)[k],
        decreases words.len() - i,
    {
        let w = words[i];
        out.push(w as u8);
        out.push((w >> 8u32) as u8);
        out.push((w >> 16u32) as u8);
        out.push((w >> 24u32) as u8);
        proof {
            assert forall|k: int| 4 * i <= k < 4 * i + 4 implies out@[k] == le_bytes(words@)[k] by {
                assert(k / 4 == i as int);
                assert(words@[k / 4] == w);
                if k % 4 == 0 {
                    assert((w >> 0u32) == w) by (bit_vector);
                }
            }
        }
        i += 1;
    }
    assert(out@ =~= le_bytes(words@));
    out
}

/// Reading back written bytes gives the words: the payload written for a stage
/// is the payload the next stage parses.
pub proof fn law_le_bytes_round_trip(words: Seq<u32>)
    ensures
        le_words(le_bytes(words)) == words,
{
    let b = le_bytes(words);
    assert(b.len() / 4 == words.len());
    assert forall|i: int| 0 <= i < words.len() implies le_word(b, i) == words[i] by {
        let w = words[i];
        assert((4 * i) / 4 == i && (4 * i + 1) / 4 == i && (4 * i + 2) / 4 == i && (4 * i + 3) / 4
            == i);
        assert((4 * i) % 4 == 0 && (4 * i + 1) % 4 == 1 && (4 * i + 2) % 4 == 2 && (4 * i + 3) % 4
            == 3);
        assert(((w >> 0u32) as u8) as u32 + ((w >> 8u32) as u8) as u32 * 256 + ((w >> 16u32) as u8) as u32
            * 65536 + ((w >> 24u32) as u8) as u32 * 16777216 == w) by (bit_vector);
    }
    assert(le_words(b) =~= words);
}

/// A boundary a stage hands on is exactly the input the next stage reads: the
/// same activations, token count and first token position.
pub proof fn law_boundary_is_next_stage_input(
    request: StageRequest,
    words: Seq<u32>,
    token_count: u32,
    activation_width: u32,
    target: (Seq<char>, Seq<char>),
    position: u64,
)
    requires
        token_count > 0,
        activation_width > 0,
        words.len() == token_count as int * activation_width as int,
    ensures
        spec_stage_input(
            output_frame(request, words, seq![token_count, activation_width], target, position),
            false,
        ) == Ok::<(Seq<u32>, int, u64, bool), DomainError>(
            (words, token_count as int, position, false),
        ),
{
    let f = output_frame(request, words, seq![token_count, activation_width], target, position);
    law_position_extension_round_trip(position);
    law_le_bytes_round_trip(words);
    assert(f.payload.len() == 4 * words.len());
    assert(f.payload.len() % 4 == 0);
    assert(f.payload.len() / 4 == words.len());
}

/// Encodes a Loom result as the frame the stage hands on.
pub fn encode_output(
    request: &StageRequest,
    loom_output: LoomExecutionOutput,
    final_stage: bool,
    activation_width: u32,
    vocabulary_size: u32,
) -> (r: Result<ShardExecutionOutput, DomainError>)
    ensures
        match spec_output_parts(
            *request,
            loom_output,
            final_stage,
            activation_width,
            vocabulary_size,
        ) {
            Err(e) => r == Err::<ShardExecutionOutput, DomainError>(e),
            Ok((words, shape, target)) => if !all_finite(words) {
                r == Err::<ShardExecutionOutput, DomainError>(DomainError::GenerationFailed)
            } else {
                match spec_stage_position(request.input@) {
                    Err(e) => r == Err::<ShardExecutionOutput, DomainError>(e),
                    Ok(position) => if request.input.envelope.sequence == u64::MAX {
                        r == Err::<ShardExecutionOutput, DomainError>(
                            DomainError::FrameBoundsExceeded,
                        )
                    } else {
                        &&& r is Ok
                        &&& r matches Ok(out) && (out is FinalLogits <==> final_stage)
                            && out.frame()@ == output_frame(
                            *request,
                            words,
                            shape,
                            target,
                            position,
                        )
                    },
                }
            },
        },
        r matches Ok(out) ==> out.frame()@.envelope.message_type == FrameMessageType::Data
            && out.frame()@.envelope.session_id == request.input.envelope.session_id@
            && out.frame()@.envelope.stream_id == request.input.envelope.stream_id
            && out.frame()@.envelope.sequence == request.input.envelope.sequence + 1
            && out.frame()@.envelope.remaining_deadline_ms == request.remaining_deadline_ms
            && out.frame()@.trace_id == request.input@.trace_id,
        r matches Ok(out) ==> (out is FinalLogits <==> final_stage),
        r matches Ok(ShardExecutionOutput::FinalLogits(f)) ==> loom_output matches LoomExecutionOutput::FinalLogits(values)
            && f@.payload == le_bytes(values@)
            && f@.envelope.target == request.target@
            && f@.envelope.tensor == Some((TensorDtype::F32, seq![vocabulary_size])),
        r matches Ok(ShardExecutionOutput::Boundary(f)) ==> loom_output matches LoomExecutionOutput::Boundary { activation_bits, token_count }
            && request.next_target matches Some(next)
            && f@.payload == le_bytes(activation_bits@)
            && f@.envelope.target == next@
            && f@.envelope.tensor == Some((TensorDtype::F32, seq![token_count as u32, activation_width])),
{
    let (values, output_target, terminal, output_shape) = match loom_output {
        LoomExecutionOutput::Boundary { activation_bits, token_count } => {
            if final_stage || activation_bits.len() != saturating_mul(
                token_count,
                activation_width as usize,
            ) {
                return Err(DomainError::GenerationFailed);
            }
            let next = match &request.next_target {
                Some(next) => next.copy(),
                None => return Err(DomainError::ShardPlanInvalid),
            };
            if token_count > u32::MAX as usize {
                return Err(DomainError::FrameBoundsExceeded);
            }
            (activation_bits, next, false, vec![token_count as u32, activation_width])
        },
        LoomExecutionOutput::FinalLogits(values) => {
            if !final_stage || values.len() != vocabulary_size as usize {
                return Err(DomainError::GenerationFailed);
            }
            (values, request.target.copy(), true, vec![vocabulary_size])
        },
    };
    if !words_finite(&values) {
        return Err(DomainError::GenerationFailed);
    }
    let position = match stage_position(&request.input) {
        Ok(p) => p,
        Err(e) => return Err(e),
    };
    if request.input.envelope.sequence == u64::MAX {
        return Err(DomainError::FrameBoundsExceeded);
    }
    let payload = words_to_le_bytes(&values);
    let envelope = FrameEnvelope {
        message_type: FrameMessageType::Data,
        session_id: crate::ids::copy_id(&request.input.envelope.session_id),
        stream_id: request.input.envelope.stream_id,
        sequence: request.input.envelope.sequence + 1,
        target: output_target,
        tensor: Some(TensorDescriptor { dtype: TensorDtype::F32, dimensions: output_shape }),
        remaining_deadline_ms: request.remaining_deadline_ms,
    };
    let frame = DecodedFrame {
        envelope,
        payload,
        trace_id: copy_text(&request.input.trace_id),
        extensions: vec![position_extension(position)],
    };
    assert(frame@.extensions =~= seq![(POSITION_START_EXTENSION_TAG, be_bytes(position))]);
    if terminal {
        Ok(ShardExecutionOutput::FinalLogits(frame))
    } else {
        Ok(ShardExecutionOutput::Boundary(frame))
    }
}

} // verus!
