use synapseflow_adapters::error::DomainError;
use synapseflow_adapters::frame::{
    DecodedFrame, FrameEnvelope, FrameExtension, FrameMessageType, FrameTarget,
    TensorDescriptor, TensorDtype,
};
use synapseflow_adapters::loom_archive::{llama_layout, LlamaMetadata, DEFAULT_ROPE_FREQUENCY_BASE_BITS};
use synapseflow_adapters::loom_backend::{
    check_layout, encode_output, finite_bits, validate_input_width, words_to_le_bytes,
    LoomExecutionOutput, ShardExecutionOutput, StageRequest,
};
use synapseflow_adapters::loom_model::{
    cache_step, causal_mask_values, check_declared_range, context_limit, context_window,
    load_plan, CacheStep, LoadPlan, LoomSessions,
};
use synapseflow_adapters::manifest::{LayerRange, LoomModelLayout};
use synapseflow_adapters::stage_input::{parse_stage_input, position_extension, StageInput};

#[test]
fn builds_a_rectangular_causal_mask_for_cached_tokens() {
    let values = causal_mask_values(3, 2);
    let rows: Vec<Vec<u8>> = values.chunks(5).map(|row| row.to_vec()).collect();

    assert_eq!(
        rows,
        vec![vec![0, 0, 0, 1, 1], vec![0, 0, 0, 0, 1], vec![0; 5]]
    );
}

#[test]
fn causal_mask_without_cache_is_upper_triangular() {
    assert_eq!(causal_mask_values(2, 0), vec![0, 1, 0, 0]);
    assert_eq!(causal_mask_values(1, 4), vec![0; 5]);
    assert!(causal_mask_values(0, 3).is_empty());
}

fn target(shard: &str) -> FrameTarget {
    FrameTarget {
        model: format!("registry://fixtures/tinyllama@sha256:{}", "a".repeat(64)),
        shard: shard.to_owned(),
    }
}

fn frame(dtype: TensorDtype, dimensions: Vec<u32>, payload: Vec<u8>, position: u64) -> DecodedFrame {
    DecodedFrame {
        envelope: FrameEnvelope {
            message_type: FrameMessageType::Data,
            session_id: "session-00000001".to_owned(),
            stream_id: 1,
            sequence: 0,
            target: target("first"),
            tensor: Some(TensorDescriptor { dtype, dimensions }),
            remaining_deadline_ms: 100,
        },
        payload,
        trace_id: None,
        extensions: vec![position_extension(position)],
    }
}

fn request(input: DecodedFrame, next: Option<FrameTarget>) -> StageRequest {
    StageRequest {
        target: target("first"),
        next_target: next,
        input,
        remaining_deadline_ms: 90,
    }
}

fn token_frame() -> DecodedFrame {
    frame(
        TensorDtype::U32,
        vec![2],
        [11_u32, 12].into_iter().flat_map(u32::to_le_bytes).collect(),
        0,
    )
}

#[test]
fn first_stage_output_is_a_boundary_for_the_next_shard() {
    let input = token_frame();
    let parsed = parse_stage_input(&input, true).expect("token frame parses");
    assert_eq!(
        parsed,
        StageInput::TokenIds {
            token_ids: vec![11, 12],
            position_start: 0
        }
    );
    let quarter = 0.25_f32.to_bits();
    let output = encode_output(
        &request(input, Some(target("second"))),
        LoomExecutionOutput::Boundary {
            activation_bits: vec![quarter; 6],
            token_count: 2,
        },
        false,
        3,
        5,
    )
    .expect("boundary encodes");
    let ShardExecutionOutput::Boundary(boundary) = output else {
        panic!("a non-final range must produce a boundary");
    };
    assert_eq!(boundary.envelope.target, target("second"));
    assert_eq!(boundary.envelope.sequence, 1);
    assert_eq!(boundary.envelope.remaining_deadline_ms, 90);
    let tensor = boundary.envelope.tensor.as_ref().expect("tensor exists");
    assert_eq!(tensor.dtype, TensorDtype::F32);
    assert_eq!(tensor.dimensions, vec![2, 3]);
    assert_eq!(boundary.payload.len(), 24);
    assert_eq!(&boundary.payload[0..4], &0.25_f32.to_le_bytes());

    let next = parse_stage_input(&boundary, false).expect("boundary parses for the next stage");
    assert_eq!(
        next,
        StageInput::Boundary {
            activation_bits: vec![quarter; 6],
            token_count: 2,
            position_start: 0
        }
    );
    assert_eq!(validate_input_width(&next, 3), Ok(()));
}

#[test]
fn final_stage_output_is_logits_for_its_own_target() {
    let input = frame(TensorDtype::F32, vec![2, 3], vec![0; 24], 4);
    let output = encode_output(
        &request(input, None),
        LoomExecutionOutput::FinalLogits(vec![0.5_f32.to_bits(); 5]),
        true,
        3,
        5,
    )
    .expect("logits encode");
    let ShardExecutionOutput::FinalLogits(logits) = output else {
        panic!("the last range must produce logits");
    };
    assert_eq!(logits.envelope.target, target("first"));
    assert_eq!(logits.payload.len(), 20);
    assert_eq!(logits.extensions, vec![position_extension(4)]);
}

#[test]
fn rejects_mismatched_or_non_finite_loom_output() {
    let logits = || LoomExecutionOutput::FinalLogits(vec![0.5_f32.to_bits(); 5]);
    assert_eq!(
        encode_output(&request(token_frame(), Some(target("second"))), logits(), false, 3, 5),
        Err(DomainError::GenerationFailed)
    );
    assert_eq!(
        encode_output(
            &request(token_frame(), None),
            LoomExecutionOutput::FinalLogits(vec![0.5_f32.to_bits(); 4]),
            true,
            3,
            5
        ),
        Err(DomainError::GenerationFailed)
    );
    assert_eq!(
        encode_output(
            &request(token_frame(), None),
            LoomExecutionOutput::FinalLogits(vec![f32::NAN.to_bits(); 5]),
            true,
            3,
            5
        ),
        Err(DomainError::GenerationFailed)
    );
    assert_eq!(
        encode_output(
            &request(token_frame(), None),
            LoomExecutionOutput::Boundary {
                activation_bits: vec![0; 6],
                token_count: 2
            },
            false,
            3,
            5
        ),
        Err(DomainError::ShardPlanInvalid)
    );
    let mut last = token_frame();
    last.envelope.sequence = u64::MAX;
    assert_eq!(
        encode_output(&request(last, None), logits(), true, 3, 5),
        Err(DomainError::FrameBoundsExceeded)
    );
}

#[test]
fn rejects_wrong_stage_dtype() {
    let wrong = frame(TensorDtype::F32, vec![1, 1], 0.0_f32.to_le_bytes().to_vec(), 0);
    assert_eq!(
        parse_stage_input(&wrong, true),
        Err(DomainError::FrameDtypeUnsupported)
    );
    let mut missing_position = token_frame();
    missing_position.extensions = vec![FrameExtension {
        tag: 2,
        value: vec![0; 4],
    }];
    assert_eq!(
        parse_stage_input(&missing_position, true),
        Err(DomainError::FrameInvalid)
    );
}

#[test]
fn finiteness_follows_the_exponent_bits() {
    assert!(finite_bits(1.5_f32.to_bits()));
    assert!(finite_bits(f32::MAX.to_bits()));
    assert!(!finite_bits(f32::INFINITY.to_bits()));
    assert!(!finite_bits(f32::NEG_INFINITY.to_bits()));
    assert!(!finite_bits(f32::NAN.to_bits()));
}

#[test]
fn input_width_must_match_the_layout() {
    let boundary = StageInput::Boundary {
        activation_bits: vec![0; 6],
        token_count: 2,
        position_start: 0,
    };
    assert_eq!(validate_input_width(&boundary, 3), Ok(()));
    assert_eq!(validate_input_width(&boundary, 4), Err(DomainError::FrameInvalid));
    let infinite = StageInput::Boundary {
        activation_bits: vec![f32::INFINITY.to_bits(); 3],
        token_count: 1,
        position_start: 0,
    };
    assert_eq!(validate_input_width(&infinite, 3), Err(DomainError::FrameInvalid));
    let empty = StageInput::TokenIds {
        token_ids: vec![],
        position_start: 0,
    };
    assert_eq!(validate_input_width(&empty, 3), Err(DomainError::FrameInvalid));
}

#[test]
fn layout_must_match_the_plan() {
    let layout = LoomModelLayout {
        layer_count: 2,
        activation_width: 3,
        vocabulary_size: 5,
    };
    assert_eq!(check_layout(&layout, 2), Ok(()));
    assert_eq!(check_layout(&layout, 3), Err(DomainError::BackendIncompatible));
    let narrow = LoomModelLayout {
        activation_width: 0,
        ..layout
    };
    assert_eq!(check_layout(&narrow, 2), Err(DomainError::BackendIncompatible));
}

#[test]
fn payload_bytes_are_little_endian_words() {
    assert_eq!(
        words_to_le_bytes(&vec![0x0403_0201, 0xffee_ddcc]),
        vec![1, 2, 3, 4, 0xcc, 0xdd, 0xee, 0xff]
    );
}

fn metadata() -> LlamaMetadata {
    LlamaMetadata {
        architecture: Some("llama".to_owned()),
        block_count: Some(2),
        embedding_width: Some(8),
        vocabulary_size: None,
        attention_heads: Some(2),
        key_value_heads: Some(1),
        rope_dimension: Some(4),
        context_limit: Some(64),
        rms_epsilon_bits: Some(0.00001_f32.to_bits()),
        rope_frequency_base_bits: None,
        tokenizer: Some((256, true)),
    }
}

#[test]
fn reads_a_llama_layout_with_its_defaults() {
    let layout = llama_layout(&metadata()).expect("layout is usable");
    assert_eq!(layout.vocabulary_size, 256);
    assert_eq!(layout.rope_frequency_base_bits, DEFAULT_ROPE_FREQUENCY_BASE_BITS);
    assert_eq!(f32::from_bits(DEFAULT_ROPE_FREQUENCY_BASE_BITS), 10_000.0);
    assert_eq!(layout.head_dimension(), 4);
    assert_eq!(
        layout.model_layout(),
        LoomModelLayout {
            layer_count: 2,
            activation_width: 8,
            vocabulary_size: 256
        }
    );
}

#[test]
fn refuses_unusable_llama_layouts() {
    let refused = |change: fn(&mut LlamaMetadata)| {
        let mut m = metadata();
        change(&mut m);
        llama_layout(&m)
    };
    assert_eq!(refused(|m| m.architecture = Some("gpt2".to_owned())), Err(DomainError::BackendIncompatible));
    assert_eq!(refused(|m| m.block_count = None), Err(DomainError::BackendIncompatible));
    assert_eq!(refused(|m| m.attention_heads = Some(3)), Err(DomainError::BackendIncompatible));
    assert_eq!(refused(|m| m.key_value_heads = Some(3)), Err(DomainError::BackendIncompatible));
    assert_eq!(refused(|m| m.rope_dimension = Some(5)), Err(DomainError::BackendIncompatible));
    assert_eq!(refused(|m| m.rms_epsilon_bits = Some((-1.0_f32).to_bits())), Err(DomainError::BackendIncompatible));
    assert_eq!(refused(|m| m.rms_epsilon_bits = Some(0.0_f32.to_bits())), Err(DomainError::BackendIncompatible));
    assert_eq!(refused(|m| m.rope_frequency_base_bits = Some(f32::NAN.to_bits())), Err(DomainError::BackendIncompatible));
    assert_eq!(refused(|m| m.vocabulary_size = Some(255)), Err(DomainError::BackendIncompatible));
    assert_eq!(refused(|m| m.tokenizer = Some((256, false))), Err(DomainError::BackendIncompatible));
    assert_eq!(refused(|m| m.tokenizer = None), Err(DomainError::BackendIncompatible));
}

#[test]
fn context_window_is_capped_and_checked() {
    assert_eq!(context_limit(64), 64);
    assert_eq!(context_limit(100_000), 4096);
    assert_eq!(context_window(60, 4, 64), Ok(60));
    assert_eq!(context_window(61, 4, 64), Err(DomainError::FrameBoundsExceeded));
    assert_eq!(context_window(u64::MAX, 1, 64), Err(DomainError::FrameBoundsExceeded));
    assert_eq!(context_window(4000, 96, 100_000), Ok(4000));
    assert_eq!(context_window(4000, 97, 100_000), Err(DomainError::FrameBoundsExceeded));
}

#[test]
fn ranges_load_their_own_parts() {
    let range = |start, end_exclusive| LayerRange { start, end_exclusive };
    assert_eq!(
        load_plan(range(0, 1), 2),
        Ok(LoadPlan {
            embeddings: true,
            output_head: false
        })
    );
    assert_eq!(
        load_plan(range(1, 2), 2),
        Ok(LoadPlan {
            embeddings: false,
            output_head: true
        })
    );
    assert_eq!(load_plan(range(1, 3), 2), Err(DomainError::BackendIncompatible));
    assert_eq!(check_declared_range(range(0, 1), range(0, 1)), Ok(()));
    assert_eq!(check_declared_range(range(0, 1), range(0, 2)), Err(DomainError::ShardPlanInvalid));
}

#[test]
fn layer_caches_start_and_grow_only_in_order() {
    assert_eq!(cache_step(false, false, 0), Ok(CacheStep::Start));
    assert_eq!(cache_step(true, true, 3), Ok(CacheStep::Append));
    assert_eq!(cache_step(true, true, 0), Err(DomainError::SessionStateInvalid));
    assert_eq!(cache_step(false, false, 3), Err(DomainError::SessionStateInvalid));
}

#[test]
fn sessions_are_bounded_and_continue_only_when_started() {
    let mut sessions = LoomSessions::new();
    assert_eq!(sessions.prepare(&"s".to_owned(), 3), Err(DomainError::SessionStateInvalid));
    for i in 0..16 {
        assert_eq!(sessions.prepare(&format!("session-{i}"), 0), Ok(true));
    }
    assert_eq!(sessions.prepare(&"late".to_owned(), 0), Err(DomainError::BackendUnavailable));
    assert_eq!(sessions.prepare(&"session-3".to_owned(), 0), Ok(true));
    assert_eq!(sessions.prepare(&"session-3".to_owned(), 5), Ok(false));
    sessions.discard(&"session-3".to_owned());
    assert!(!sessions.is_active(&"session-3".to_owned()));
    assert_eq!(sessions.prepare(&"session-3".to_owned(), 5), Err(DomainError::SessionStateInvalid));
    assert_eq!(sessions.prepare(&"late".to_owned(), 0), Ok(true));
}

use synapseflow_adapters::loom_backend::{plan_stage, stage_input, total_layers};
use synapseflow_adapters::manifest::{
    ArtifactDescriptor, ExecutionStrategy, ModelFormat, ModelManifest, ShardPlan, ShardSpec,
    TokenizerDeclaration, TokenizerKind, LOOPBACK_SHARDING_MANIFEST_SCHEMA_VERSION,
};

fn shard(id: &str, start: u32, end_exclusive: u32) -> ShardSpec {
    ShardSpec {
        id: id.to_owned(),
        artifact_id: id.to_owned(),
        layer_range: LayerRange {
            start,
            end_exclusive,
        },
        minimum_replicas: 1,
    }
}

fn loom_manifest() -> ModelManifest {
    ModelManifest {
        reference: format!("registry://fixtures/tinyllama@sha256:{}", "a".repeat(64)),
        schema_version: LOOPBACK_SHARDING_MANIFEST_SCHEMA_VERSION,
        model_id: "tinyllama".to_owned(),
        model_version: "test".to_owned(),
        format: ModelFormat::Gguf,
        architecture: "llama".to_owned(),
        quantization: "Q5_K_M".to_owned(),
        tokenizer: TokenizerDeclaration {
            kind: TokenizerKind::Embedded,
            model: "llama".to_owned(),
        },
        artifacts: vec![ArtifactDescriptor {
            id: "first".to_owned(),
            uri: "https://fixtures.example/first.gguf".to_owned(),
            content_sha256: format!("sha256:{}", "b".repeat(64)),
            size_bytes: 1,
        }],
        publisher_key_id: "ed25519:test".to_owned(),
        license: "Apache-2.0".to_owned(),
        provenance: "fixture:test".to_owned(),
        execution_plan: Some(ShardPlan {
            strategy: ExecutionStrategy::layer_range(),
            shards: vec![shard("first", 0, 1), shard("second", 1, 2)],
        }),
        runtime_profile: Some("loom-cpu-v1".to_owned()),
    }
}

#[test]
fn stages_are_planned_before_and_read_after_inspection() {
    let manifest = loom_manifest();
    assert_eq!(plan_stage(&manifest, &shard("first", 0, 1), false), Ok(false));
    assert_eq!(plan_stage(&manifest, &shard("second", 1, 2), false), Ok(true));
    assert_eq!(
        plan_stage(&manifest, &shard("third", 2, 3), false),
        Err(DomainError::ShardPlanInvalid)
    );
    let mut other = loom_manifest();
    other.runtime_profile = None;
    assert_eq!(
        plan_stage(&other, &shard("first", 0, 1), false),
        Err(DomainError::BackendIncompatible)
    );
    assert_eq!(
        plan_stage(&manifest, &shard("first", 0, 1), true),
        Err(DomainError::SessionCancelled)
    );
    assert_eq!(total_layers(manifest.execution_plan.as_ref().unwrap()), 2);

    let layout = LoomModelLayout {
        layer_count: 2,
        activation_width: 3,
        vocabulary_size: 5,
    };
    assert_eq!(
        stage_input(&manifest, &shard("first", 0, 1), &layout, &token_frame()),
        Ok(StageInput::TokenIds {
            token_ids: vec![11, 12],
            position_start: 0
        })
    );
    assert_eq!(
        stage_input(&manifest, &shard("second", 1, 2), &layout, &token_frame()),
        Err(DomainError::FrameDtypeUnsupported)
    );
    let wider = LoomModelLayout {
        layer_count: 3,
        ..layout
    };
    assert_eq!(
        stage_input(&manifest, &shard("first", 0, 1), &wider, &token_frame()),
        Err(DomainError::BackendIncompatible)
    );
}

use synapseflow_adapters::in_memory::{InMemoryShardExecutionBackend, VerifiedModel};
use synapseflow_adapters::loom_backend::ShardExecutionRequest;

fn shard_request(index: usize, next: Option<FrameTarget>) -> ShardExecutionRequest {
    let manifest = loom_manifest();
    let shard = manifest.execution_plan.as_ref().expect("fixture plan exists").shards[index].copy();
    ShardExecutionRequest {
        target: target(&shard.id),
        next_target: next,
        shard,
        input: token_frame(),
        remaining_deadline_ms: 100,
    }
}

#[test]
fn shard_executor_records_requests_and_answers_with_its_output() {
    let model = VerifiedModel {
        manifest: loom_manifest(),
        artifact_paths: vec!["/cache/first".to_owned()],
    };
    let output = ShardExecutionOutput::Boundary(token_frame());
    let mut backend = InMemoryShardExecutionBackend::with_output(output.copy());
    assert_eq!(backend.requests(), Ok(vec![]));

    let first = shard_request(0, Some(target("second")));
    let second = shard_request(1, None);
    assert_eq!(backend.execute(&model, &first), Ok(output.copy()));
    assert_eq!(backend.execute(&model, &second), Ok(output));
    assert_eq!(backend.requests(), Ok(vec![first, second]));
}

#[test]
fn shard_executor_runs_only_the_layer_range_strategy() {
    let backend = InMemoryShardExecutionBackend::with_output(ShardExecutionOutput::FinalLogits(
        token_frame(),
    ));
    assert!(backend.supports(&ExecutionStrategy::layer_range()));
    assert!(!backend.supports(&ExecutionStrategy {
        name: "tensor_parallel".to_owned(),
    }));
}
