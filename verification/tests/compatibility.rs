use synapseflow_adapters::error::DomainError;
use synapseflow_adapters::generation::{sampler_seed, validate_context, GenerationLoop, MAX_CONTEXT_TOKENS};
use synapseflow_adapters::in_memory::GenerationTerminal;
use synapseflow_adapters::manifest::{
    validate_manifest, validate_model, ArtifactDescriptor, ModelFormat, ModelManifest,
    TokenizerDeclaration, TokenizerKind, MANIFEST_SCHEMA_VERSION,
};

fn manifest() -> ModelManifest {
    ModelManifest {
        reference: format!("registry://fixtures/backend@sha256:{}", "a".repeat(64)),
        schema_version: MANIFEST_SCHEMA_VERSION,
        model_id: "tinyllama".to_owned(),
        model_version: "test".to_owned(),
        format: ModelFormat::Gguf,
        architecture: "llama".to_owned(),
        quantization: "Q5_K_M".to_owned(),
        tokenizer: TokenizerDeclaration {
            kind: TokenizerKind::Embedded,
            model: "llama".to_owned(),
        },
        artifacts: vec![ArtifactDescriptor {
            id: "weights".to_owned(),
            uri: "https://fixtures.example/weights.gguf".to_owned(),
            content_sha256: format!("sha256:{}", "b".repeat(64)),
            size_bytes: 1,
        }],
        publisher_key_id: "ed25519:test".to_owned(),
        license: "Apache-2.0".to_owned(),
        provenance: "fixture:test".to_owned(),
        execution_plan: None,
        runtime_profile: None,
    }
}

#[test]
fn accepts_only_the_verified_local_compatibility_tuple() {
    assert!(validate_manifest(&manifest()).is_ok());

    let mut unsupported = manifest();
    unsupported.quantization = "Q4_K_M".to_owned();
    assert!(matches!(
        validate_manifest(&unsupported),
        Err(DomainError::BackendIncompatible)
    ));
}

#[test]
fn rejects_context_overflow_without_silent_truncation() {
    let max_tokens: u16 = 16;

    assert_eq!(
        validate_context(10, max_tokens, MAX_CONTEXT_TOKENS).expect("context should fit"),
        MAX_CONTEXT_TOKENS
    );
    assert!(matches!(
        validate_context(MAX_CONTEXT_TOKENS - 15, max_tokens, MAX_CONTEXT_TOKENS),
        Err(DomainError::GenerationPolicyInvalid)
    ));
}

#[test]
fn folds_the_full_u64_seed_deterministically() {
    assert_eq!(sampler_seed(42), 42);
    assert_ne!(sampler_seed(0x0000_0001_0000_0000), sampler_seed(0));
    assert_eq!(sampler_seed(u64::MAX), u32::MAX ^ u32::MAX);
}

#[test]
fn sampler_seed_xors_the_high_word_into_the_low_word() {
    assert_eq!(sampler_seed(0x1234_5678_0000_0001), 0x1234_5679);
    assert_eq!(sampler_seed(0xffff_ffff_0000_0000), 0xffff_ffff);
}

#[test]
fn context_limit_is_the_smaller_of_backend_and_model() {
    assert_eq!(validate_context(1, 10, 512), Ok(512));
    assert_eq!(validate_context(502, 10, 512), Ok(512));
    assert_eq!(validate_context(503, 10, 512), Err(DomainError::GenerationPolicyInvalid));
    assert_eq!(validate_context(1, 0, 100_000), Ok(MAX_CONTEXT_TOKENS));
}

#[test]
fn rejects_an_empty_prompt() {
    assert_eq!(validate_context(0, 1, 2048), Err(DomainError::GenerationPolicyInvalid));
}

#[test]
fn rejects_every_other_compatibility_tuple() {
    let mut other = manifest();
    other.schema_version = 2;
    assert_eq!(validate_manifest(&other), Err(DomainError::BackendIncompatible));
    let mut other = manifest();
    other.architecture = "mistral".to_owned();
    assert_eq!(validate_manifest(&other), Err(DomainError::BackendIncompatible));
    let mut other = manifest();
    other.tokenizer.model = "gpt2".to_owned();
    assert_eq!(validate_manifest(&other), Err(DomainError::BackendIncompatible));
    assert_eq!(validate_model(&manifest()), Err(DomainError::BackendIncompatible));
}

#[test]
fn generation_stops_at_the_token_budget() {
    let mut generation = GenerationLoop::start(3, 2).expect("prompt fits");
    assert_eq!(generation.position(), 3);
    for expected_position in [3, 4] {
        assert_eq!(generation.next_round(false, false), None);
        assert_eq!(generation.accept_token(7), Ok(7));
        assert_eq!(generation.position(), expected_position);
        assert_eq!(generation.advance(), Ok(()));
    }
    assert_eq!(
        generation.next_round(false, false),
        Some(Ok(GenerationTerminal::Completed { token_count: 2 }))
    );
}

#[test]
fn generation_checks_cancellation_before_the_deadline() {
    let generation = GenerationLoop::start(1, 4).expect("prompt fits");
    assert_eq!(
        generation.next_round(true, true),
        Some(Ok(GenerationTerminal::Cancelled))
    );
    assert_eq!(
        generation.next_round(false, true),
        Some(Err(DomainError::DeadlineExceeded))
    );
}

#[test]
fn generation_ends_early_at_end_of_generation_and_refuses_negative_ids() {
    let mut generation = GenerationLoop::start(1, 4).expect("prompt fits");
    assert_eq!(generation.accept_token(-1), Err(DomainError::TokenizerFailure));
    assert_eq!(generation.accept_token(5), Ok(5));
    assert_eq!(generation.advance(), Ok(()));
    assert_eq!(generation.finish(), GenerationTerminal::Completed { token_count: 1 });
}

#[test]
fn generation_refuses_positions_past_i32() {
    assert!(matches!(
        GenerationLoop::start(i32::MAX as usize + 1, 1),
        Err(DomainError::GenerationPolicyInvalid)
    ));
    let mut generation = GenerationLoop::start(i32::MAX as usize, 1).expect("prompt fits");
    assert_eq!(generation.accept_token(1), Ok(1));
    assert_eq!(generation.advance(), Err(DomainError::GenerationPolicyInvalid));
}
