use synapseflow_adapters::error::DomainError;
use synapseflow_adapters::ids::WorkerId;
use synapseflow_adapters::in_memory::{
    build_inspection, model_step, CacheEntryState, ExecutionCancellation, GenerationTerminal,
    ModelStep, RecordingTokenSink, InMemoryArtifactStore, InMemoryAuditSink, InMemoryModelBackend,
    InMemoryModelRegistry, InMemoryPeerDirectory, ShardAvailability, WorkerCapability,
    WorkerHealth,
};
use synapseflow_adapters::in_memory_transport::InMemoryTransport;
use synapseflow_adapters::manifest::{
    ArtifactDescriptor, ExecutionStrategy, ModelFormat, ModelManifest, TokenizerDeclaration,
    TokenizerKind, MANIFEST_SCHEMA_VERSION,
};
use synapseflow_adapters::tokenizer::GeneratedToken;

fn model_reference() -> String {
    format!("registry://fixtures/tinyllama@sha256:{}", "a".repeat(64))
}

fn manifest() -> ModelManifest {
    ModelManifest {
        reference: model_reference(),
        schema_version: MANIFEST_SCHEMA_VERSION,
        model_id: "tinyllama".to_owned(),
        model_version: "test".to_owned(),
        format: ModelFormat::Gguf,
        architecture: "llama".to_owned(),
        quantization: "Q5_K_M".to_owned(),
        tokenizer: TokenizerDeclaration {
            kind: TokenizerKind::Embedded,
            model: "llama".to_owned(),
        },
        artifacts: vec![ArtifactDescriptor {
            id: "weights".to_owned(),
            uri: "https://fixtures.example/weights.gguf".to_owned(),
            content_sha256: format!("sha256:{}", "b".repeat(64)),
            size_bytes: 7,
        }],
        publisher_key_id: "ed25519:test".to_owned(),
        license: "Apache-2.0".to_owned(),
        provenance: "fixture:test".to_owned(),
        execution_plan: None,
        runtime_profile: None,
    }
}

#[test]
fn returns_static_replicas_with_their_current_health() {
    let model = model_reference();
    let shard = "first".to_owned();
    let worker: WorkerId = "loopback-a".to_owned();
    let capability = WorkerCapability {
        id: worker.clone(),
        health: WorkerHealth::Unavailable,
        strategies: vec![ExecutionStrategy::layer_range()],
        shards: vec![ShardAvailability {
            model: model.clone(),
            shard: shard.clone(),
        }],
    };
    let directory = InMemoryPeerDirectory::new(vec![capability]);

    let replicas = directory.replicas(&model, &shard, &ExecutionStrategy::layer_range());
    assert_eq!(replicas.len(), 1);
    assert_eq!(replicas[0].health, WorkerHealth::Unavailable);
    assert_eq!(directory.worker(&worker), Some(replicas[0].copy()));
}

#[test]
fn replicas_skip_workers_without_the_strategy_or_shard() {
    let model = model_reference();
    let with_shard = |id: &str, strategy: &str, shard: &str| WorkerCapability {
        id: id.to_owned(),
        health: WorkerHealth::Healthy,
        strategies: vec![ExecutionStrategy {
            name: strategy.to_owned(),
        }],
        shards: vec![ShardAvailability {
            model: model.clone(),
            shard: shard.to_owned(),
        }],
    };
    let directory = InMemoryPeerDirectory::new(vec![
        with_shard("a", "layer_range_v1", "first"),
        with_shard("b", "other", "first"),
        with_shard("c", "layer_range_v1", "second"),
        with_shard("d", "layer_range_v1", "first"),
    ]);
    let replicas =
        directory.replicas(&model, &"first".to_owned(), &ExecutionStrategy::layer_range());
    let ids: Vec<&str> = replicas.iter().map(|r| r.id.as_str()).collect();
    assert_eq!(ids, vec!["a", "d"]);
    assert_eq!(directory.worker(&"z".to_owned()), None);
}

#[test]
fn provides_bounded_ordered_queues_and_shutdown_availability() {
    let source: WorkerId = "loopback-a".to_owned();
    let destination: WorkerId = "loopback-b".to_owned();
    let mut transport = InMemoryTransport::new(1, vec![source.clone(), destination.clone()]);

    transport
        .send(&source, &destination, vec![1])
        .expect("first frame should fit");
    assert!(matches!(
        transport.send(&source, &destination, vec![2]),
        Err(DomainError::FrameBoundsExceeded)
    ));
    let frame = transport
        .receive(&destination)
        .expect("receive should succeed")
        .expect("frame should be queued");
    assert_eq!(frame.source, source);
    assert_eq!(frame.bytes, vec![1]);

    transport
        .shutdown(&destination)
        .expect("shutdown should succeed");
    assert!(!transport.is_available(&destination));
}

#[test]
fn memory_transport_delivers_in_order_and_refuses_unknown_workers() {
    let a: WorkerId = "a".to_owned();
    let b: WorkerId = "b".to_owned();
    let mut transport = InMemoryTransport::new(3, vec![a.clone(), b.clone()]);
    assert_eq!(transport.queue_limit(), 3);
    transport.send(&a, &b, vec![1]).expect("fits");
    transport.send(&a, &b, vec![2]).expect("fits");
    assert_eq!(transport.receive(&b).expect("poll").expect("frame").bytes, vec![1]);
    assert_eq!(transport.receive(&b).expect("poll").expect("frame").bytes, vec![2]);
    assert!(transport.receive(&b).expect("poll").is_none());
    assert!(matches!(
        transport.send(&a, &"z".to_owned(), vec![3]),
        Err(DomainError::WorkerUnavailable)
    ));
    assert_eq!(transport.acknowledge(&b, &a), Ok(()));
}

struct Never;

impl ExecutionCancellation for Never {
    fn is_cancelled(&self) -> bool {
        false
    }
}

struct Always;

impl ExecutionCancellation for Always {
    fn is_cancelled(&self) -> bool {
        true
    }
}

#[test]
fn model_backend_emits_its_configured_tokens() {
    let backend = InMemoryModelBackend::with_output(vec![
        GeneratedToken {
            id: 1,
            text: "Hello".to_owned(),
        },
        GeneratedToken {
            id: 2,
            text: " world".to_owned(),
        },
    ]);
    let mut sink = RecordingTokenSink::new();
    assert_eq!(
        backend.generate(&Never, &mut sink),
        Ok(GenerationTerminal::Completed { token_count: 2 })
    );
    assert_eq!(received(&sink), vec![(1, "Hello".to_owned()), (2, " world".to_owned())]);
    let mut sink = RecordingTokenSink::new();
    assert_eq!(backend.generate(&Always, &mut sink), Ok(GenerationTerminal::Cancelled));
    assert!(received(&sink).is_empty());
    assert_eq!(
        InMemoryModelBackend::new().generate(&Never, &mut RecordingTokenSink::new()),
        Err(DomainError::BackendUnavailable)
    );
}

#[test]
fn registry_resolves_only_its_manifest() {
    let registry = InMemoryModelRegistry::with_manifest(manifest());
    assert_eq!(registry.resolve(&model_reference()), Ok(manifest()));
    assert_eq!(
        registry.resolve(&"registry://other".to_owned()),
        Err(DomainError::ManifestUnavailable)
    );
    assert_eq!(
        InMemoryModelRegistry::new().resolve(&model_reference()),
        Err(DomainError::ManifestUnavailable)
    );
}

#[test]
fn artifact_store_reports_every_artifact_cached() {
    let store = InMemoryArtifactStore;
    let inspection = store.inspect(&manifest()).expect("manifest is supported");
    assert_eq!(inspection.artifacts.len(), 1);
    assert_eq!(inspection.artifacts[0].state, CacheEntryState::Cached);
    assert_eq!(inspection.artifacts[0].size_bytes, 7);
    let verified = store.acquire(&manifest()).expect("manifest is supported");
    assert!(verified.artifact_paths.is_empty());
    let mut unsupported = manifest();
    unsupported.quantization = "Q4_K_M".to_owned();
    assert!(matches!(store.acquire(&unsupported), Err(DomainError::ManifestUnsupported)));
    let built = build_inspection(&manifest(), &vec![CacheEntryState::Missing]);
    assert_eq!(built.artifacts[0].state, CacheEntryState::Missing);
    assert_eq!(built.reference, model_reference());
}

#[test]
fn audit_sink_keeps_events_in_order() {
    let mut sink: InMemoryAuditSink<u32> = InMemoryAuditSink::new();
    sink.record(3).expect("records");
    sink.record(1).expect("records");
    assert_eq!(sink.events(), &vec![3, 1]);
}

use synapseflow_adapters::in_memory::VerifiedModel;

#[test]
fn verified_models_find_artifacts_by_id() {
    let mut with_extra = manifest();
    with_extra.artifacts.push(ArtifactDescriptor {
        id: "extra".to_owned(),
        uri: "https://fixtures.example/extra.gguf".to_owned(),
        content_sha256: format!("sha256:{}", "c".repeat(64)),
        size_bytes: 3,
    });
    let model = VerifiedModel {
        manifest: with_extra,
        artifact_paths: vec!["/cache/weights".to_owned(), "/cache/extra".to_owned()],
    };
    assert_eq!(model.artifact_path(&"extra".to_owned()), Ok(&"/cache/extra".to_owned()));
    assert_eq!(model.primary_artifact_path(), Ok(&"/cache/weights".to_owned()));
    assert_eq!(
        model.artifact_path(&"missing".to_owned()),
        Err(DomainError::ArtifactUnavailable)
    );
    let uncached = VerifiedModel {
        manifest: manifest(),
        artifact_paths: vec![],
    };
    assert_eq!(
        uncached.artifact_path(&"weights".to_owned()),
        Err(DomainError::ArtifactUnavailable)
    );
    assert_eq!(uncached.primary_artifact_path(), Err(DomainError::ArtifactUnavailable));
}

fn received(sink: &RecordingTokenSink) -> Vec<(u32, String)> {
    sink.tokens().iter().map(|t| (t.id, t.text.clone())).collect()
}

#[test]
fn model_backend_completes_an_empty_output() {
    assert_eq!(
        InMemoryModelBackend::with_output(vec![]).generate(&Never, &mut RecordingTokenSink::new()),
        Ok(GenerationTerminal::Completed { token_count: 0 })
    );
}

#[test]
fn model_steps_stop_when_cancelled_before_the_end() {
    assert_eq!(model_step(false, 0, 2), ModelStep::Emit(0));
    assert_eq!(model_step(true, 1, 2), ModelStep::Stop(GenerationTerminal::Cancelled));
    assert_eq!(
        model_step(true, 2, 2),
        ModelStep::Stop(GenerationTerminal::Completed { token_count: 2 })
    );
    assert_eq!(
        model_step(false, 0, 0),
        ModelStep::Stop(GenerationTerminal::Completed { token_count: 0 })
    );
}
