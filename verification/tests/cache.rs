use synapseflow_adapters::cache::{
    active_hashes, declared_hash_text, decimal_text, hash_matches, is_allowed_uri, join,
    metadata_record, retained, CachePaths, CachedContent, ContentAddressedArtifactStore,
    StagedContent,
};
use synapseflow_adapters::error::DomainError;
use synapseflow_adapters::manifest::{
    ArtifactDescriptor, ModelFormat, ModelManifest, TokenizerDeclaration, TokenizerKind,
    MANIFEST_SCHEMA_VERSION,
};

const HELLO_SHA256: &str = "2cf24dba5fb0a30e26e83b2ac5b9e29e1b161e5c1fa7425e73043362938b9824";

fn artifact(hash: &str, size_bytes: u64) -> ArtifactDescriptor {
    ArtifactDescriptor {
        id: "weights".to_owned(),
        uri: "https://fixtures.example/model.gguf".to_owned(),
        content_sha256: format!("sha256:{hash}"),
        size_bytes,
    }
}

fn manifest(artifacts: Vec<ArtifactDescriptor>) -> ModelManifest {
    ModelManifest {
        reference: format!("registry://fixtures/cache@sha256:{}", "b".repeat(64)),
        schema_version: MANIFEST_SCHEMA_VERSION,
        model_id: "tinyllama".to_owned(),
        model_version: "cache".to_owned(),
        format: ModelFormat::Gguf,
        architecture: "llama".to_owned(),
        quantization: "Q5_K_M".to_owned(),
        tokenizer: TokenizerDeclaration {
            kind: TokenizerKind::Embedded,
            model: "llama".to_owned(),
        },
        artifacts,
        publisher_key_id: "ed25519:cache-test".to_owned(),
        license: "Apache-2.0".to_owned(),
        provenance: "fixture:test".to_owned(),
        execution_plan: None,
        runtime_profile: None,
    }
}

#[test]
fn staged_content_accepts_the_declared_bytes_in_any_chunks() {
    let declared = artifact(HELLO_SHA256, 5);
    let mut staged = StagedContent::start(&declared, 1024).expect("size fits");
    staged.absorb(b"he").expect("within size");
    staged.absorb(b"llo").expect("within size");
    assert_eq!(staged.finish(&declared), Ok(()));

    let mut cached = CachedContent::start();
    cached.absorb(b"hello").expect("counts");
    assert_eq!(cached.finish(&declared), Ok(()));
}

#[test]
fn staged_content_refuses_tampered_oversized_or_short_sources() {
    let declared = artifact(HELLO_SHA256, 5);
    let mut tampered = StagedContent::start(&declared, 1024).expect("size fits");
    tampered.absorb(b"hellO").expect("within size");
    assert_eq!(tampered.finish(&declared), Err(DomainError::ArtifactIntegrity));

    let mut long = StagedContent::start(&declared, 1024).expect("size fits");
    assert_eq!(long.absorb(b"hello!"), Err(DomainError::ArtifactIntegrity));

    let mut short = StagedContent::start(&declared, 1024).expect("size fits");
    short.absorb(b"hell").expect("within size");
    assert_eq!(short.finish(&declared), Err(DomainError::ArtifactIntegrity));

    assert!(matches!(
        StagedContent::start(&declared, 4),
        Err(DomainError::ArtifactIntegrity)
    ));

    let mut cached = CachedContent::start();
    cached.absorb(b"world").expect("counts");
    assert_eq!(cached.finish(&declared), Err(DomainError::ArtifactIntegrity));
}

#[test]
fn digests_compare_as_lower_case_hex_after_the_prefix() {
    let digest: Vec<u8> = (0..32).collect();
    let hex: String = digest.iter().map(|b| format!("{b:02x}")).collect();
    assert!(hash_matches(&digest, &format!("sha256:{hex}")));
    assert!(!hash_matches(&digest, &format!("sha256:{}", hex.to_uppercase())));
    assert!(!hash_matches(&digest, &hex));
    assert_eq!(declared_hash_text(&"sha256:abc".to_owned()), "abc");
    assert_eq!(declared_hash_text(&"md5:abc".to_owned()), "");
}

#[test]
fn only_https_uris_without_whitespace_are_allowed() {
    assert!(is_allowed_uri("https://fixtures.example/model.gguf"));
    assert!(!is_allowed_uri("http://fixtures.example/model.gguf"));
    assert!(!is_allowed_uri("https://fixtures.example/model .gguf"));
    assert!(!is_allowed_uri("https://fixtures.example/\u{2003}"));
}

#[test]
fn unprovisioned_and_duplicate_sources_are_disallowed() {
    let mut store = ContentAddressedArtifactStore::new("/var/cache/sf".to_owned(), 1024 * 1024)
        .expect("cache should be configured");
    let declared = artifact(HELLO_SHA256, 5);
    assert_eq!(store.source_for(&declared), Err(DomainError::DisallowedSource));
    store
        .register_provisioned_source(declared.uri.clone(), "/srv/source.gguf".to_owned())
        .expect("source should be permitted");
    assert_eq!(store.source_for(&declared), Ok(&"/srv/source.gguf".to_owned()));
    assert_eq!(
        store.register_provisioned_source(declared.uri.clone(), "/srv/other.gguf".to_owned()),
        Err(DomainError::DisallowedSource)
    );
    assert_eq!(
        store.register_provisioned_source("ftp://x".to_owned(), "/srv/x".to_owned()),
        Err(DomainError::DisallowedSource)
    );
    assert!(matches!(
        ContentAddressedArtifactStore::new("/var/cache/sf".to_owned(), 0),
        Err(DomainError::CacheFailure)
    ));
}

#[test]
fn cache_paths_are_content_addressed() {
    let root = "/var/cache/sf".to_owned();
    let paths = CachePaths::new(&root);
    let declared = artifact(HELLO_SHA256, 5);
    assert_eq!(paths.objects(), "/var/cache/sf/objects");
    assert_eq!(paths.object(&declared), format!("/var/cache/sf/objects/{HELLO_SHA256}"));
    assert_eq!(paths.lease(&declared), format!("/var/cache/sf/leases/{HELLO_SHA256}.lease"));
    assert_eq!(
        paths.metadata_file(&declared),
        format!("/var/cache/sf/metadata/{HELLO_SHA256}.meta")
    );
    assert_eq!(
        paths.staged_artifact(&declared, 17),
        format!("/var/cache/sf/staging/{HELLO_SHA256}.17.part")
    );
    assert_eq!(
        paths.staged_metadata(&declared, 0),
        format!("/var/cache/sf/staging/{HELLO_SHA256}.0.meta.part")
    );
    assert_eq!(join(&"/a/".to_owned(), "b"), "/a/b");
    assert_eq!(join(&"".to_owned(), "b"), "b");
    assert_eq!(join(&"/a".to_owned(), "/b"), "/b");
    assert_eq!(decimal_text(0), "0");
    assert_eq!(decimal_text(18_446_744_073_709_551_615), "18446744073709551615");
}

#[test]
fn cleanup_retains_only_the_active_objects() {
    let active = manifest(vec![artifact("aa", 1), artifact("bb", 1)]);
    let hashes = active_hashes(&active);
    assert_eq!(hashes, vec!["aa".to_owned(), "bb".to_owned()]);
    assert!(retained("aa", &hashes));
    assert!(retained("bb.meta", &hashes));
    assert!(!retained("aab", &hashes));
    assert!(!retained("cc.meta", &hashes));
}

#[test]
fn metadata_records_safe_provenance_only() {
    let declared = artifact(HELLO_SHA256, 5);
    assert_eq!(
        metadata_record(&"registry://m".to_owned(), &declared),
        format!(
            "reference=registry://m\nartifact_id=weights\ncontent_sha256=sha256:{HELLO_SHA256}\nsize_bytes=5\n"
        )
    );
}
