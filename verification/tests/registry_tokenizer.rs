use synapseflow_adapters::error::DomainError;
use synapseflow_adapters::manifest_registry::ProvisionedManifestRegistry;
use synapseflow_adapters::tokenizer::{parse_hex, replace_word_markers, token_bytes, LoomTokenizer};

#[test]
fn registry_serves_each_provisioned_document() {
    let registry = ProvisionedManifestRegistry::new(vec![
        ("registry://a".to_owned(), b"first".to_vec()),
        ("registry://b".to_owned(), b"second".to_vec()),
    ])
    .expect("references are distinct");
    assert_eq!(registry.document(&"registry://b".to_owned()), Ok(&b"second".to_vec()));
    assert_eq!(registry.document(&"registry://a".to_owned()), Ok(&b"first".to_vec()));
    assert_eq!(
        registry.document(&"registry://c".to_owned()),
        Err(DomainError::ManifestUnavailable)
    );
}

#[test]
fn registry_refuses_a_reference_provisioned_twice() {
    assert!(matches!(
        ProvisionedManifestRegistry::new(vec![
            ("registry://a".to_owned(), b"first".to_vec()),
            ("registry://a".to_owned(), b"again".to_vec()),
        ]),
        Err(DomainError::DisallowedSource)
    ));
}

fn vocabulary() -> Vec<String> {
    ["<unk>", "▁hello", "▁", "h", "e", "l", "o", "<0x0A>", "▁hel", "<0xZZ>"]
        .iter()
        .map(|t| t.to_string())
        .collect()
}

#[test]
fn token_bytes_follow_the_vocabulary_conventions() {
    assert_eq!(token_bytes("<0x0A>"), Some(vec![b'\n']));
    assert_eq!(token_bytes("<0x+f>"), Some(vec![0x0f]));
    assert_eq!(token_bytes("<0xZZ>"), None);
    assert_eq!(token_bytes("<0x100>"), None);
    assert_eq!(token_bytes("▁hello▁"), Some(b" hello ".to_vec()));
    assert_eq!(replace_word_markers("a▁b".as_bytes()), b"a b".to_vec());
    assert_eq!(parse_hex(b"ff"), Some(255));
    assert_eq!(parse_hex(b""), None);
}

#[test]
fn encoding_takes_the_longest_entry_first() {
    let tokenizer = LoomTokenizer::new();
    assert_eq!(tokenizer.encode(&vocabulary(), " hello\n"), Ok(vec![1, 7]));
    assert_eq!(tokenizer.encode(&vocabulary(), " hell"), Ok(vec![8, 5]));
    assert_eq!(tokenizer.encode(&vocabulary(), "x"), Err(DomainError::TokenizerFailure));
    assert_eq!(tokenizer.encode(&vocabulary(), ""), Err(DomainError::TokenizerFailure));
}

#[test]
fn decoding_gives_the_entry_text() {
    let tokenizer = LoomTokenizer::new();
    let token = tokenizer.decode(&vocabulary(), 1).expect("entry exists");
    assert_eq!(token.id, 1);
    assert_eq!(token.text, " hello");
    assert_eq!(tokenizer.decode(&vocabulary(), 7).expect("newline").text, "\n");
    assert!(matches!(
        tokenizer.decode(&vocabulary(), 9),
        Err(DomainError::TokenizerFailure)
    ));
    assert!(matches!(
        tokenizer.decode(&vocabulary(), 99),
        Err(DomainError::TokenizerFailure)
    ));
    let invalid = vec!["<0xFF>".to_owned()];
    assert!(matches!(
        tokenizer.decode(&invalid, 0),
        Err(DomainError::TokenizerFailure)
    ));
}
