use synapseflow_adapters::active_sessions::{ActiveSessions, CancellationResult};
use synapseflow_adapters::error::DomainError;
use synapseflow_adapters::session::{
    admission_decision, decode_scopes, encode_scopes, fingerprint_from_bytes, hex_text,
    idempotent_creation, issue, parse_state, session_identifier, sqlite_integer,
    sqlite_unsigned, state_text, validate_settings, AdmissionDecision, AdmissionRejection,
    IdempotentCreation, PublicSessionState, SqliteNodeStateSettings,
};

fn settings() -> SqliteNodeStateSettings {
    SqliteNodeStateSettings {
        max_concurrent_sessions: 4,
        max_sessions_per_principal: 1,
    }
}

#[test]
fn every_state_reads_back_from_its_stored_name() {
    for state in [
        PublicSessionState::Accepted,
        PublicSessionState::Running,
        PublicSessionState::Cancelling,
        PublicSessionState::Completed,
        PublicSessionState::Cancelled,
        PublicSessionState::Failed,
    ] {
        assert_eq!(parse_state(state_text(state)), Ok(state));
    }
    assert_eq!(state_text(PublicSessionState::Cancelling), "cancelling");
    assert_eq!(parse_state("paused"), Err(DomainError::PersistenceFailure));
    assert_eq!(parse_state("Running"), Err(DomainError::PersistenceFailure));
}

#[test]
fn admission_checks_node_capacity_before_principal_capacity() {
    assert_eq!(admission_decision(0, 0, settings()), Ok(AdmissionDecision::Admitted));
    assert_eq!(
        admission_decision(4, 1, settings()),
        Ok(AdmissionDecision::Rejected(AdmissionRejection::NodeCapacity))
    );
    assert_eq!(
        admission_decision(3, 1, settings()),
        Ok(AdmissionDecision::Rejected(AdmissionRejection::PrincipalCapacity))
    );
    assert_eq!(admission_decision(-1, 0, settings()), Err(DomainError::PersistenceFailure));
    assert_eq!(admission_decision(0, -1, settings()), Err(DomainError::PersistenceFailure));
    assert_eq!(
        admission_decision(9, -1, settings()),
        Ok(AdmissionDecision::Rejected(AdmissionRejection::NodeCapacity))
    );
}

#[test]
fn settings_need_room_for_a_session() {
    assert_eq!(validate_settings(settings()), Ok(()));
    assert_eq!(
        validate_settings(SqliteNodeStateSettings {
            max_concurrent_sessions: 0,
            max_sessions_per_principal: 1
        }),
        Err(DomainError::AdmissionUnavailable)
    );
}

#[test]
fn idempotent_creation_replays_only_the_same_request() {
    let a = Some(vec![1_u8; 32]);
    let b = Some(vec![2_u8; 32]);
    assert_eq!(idempotent_creation(&a, &a.clone()), IdempotentCreation::Replay);
    assert_eq!(idempotent_creation(&a, &b), IdempotentCreation::Conflict);
    assert_eq!(idempotent_creation(&None, &None), IdempotentCreation::Replay);
    assert_eq!(idempotent_creation(&a, &None), IdempotentCreation::Conflict);
    assert_eq!(fingerprint_from_bytes(vec![7; 32]), Ok(vec![7; 32]));
    assert_eq!(fingerprint_from_bytes(vec![7; 31]), Err(DomainError::PersistenceFailure));
}

#[test]
fn integers_round_trip_through_sqlite_columns() {
    assert_eq!(sqlite_integer(12), Ok(12));
    assert_eq!(sqlite_integer(i64::MAX as u64), Ok(i64::MAX));
    assert_eq!(sqlite_integer(i64::MAX as u64 + 1), Err(DomainError::PersistenceFailure));
    assert_eq!(sqlite_unsigned(12), Ok(12));
    assert_eq!(sqlite_unsigned(-1), Err(DomainError::PersistenceFailure));
    assert_eq!(sqlite_unsigned(sqlite_integer(99).unwrap()), Ok(99));
}

#[test]
fn scopes_are_stored_space_separated_and_read_back() {
    let scopes = vec!["inference:run".to_owned(), "sessions:read".to_owned()];
    let stored = encode_scopes(&scopes);
    assert_eq!(stored, "inference:run sessions:read");
    assert_eq!(decode_scopes(&stored), scopes);
    assert_eq!(decode_scopes("  a\tb\n c  "), vec!["a", "b", "c"]);
    assert_eq!(encode_scopes(&vec![]), "");
    assert!(decode_scopes("   ").is_empty());
}

#[test]
fn session_identifiers_are_uuid_hex_after_a_prefix() {
    let bytes = [
        0x12, 0x34, 0x56, 0x78, 0x9a, 0xbc, 0x4d, 0xef, 0x80, 0x01, 0x02, 0x03, 0x04, 0x05,
        0x06, 0x07,
    ];
    let expected = format!("node-session-{}", uuid::Uuid::from_bytes(bytes).simple());
    assert_eq!(session_identifier(&bytes), expected);
    assert_eq!(hex_text(&[0x00, 0x0f, 0xa5, 0xff]), "000fa5ff");
}

#[test]
fn issued_identifiers_are_fresh_random_uuids() {
    let first = issue();
    let second = issue();
    assert_ne!(first, second);
    let hex = first.strip_prefix("node-session-").expect("prefix");
    let parsed = uuid::Uuid::parse_str(hex).expect("uuid text");
    assert_eq!(parsed.get_version_num(), 4);
    assert_eq!(hex, parsed.simple().to_string());
}

#[test]
fn cancellation_reaches_only_the_running_activation() {
    let mut sessions = ActiveSessions::new();
    let first = sessions.activate(&"s-1".to_owned());
    let other = sessions.activate(&"s-2".to_owned());
    assert!(!sessions.is_cancelled(first));
    assert_eq!(
        sessions.request_cancellation(&"s-1".to_owned()),
        CancellationResult::Requested
    );
    assert!(sessions.is_cancelled(first));
    assert!(!sessions.is_cancelled(other));

    let again = sessions.activate(&"s-1".to_owned());
    assert!(!sessions.is_cancelled(again));
    assert!(sessions.is_cancelled(first));

    sessions.deactivate(&"s-1".to_owned());
    assert_eq!(
        sessions.request_cancellation(&"s-1".to_owned()),
        CancellationResult::Requested
    );
    assert!(!sessions.is_cancelled(again));
    assert_eq!(
        sessions.request_cancellation(&"unknown".to_owned()),
        CancellationResult::Requested
    );
}

use synapseflow_adapters::session_store::{
    checkpoint_rows, read_checkpoint, read_session, repeated_creation, session_row,
    CheckpointRef, CreateSessionResult, DurableSession,
};

fn durable_session() -> DurableSession {
    DurableSession {
        id: "node-session-0123".to_owned(),
        owner_pseudonym: "owner_0001".to_owned(),
        owner_scopes: vec!["generate".to_owned()],
        model: format!("registry://fixtures/model@sha256:{}", "a".repeat(64)),
        idempotency_key: Some("idempotency-00001".to_owned()),
        request_fingerprint: Some(vec![7; 32]),
        state: PublicSessionState::Accepted,
        checkpoints: vec![CheckpointRef {
            session_id: "execution-session-0001".to_owned(),
            stream_id: 1,
            sequence: 12,
        }],
        trace_id: None,
    }
}

#[test]
fn persists_idempotency_and_checkpoints_without_storing_request_payloads() {
    let candidate = durable_session();
    let row = session_row(&candidate);
    assert_eq!(row.owner_scopes, "generate");
    assert_eq!(row.state, "accepted");
    let rows = checkpoint_rows(&candidate).expect("checkpoints fit");
    let mut loaded = read_session(row).expect("row reads back");
    for checkpoint in rows {
        assert_eq!(checkpoint.position, 0);
        loaded.checkpoints.push(
            read_checkpoint(
                checkpoint.execution_session_id,
                checkpoint.stream_id,
                checkpoint.frame_sequence,
            )
            .expect("checkpoint reads back"),
        );
    }
    assert_eq!(loaded, candidate);
    let requested = candidate.request_fingerprint.clone();
    assert!(matches!(
        repeated_creation(loaded, &requested),
        CreateSessionResult::Replayed(_)
    ));
    assert_eq!(
        repeated_creation(durable_session(), &Some(vec![8; 32])),
        CreateSessionResult::Conflict
    );
}

#[test]
fn corrupt_rows_are_persistence_failures() {
    let mut row = session_row(&durable_session());
    row.state = "paused".to_owned();
    assert_eq!(read_session(row), Err(DomainError::PersistenceFailure));
    let mut row = session_row(&durable_session());
    row.request_fingerprint = Some(vec![1; 3]);
    assert_eq!(read_session(row), Err(DomainError::PersistenceFailure));
    assert_eq!(
        read_checkpoint("e".to_owned(), -1, 0),
        Err(DomainError::PersistenceFailure)
    );
    let mut session = durable_session();
    session.checkpoints[0].sequence = u64::MAX;
    assert_eq!(checkpoint_rows(&session), Err(DomainError::PersistenceFailure));
}
