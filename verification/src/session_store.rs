use vstd::prelude::*;

use crate::error::DomainError;
use crate::frame::copy_text;
use crate::ids::copy_id;
use crate::session::{
    decode_scopes, encode_scopes, fingerprint_from_bytes, fingerprint_view, is_word,
    join_words, law_state_name_round_trip, law_words_round_trip, parse_state, spec_parse_state,
    sqlite_integer, sqlite_unsigned, state_name, state_text, words, PublicSessionState,
};

verus! {

/// Where a session can resume: an execution session, stream and frame sequence.
#[derive(Debug, PartialEq, Eq)]
pub struct CheckpointRef {
    pub session_id: String,
    pub stream_id: u64,
    pub sequence: u64,
}

/// The presentation-safe durable record of a public session: no prompt,
/// credential or model payload.
#[derive(Debug, PartialEq, Eq)]
pub struct DurableSession {
    pub id: String,
    pub owner_pseudonym: String,
    pub owner_scopes: Vec<String>,
    pub model: String,
    pub idempotency_key: Option<String>,
    pub request_fingerprint: Option<Vec<u8>>,
    pub state: PublicSessionState,
    pub checkpoints: Vec<CheckpointRef>,
    pub trace_id: Option<String>,
}

/// The columns of a stored session row.
#[derive(Debug, PartialEq, Eq)]
pub struct SessionRow {
    pub session_id: String,
    pub owner_pseudonym: String,
    pub owner_scopes: String,
    pub model_reference: String,
    pub idempotency_key: Option<String>,
    pub request_fingerprint: Option<Vec<u8>>,
    pub state: String,
    pub trace_id: Option<String>,
}

/// The columns of a stored checkpoint row.
#[derive(Debug, PartialEq, Eq)]
pub struct CheckpointRow {
    pub position: i64,
    pub execution_session_id: String,
    pub stream_id: i64,
    pub frame_sequence: i64,
}

/// A session with every text and byte field given by its content.
pub struct SessionView {
    pub id: Seq<char>,
    pub owner_pseudonym: Seq<char>,
    pub owner_scopes: Seq<Seq<char>>,
    pub model: Seq<char>,
    pub idempotency_key: Option<Seq<char>>,
    pub request_fingerprint: Option<Seq<u8>>,
    pub state: PublicSessionState,
    pub checkpoints: Seq<(Seq<char>, u64, u64)>,
    pub trace_id: Option<Seq<char>>,
}

/// A session row with every text and byte field given by its content.
pub struct RowView {
    pub session_id: Seq<char>,
    pub owner_pseudonym: Seq<char>,
    pub owner_scopes: Seq<char>,
    pub model_reference: Seq<char>,
    pub idempotency_key: Option<Seq<char>>,
    pub request_fingerprint: Option<Seq<u8>>,
    pub state: Seq<char>,
    pub trace_id: Option<Seq<char>>,
}

pub open spec fn text_option(t: Option<String>) -> Option<Seq<char>> {
    match t {
        Some(s) => Some(s@),
        None => None,
    }
}

impl View for CheckpointRef {
    type V = (Seq<char>, u64, u64);

    open spec fn view(&self) -> (Seq<char>, u64, u64) {
        (self.session_id@, self.stream_id, self.sequence)
    }
}

impl View for DurableSession {
    type V = SessionView;

    open spec fn view(&self) -> SessionView {
        SessionView {
            id: self.id@,
            owner_pseudonym: self.owner_pseudonym@,
            owner_scopes: self.owner_scopes@.map_values(|s: String| s@),
            model: self.model@,
            idempotency_key: text_option(self.idempotency_key),
            request_fingerprint: fingerprint_view(self.request_fingerprint),
            state: self.state,
            checkpoints: self.checkpoints@.map_values(|c: CheckpointRef| c@),
            trace_id: text_option(self.trace_id),
        }
    }
}

impl View for SessionRow {
    type V = RowView;

    open spec fn view(&self) -> RowView {
        RowView {
            session_id: self.session_id@,
            owner_pseudonym: self.owner_pseudonym@,
            owner_scopes: self.owner_scopes@,
            model_reference: self.model_reference@,
            idempotency_key: text_option(self.idempotency_key),
            request_fingerprint: fingerprint_view(self.request_fingerprint),
            state: self.state@,
            trace_id: text_option(self.trace_id),
        }
    }
}

/// The row a session is stored as: scopes space-separated, the state by name.
pub open spec fn row_of(s: SessionView) -> RowView {
    RowView {
        session_id: s.id,
        owner_pseudonym: s.owner_pseudonym,
        owner_scopes: join_words(s.owner_scopes),
        model_reference: s.model,
        idempotency_key: s.idempotency_key,
        request_fingerprint: s.request_fingerprint,
        state: state_name(s.state),
        trace_id: s.trace_id,
    }
}

/// The fingerprint column as read: exactly 32 bytes when present.
pub open spec fn read_fingerprint(f: Option<Seq<u8>>) -> Result<Option<Seq<u8>>, DomainError> {
    match f {
        None => Ok(None),
        Some(b) => if b.len() == 32 {
            Ok(Some(b))
        } else {
            Err(DomainError::PersistenceFailure)
        },
    }
}

/// The session a row reads back as, before its checkpoints are attached:
/// scopes are the words of the scope column, the state is parsed by name, a
/// stored fingerprint must be 32 bytes.
pub open spec fn session_of(row: RowView) -> Result<SessionView, DomainError> {
    match read_fingerprint(row.request_fingerprint) {
        Err(e) => Err(e),
        Ok(fingerprint) => match spec_parse_state(row.state) {
            Err(e) => Err(e),
            Ok(state) => Ok(
                SessionView {
                    id: row.session_id,
                    owner_pseudonym: row.owner_pseudonym,
                    owner_scopes: words(row.owner_scopes),
                    model: row.model_reference,
                    idempotency_key: row.idempotency_key,
                    request_fingerprint: fingerprint,
                    state,
                    checkpoints: Seq::empty(),
                    trace_id: row.trace_id,
                },
            ),
        },
    }
}

/// The row of `session`.
pub fn session_row(session: &DurableSession) -> (r: SessionRow)
    ensures
        r@ == row_of(session@),
        r.session_id@ == session.id@,
        r.owner_pseudonym@ == session.owner_pseudonym@,
        r.model_reference@ == session.model@,
        r.owner_scopes@ == join_words(session.owner_scopes@.map_values(|s: String| s@)),
        r.state@ == state_name(session.state),
        text_option(r.idempotency_key) == text_option(session.idempotency_key),
        text_option(r.trace_id) == text_option(session.trace_id),
        fingerprint_view(r.request_fingerprint) == fingerprint_view(session.request_fingerprint),
{
    let fingerprint = match &session.request_fingerprint {
        Some(f) => Some(crate::frame::copy_bytes(f)),
        None => None,
    };
    SessionRow {
        session_id: copy_id(&session.id),
        owner_pseudonym: copy_id(&session.owner_pseudonym),
        owner_scopes: encode_scopes(&session.owner_scopes),
        model_reference: copy_id(&session.model),
        idempotency_key: copy_text(&session.idempotency_key),
        request_fingerprint: fingerprint,
        state: String::from_str(state_text(session.state)),
        trace_id: copy_text(&session.trace_id),
    }
}

/// Reads a stored session row; its checkpoints are read separately.
pub fn read_session(row: SessionRow) -> (r: Result<DurableSession, DomainError>)
    ensures
        match session_of(row@) {
            Ok(s) => r matches Ok(d) && d@ == s,
            Err(e) => r == Err::<DurableSession, DomainError>(e),
        },
        r matches Ok(d) ==> d.id@ == row.session_id@ && d.owner_pseudonym@ == row.owner_pseudonym@
            && d.model@ == row.model_reference@ && d.owner_scopes@.map_values(|s: String| s@)
            == words(row.owner_scopes@) && state_name(d.state) == row.state@
            && text_option(d.idempotency_key) == text_option(row.idempotency_key)
            && text_option(d.trace_id) == text_option(row.trace_id) && d.checkpoints@.len() == 0,
{
    let scopes = decode_scopes(row.owner_scopes.as_str());
    let request_fingerprint = match row.request_fingerprint {
        Some(bytes) => match fingerprint_from_bytes(bytes) {
            Ok(f) => Some(f),
            Err(e) => return Err(e),
        },
        None => None,
    };
    let state = match parse_state(row.state.as_str()) {
        Ok(s) => s,
        Err(e) => return Err(e),
    };
    let d = DurableSession {
        id: row.session_id,
        owner_pseudonym: row.owner_pseudonym,
        owner_scopes: scopes,
        model: row.model_reference,
        idempotency_key: row.idempotency_key,
        request_fingerprint,
        state,
        checkpoints: Vec::new(),
        trace_id: row.trace_id,
    };
    assert(d@.checkpoints =~= Seq::<(Seq<char>, u64, u64)>::empty());
    Ok(d)
}

/// The rows of a session's checkpoints, numbered in order; stream ids and
/// sequences beyond SQLite's signed range cannot be stored.
pub fn checkpoint_rows(session: &DurableSession) -> (r: Result<Vec<CheckpointRow>, DomainError>)
    ensures
        r is Ok <==> session.checkpoints@.len() <= i64::MAX as int + 1 && forall|i: int|
            0 <= i < session.checkpoints@.len() ==> (#[trigger] session.checkpoints@[i]).stream_id
                <= i64::MAX && session.checkpoints@[i].sequence <= i64::MAX,
        r matches Err(e) ==> e == DomainError::PersistenceFailure,
        r matches Ok(rows) ==> rows@.len() == session.checkpoints@.len() && forall|i: int|
            0 <= i < rows@.len() ==> {
                &&& (#[trigger] rows@[i]).position == i
                &&& rows@[i].execution_session_id@ == session.checkpoints@[i].session_id@
                &&& rows@[i].stream_id == session.checkpoints@[i].stream_id
                &&& rows@[i].frame_sequence == session.checkpoints@[i].sequence
            },
{
    let mut rows: Vec<CheckpointRow> = Vec::new();
    let mut i: usize = 0;
    while i < session.checkpoints.len()
        invariant
            i <= session.checkpoints@.len(),
            i <= i64::MAX as int + 1,
            rows@.len() == i,
            forall|k: int|
                0 <= k < i ==> (#[trigger] session.checkpoints@[k]).stream_id <= i64::MAX
                    && session.checkpoints@[k].sequence <= i64::MAX,
            forall|k: int|
                0 <= k < i ==> {
                    &&& (#[trigger] rows@[k]).position == k
                    &&& rows@[k].execution_session_id@ == session.checkpoints@[k].session_id@
                    &&& rows@[k].stream_id == session.checkpoints@[k].stream_id
                    &&& rows@[k].frame_sequence == session.checkpoints@[k].sequence
                },
        decreases session.checkpoints.len() - i,
    {
        let checkpoint = &session.checkpoints[i];
        if i as u64 > i64::MAX as u64 {
            return Err(DomainError::PersistenceFailure);
        }
        let stream_id = match sqlite_integer(checkpoint.stream_id) {
            Ok(v) => v,
            Err(e) => return Err(e),
        };
        let frame_sequence = match sqlite_integer(checkpoint.sequence) {
            Ok(v) => v,
            Err(e) => return Err(e),
        };
        rows.push(
            CheckpointRow {
                position: i as i64,
                execution_session_id: copy_id(&checkpoint.session_id),
                stream_id,
                frame_sequence,
            },
        );
        i += 1;
    }
    Ok(rows)
}

/// Reads a stored checkpoint row; a negative stream id or sequence is corrupt data.
pub fn read_checkpoint(execution_session_id: String, stream_id: i64, frame_sequence: i64) -> (r:
    Result<CheckpointRef, DomainError>)
    ensures
        r is Ok <==> stream_id >= 0 && frame_sequence >= 0,
        r matches Ok(c) ==> c@ == (execution_session_id@, stream_id as u64, frame_sequence as u64),
        r matches Err(e) ==> e == DomainError::PersistenceFailure,
{
    let stream_id = match sqlite_unsigned(stream_id) {
        Ok(v) => v,
        Err(e) => return Err(e),
    };
    let sequence = match sqlite_unsigned(frame_sequence) {
        Ok(v) => v,
        Err(e) => return Err(e),
    };
    Ok(CheckpointRef { session_id: execution_session_id, stream_id, sequence })
}

/// The outcome of creating a session.
#[derive(Debug, PartialEq, Eq)]
pub enum CreateSessionResult {
    Created(DurableSession),
    Replayed(DurableSession),
    Conflict,
}

/// A creation that repeats an idempotency key replays the stored session when
/// the request fingerprints agree and is a conflict otherwise.
pub fn repeated_creation(existing: DurableSession, requested: &Option<Vec<u8>>) -> (r:
    CreateSessionResult)
    ensures
        fingerprint_view(existing.request_fingerprint) == fingerprint_view(*requested) ==> r
            == CreateSessionResult::Replayed(existing),
        fingerprint_view(existing.request_fingerprint) != fingerprint_view(*requested) ==> r
            == CreateSessionResult::Conflict,
{
    match crate::session::idempotent_creation(&existing.request_fingerprint, requested) {
        crate::session::IdempotentCreation::Replay => CreateSessionResult::Replayed(existing),
        crate::session::IdempotentCreation::Conflict => CreateSessionResult::Conflict,
    }
}

/// A stored session reads back as itself: writing a session's row and reading
/// it gives the same session, checkpoints aside, when every scope is a word
/// and a fingerprint, if any, is 32 bytes.
pub proof fn law_session_row_round_trip(s: SessionView)
    requires
        forall|i: int| 0 <= i < s.owner_scopes.len() ==> is_word(#[trigger] s.owner_scopes[i]),
        s.request_fingerprint matches Some(f) ==> f.len() == 32,
    ensures
        session_of(row_of(s)) == Ok::<SessionView, DomainError>(
            SessionView { checkpoints: Seq::empty(), ..s },
        ),
{
    law_words_round_trip(s.owner_scopes);
    law_state_name_round_trip(s.state);
}

} // verus!
