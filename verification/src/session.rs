use vstd::prelude::*;
use vstd::string::{StrSliceExecFns, StringExecFns};

use crate::cache::{char_is_whitespace, hex_char, hex_lower, is_whitespace};
use crate::error::DomainError;

verus! {

/// Capacity limits rechecked when a durable session is created.
#[derive(Clone, Copy, Debug, PartialEq, Eq, Structural)]
pub struct SqliteNodeStateSettings {
    pub max_concurrent_sessions: usize,
    pub max_sessions_per_principal: usize,
}

/// Lifecycle state of a public session.
#[derive(Clone, Copy, Debug, PartialEq, Eq, Structural)]
pub enum PublicSessionState {
    Accepted,
    Running,
    Cancelling,
    Completed,
    Cancelled,
    Failed,
}

/// Why a session was not admitted.
#[derive(Clone, Copy, Debug, PartialEq, Eq, Structural)]
pub enum AdmissionRejection {
    NodeCapacity,
    PrincipalCapacity,
}

/// Outcome of admission accounting.
#[derive(Clone, Copy, Debug, PartialEq, Eq, Structural)]
pub enum AdmissionDecision {
    Admitted,
    Rejected(AdmissionRejection),
}

/// The stored name of a session state.
pub open spec fn state_name(s: PublicSessionState) -> Seq<char> {
    match s {
        PublicSessionState::Accepted => "accepted"@,
        PublicSessionState::Running => "running"@,
        PublicSessionState::Cancelling => "cancelling"@,
        PublicSessionState::Completed => "completed"@,
        PublicSessionState::Cancelled => "cancelled"@,
        PublicSessionState::Failed => "failed"@,
    }
}

/// The session state stored under `name`; any other name is corrupt data.
pub open spec fn spec_parse_state(name: Seq<char>) -> Result<PublicSessionState, DomainError> {
    if name == "accepted"@ {
        Ok(PublicSessionState::Accepted)
    } else if name == "running"@ {
        Ok(PublicSessionState::Running)
    } else if name == "cancelling"@ {
        Ok(PublicSessionState::Cancelling)
    } else if name == "completed"@ {
        Ok(PublicSessionState::Completed)
    } else if name == "cancelled"@ {
        Ok(PublicSessionState::Cancelled)
    } else if name == "failed"@ {
        Ok(PublicSessionState::Failed)
    } else {
        Err(DomainError::PersistenceFailure)
    }
}

/// The stored name of a session state.
pub fn state_text(state: PublicSessionState) -> (r: &'static str)
    ensures
        r@ == state_name(state),
{
    match state {
        PublicSessionState::Accepted => "accepted",
        PublicSessionState::Running => "running",
        PublicSessionState::Cancelling => "cancelling",
        PublicSessionState::Completed => "completed",
        PublicSessionState::Cancelled => "cancelled",
        PublicSessionState::Failed => "failed",
    }
}

/// Reads a stored session state.
pub fn parse_state(value: &str) -> (r: Result<PublicSessionState, DomainError>)
    ensures
        r == spec_parse_state(value@),
{
    let v = String::from_str(value);
    if v == String::from_str("accepted") {
        Ok(PublicSessionState::Accepted)
    } else if v == String::from_str("running") {
        Ok(PublicSessionState::Running)
    } else if v == String::from_str("cancelling") {
        Ok(PublicSessionState::Cancelling)
    } else if v == String::from_str("completed") {
        Ok(PublicSessionState::Completed)
    } else if v == String::from_str("cancelled") {
        Ok(PublicSessionState::Cancelled)
    } else if v == String::from_str("failed") {
        Ok(PublicSessionState::Failed)
    } else {
        Err(DomainError::PersistenceFailure)
    }
}

/// Every session state reads back from its stored name.
pub proof fn law_state_name_round_trip(s: PublicSessionState)
    ensures
        spec_parse_state(state_name(s)) == Ok::<PublicSessionState, DomainError>(s),
{
    reveal_strlit("accepted");
    reveal_strlit("running");
    reveal_strlit("cancelling");
    reveal_strlit("completed");
    reveal_strlit("cancelled");
    reveal_strlit("failed");
    assert("running"@ != "accepted"@) by {
        assert("running"@[0] != "accepted"@[0]);
    }
    assert("cancelling"@ != "accepted"@) by {
        assert("cancelling"@[0] != "accepted"@[0]);
    }
    assert("cancelling"@ != "running"@) by {
        assert("cancelling"@[0] != "running"@[0]);
    }
    assert("completed"@ != "accepted"@) by {
        assert("completed"@[0] != "accepted"@[0]);
    }
    assert("completed"@ != "running"@) by {
        assert("completed"@[0] != "running"@[0]);
    }
    assert("completed"@ != "cancelling"@) by {
        assert("completed"@[1] != "cancelling"@[1]);
    }
    assert("cancelled"@ != "accepted"@) by {
        assert("cancelled"@[0] != "accepted"@[0]);
    }
    assert("cancelled"@ != "running"@) by {
        assert("cancelled"@[0] != "running"@[0]);
    }
    assert("cancelled"@ != "cancelling"@) by {
        assert("cancelled"@.len() != "cancelling"@.len());
    }
    assert("cancelled"@ != "completed"@) by {
        assert("cancelled"@[1] != "completed"@[1]);
    }
    assert("failed"@ != "accepted"@) by {
        assert("failed"@[0] != "accepted"@[0]);
    }
    assert("failed"@ != "running"@) by {
        assert("failed"@[0] != "running"@[0]);
    }
    assert("failed"@ != "cancelling"@) by {
        assert("failed"@[0] != "cancelling"@[0]);
    }
    assert("failed"@ != "completed"@) by {
        assert("failed"@[0] != "completed"@[0]);
    }
    assert("failed"@ != "cancelled"@) by {
        assert("failed"@[0] != "cancelled"@[0]);
    }
}

/// Admission from the durable counts of non-terminal sessions: a full node
/// rejects first, then a principal at its own limit; a negative count is
/// corrupt data.
pub open spec fn spec_admission(
    active: i64,
    principal_active: i64,
    settings: SqliteNodeStateSettings,
) -> Result<AdmissionDecision, DomainError> {
    if active < 0 {
        Err(DomainError::PersistenceFailure)
    } else if active >= settings.max_concurrent_sessions {
        Ok(AdmissionDecision::Rejected(AdmissionRejection::NodeCapacity))
    } else if principal_active < 0 {
        Err(DomainError::PersistenceFailure)
    } else if principal_active >= settings.max_sessions_per_principal {
        Ok(AdmissionDecision::Rejected(AdmissionRejection::PrincipalCapacity))
    } else {
        Ok(AdmissionDecision::Admitted)
    }
}

/// The node-wide step of admission: `Some` decides, `None` leaves the
/// decision to the principal's count.
pub fn node_admission(active: i64, settings: SqliteNodeStateSettings) -> (r: Result<
    Option<AdmissionDecision>,
    DomainError,
>)
    ensures
        active < 0 ==> r == Err::<Option<AdmissionDecision>, DomainError>(
            DomainError::PersistenceFailure,
        ),
        active >= 0 && active >= settings.max_concurrent_sessions ==> r == Ok::<
            Option<AdmissionDecision>,
            DomainError,
        >(Some(AdmissionDecision::Rejected(AdmissionRejection::NodeCapacity))),
        active >= 0 && active < settings.max_concurrent_sessions ==> r == Ok::<
            Option<AdmissionDecision>,
            DomainError,
        >(None),
{
    let active = match sqlite_unsigned(active) {
        Ok(a) => a,
        Err(e) => return Err(e),
    };
    if active >= settings.max_concurrent_sessions as u64 {
        return Ok(Some(AdmissionDecision::Rejected(AdmissionRejection::NodeCapacity)));
    }
    Ok(None)
}

/// The per-principal step of admission.
pub fn principal_admission(principal_active: i64, settings: SqliteNodeStateSettings) -> (r: Result<
    AdmissionDecision,
    DomainError,
>)
    ensures
        principal_active < 0 ==> r == Err::<AdmissionDecision, DomainError>(
            DomainError::PersistenceFailure,
        ),
        principal_active >= 0 && principal_active >= settings.max_sessions_per_principal ==> r
            == Ok::<AdmissionDecision, DomainError>(
            AdmissionDecision::Rejected(AdmissionRejection::PrincipalCapacity),
        ),
        principal_active >= 0 && principal_active < settings.max_sessions_per_principal ==> r
            == Ok::<AdmissionDecision, DomainError>(AdmissionDecision::Admitted),
{
    let count = match sqlite_unsigned(principal_active) {
        Ok(a) => a,
        Err(e) => return Err(e),
    };
    if count >= settings.max_sessions_per_principal as u64 {
        Ok(AdmissionDecision::Rejected(AdmissionRejection::PrincipalCapacity))
    } else {
        Ok(AdmissionDecision::Admitted)
    }
}

/// Admission from both durable counts.
pub fn admission_decision(
    active: i64,
    principal_active: i64,
    settings: SqliteNodeStateSettings,
) -> (r: Result<AdmissionDecision, DomainError>)
    ensures
        r == spec_admission(active, principal_active, settings),
        r == Ok::<AdmissionDecision, DomainError>(AdmissionDecision::Admitted) <==> 0 <= active
            < settings.max_concurrent_sessions && 0 <= principal_active
            < settings.max_sessions_per_principal,
        r == Ok::<AdmissionDecision, DomainError>(
            AdmissionDecision::Rejected(AdmissionRejection::NodeCapacity),
        ) <==> 0 <= active && active >= settings.max_concurrent_sessions,
        r == Ok::<AdmissionDecision, DomainError>(
            AdmissionDecision::Rejected(AdmissionRejection::PrincipalCapacity),
        ) <==> 0 <= active < settings.max_concurrent_sessions && 0 <= principal_active
            && principal_active >= settings.max_sessions_per_principal,
{
    match node_admission(active, settings) {
        Err(e) => Err(e),
        Ok(Some(decision)) => Ok(decision),
        Ok(None) => principal_admission(principal_active, settings),
    }
}

/// Settings with a zero limit admit nothing and are refused.
pub fn validate_settings(settings: SqliteNodeStateSettings) -> (r: Result<(), DomainError>)
    ensures
        r is Ok <==> (settings.max_concurrent_sessions != 0 && settings.max_sessions_per_principal
            != 0),
        r matches Err(e) ==> e == DomainError::AdmissionUnavailable,
{
    if settings.max_concurrent_sessions == 0 || settings.max_sessions_per_principal == 0 {
        Err(DomainError::AdmissionUnavailable)
    } else {
        Ok(())
    }
}

/// What creating a session does when the owner already has one under the same
/// idempotency key: replay it when the request fingerprints agree, else report
/// a conflict.
#[derive(Clone, Copy, Debug, PartialEq, Eq, Structural)]
pub enum IdempotentCreation {
    Replay,
    Conflict,
}

pub open spec fn fingerprint_view(f: Option<Vec<u8>>) -> Option<Seq<u8>> {
    match f {
        Some(v) => Some(v@),
        None => None,
    }
}

/// Compares the stored and the requested fingerprints of an idempotent creation.
pub fn idempotent_creation(existing: &Option<Vec<u8>>, requested: &Option<Vec<u8>>) -> (r:
    IdempotentCreation)
    ensures
        (r == IdempotentCreation::Replay) <==> fingerprint_view(*existing) == fingerprint_view(
            *requested,
        ),
{
    match (existing, requested) {
        (None, None) => IdempotentCreation::Replay,
        (Some(a), Some(b)) => {
            if a.len() != b.len() {
                return IdempotentCreation::Conflict;
            }
            let mut i: usize = 0;
            while i < a.len()
                invariant
                    fingerprint_view(*existing) == Some(a@),
                    fingerprint_view(*requested) == Some(b@),
                    a@.len() == b@.len(),
                    i <= a@.len(),
                    forall|k: int| 0 <= k < i ==> a@[k] == b@[k],
                decreases a.len() - i,
            {
                if a[i] != b[i] {
                    assert(a@[i as int] != b@[i as int]);
                    assert(a@ != b@);
                    return IdempotentCreation::Conflict;
                }
                i += 1;
            }
            assert(a@ =~= b@);
            IdempotentCreation::Replay
        },
        _ => IdempotentCreation::Conflict,
    }
}

/// A stored request fingerprint must be exactly 32 bytes.
pub fn fingerprint_from_bytes(bytes: Vec<u8>) -> (r: Result<Vec<u8>, DomainError>)
    ensures
        r is Ok <==> bytes@.len() == 32,
        r matches Ok(f) ==> f@ == bytes@,
        r matches Err(e) ==> e == DomainError::PersistenceFailure,
{
    if bytes.len() != 32 {
        return Err(DomainError::PersistenceFailure);
    }
    Ok(bytes)
}

/// Stores an unsigned value in SQLite's signed integer column.
pub fn sqlite_integer(value: u64) -> (r: Result<i64, DomainError>)
    ensures
        r is Ok <==> value <= i64::MAX,
        r matches Ok(v) ==> v == value,
        r matches Err(e) ==> e == DomainError::PersistenceFailure,
{
    if value > i64::MAX as u64 {
        return Err(DomainError::PersistenceFailure);
    }
    Ok(value as i64)
}

/// Reads an unsigned value back from SQLite's signed integer column.
pub fn sqlite_unsigned(value: i64) -> (r: Result<u64, DomainError>)
    ensures
        r is Ok <==> value >= 0,
        r matches Ok(v) ==> v == value,
        r matches Err(e) ==> e == DomainError::PersistenceFailure,
{
    if value < 0 {
        return Err(DomainError::PersistenceFailure);
    }
    Ok(value as u64)
}

/// Every storable unsigned value reads back unchanged.
pub proof fn law_integer_round_trip(value: u64)
    requires
        value <= i64::MAX,
    ensures
        ({
            let stored = value as i64;
            stored >= 0 && stored as u64 == value
        }),
{
}

/// The length of the leading run of non-whitespace characters of `s`.
pub open spec fn word_len(s: Seq<char>) -> int
    decreases s.len(),
{
    if s.len() == 0 || is_whitespace(s[0]) {
        0
    } else {
        1 + word_len(s.drop_first())
    }
}

pub proof fn lemma_word_len_bounds(s: Seq<char>)
    ensures
        0 <= word_len(s) <= s.len(),
        s.len() > 0 && !is_whitespace(s[0]) ==> word_len(s) >= 1,
    decreases s.len(),
{
    if s.len() > 0 && !is_whitespace(s[0]) {
        lemma_word_len_bounds(s.drop_first());
    }
}

/// The whitespace-separated words of `s`, as `str::split_whitespace` yields them.
pub open spec fn words(s: Seq<char>) -> Seq<Seq<char>>
    decreases s.len(),
{
    if s.len() == 0 {
        Seq::empty()
    } else if is_whitespace(s[0]) {
        words(s.drop_first())
    } else {
        proof {
            lemma_word_len_bounds(s);
        }
        seq![s.take(word_len(s))] + words(s.skip(word_len(s)))
    }
}

/// The names joined by single spaces.
pub open spec fn join_words(names: Seq<Seq<char>>) -> Seq<char>
    decreases names.len(),
{
    if names.len() == 0 {
        Seq::empty()
    } else if names.len() == 1 {
        names[0]
    } else {
        names[0] + seq![' '] + join_words(names.drop_first())
    }
}

/// A word: non-empty, with no whitespace.
pub open spec fn is_word(w: Seq<char>) -> bool {
    w.len() > 0 && forall|i: int| 0 <= i < w.len() ==> !is_whitespace(#[trigger] w[i])
}

proof fn lemma_word_len_exact(t: Seq<char>, m: int)
    requires
        0 <= m <= t.len(),
        forall|k: int| 0 <= k < m ==> !is_whitespace(#[trigger] t[k]),
        m == t.len() || is_whitespace(t[m]),
    ensures
        word_len(t) == m,
    decreases m,
{
    if m > 0 {
        assert(!is_whitespace(t[0]));
        let u = t.drop_first();
        assert forall|k: int| 0 <= k < m - 1 implies !is_whitespace(#[trigger] u[k]) by {
            assert(u[k] == t[k + 1]);
        }
        if m < t.len() {
            assert(u[m - 1] == t[m]);
        }
        lemma_word_len_exact(u, m - 1);
    }
}

proof fn lemma_join_prefix(names: Seq<Seq<char>>, i: int)
    requires
        0 < i < names.len(),
    ensures
        join_words(names.take(i + 1)) == join_words(names.take(i)) + seq![' '] + names[i],
    decreases i,
{
    let a = names.take(i + 1);
    let b = names.take(i);
    let d = names.drop_first();
    assert(a.len() >= 2);
    assert(a[0] == names[0]);
    assert(a.drop_first() =~= d.take(i));
    assert(join_words(a) == names[0] + seq![' '] + join_words(d.take(i)));
    if i == 1 {
        assert(d.take(1) =~= seq![names[1]]);
        assert(join_words(d.take(1)) == names[1]);
        assert(b =~= seq![names[0]]);
        assert(join_words(b) == names[0]);
        assert(join_words(a) =~= join_words(b) + seq![' '] + names[i]);
    } else {
        lemma_join_prefix(d, i - 1);
        assert(d[i - 1] == names[i]);
        assert(b.len() >= 2);
        assert(b[0] == names[0]);
        assert(b.drop_first() =~= d.take(i - 1));
        assert(join_words(b) == names[0] + seq![' '] + join_words(d.take(i - 1)));
        assert(join_words(d.take(i)) == join_words(d.take(i - 1)) + seq![' '] + names[i]);
        assert(join_words(a) =~= join_words(b) + seq![' '] + names[i]);
    }
}

/// Space-separated words always read back as the same words.
pub proof fn law_words_round_trip(names: Seq<Seq<char>>)
    requires
        forall|i: int| 0 <= i < names.len() ==> is_word(#[trigger] names[i]),
    ensures
        words(join_words(names)) == names,
    decreases names.len(),
{
    if names.len() == 0 {
        assert(words(join_words(names)) =~= names);
    } else {
        let w = names[0];
        assert(is_word(w));
        let rest = names.drop_first();
        assert forall|i: int| 0 <= i < rest.len() implies is_word(#[trigger] rest[i]) by {
            assert(rest[i] == names[i + 1]);
        }
        law_words_round_trip(rest);
        let s = join_words(names);
        if names.len() == 1 {
            assert(s == w);
            lemma_word_len_exact(s, w.len() as int);
            assert(s.take(w.len() as int) =~= w);
            assert(s.skip(w.len() as int) =~= Seq::<char>::empty());
            assert(words(s.skip(w.len() as int)) =~= Seq::<Seq<char>>::empty());
            assert(words(s) =~= names);
        } else {
            reveal_strlit(" ");
            assert(s == w + seq![' '] + join_words(rest));
            assert forall|k: int| 0 <= k < w.len() implies !is_whitespace(#[trigger] s[k]) by {
                assert(s[k] == w[k]);
            }
            assert(s[w.len() as int] == ' ');
            assert(is_whitespace(' '));
            lemma_word_len_exact(s, w.len() as int);
            assert(s.take(w.len() as int) =~= w);
            let after = s.skip(w.len() as int);
            assert(after.drop_first() =~= join_words(rest));
            assert(after.len() > 0 && is_whitespace(after[0]));
            assert(words(after) == words(join_words(rest)));
            assert(words(s) =~= seq![w] + rest);
            assert(seq![w] + rest =~= names);
        }
    }
}

/// Stores granted scope names separated by single spaces.
pub fn encode_scopes(scopes: &Vec<String>) -> (r: String)
    ensures
        r@ == join_words(scopes@.map_values(|s: String| s@)),
{
    proof {
        reveal_strlit(" ");
    }
    let ghost names = scopes@.map_values(|s: String| s@);
    let mut r = String::new();
    let mut i: usize = 0;
    assert(names.take(0) =~= Seq::<Seq<char>>::empty());
    while i < scopes.len()
        invariant
            i <= scopes@.len(),
            names == scopes@.map_values(|s: String| s@),
            r@ == join_words(names.take(i as int)),
        decreases scopes.len() - i,
    {
        proof {
            reveal_strlit(" ");
        }
        if i == 0 {
            r.append(scopes[0].as_str());
            assert(names.take(1) =~= seq![names[0]]);
            assert(r@ =~= join_words(names.take(1)));
        } else {
            proof {
                lemma_join_prefix(names, i as int);
            }
            r.append(" ");
            r.append(scopes[i].as_str());
            assert(r@ =~= join_words(names.take(i + 1)));
        }
        i += 1;
    }
    assert(names.take(scopes@.len() as int) =~= names);
    r
}

/// Reads stored scope names: the whitespace-separated words of `value`.
pub fn decode_scopes(value: &str) -> (r: Vec<String>)
    ensures
        r@.map_values(|s: String| s@) == words(value@),
{
    let n = value.unicode_len();
    let ghost s = value@;
    let mut out: Vec<String> = Vec::new();
    let mut i: usize = 0;
    assert(s.skip(0) =~= s);
    assert(out@.map_values(|w: String| w@) + words(s) =~= words(s));
    while i < n
        invariant
            n == s.len(),
            s == value@,
            i <= n,
            words(s) == out@.map_values(|w: String| w@) + words(s.skip(i as int)),
        decreases n - i,
    {
        let ghost rest = s.skip(i as int);
        if char_is_whitespace(value.get_char(i)) {
            assert(rest.drop_first() =~= s.skip(i + 1));
            i += 1;
        } else {
            let mut j: usize = i + 1;
            while j < n && !char_is_whitespace(value.get_char(j))
                invariant
                    n == s.len(),
                    s == value@,
                    i < j <= n,
                    forall|k: int| i <= k < j ==> !is_whitespace(#[trigger] s[k]),
                decreases n - j,
            {
                j += 1;
            }
            proof {
                assert forall|k: int| 0 <= k < j - i implies !is_whitespace(#[trigger] rest[k]) by {
                    assert(rest[k] == s[i + k]);
                }
                if j < n {
                    assert(rest[j - i] == s[j as int]);
                }
                lemma_word_len_exact(rest, j - i);
                assert(rest.take(j - i) =~= s.subrange(i as int, j as int));
                assert(rest.skip(j - i) =~= s.skip(j as int));
            }
            let word = String::from_str(value.substring_char(i, j));
            let ghost before = out@;
            out.push(word);
            assert(out@.map_values(|w: String| w@) =~= before.map_values(|w: String| w@).push(
                s.subrange(i as int, j as int),
            ));
            i = j;
        }
    }
    assert(s.skip(n as int) =~= Seq::<char>::empty());
    assert(words(s.skip(n as int)) =~= Seq::<Seq<char>>::empty());
    assert(out@.map_values(|w: String| w@) + Seq::<Seq<char>>::empty() =~= out@.map_values(
        |w: String| w@,
    ));
    out
}

/// The lower-case hexadecimal digit `d`, as text.
fn hex_digit_text(d: u8) -> (r: &'static str)
    requires
        d < 16,
    ensures
        r@ == seq![hex_char(d as int)],
{
    let digits = "0123456789abcdef";
    proof {
        reveal_strlit("0123456789abcdef");
    }
    digits.substring_char(d as usize, d as usize + 1)
}

/// `bytes` in lower-case hexadecimal, two digits per byte.
pub fn hex_text(bytes: &[u8]) -> (r: String)
    ensures
        r@ == hex_lower(bytes@),
{
    let mut r = String::new();
    let mut i: usize = 0;
    while i < bytes.len()
        invariant
            i <= bytes@.len(),
            r@ == hex_lower(bytes@.subrange(0, i as int)),
        decreases bytes.len() - i,
    {
        let b = bytes[i];
        let ghost before = r@;
        r.append(hex_digit_text(b / 16));
        r.append(hex_digit_text(b % 16));
        proof {
            let next = bytes@.subrange(0, i + 1);
            assert forall|k: int| 0 <= k < 2 * (i + 1) implies r@[k] == hex_lower(next)[k] by {
                if k < 2 * i {
                    assert(hex_lower(bytes@.subrange(0, i as int))[k] == hex_lower(next)[k]);
                } else {
                    assert(k / 2 == i as int);
                }
            }
            assert(r@ =~= hex_lower(next));
        }
        i += 1;
    }
    assert(bytes@.subrange(0, bytes@.len() as int) =~= bytes@);
    r
}

/// The public identifier of a session drawn from the random bytes of a UUID:
/// `node-session-` and the bytes in lower-case hexadecimal.
pub open spec fn session_identifier_text(uuid: Seq<u8>) -> Seq<char> {
    "node-session-"@ + hex_lower(uuid)
}

/// Whether `bytes` are the bytes of a random (version 4, RFC 4122 variant) UUID.
pub open spec fn is_random_uuid(bytes: Seq<u8>) -> bool {
    &&& bytes.len() == 16
    &&& bytes[6] & 0xf0u8 == 0x40u8
    &&& bytes[8] & 0xc0u8 == 0x80u8
}

/// Trusted: `uuid::Uuid::new_v4` returns the 16 bytes of a fresh random UUID,
/// whose version nibble is 4 and whose variant bits are `10`; which bytes come
/// out is left open.
#[verifier::external_body]
fn random_uuid_bytes() -> (r: Vec<u8>)
    ensures
        is_random_uuid(r@),
{
    uuid::Uuid::new_v4().as_bytes().to_vec()
}

/// The public identifier for a session whose UUID has the bytes `uuid`.
pub fn session_identifier(uuid: &[u8]) -> (r: String)
    ensures
        r@ == session_identifier_text(uuid@),
{
    let mut r = String::from_str("node-session-");
    let hex = hex_text(uuid);
    r.append(hex.as_str());
    r
}

/// Issues a fresh public session identifier from a random UUID.
pub fn issue() -> (r: String)
    ensures
        exists|uuid: Seq<u8>| is_random_uuid(uuid) && r@ == session_identifier_text(uuid),
{
    let bytes = random_uuid_bytes();
    session_identifier(bytes.as_slice())
}

} // verus!
