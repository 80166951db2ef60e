use vstd::prelude::*;

verus! {

/// Typed failures reported by the adapters.
#[derive(Debug, Clone, Copy, PartialEq, Eq, Structural)]
pub enum DomainError {
    AdmissionUnavailable,
    ArtifactIntegrity,
    ArtifactUnavailable,
    BackendIncompatible,
    BackendUnavailable,
    CacheFailure,
    DeadlineExceeded,
    DisallowedSource,
    FrameBoundsExceeded,
    FrameDtypeUnsupported,
    FrameIntegrity,
    FrameInvalid,
    GenerationFailed,
    GenerationPolicyInvalid,
    ManifestUnavailable,
    ManifestUnsupported,
    PersistenceFailure,
    SessionCancelled,
    SessionStateInvalid,
    SessionUnavailable,
    ShardPlanInvalid,
    TokenizerFailure,
    WorkerUnavailable,
}

} // verus!
