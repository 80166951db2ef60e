use vstd::prelude::*;

use crate::error::DomainError;
use crate::ids::{copy_id, first_position, lemma_first_position, WorkerId};
use crate::manifest::{
    artifacts_view, layer_range_strategy_name, same_manifest, spec_supports_local,
    ArtifactDescriptor, ArtifactView, ExecutionStrategy,
    ModelManifest,
};
use crate::frame::FrameView;
use crate::loom_backend::{output_view, ShardExecutionOutput, ShardExecutionRequest, ShardRequestView};
use crate::tokenizer::GeneratedToken;

verus! {

/// Whether a cached copy of an artifact is present.
#[derive(Clone, Copy, Debug, PartialEq, Eq, Structural)]
pub enum CacheEntryState {
    Cached,
    Missing,
}

/// One artifact's identity, digest, size and cache state.
#[derive(Debug, PartialEq, Eq)]
pub struct CachedArtifactInspection {
    pub artifact_id: String,
    pub content_sha256: String,
    pub size_bytes: u64,
    pub state: CacheEntryState,
}

/// A model's provenance and the cache state of each of its artifacts.
#[derive(Debug, PartialEq, Eq)]
pub struct ModelCacheInspection {
    pub reference: String,
    pub publisher_key_id: String,
    pub license: String,
    pub provenance: String,
    pub artifacts: Vec<CachedArtifactInspection>,
}

/// A manifest whose artifacts were verified, with the cached artifact paths.
pub struct VerifiedModel {
    pub manifest: ModelManifest,
    pub artifact_paths: Vec<String>,
}

impl VerifiedModel {
    /// The ids of the manifest's artifacts, in order.
    pub open spec fn artifact_ids(&self) -> Seq<Seq<char>> {
        self.manifest.artifacts@.map_values(|a: ArtifactDescriptor| a.id@)
    }

    /// The cached path of the manifest's artifact `artifact_id`: the path at
    /// the position of the first artifact with that id.
    pub fn artifact_path(&self, artifact_id: &String) -> (r: Result<&String, DomainError>)
        ensures
            r is Ok <==> (self.artifact_ids().contains(artifact_id@) && first_position(
                self.artifact_ids(),
                artifact_id@,
            ) < self.artifact_paths@.len()),
            r matches Ok(p) ==> *p == self.artifact_paths@[first_position(
                self.artifact_ids(),
                artifact_id@,
            )],
            r matches Err(e) ==> e == DomainError::ArtifactUnavailable,
    {
        let ghost ids = self.artifact_ids();
        let mut i: usize = 0;
        while i < self.manifest.artifacts.len()
            invariant
                i <= self.manifest.artifacts@.len(),
                ids == self.artifact_ids(),
                forall|k: int| 0 <= k < i ==> ids[k] != artifact_id@,
            decreases self.manifest.artifacts.len() - i,
        {
            if self.manifest.artifacts[i].id == *artifact_id {
                proof {
                    assert(ids[i as int] == artifact_id@);
                    lemma_first_position(ids, artifact_id@, i as int);
                }
                if i < self.artifact_paths.len() {
                    return Ok(&self.artifact_paths[i]);
                }
                return Err(DomainError::ArtifactUnavailable);
            }
            i += 1;
        }
        assert(!ids.contains(artifact_id@)) by {
            if ids.contains(artifact_id@) {
                let k = choose|k: int| 0 <= k < ids.len() && ids[k] == artifact_id@;
                assert(ids[k] != artifact_id@);
            }
        }
        Err(DomainError::ArtifactUnavailable)
    }

    /// The cached path of the manifest's first artifact.
    pub fn primary_artifact_path(&self) -> (r: Result<&String, DomainError>)
        ensures
            self.manifest.artifacts@.len() > 0 && self.artifact_paths@.len() > 0 ==> r
                == Ok::<&String, DomainError>(&self.artifact_paths@[0]),
            !(self.manifest.artifacts@.len() > 0 && self.artifact_paths@.len() > 0) ==> r
                == Err::<&String, DomainError>(DomainError::ArtifactUnavailable),
    {
        if self.manifest.artifacts.len() > 0 && self.artifact_paths.len() > 0 {
            Ok(&self.artifact_paths[0])
        } else {
            Err(DomainError::ArtifactUnavailable)
        }
    }
}

/// The inspection of `m` with each artifact in the state given by `states`:
/// identity, digest and size come from the manifest in its order.
pub open spec fn inspection_of(
    m: ModelManifest,
    states: Seq<CacheEntryState>,
    r: ModelCacheInspection,
) -> bool {
    &&& r.reference@ == m.reference@
    &&& r.publisher_key_id@ == m.publisher_key_id@
    &&& r.license@ == m.license@
    &&& r.provenance@ == m.provenance@
    &&& r.artifacts@.len() == m.artifacts@.len()
    &&& forall|i: int|
        0 <= i < m.artifacts@.len() ==> {
            let a = #[trigger] r.artifacts@[i];
            let d: ArtifactView = artifacts_view(m.artifacts@)[i];
            &&& a.artifact_id@ == d.id
            &&& a.content_sha256@ == d.content_sha256
            &&& a.size_bytes == d.size_bytes
            &&& a.state == states[i]
        }
}

/// Builds the inspection of `manifest` from the per-artifact cache states.
pub fn build_inspection(manifest: &ModelManifest, states: &Vec<CacheEntryState>) -> (r:
    ModelCacheInspection)
    requires
        states@.len() == manifest.artifacts@.len(),
    ensures
        inspection_of(*manifest, states@, r),
{
    let mut artifacts: Vec<CachedArtifactInspection> = Vec::new();
    let mut i: usize = 0;
    while i < manifest.artifacts.len()
        invariant
            i <= manifest.artifacts@.len(),
            states@.len() == manifest.artifacts@.len(),
            artifacts@.len() == i,
            forall|k: int|
                0 <= k < i ==> {
                    let a = #[trigger] artifacts@[k];
                    let d: ArtifactView = artifacts_view(manifest.artifacts@)[k];
                    &&& a.artifact_id@ == d.id
                    &&& a.content_sha256@ == d.content_sha256
                    &&& a.size_bytes == d.size_bytes
                    &&& a.state == states@[k]
                },
        decreases manifest.artifacts.len() - i,
    {
        let artifact = &manifest.artifacts[i];
        artifacts.push(
            CachedArtifactInspection {
                artifact_id: copy_id(&artifact.id),
                content_sha256: copy_id(&artifact.content_sha256),
                size_bytes: artifact.size_bytes,
                state: states[i],
            },
        );
        i += 1;
    }
    ModelCacheInspection {
        reference: copy_id(&manifest.reference),
        publisher_key_id: copy_id(&manifest.publisher_key_id),
        license: copy_id(&manifest.license),
        provenance: copy_id(&manifest.provenance),
        artifacts,
    }
}

/// An artifact store that treats an already registered manifest as verified.
pub struct InMemoryArtifactStore;

impl InMemoryArtifactStore {
    /// The manifest as a verified model with no cached artifact paths, when it
    /// is the supported compatibility tuple.
    pub fn acquire(&self, manifest: &ModelManifest) -> (r: Result<VerifiedModel, DomainError>)
        ensures
            r is Ok <==> spec_supports_local(*manifest),
            r matches Ok(m) ==> same_manifest(m.manifest, *manifest) && m.artifact_paths@.len() == 0,
            r matches Err(e) ==> e == DomainError::ManifestUnsupported,
    {
        if !manifest.supports_verified_local_inference() {
            return Err(DomainError::ManifestUnsupported);
        }
        Ok(VerifiedModel { manifest: manifest.copy(), artifact_paths: Vec::new() })
    }

    /// Reports every artifact of a supported manifest as cached.
    pub fn inspect(&self, manifest: &ModelManifest) -> (r: Result<ModelCacheInspection, DomainError>)
        ensures
            r is Ok <==> spec_supports_local(*manifest),
            r matches Ok(i) ==> inspection_of(
                *manifest,
                Seq::new(manifest.artifacts@.len(), |k: int| CacheEntryState::Cached),
                i,
            ),
            r matches Err(e) ==> e == DomainError::ManifestUnsupported,
    {
        if !manifest.supports_verified_local_inference() {
            return Err(DomainError::ManifestUnsupported);
        }
        let mut states: Vec<CacheEntryState> = Vec::new();
        let mut i: usize = 0;
        while i < manifest.artifacts.len()
            invariant
                i <= manifest.artifacts@.len(),
                states@ == Seq::new(i as nat, |k: int| CacheEntryState::Cached),
            decreases manifest.artifacts.len() - i,
        {
            states.push(CacheEntryState::Cached);
            i += 1;
            assert(states@ =~= Seq::new(i as nat, |k: int| CacheEntryState::Cached));
        }
        Ok(build_inspection(manifest, &states))
    }
}

/// A registry populated directly by tests or application composition.
pub struct InMemoryModelRegistry {
    manifests: Vec<ModelManifest>,
}

impl InMemoryModelRegistry {
    /// The manifests the registry resolves.
    pub closed spec fn manifests(&self) -> Seq<ModelManifest> {
        self.manifests@
    }

    /// A registry that resolves nothing.
    pub fn new() -> (r: Self)
        ensures
            r.manifests().len() == 0,
    {
        InMemoryModelRegistry { manifests: Vec::new() }
    }

    /// A registry that resolves exactly `manifest`, under its own reference.
    pub fn with_manifest(manifest: ModelManifest) -> (r: Self)
        ensures
            r.manifests() == seq![manifest],
    {
        let mut manifests: Vec<ModelManifest> = Vec::new();
        manifests.push(manifest);
        assert(manifests@ =~= seq![manifest]);
        InMemoryModelRegistry { manifests }
    }

    /// The manifest registered under `reference`.
    pub fn resolve(&self, reference: &String) -> (r: Result<ModelManifest, DomainError>)
        ensures
            r is Ok <==> exists|i: int|
                0 <= i < self.manifests().len() && (#[trigger] self.manifests()[i]).reference@
                    == reference@,
            r matches Ok(m) ==> exists|i: int|
                0 <= i < self.manifests().len() && (#[trigger] self.manifests()[i]).reference@
                    == reference@ && same_manifest(m, self.manifests()[i]),
            r matches Err(e) ==> e == DomainError::ManifestUnavailable,
    {
        let mut i: usize = 0;
        while i < self.manifests.len()
            invariant
                i <= self.manifests@.len(),
                forall|k: int| 0 <= k < i ==> (#[trigger] self.manifests@[k]).reference@ != reference@,
            decreases self.manifests.len() - i,
        {
            if self.manifests[i].reference == *reference {
                return Ok(self.manifests[i].copy());
            }
            i += 1;
        }
        Err(DomainError::ManifestUnavailable)
    }
}

/// Health of a worker as reported by the peer directory.
#[derive(Clone, Copy, Debug, PartialEq, Eq, Structural)]
pub enum WorkerHealth {
    Healthy,
    Unavailable,
}

/// A shard of a model that a worker holds.
#[derive(Debug, PartialEq, Eq)]
pub struct ShardAvailability {
    pub model: String,
    pub shard: String,
}

/// What a worker offers: its health, strategies and shards.
#[derive(Debug, PartialEq, Eq)]
pub struct WorkerCapability {
    pub id: WorkerId,
    pub health: WorkerHealth,
    pub strategies: Vec<ExecutionStrategy>,
    pub shards: Vec<ShardAvailability>,
}

/// A worker capability with every text given by its content.
pub struct CapabilityView {
    pub id: Seq<char>,
    pub health: WorkerHealth,
    pub strategies: Seq<Seq<char>>,
    pub shards: Seq<(Seq<char>, Seq<char>)>,
}

impl View for WorkerCapability {
    type V = CapabilityView;

    open spec fn view(&self) -> CapabilityView {
        CapabilityView {
            id: self.id@,
            health: self.health,
            strategies: self.strategies@.map_values(|s: ExecutionStrategy| s.name@),
            shards: self.shards@.map_values(|s: ShardAvailability| (s.model@, s.shard@)),
        }
    }
}

/// A worker supports a strategy it lists and holds a shard it lists.
pub open spec fn supports(c: CapabilityView, strategy: Seq<char>) -> bool {
    c.strategies.contains(strategy)
}

pub open spec fn has_shard(c: CapabilityView, model: Seq<char>, shard: Seq<char>) -> bool {
    c.shards.contains((model, shard))
}

impl WorkerCapability {
    /// A copy with the same content.
    pub fn copy(&self) -> (r: WorkerCapability)
        ensures
            r@ == self@,
    {
        let mut strategies: Vec<ExecutionStrategy> = Vec::new();
        let mut i: usize = 0;
        while i < self.strategies.len()
            invariant
                i <= self.strategies@.len(),
                strategies@.map_values(|s: ExecutionStrategy| s.name@) == self.strategies@.map_values(
                    |s: ExecutionStrategy| s.name@,
                ).subrange(0, i as int),
            decreases self.strategies.len() - i,
        {
            let x = ExecutionStrategy { name: copy_id(&self.strategies[i].name) };
            let ghost before = strategies@;
            strategies.push(x);
            i += 1;
            assert(strategies@.map_values(|s: ExecutionStrategy| s.name@) =~= self.strategies@.map_values(
                |s: ExecutionStrategy| s.name@,
            ).subrange(0, i as int)) by {
                assert(strategies@.map_values(|s: ExecutionStrategy| s.name@) =~= before.map_values(
                    |s: ExecutionStrategy| s.name@,
                ).push(x.name@));
            }
        }
        let mut shards: Vec<ShardAvailability> = Vec::new();
        let mut j: usize = 0;
        while j < self.shards.len()
            invariant
                j <= self.shards@.len(),
                shards@.map_values(|s: ShardAvailability| (s.model@, s.shard@)) == self.shards@.map_values(
                    |s: ShardAvailability| (s.model@, s.shard@),
                ).subrange(0, j as int),
            decreases self.shards.len() - j,
        {
            let x = ShardAvailability {
                model: copy_id(&self.shards[j].model),
                shard: copy_id(&self.shards[j].shard),
            };
            let ghost before = shards@;
            shards.push(x);
            j += 1;
            assert(shards@.map_values(|s: ShardAvailability| (s.model@, s.shard@)) =~= self.shards@.map_values(
                |s: ShardAvailability| (s.model@, s.shard@),
            ).subrange(0, j as int)) by {
                assert(shards@.map_values(|s: ShardAvailability| (s.model@, s.shard@)) =~= before.map_values(
                    |s: ShardAvailability| (s.model@, s.shard@),
                ).push((x.model@, x.shard@)));
            }
        }
        let r = WorkerCapability { id: copy_id(&self.id), health: self.health, strategies, shards };
        assert(r@.strategies =~= self@.strategies);
        assert(r@.shards =~= self@.shards);
        r
    }

    /// Whether the worker lists `strategy`.
    pub fn supports(&self, strategy: &ExecutionStrategy) -> (r: bool)
        ensures
            r == supports(self@, strategy.name@),
    {
        let mut i: usize = 0;
        while i < self.strategies.len()
            invariant
                i <= self.strategies@.len(),
                forall|k: int| 0 <= k < i ==> self@.strategies[k] != strategy.name@,
            decreases self.strategies.len() - i,
        {
            if self.strategies[i].name == strategy.name {
                assert(self@.strategies[i as int] == strategy.name@);
                return true;
            }
            i += 1;
        }
        false
    }

    /// Whether the worker holds `shard` of `model`.
    pub fn has_shard(&self, model: &String, shard: &String) -> (r: bool)
        ensures
            r == has_shard(self@, model@, shard@),
    {
        let mut i: usize = 0;
        while i < self.shards.len()
            invariant
                i <= self.shards@.len(),
                forall|k: int| 0 <= k < i ==> self@.shards[k] != (model@, shard@),
            decreases self.shards.len() - i,
        {
            if self.shards[i].model == *model && self.shards[i].shard == *shard {
                assert(self@.shards[i as int] == (model@, shard@));
                return true;
            }
            i += 1;
        }
        false
    }
}

/// Deterministic static worker directory.
pub struct InMemoryPeerDirectory {
    workers: Vec<WorkerCapability>,
}

impl InMemoryPeerDirectory {
    pub closed spec fn workers(&self) -> Seq<CapabilityView> {
        self.workers@.map_values(|w: WorkerCapability| w@)
    }

    /// A directory of exactly `workers`, in that order.
    pub fn new(workers: Vec<WorkerCapability>) -> (r: Self)
        ensures
            r.workers() == workers@.map_values(|w: WorkerCapability| w@),
    {
        InMemoryPeerDirectory { workers }
    }

    /// The first listed capability of `worker`, if any.
    pub fn worker(&self, worker: &WorkerId) -> (r: Option<WorkerCapability>)
        ensures
            match r {
                Some(c) => exists|i: int|
                    0 <= i < self.workers().len() && (#[trigger] self.workers()[i]) == c@ && c@.id
                        == worker@ && forall|k: int| 0 <= k < i ==> self.workers()[k].id != worker@,
                None => forall|k: int| 0 <= k < self.workers().len() ==> (#[trigger] self.workers()[k]).id
                    != worker@,
            },
    {
        let mut i: usize = 0;
        while i < self.workers.len()
            invariant
                i <= self.workers@.len(),
                forall|k: int| 0 <= k < i ==> (#[trigger] self.workers()[k]).id != worker@,
            decreases self.workers.len() - i,
        {
            if self.workers[i].id == *worker {
                let c = self.workers[i].copy();
                assert(self.workers()[i as int] == c@);
                return Some(c);
            }
            i += 1;
        }
        None
    }

    /// The workers that support `strategy` and hold the target shard, in listed order.
    pub fn replicas(&self, model: &String, shard: &String, strategy: &ExecutionStrategy) -> (r: Vec<
        WorkerCapability,
    >)
        ensures
            r@.map_values(|w: WorkerCapability| w@) == self.workers().filter(
                |c: CapabilityView| supports(c, strategy.name@) && has_shard(c, model@, shard@),
            ),
    {
        let ghost pred = |c: CapabilityView| supports(c, strategy.name@) && has_shard(c, model@, shard@);
        let ghost all = self.workers();
        let mut out: Vec<WorkerCapability> = Vec::new();
        let mut i: usize = 0;
        assert(all.subrange(0, 0).filter(pred) =~= Seq::<CapabilityView>::empty()) by {
            reveal_with_fuel(Seq::<_>::filter, 1);
        }
        while i < self.workers.len()
            invariant
                i <= self.workers@.len(),
                all == self.workers(),
                pred == (|c: CapabilityView| supports(c, strategy.name@) && has_shard(c, model@, shard@)),
                out@.map_values(|w: WorkerCapability| w@) == all.subrange(0, i as int).filter(pred),
            decreases self.workers.len() - i,
        {
            let keep = self.workers[i].supports(strategy) && self.workers[i].has_shard(model, shard);
            proof {
                reveal_with_fuel(Seq::<_>::filter, 1);
                assert(all.subrange(0, i + 1).drop_last() =~= all.subrange(0, i as int));
                assert(all.subrange(0, i + 1).last() == self.workers@[i as int]@);
            }
            if keep {
                let c = self.workers[i].copy();
                let ghost before = out@;
                out.push(c);
                assert(out@.map_values(|w: WorkerCapability| w@) =~= before.map_values(
                    |w: WorkerCapability| w@,
                ).push(c@));
            }
            i += 1;
        }
        assert(all.subrange(0, all.len() as int) =~= all);
        out
    }
}

/// Captures audit events in the order they are recorded.
pub struct InMemoryAuditSink<E> {
    events: Vec<E>,
}

impl<E> InMemoryAuditSink<E> {
    pub closed spec fn recorded(&self) -> Seq<E> {
        self.events@
    }

    /// A sink with nothing recorded.
    pub fn new() -> (r: Self)
        ensures
            r.recorded().len() == 0,
    {
        InMemoryAuditSink { events: Vec::new() }
    }

    /// Appends an event.
    pub fn record(&mut self, event: E) -> (r: Result<(), DomainError>)
        ensures
            r is Ok,
            final(self).recorded() == old(self).recorded().push(event),
    {
        self.events.push(event);
        Ok(())
    }

    /// The events recorded so far, oldest first.
    pub fn events(&self) -> (r: &Vec<E>)
        ensures
            r@ == self.recorded(),
    {
        &self.events
    }
}

/// Reports whether the running generation was cancelled.
pub trait ExecutionCancellation {
    fn is_cancelled(&self) -> bool;
}

/// Receives generated tokens one at a time.
pub trait GeneratedTokenSink {
    /// The tokens handed to the sink so far, oldest first, each as its id and
    /// text; every implementation defines it and keeps it by `emit_token`.
    spec fn emitted(&self) -> Seq<(u32, Seq<char>)>;

    /// Takes the next token; the sink may refuse it, but it has been handed over.
    fn emit_token(&mut self, token: GeneratedToken) -> (r: Result<(), DomainError>)
        ensures
            final(self).emitted() == old(self).emitted().push((token.id, token.text@)),
    ;
}

/// Whether a call of `S::emit_token` can refuse a token with `e`.
pub open spec fn sink_may_refuse<S: GeneratedTokenSink>(e: DomainError) -> bool {
    exists|s: &mut S, t: GeneratedToken|
        call_ensures(S::emit_token, (s, t), Err::<(), DomainError>(e))
}

/// Whether a poll of `cancellation` can report a cancellation.
pub open spec fn may_report_cancelled<C: ExecutionCancellation>(cancellation: &C) -> bool {
    call_ensures(C::is_cancelled, (cancellation,), true)
}

/// A cancellation handle that is never cancelled.
pub struct NeverCancelled;

impl ExecutionCancellation for NeverCancelled {
    fn is_cancelled(&self) -> (r: bool)
        ensures
            !r,
    {
        false
    }
}

/// A handle that is never cancelled never reports a cancellation.
pub proof fn law_never_cancelled_never_reports(c: &NeverCancelled)
    ensures
        !may_report_cancelled(c),
{
}

/// The recording sink refuses no token.
pub proof fn law_recording_sink_never_refuses(e: DomainError)
    ensures
        !sink_may_refuse::<RecordingTokenSink>(e),
{
}

/// A sink that keeps every token handed to it, in order, and never refuses one.
pub struct RecordingTokenSink {
    tokens: Vec<GeneratedToken>,
}

impl RecordingTokenSink {
    /// The tokens received so far, oldest first, each as its id and text.
    pub closed spec fn received(&self) -> Seq<(u32, Seq<char>)> {
        self.tokens@.map_values(|t: GeneratedToken| (t.id, t.text@))
    }

    /// A sink that has received nothing.
    pub fn new() -> (r: Self)
        ensures
            r.emitted() == Seq::<(u32, Seq<char>)>::empty(),
    {
        let r = RecordingTokenSink { tokens: Vec::new() };
        assert(r.emitted() =~= Seq::<(u32, Seq<char>)>::empty());
        r
    }

    /// The tokens received so far, oldest first.
    pub fn tokens(&self) -> (r: &Vec<GeneratedToken>)
        ensures
            r@.map_values(|t: GeneratedToken| (t.id, t.text@)) == self.emitted(),
    {
        &self.tokens
    }
}

impl GeneratedTokenSink for RecordingTokenSink {
    open spec fn emitted(&self) -> Seq<(u32, Seq<char>)> {
        self.received()
    }

    fn emit_token(&mut self, token: GeneratedToken) -> (r: Result<(), DomainError>)
        ensures
            r is Ok,
    {
        let ghost before = self.tokens@;
        let ghost entry = (token.id, token.text@);
        self.tokens.push(token);
        assert(self.tokens@.map_values(|t: GeneratedToken| (t.id, t.text@)) =~= before.map_values(
            |t: GeneratedToken| (t.id, t.text@),
        ).push(entry));
        Ok(())
    }
}

/// How a generation ended.
#[derive(Clone, Copy, Debug, PartialEq, Eq, Structural)]
pub enum GenerationTerminal {
    Completed { token_count: usize },
    Cancelled,
}

/// How a generation over the configured tokens `o` went: the sink was handed a
/// prefix of `o`, in order; completion hands over all of it and reports its
/// length, cancellation stops before the end, and a failure is the sink's
/// refusal of the last token handed over.
pub open spec fn generation_outcome(
    o: Seq<(u32, Seq<char>)>,
    before: Seq<(u32, Seq<char>)>,
    after: Seq<(u32, Seq<char>)>,
    r: Result<GenerationTerminal, DomainError>,
) -> bool {
    exists|k: int| #[trigger] handed_prefix(o, before, after, k) && outcome_fits(o, k, r)
}

/// The sink holds what it held before and then the first `k` tokens of `o`.
pub open spec fn handed_prefix(
    o: Seq<(u32, Seq<char>)>,
    before: Seq<(u32, Seq<char>)>,
    after: Seq<(u32, Seq<char>)>,
    k: int,
) -> bool {
    0 <= k <= o.len() && after == before + o.take(k)
}

/// What the result says after `k` of the tokens `o` were handed over.
pub open spec fn outcome_fits(o: Seq<(u32, Seq<char>)>, k: int, r: Result<GenerationTerminal, DomainError>) -> bool {
    match r {
        Ok(GenerationTerminal::Completed { token_count }) => k == o.len() && token_count == o.len(),
        Ok(GenerationTerminal::Cancelled) => k < o.len(),
        Err(_) => k >= 1,
    }
}

/// What the in-memory backend does next.
#[derive(Clone, Copy, Debug, PartialEq, Eq, Structural)]
pub enum ModelStep {
    /// Hand the configured token at this index to the sink.
    Emit(usize),
    /// End the generation this way.
    Stop(GenerationTerminal),
}

/// Decides the in-memory backend's next step after `emitted` of its `count`
/// configured tokens were handed over: once all are handed over the generation
/// is complete; before that, a cancelled generation stops and otherwise the
/// next token is emitted.
pub fn model_step(cancelled: bool, emitted: usize, count: usize) -> (r: ModelStep)
    requires
        emitted <= count,
    ensures
        emitted == count ==> r == ModelStep::Stop(GenerationTerminal::Completed { token_count: count }),
        emitted < count && cancelled ==> r == ModelStep::Stop(GenerationTerminal::Cancelled),
        emitted < count && !cancelled ==> r == ModelStep::Emit(emitted),
{
    if emitted == count {
        ModelStep::Stop(GenerationTerminal::Completed { token_count: count })
    } else if cancelled {
        ModelStep::Stop(GenerationTerminal::Cancelled)
    } else {
        ModelStep::Emit(emitted)
    }
}

/// A deterministic backend that emits a configured token sequence.
pub struct InMemoryModelBackend {
    output: Option<Vec<GeneratedToken>>,
}

impl InMemoryModelBackend {
    pub closed spec fn output(&self) -> Option<Seq<(u32, Seq<char>)>> {
        match self.output {
            Some(tokens) => Some(tokens@.map_values(|t: GeneratedToken| (t.id, t.text@))),
            None => None,
        }
    }

    /// A backend with nothing to emit.
    pub fn new() -> (r: Self)
        ensures
            r.output() is None,
    {
        InMemoryModelBackend { output: None }
    }

    /// A backend that emits `tokens`.
    pub fn with_output(tokens: Vec<GeneratedToken>) -> (r: Self)
        ensures
            r.output() == Some(tokens@.map_values(|t: GeneratedToken| (t.id, t.text@))),
    {
        InMemoryModelBackend { output: Some(tokens) }
    }

    /// Emits the configured tokens in order, polling the cancellation before
    /// each one and acting on `model_step`; stops early when cancelled or when
    /// the sink fails.
    pub fn generate<C: ExecutionCancellation, S: GeneratedTokenSink>(
        &self,
        cancellation: &C,
        tokens: &mut S,
    ) -> (r: Result<GenerationTerminal, DomainError>)
        ensures
            self.output() is None ==> r == Err::<GenerationTerminal, DomainError>(
                DomainError::BackendUnavailable,
            ) && final(tokens).emitted() == old(tokens).emitted(),
            self.output() matches Some(o) ==> generation_outcome(
                o,
                old(tokens).emitted(),
                final(tokens).emitted(),
                r,
            ),
            self.output() matches Some(o) && o.len() == 0 ==> r == Ok::<
                GenerationTerminal,
                DomainError,
            >(GenerationTerminal::Completed { token_count: 0 }),
            r == Ok::<GenerationTerminal, DomainError>(GenerationTerminal::Cancelled)
                ==> may_report_cancelled(cancellation),
            self.output() is Some ==> (r matches Err(e) ==> sink_may_refuse::<S>(e)),
            self.output() matches Some(o) ==> (!may_report_cancelled(cancellation) && (forall|
                e: DomainError,
            | !sink_may_refuse::<S>(e)) ==> r == Ok::<GenerationTerminal, DomainError>(
                GenerationTerminal::Completed { token_count: o.len() as usize },
            ) && final(tokens).emitted() == old(tokens).emitted() + o),
    {
        let output = match &self.output {
            Some(o) => o,
            None => return Err(DomainError::BackendUnavailable),
        };
        let count = output.len();
        let ghost o = output@.map_values(|t: GeneratedToken| (t.id, t.text@));
        let ghost start = tokens.emitted();
        let mut i: usize = 0;
        assert(o.take(0) =~= Seq::<(u32, Seq<char>)>::empty());
        assert(start + o.take(0) =~= start);
        loop
            invariant
                i <= count,
                count == output@.len(),
                self.output == Some(*output),
                o == output@.map_values(|t: GeneratedToken| (t.id, t.text@)),
                start == old(tokens).emitted(),
                tokens.emitted() == start + o.take(i as int),
            decreases count - i,
        {
            let cancelled = i < count && cancellation.is_cancelled();
            match model_step(cancelled, i, count) {
                ModelStep::Stop(end) => {
                    assert(self.output() == Some(o));
                    assert(handed_prefix(o, old(tokens).emitted(), tokens.emitted(), i as int));
                    if i == count {
                        assert(o.take(i as int) =~= o);
                    }
                    return Ok(end);
                },
                ModelStep::Emit(next) => {
                    let token = GeneratedToken {
                        id: output[next].id,
                        text: copy_id(&output[next].text),
                    };
                    let emitted = tokens.emit_token(token);
                    assert(o.take(i + 1) =~= o.take(i as int).push(o[i as int]));
                    assert(start + o.take(i + 1) =~= (start + o.take(i as int)).push(o[i as int]));
                    match emitted {
                        Ok(()) => {},
                        Err(e) => {
                            assert(self.output() == Some(o));
                            assert(handed_prefix(o, old(tokens).emitted(), tokens.emitted(), i + 1));
                            assert(outcome_fits(o, i + 1, Err::<GenerationTerminal, DomainError>(e)));
                            assert(sink_may_refuse::<S>(e));
                            return Err(e);
                        },
                    }
                    i += 1;
                },
            }
        }
    }
}

/// A configured shard executor: it records each request it is handed and answers
/// with its configured output.
///
/// The shared request types leave their mutual checks (a request against the
/// model, an output against the request) to the execution engine; this executor
/// checks nothing of them.
pub struct InMemoryShardExecutionBackend {
    output: Option<ShardExecutionOutput>,
    requests: Vec<ShardExecutionRequest>,
}

impl InMemoryShardExecutionBackend {
    /// The output this executor answers with, if one was configured.
    pub closed spec fn configured(&self) -> Option<(bool, FrameView)> {
        match self.output {
            Some(o) => Some(output_view(o)),
            None => None,
        }
    }

    /// The requests executed so far, in order.
    pub closed spec fn recorded(&self) -> Seq<ShardRequestView> {
        self.requests@.map_values(|q: ShardExecutionRequest| q@)
    }

    /// An executor that answers every request with `output`.
    pub fn with_output(output: ShardExecutionOutput) -> (r: Self)
        ensures
            r.configured() == Some(output_view(output)),
            r.recorded() == Seq::<ShardRequestView>::empty(),
    {
        let r = InMemoryShardExecutionBackend { output: Some(output), requests: Vec::new() };
        assert(r.recorded() =~= Seq::<ShardRequestView>::empty());
        r
    }

    /// The requests executed so far, in order.
    pub fn requests(&self) -> (r: Result<Vec<ShardExecutionRequest>, DomainError>)
        ensures
            r is Ok,
            r matches Ok(v) && v@.map_values(|q: ShardExecutionRequest| q@) == self.recorded(),
    {
        let mut out: Vec<ShardExecutionRequest> = Vec::new();
        let mut i: usize = 0;
        while i < self.requests.len()
            invariant
                i <= self.requests@.len(),
                out@.len() == i,
                out@.map_values(|q: ShardExecutionRequest| q@) == self.recorded().take(i as int),
            decreases self.requests.len() - i,
        {
            let ghost before = out@;
            let q = self.requests[i].copy();
            out.push(q);
            assert(out@ == before.push(q));
            assert(self.recorded()[i as int] == q@);
            assert(out@.map_values(|q: ShardExecutionRequest| q@) =~= self.recorded().take(i + 1));
            i += 1;
        }
        assert(self.recorded().take(i as int) =~= self.recorded());
        Ok(out)
    }

    /// Whether `strategy` is the layer-range strategy, the only one this executor runs.
    pub fn supports(&self, strategy: &ExecutionStrategy) -> (r: bool)
        ensures
            r == (strategy.name@ == layer_range_strategy_name()),
    {
        strategy.is_layer_range()
    }

    /// Records `request` and answers with the configured output; with none
    /// configured, the backend is unavailable and nothing is recorded.
    pub fn execute(&mut self, model: &VerifiedModel, request: &ShardExecutionRequest) -> (r: Result<
        ShardExecutionOutput,
        DomainError,
    >)
        ensures
            final(self).configured() == old(self).configured(),
            old(self).configured() is None ==> r == Err::<ShardExecutionOutput, DomainError>(
                DomainError::BackendUnavailable,
            ) && final(self).recorded() == old(self).recorded(),
            old(self).configured() matches Some(o) ==> r matches Ok(out) && output_view(out) == o
                && final(self).recorded() == old(self).recorded().push(request@),
    {
        match &self.output {
            None => Err(DomainError::BackendUnavailable),
            Some(o) => {
                let out = o.copy();
                let ghost before = self.requests@;
                self.requests.push(request.copy());
                assert(self.recorded() =~= old(self).recorded().push(request@)) by {
                    assert(self.requests@ == before.push(self.requests@[before.len() as int]));
                }
                Ok(out)
            },
        }
    }
}

} // verus!
