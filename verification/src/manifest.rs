use vstd::prelude::*;

use crate::error::DomainError;
use crate::ids::copy_id;

verus! {

/// Container format of a model's weights.
#[derive(Clone, Copy, Debug, PartialEq, Eq, Structural)]
pub enum ModelFormat {
    Gguf,
}

/// Where a model's tokenizer comes from.
#[derive(Clone, Copy, Debug, PartialEq, Eq, Structural)]
pub enum TokenizerKind {
    Embedded,
}

/// Schema version of manifests for single-node verified local inference.
pub const MANIFEST_SCHEMA_VERSION: u32 = 1;

/// Schema version of manifests that declare a layer-range execution plan.
pub const LOOPBACK_SHARDING_MANIFEST_SCHEMA_VERSION: u32 = 2;

#[derive(Debug, PartialEq, Eq)]
pub struct TokenizerDeclaration {
    pub kind: TokenizerKind,
    pub model: String,
}

/// One signed artifact of a model: its identity, source, digest and size.
#[derive(Debug, PartialEq, Eq)]
pub struct ArtifactDescriptor {
    pub id: String,
    pub uri: String,
    pub content_sha256: String,
    pub size_bytes: u64,
}

/// A named execution strategy.
#[derive(Debug, PartialEq, Eq)]
pub struct ExecutionStrategy {
    pub name: String,
}

/// A half-open range of transformer layers.
#[derive(Clone, Copy, Debug, PartialEq, Eq, Structural)]
pub struct LayerRange {
    pub start: u32,
    pub end_exclusive: u32,
}

/// One shard of a layer-range plan.
#[derive(Debug, PartialEq, Eq)]
pub struct ShardSpec {
    pub id: String,
    pub artifact_id: String,
    pub layer_range: LayerRange,
    pub minimum_replicas: u8,
}

/// A model's execution plan: the strategy and its shards in pipeline order.
#[derive(Debug, PartialEq, Eq)]
pub struct ShardPlan {
    pub strategy: ExecutionStrategy,
    pub shards: Vec<ShardSpec>,
}

/// A signed, immutable description of a model and its artifacts.
#[derive(Debug, PartialEq, Eq)]
pub struct ModelManifest {
    pub reference: String,
    pub schema_version: u32,
    pub model_id: String,
    pub model_version: String,
    pub format: ModelFormat,
    pub architecture: String,
    pub quantization: String,
    pub tokenizer: TokenizerDeclaration,
    pub artifacts: Vec<ArtifactDescriptor>,
    pub publisher_key_id: String,
    pub license: String,
    pub provenance: String,
    pub execution_plan: Option<ShardPlan>,
    pub runtime_profile: Option<String>,
}

/// Loom's dimensions of a verified artifact.
#[derive(Clone, Copy, Debug, PartialEq, Eq, Structural)]
pub struct LoomModelLayout {
    pub layer_count: u32,
    pub activation_width: u32,
    pub vocabulary_size: u32,
}

/// An artifact with its text fields given by their content.
pub struct ArtifactView {
    pub id: Seq<char>,
    pub uri: Seq<char>,
    pub content_sha256: Seq<char>,
    pub size_bytes: u64,
}

impl View for ArtifactDescriptor {
    type V = ArtifactView;

    open spec fn view(&self) -> ArtifactView {
        ArtifactView {
            id: self.id@,
            uri: self.uri@,
            content_sha256: self.content_sha256@,
            size_bytes: self.size_bytes,
        }
    }
}

/// The manifest's artifacts, each given by its content.
pub open spec fn artifacts_view(a: Seq<ArtifactDescriptor>) -> Seq<ArtifactView> {
    a.map_values(|x: ArtifactDescriptor| x@)
}

/// The name of the layer-range strategy.
pub open spec fn layer_range_strategy_name() -> Seq<char> {
    "layer_range_v1"@
}

/// The runtime profile that selects Loom.
pub open spec fn loom_runtime_profile() -> Seq<char> {
    "loom-cpu-v1"@
}

/// The one tokenizer accepted: the Llama vocabulary embedded in the artifact.
pub open spec fn embedded_llama(t: TokenizerDeclaration) -> bool {
    t.kind == TokenizerKind::Embedded && t.model@ == "llama"@
}

/// The compatibility tuple of verified local inference: schema 1, GGUF, the
/// Llama architecture, `Q5_K_M` quantization and the embedded Llama tokenizer.
pub open spec fn spec_supports_local(m: ModelManifest) -> bool {
    &&& m.schema_version == MANIFEST_SCHEMA_VERSION
    &&& m.format == ModelFormat::Gguf
    &&& m.architecture@ == "llama"@
    &&& m.quantization@ == "Q5_K_M"@
    &&& embedded_llama(m.tokenizer)
}

/// The tuple Loom's layer-range backend accepts: schema 2, GGUF, Llama,
/// `Q5_K_M`, embedded Llama tokenizer, Loom's runtime profile and a
/// layer-range plan.
pub open spec fn spec_loom_compatible(m: ModelManifest) -> bool {
    &&& m.schema_version == LOOPBACK_SHARDING_MANIFEST_SCHEMA_VERSION
    &&& m.format == ModelFormat::Gguf
    &&& m.architecture@ == "llama"@
    &&& m.quantization@ == "Q5_K_M"@
    &&& embedded_llama(m.tokenizer)
    &&& (m.runtime_profile matches Some(p) && p@ == loom_runtime_profile())
    &&& (m.execution_plan matches Some(plan) && plan.strategy.name@ == layer_range_strategy_name())
}

pub open spec fn shard_view(s: ShardSpec) -> (Seq<char>, Seq<char>, LayerRange, u8) {
    (s.id@, s.artifact_id@, s.layer_range, s.minimum_replicas)
}

/// Whether `text` holds exactly the characters of `literal`.
pub fn text_is(text: &String, literal: &str) -> (r: bool)
    ensures
        r == (text@ == literal@),
{
    let expected = String::from_str(literal);
    *text == expected
}

impl ExecutionStrategy {
    /// The approved layer-range strategy.
    pub fn layer_range() -> (r: Self)
        ensures
            r.name@ == layer_range_strategy_name(),
    {
        ExecutionStrategy { name: String::from_str("layer_range_v1") }
    }

    /// Whether this is the approved layer-range strategy.
    pub fn is_layer_range(&self) -> (r: bool)
        ensures
            r == (self.name@ == layer_range_strategy_name()),
    {
        text_is(&self.name, "layer_range_v1")
    }
}

impl ModelManifest {
    /// Whether the manifest is the compatibility tuple of verified local inference.
    pub fn supports_verified_local_inference(&self) -> (r: bool)
        ensures
            r == spec_supports_local(*self),
    {
        self.schema_version == MANIFEST_SCHEMA_VERSION && self.format == ModelFormat::Gguf
            && text_is(&self.architecture, "llama") && text_is(&self.quantization, "Q5_K_M")
            && self.tokenizer.kind == TokenizerKind::Embedded && text_is(&self.tokenizer.model, "llama")
    }
}

impl ArtifactDescriptor {
    /// A copy with the same content.
    pub fn copy(&self) -> (r: ArtifactDescriptor)
        ensures
            r@ == self@,
    {
        ArtifactDescriptor {
            id: copy_id(&self.id),
            uri: copy_id(&self.uri),
            content_sha256: copy_id(&self.content_sha256),
            size_bytes: self.size_bytes,
        }
    }
}

/// Accepts only the compatibility tuple of the native llama.cpp backend.
pub fn validate_manifest(manifest: &ModelManifest) -> (r: Result<(), DomainError>)
    ensures
        r is Ok <==> spec_supports_local(*manifest),
        r matches Err(e) ==> e == DomainError::BackendIncompatible,
{
    if manifest.supports_verified_local_inference() {
        Ok(())
    } else {
        Err(DomainError::BackendIncompatible)
    }
}

/// Accepts only manifests Loom's layer-range backend can execute.
pub fn validate_model(manifest: &ModelManifest) -> (r: Result<(), DomainError>)
    ensures
        r is Ok <==> spec_loom_compatible(*manifest),
        r matches Err(e) ==> e == DomainError::BackendIncompatible,
{
    let profile_ok = match &manifest.runtime_profile {
        Some(p) => text_is(p, "loom-cpu-v1"),
        None => false,
    };
    let plan_ok = match &manifest.execution_plan {
        Some(plan) => plan.strategy.is_layer_range(),
        None => false,
    };
    let valid = manifest.schema_version == LOOPBACK_SHARDING_MANIFEST_SCHEMA_VERSION
        && manifest.format == ModelFormat::Gguf && text_is(&manifest.architecture, "llama")
        && text_is(&manifest.quantization, "Q5_K_M") && manifest.tokenizer.kind
        == TokenizerKind::Embedded && text_is(&manifest.tokenizer.model, "llama") && profile_ok
        && plan_ok;
    if valid {
        Ok(())
    } else {
        Err(DomainError::BackendIncompatible)
    }
}

/// Whether `shard` is the last shard of the manifest's plan.
pub fn is_final_stage(manifest: &ModelManifest, shard: &ShardSpec) -> (r: Result<bool, DomainError>)
    ensures
        match manifest.execution_plan {
            None => r == Err::<bool, DomainError>(DomainError::ShardPlanInvalid),
            Some(plan) => {
                let shards = plan.shards@.map_values(|s: ShardSpec| shard_view(s));
                if shards.contains(shard_view(*shard)) {
                    r == Ok::<bool, DomainError>(
                        shards.last() == shard_view(*shard) && forall|i: int|
                            0 <= i < shards.len() - 1 ==> shards[i] != shard_view(*shard),
                    )
                } else {
                    r == Err::<bool, DomainError>(DomainError::ShardPlanInvalid)
                }
            },
        },
{
    let plan = match &manifest.execution_plan {
        Some(p) => p,
        None => return Err(DomainError::ShardPlanInvalid),
    };
    let ghost shards = plan.shards@.map_values(|s: ShardSpec| shard_view(s));
    let mut i: usize = 0;
    while i < plan.shards.len()
        invariant
            i <= plan.shards@.len(),
            manifest.execution_plan == Some(*plan),
            shards == plan.shards@.map_values(|s: ShardSpec| shard_view(s)),
            forall|j: int| 0 <= j < i ==> shards[j] != shard_view(*shard),
        decreases plan.shards.len() - i,
    {
        let candidate = &plan.shards[i];
        let same = candidate.id == shard.id && candidate.artifact_id == shard.artifact_id
            && candidate.layer_range == shard.layer_range && candidate.minimum_replicas
            == shard.minimum_replicas;
        assert(same == (shards[i as int] == shard_view(*shard)));
        if same {
            assert(shards.contains(shard_view(*shard)));
            return Ok(i + 1 == plan.shards.len());
        }
        i += 1;
    }
    assert forall|j: int| 0 <= j < shards.len() implies shards[j] != shard_view(*shard) by {}
    Err(DomainError::ShardPlanInvalid)
}

pub open spec fn plan_view(p: Option<ShardPlan>) -> Option<(Seq<char>, Seq<(Seq<char>, Seq<char>, LayerRange, u8)>)> {
    match p {
        Some(plan) => Some((plan.strategy.name@, plan.shards@.map_values(|s: ShardSpec| shard_view(s)))),
        None => None,
    }
}

pub open spec fn optional_text(t: Option<String>) -> Option<Seq<char>> {
    match t {
        Some(t) => Some(t@),
        None => None,
    }
}

/// Two manifests hold the same content.
pub open spec fn same_manifest(a: ModelManifest, b: ModelManifest) -> bool {
    &&& a.reference@ == b.reference@
    &&& a.schema_version == b.schema_version
    &&& a.model_id@ == b.model_id@
    &&& a.model_version@ == b.model_version@
    &&& a.format == b.format
    &&& a.architecture@ == b.architecture@
    &&& a.quantization@ == b.quantization@
    &&& a.tokenizer.kind == b.tokenizer.kind
    &&& a.tokenizer.model@ == b.tokenizer.model@
    &&& artifacts_view(a.artifacts@) == artifacts_view(b.artifacts@)
    &&& a.publisher_key_id@ == b.publisher_key_id@
    &&& a.license@ == b.license@
    &&& a.provenance@ == b.provenance@
    &&& plan_view(a.execution_plan) == plan_view(b.execution_plan)
    &&& optional_text(a.runtime_profile) == optional_text(b.runtime_profile)
}

impl ShardSpec {
    /// A copy with the same content.
    pub fn copy(&self) -> (r: ShardSpec)
        ensures
            shard_view(r) == shard_view(*self),
    {
        ShardSpec {
            id: copy_id(&self.id),
            artifact_id: copy_id(&self.artifact_id),
            layer_range: self.layer_range,
            minimum_replicas: self.minimum_replicas,
        }
    }
}

/// Copies a list of artifacts.
pub fn copy_artifacts(a: &Vec<ArtifactDescriptor>) -> (r: Vec<ArtifactDescriptor>)
    ensures
        artifacts_view(r@) == artifacts_view(a@),
{
    let mut r: Vec<ArtifactDescriptor> = Vec::new();
    let mut i: usize = 0;
    while i < a.len()
        invariant
            i <= a@.len(),
            artifacts_view(r@) == artifacts_view(a@).subrange(0, i as int),
        decreases a.len() - i,
    {
        let x = a[i].copy();
        let ghost before = r@;
        r.push(x);
        i += 1;
        assert(artifacts_view(r@) =~= artifacts_view(a@).subrange(0, i as int)) by {
            assert(artifacts_view(r@) =~= artifacts_view(before).push(x@));
        }
    }
    assert(artifacts_view(a@).subrange(0, a@.len() as int) =~= artifacts_view(a@));
    r
}

impl ShardPlan {
    /// A copy with the same content.
    pub fn copy(&self) -> (r: ShardPlan)
        ensures
            plan_view(Some(r)) == plan_view(Some(*self)),
    {
        let mut shards: Vec<ShardSpec> = Vec::new();
        let mut i: usize = 0;
        while i < self.shards.len()
            invariant
                i <= self.shards@.len(),
                shards@.map_values(|s: ShardSpec| shard_view(s)) == self.shards@.map_values(
                    |s: ShardSpec| shard_view(s),
                ).subrange(0, i as int),
            decreases self.shards.len() - i,
        {
            let x = self.shards[i].copy();
            let ghost before = shards@;
            shards.push(x);
            i += 1;
            assert(shards@.map_values(|s: ShardSpec| shard_view(s)) =~= self.shards@.map_values(
                |s: ShardSpec| shard_view(s),
            ).subrange(0, i as int)) by {
                assert(shards@.map_values(|s: ShardSpec| shard_view(s)) =~= before.map_values(
                    |s: ShardSpec| shard_view(s),
                ).push(shard_view(x)));
            }
        }
        assert(self.shards@.map_values(|s: ShardSpec| shard_view(s)).subrange(
            0,
            self.shards@.len() as int,
        ) =~= self.shards@.map_values(|s: ShardSpec| shard_view(s)));
        ShardPlan { strategy: ExecutionStrategy { name: copy_id(&self.strategy.name) }, shards }
    }
}

impl ModelManifest {
    /// A copy with the same content.
    pub fn copy(&self) -> (r: ModelManifest)
        ensures
            same_manifest(r, *self),
    {
        ModelManifest {
            reference: copy_id(&self.reference),
            schema_version: self.schema_version,
            model_id: copy_id(&self.model_id),
            model_version: copy_id(&self.model_version),
            format: self.format,
            architecture: copy_id(&self.architecture),
            quantization: copy_id(&self.quantization),
            tokenizer: TokenizerDeclaration {
                kind: self.tokenizer.kind,
                model: copy_id(&self.tokenizer.model),
            },
            artifacts: copy_artifacts(&self.artifacts),
            publisher_key_id: copy_id(&self.publisher_key_id),
            license: copy_id(&self.license),
            provenance: copy_id(&self.provenance),
            execution_plan: match &self.execution_plan {
                Some(p) => Some(p.copy()),
                None => None,
            },
            runtime_profile: match &self.runtime_profile {
                Some(p) => Some(copy_id(p)),
                None => None,
            },
        }
    }
}

} // verus!
