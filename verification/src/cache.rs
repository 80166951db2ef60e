use sha2::Digest;
use vstd::prelude::*;
use vstd::string::{StrSliceExecFns, StringExecFns};

use crate::error::DomainError;
use crate::ids::copy_id;
use crate::manifest::{ArtifactDescriptor, ModelManifest};

verus! {

/// Unicode `White_Space` characters, as `char::is_whitespace` defines them.
pub open spec fn is_whitespace(c: char) -> bool {
    let v = c as u32;
    (0x9 <= v <= 0xD) || v == 0x20 || v == 0x85 || v == 0xA0 || v == 0x1680 || (0x2000 <= v
        <= 0x200A) || v == 0x2028 || v == 0x2029 || v == 0x202F || v == 0x205F || v == 0x3000
}

/// An approved source URI: `https://`, with no whitespace anywhere.
pub open spec fn allowed_uri(uri: Seq<char>) -> bool {
    &&& uri.len() >= 8
    &&& uri.subrange(0, 8) == "https://"@
    &&& forall|i: int| 0 <= i < uri.len() ==> !is_whitespace(#[trigger] uri[i])
}

/// Whether `c` is Unicode white space.
pub fn char_is_whitespace(c: char) -> (r: bool)
    ensures
        r == is_whitespace(c),
{
    let v = c as u32;
    (0x9 <= v && v <= 0xD) || v == 0x20 || v == 0x85 || v == 0xA0 || v == 0x1680 || (0x2000 <= v
        && v <= 0x200A) || v == 0x2028 || v == 0x2029 || v == 0x202F || v == 0x205F || v == 0x3000
}

/// Whether the characters of `text` begin with those of `prefix`.
pub fn starts_with(text: &str, prefix: &str) -> (r: bool)
    ensures
        r == (prefix@.len() <= text@.len() && text@.subrange(0, prefix@.len() as int) == prefix@),
{
    let n = text.unicode_len();
    let m = prefix.unicode_len();
    if m > n {
        return false;
    }
    let mut i: usize = 0;
    while i < m
        invariant
            m == prefix@.len(),
            n == text@.len(),
            m <= n,
            i <= m,
            forall|k: int| 0 <= k < i ==> text@[k] == prefix@[k],
        decreases m - i,
    {
        if text.get_char(i) != prefix.get_char(i) {
            assert(text@.subrange(0, m as int)[i as int] != prefix@[i as int]);
            return false;
        }
        i += 1;
    }
    assert(text@.subrange(0, m as int) =~= prefix@);
    true
}

/// Whether `uri` is an approved source URI.
pub fn is_allowed_uri(uri: &str) -> (r: bool)
    ensures
        r == allowed_uri(uri@),
{
    proof {
        reveal_strlit("https://");
    }
    if !starts_with(uri, "https://") {
        return false;
    }
    let n = uri.unicode_len();
    let mut i: usize = 0;
    while i < n
        invariant
            n == uri@.len(),
            i <= n,
            forall|k: int| 0 <= k < i ==> !is_whitespace(#[trigger] uri@[k]),
        decreases n - i,
    {
        if char_is_whitespace(uri.get_char(i)) {
            return false;
        }
        i += 1;
    }
    true
}

/// Explicit mappings from a manifest's approved URI to a locally provisioned source.
pub struct ProvisionedArtifactSources {
    uris: Vec<String>,
    paths: Vec<String>,
}

impl ProvisionedArtifactSources {
    /// The registered (URI, source) pairs.
    pub closed spec fn entries(&self) -> Seq<(Seq<char>, Seq<char>)> {
        Seq::new(self.uris@.len(), |i: int| (self.uris@[i]@, self.paths@[i]@))
    }

    pub closed spec fn wf(&self) -> bool {
        &&& self.uris@.len() == self.paths@.len()
        &&& forall|i: int, j: int|
            0 <= i < self.uris@.len() && 0 <= j < self.uris@.len() && i != j ==> self.uris@[i]@
                != self.uris@[j]@
    }

    /// No provisioned source.
    pub fn new() -> (r: Self)
        ensures
            r.wf(),
            r.entries().len() == 0,
    {
        ProvisionedArtifactSources { uris: Vec::new(), paths: Vec::new() }
    }

    fn index_of(&self, uri: &String) -> (r: Option<usize>)
        requires
            self.wf(),
        ensures
            match r {
                Some(i) => i < self.entries().len() && self.entries()[i as int].0 == uri@,
                None => forall|k: int| 0 <= k < self.entries().len() ==> self.entries()[k].0 != uri@,
            },
    {
        let mut i: usize = 0;
        while i < self.uris.len()
            invariant
                self.wf(),
                i <= self.uris@.len(),
                forall|k: int| 0 <= k < i ==> self.uris@[k]@ != uri@,
            decreases self.uris.len() - i,
        {
            if self.uris[i] == *uri {
                return Some(i);
            }
            i += 1;
        }
        None
    }

    /// Registers the source of `uri`. A URI that is not `https://` or holds
    /// whitespace is refused unrecorded; an already registered URI is refused
    /// after its source is replaced.
    pub fn insert(&mut self, uri: String, source: String) -> (r: Result<(), DomainError>)
        requires
            old(self).wf(),
        ensures
            final(self).wf(),
            r is Ok <==> (allowed_uri(uri@) && forall|k: int|
                0 <= k < old(self).entries().len() ==> old(self).entries()[k].0 != uri@),
            r matches Err(e) ==> e == DomainError::DisallowedSource,
            !allowed_uri(uri@) ==> final(self).entries() == old(self).entries(),
            allowed_uri(uri@) ==> (match lookup(old(self).entries(), uri@) {
                Some(i) => final(self).entries() == old(self).entries().update(i, (uri@, source@)),
                None => final(self).entries() == old(self).entries().push((uri@, source@)),
            }),
    {
        if !is_allowed_uri(uri.as_str()) {
            return Err(DomainError::DisallowedSource);
        }
        match self.index_of(&uri) {
            Some(i) => {
                proof {
                    lemma_lookup(self.entries(), uri@, i as int);
                }
                self.paths.set(i, source);
                assert(self.entries() =~= old(self).entries().update(i as int, (uri@, source@)));
                Err(DomainError::DisallowedSource)
            },
            None => {
                assert(lookup(self.entries(), uri@) is None);
                let ghost old_uris = self.uris@;
                assert(forall|k: int| 0 <= k < old_uris.len() ==> old_uris[k]@ != uri@) by {
                    assert(forall|k: int| 0 <= k < old_uris.len() ==> self.entries()[k].0 == old_uris[k]@);
                }
                self.uris.push(uri);
                self.paths.push(source);
                assert(self.entries() =~= old(self).entries().push((uri@, source@)));
                Ok(())
            },
        }
    }

    /// The source registered for the artifact's URI.
    pub fn get(&self, artifact: &ArtifactDescriptor) -> (r: Result<&String, DomainError>)
        requires
            self.wf(),
        ensures
            match lookup(self.entries(), artifact.uri@) {
                Some(i) => r matches Ok(p) && p@ == self.entries()[i].1,
                None => r == Err::<&String, DomainError>(DomainError::DisallowedSource),
            },
    {
        match self.index_of(&artifact.uri) {
            Some(i) => {
                proof {
                    lemma_lookup(self.entries(), artifact.uri@, i as int);
                }
                Ok(&self.paths[i])
            },
            None => {
                assert(lookup(self.entries(), artifact.uri@) is None);
                Err(DomainError::DisallowedSource)
            },
        }
    }
}

/// The position of `uri` among the registered pairs.
pub open spec fn lookup(entries: Seq<(Seq<char>, Seq<char>)>, uri: Seq<char>) -> Option<int> {
    if exists|i: int| 0 <= i < entries.len() && entries[i].0 == uri {
        Some(choose|i: int| 0 <= i < entries.len() && entries[i].0 == uri)
    } else {
        None
    }
}

proof fn lemma_lookup(entries: Seq<(Seq<char>, Seq<char>)>, uri: Seq<char>, i: int)
    requires
        0 <= i < entries.len(),
        entries[i].0 == uri,
        forall|a: int, b: int|
            0 <= a < entries.len() && 0 <= b < entries.len() && a != b ==> entries[a].0 != entries[b].0,
    ensures
        lookup(entries, uri) == Some(i),
{
    let c = choose|c: int| 0 <= c < entries.len() && entries[c].0 == uri;
    assert(0 <= c < entries.len() && entries[c].0 == uri);
}

/// A running `sha2::Sha256` computation, held opaque and seen only as the
/// sequence of bytes it has absorbed.
#[verifier::external_body]
pub struct Sha256Stream {
    hasher: sha2::Sha256,
}

/// The SHA-256 digest of `data`.
pub uninterp spec fn sha256(data: Seq<u8>) -> Seq<u8>;

/// The bytes a running SHA-256 computation has absorbed so far.
pub uninterp spec fn absorbed(stream: Sha256Stream) -> Seq<u8>;

/// Trusted: `Sha256::new` starts a digest that has absorbed nothing.
#[verifier::external_body]
fn sha256_start() -> (r: Sha256Stream)
    ensures
        absorbed(r) == Seq::<u8>::empty(),
{
    Sha256Stream { hasher: sha2::Sha256::new() }
}

/// Trusted: `Sha256::update` absorbs `data` after what was absorbed before.
#[verifier::external_body]
fn sha256_absorb(stream: &mut Sha256Stream, data: &[u8])
    ensures
        absorbed(*final(stream)) == absorbed(*old(stream)) + data@,
{
    stream.hasher.update(data)
}

/// Trusted: `Sha256::finalize` returns the 32-byte SHA-256 digest of the
/// absorbed bytes; the digest itself is given only by name.
#[verifier::external_body]
fn sha256_finish(stream: Sha256Stream) -> (r: Vec<u8>)
    ensures
        r@ == sha256(absorbed(stream)),
        r@.len() == 32,
{
    stream.hasher.finalize().to_vec()
}

/// The lower-case hexadecimal digit for `d < 16`.
pub open spec fn hex_char(d: int) -> char {
    if d < 10 {
        (48 + d) as char
    } else {
        (87 + d) as char
    }
}

/// Two lower-case hexadecimal digits per byte, most significant first.
pub open spec fn hex_lower(bytes: Seq<u8>) -> Seq<char> {
    Seq::new(
        2 * bytes.len(),
        |i: int|
            if i % 2 == 0 {
                hex_char(bytes[i / 2] as int / 16)
            } else {
                hex_char(bytes[i / 2] as int % 16)
            },
    )
}

/// The hexadecimal digest a manifest declares: its `content_sha256` without
/// the `sha256:` prefix, or nothing when the prefix is missing.
pub open spec fn declared_hash(content_sha256: Seq<char>) -> Seq<char> {
    if content_sha256.len() >= 7 && content_sha256.subrange(0, 7) == "sha256:"@ {
        content_sha256.skip(7)
    } else {
        Seq::empty()
    }
}

/// Content of the declared size whose SHA-256 digest is the declared one.
pub open spec fn content_verified(content: Seq<u8>, size_bytes: u64, content_sha256: Seq<char>) -> bool {
    content.len() == size_bytes && hex_lower(sha256(content)) == declared_hash(content_sha256)
}

fn hex_digit_char(d: u8) -> (r: char)
    requires
        d < 16,
    ensures
        r == hex_char(d as int),
{
    if d < 10 {
        (48u8 + d) as char
    } else {
        (87u8 + d) as char
    }
}

/// The declared digest text of an artifact.
pub fn declared_hash_text(content_sha256: &String) -> (r: String)
    ensures
        r@ == declared_hash(content_sha256@),
{
    proof {
        reveal_strlit("sha256:");
    }
    let s = content_sha256.as_str();
    if starts_with(s, "sha256:") {
        let n = s.unicode_len();
        let rest = s.substring_char(7, n);
        String::from_str(rest)
    } else {
        let r = String::new();
        r
    }
}

/// Whether `observed` written in lower-case hexadecimal is the declared digest.
pub fn hash_matches(observed: &[u8], content_sha256: &String) -> (r: bool)
    ensures
        r == (hex_lower(observed@) == declared_hash(content_sha256@)),
{
    let expected = declared_hash_text(content_sha256);
    let e = expected.as_str();
    let n = e.unicode_len();
    if observed.len() > usize::MAX / 2 || n != 2 * observed.len() {
        return false;
    }
    let mut i: usize = 0;
    while i < observed.len()
        invariant
            n == e@.len(),
            e@ == declared_hash(content_sha256@),
            n == 2 * observed@.len(),
            i <= observed@.len(),
            forall|k: int| 0 <= k < 2 * i ==> e@[k] == hex_lower(observed@)[k],
        decreases observed.len() - i,
    {
        let byte = observed[i];
        let high = hex_digit_char(byte / 16);
        let low = hex_digit_char(byte % 16);
        if e.get_char(2 * i) != high {
            assert(hex_lower(observed@)[2 * i] == high);
            return false;
        }
        if e.get_char(2 * i + 1) != low {
            assert(hex_lower(observed@)[2 * i + 1] == low);
            return false;
        }
        assert(hex_lower(observed@)[2 * i] == high);
        assert(hex_lower(observed@)[2 * i + 1] == low);
        i += 1;
    }
    assert(e@ =~= hex_lower(observed@));
    true
}

/// Whether `total` bytes whose digest is `digest` are the declared content.
fn digest_verified(total: u64, digest: &Vec<u8>, artifact: &ArtifactDescriptor) -> (r: Result<
    (),
    DomainError,
>)
    ensures
        r is Ok <==> (total == artifact.size_bytes && hex_lower(digest@) == declared_hash(
            artifact.content_sha256@,
        )),
        r matches Err(e) ==> e == DomainError::ArtifactIntegrity,
{
    if total != artifact.size_bytes || !hash_matches(digest.as_slice(), &artifact.content_sha256) {
        return Err(DomainError::ArtifactIntegrity);
    }
    Ok(())
}

/// Bytes streamed from a provisioned source into staging, checked against the
/// artifact's signed size and digest; more bytes than declared, or than the
/// cache accepts, are refused as soon as they arrive.
pub struct StagedContent {
    declared: u64,
    max_artifact_bytes: u64,
    total: u64,
    hasher: Sha256Stream,
}

impl StagedContent {
    /// The bytes taken so far.
    pub closed spec fn content(&self) -> Seq<u8> {
        absorbed(self.hasher)
    }

    /// The size the artifact declares.
    pub closed spec fn declared(&self) -> u64 {
        self.declared
    }

    /// The largest artifact the cache accepts.
    pub closed spec fn limit(&self) -> u64 {
        self.max_artifact_bytes
    }

    pub closed spec fn wf(&self) -> bool {
        &&& self.total == absorbed(self.hasher).len()
        &&& self.total <= self.declared
        &&& self.total <= self.max_artifact_bytes
    }

    /// Starts staging `artifact`, unless it declares more bytes than the cache accepts.
    pub fn start(artifact: &ArtifactDescriptor, max_artifact_bytes: u64) -> (r: Result<
        Self,
        DomainError,
    >)
        ensures
            r is Ok <==> artifact.size_bytes <= max_artifact_bytes,
            r matches Err(e) ==> e == DomainError::ArtifactIntegrity,
            r matches Ok(s) ==> {
                &&& s.wf()
                &&& s.content() == Seq::<u8>::empty()
                &&& s.declared() == artifact.size_bytes
                &&& s.limit() == max_artifact_bytes
            },
    {
        if artifact.size_bytes > max_artifact_bytes {
            return Err(DomainError::ArtifactIntegrity);
        }
        StagedContent::start_unchecked(artifact.size_bytes, max_artifact_bytes)
    }

    fn start_unchecked(declared: u64, max_artifact_bytes: u64) -> (r: Result<Self, DomainError>)
        requires
            declared <= max_artifact_bytes,
        ensures
            r matches Ok(s) && s.wf() && s.content() == Seq::<u8>::empty() && s.declared()
                == declared && s.limit() == max_artifact_bytes,
    {
        let hasher = sha256_start();
        Ok(StagedContent { declared, max_artifact_bytes, total: 0, hasher })
    }

    /// Takes the next chunk read from the source.
    pub fn absorb(&mut self, chunk: &[u8]) -> (r: Result<(), DomainError>)
        requires
            old(self).wf(),
        ensures
            r is Ok <==> (old(self).content().len() + chunk@.len() <= old(self).declared()
                && old(self).content().len() + chunk@.len() <= old(self).limit()),
            r matches Err(e) ==> e == DomainError::ArtifactIntegrity,
            final(self).wf(),
            final(self).declared() == old(self).declared(),
            final(self).limit() == old(self).limit(),
            r is Ok ==> final(self).content() == old(self).content() + chunk@,
    {
        let n = chunk.len() as u64;
        let total = match self.total.checked_add(n) {
            Some(t) => t,
            None => return Err(DomainError::ArtifactIntegrity),
        };
        if total > self.declared || total > self.max_artifact_bytes {
            return Err(DomainError::ArtifactIntegrity);
        }
        sha256_absorb(&mut self.hasher, chunk);
        self.total = total;
        Ok(())
    }

    /// Accepts the staged bytes only if they are the declared content.
    pub fn finish(self, artifact: &ArtifactDescriptor) -> (r: Result<(), DomainError>)
        requires
            self.wf(),
        ensures
            r is Ok <==> content_verified(
                self.content(),
                artifact.size_bytes,
                artifact.content_sha256@,
            ),
            r matches Err(e) ==> e == DomainError::ArtifactIntegrity,
            sha256(self.content()).len() == 32,
    {
        let total = self.total;
        let digest = sha256_finish(self.hasher);
        digest_verified(total, &digest, artifact)
    }
}

/// Bytes read back from a cache object, checked against the artifact's signed
/// size and digest before the object counts as a verified hit.
pub struct CachedContent {
    total: u64,
    hasher: Sha256Stream,
}

impl CachedContent {
    /// The bytes read so far.
    pub closed spec fn content(&self) -> Seq<u8> {
        absorbed(self.hasher)
    }

    pub closed spec fn wf(&self) -> bool {
        self.total == absorbed(self.hasher).len()
    }

    /// Starts rechecking a cache object.
    pub fn start() -> (r: Self)
        ensures
            r.wf(),
            r.content() == Seq::<u8>::empty(),
    {
        CachedContent { total: 0, hasher: sha256_start() }
    }

    /// Takes the next chunk read from the object; a count past the largest
    /// `u64` is a cache failure.
    pub fn absorb(&mut self, chunk: &[u8]) -> (r: Result<(), DomainError>)
        requires
            old(self).wf(),
        ensures
            r is Ok <==> old(self).content().len() + chunk@.len() <= u64::MAX,
            r matches Err(e) ==> e == DomainError::CacheFailure,
            final(self).wf(),
            r is Ok ==> final(self).content() == old(self).content() + chunk@,
    {
        let n = chunk.len() as u64;
        let total = match self.total.checked_add(n) {
            Some(t) => t,
            None => return Err(DomainError::CacheFailure),
        };
        sha256_absorb(&mut self.hasher, chunk);
        self.total = total;
        Ok(())
    }

    /// Accepts the object only if it holds the declared content.
    pub fn finish(self, artifact: &ArtifactDescriptor) -> (r: Result<(), DomainError>)
        requires
            self.wf(),
        ensures
            r is Ok <==> content_verified(
                self.content(),
                artifact.size_bytes,
                artifact.content_sha256@,
            ),
            r matches Err(e) ==> e == DomainError::ArtifactIntegrity,
            sha256(self.content()).len() == 32,
    {
        let total = self.total;
        let digest = sha256_finish(self.hasher);
        digest_verified(total, &digest, artifact)
    }
}

/// `name` joined to the path `base` as `Path::join` does on Unix: an absolute
/// `name` (one that starts with `/`) replaces `base`; otherwise it is appended,
/// with a `/` between them unless `base` is empty or already ends with one.
pub open spec fn joined(base: Seq<char>, name: Seq<char>) -> Seq<char> {
    if name.len() > 0 && name[0] == '/' {
        name
    } else if base.len() == 0 || base.last() == '/' {
        base + name
    } else {
        base + seq!['/'] + name
    }
}

/// The decimal digits of `n`, most significant first.
pub open spec fn decimal(n: u64) -> Seq<char>
    decreases n,
{
    if n < 10 {
        seq![(48 + n) as char]
    } else {
        decimal(n / 10).push((48 + n % 10) as char)
    }
}

/// Appends `name` to `base` as a path component.
pub fn join(base: &String, name: &str) -> (r: String)
    ensures
        r@ == joined(base@, name@),
{
    proof {
        reveal_strlit("/");
    }
    if name.unicode_len() > 0 && name.get_char(0) == '/' {
        return String::from_str(name);
    }
    let mut r = copy_id(base);
    let b = base.as_str();
    let n = b.unicode_len();
    if n > 0 && b.get_char(n - 1) != '/' {
        r.append("/");
    }
    r.append(name);
    r
}

fn digit_text(d: u64) -> (r: &'static str)
    requires
        d < 10,
    ensures
        r@ == seq![(48 + d) as char],
{
    proof {
        reveal_strlit("0");
        reveal_strlit("1");
        reveal_strlit("2");
        reveal_strlit("3");
        reveal_strlit("4");
        reveal_strlit("5");
        reveal_strlit("6");
        reveal_strlit("7");
        reveal_strlit("8");
        reveal_strlit("9");
    }
    if d == 0 {
        "0"
    } else if d == 1 {
        "1"
    } else if d == 2 {
        "2"
    } else if d == 3 {
        "3"
    } else if d == 4 {
        "4"
    } else if d == 5 {
        "5"
    } else if d == 6 {
        "6"
    } else if d == 7 {
        "7"
    } else if d == 8 {
        "8"
    } else {
        "9"
    }
}

/// Writes `n` in decimal.
pub fn decimal_text(n: u64) -> (r: String)
    ensures
        r@ == decimal(n),
    decreases n,
{
    if n < 10 {
        return String::from_str(digit_text(n));
    }
    let mut r = decimal_text(n / 10);
    r.append(digit_text(n % 10));
    r
}

/// The directory layout of a content-addressed cache under `root`.
pub struct CachePaths<'a> {
    root: &'a String,
}

impl<'a> CachePaths<'a> {
    pub closed spec fn root(&self) -> Seq<char> {
        self.root@
    }

    /// The layout under `root`.
    pub fn new(root: &'a String) -> (r: Self)
        ensures
            r.root() == root@,
    {
        CachePaths { root }
    }

    /// Complete verified objects.
    pub fn objects(&self) -> (r: String)
        ensures
            r@ == joined(self.root(), "objects"@),
    {
        join(self.root, "objects")
    }

    /// Partially copied artifacts awaiting promotion.
    pub fn staging(&self) -> (r: String)
        ensures
            r@ == joined(self.root(), "staging"@),
    {
        join(self.root, "staging")
    }

    /// Exclusive staging leases.
    pub fn leases(&self) -> (r: String)
        ensures
            r@ == joined(self.root(), "leases"@),
    {
        join(self.root, "leases")
    }

    /// Verified provenance records.
    pub fn metadata(&self) -> (r: String)
        ensures
            r@ == joined(self.root(), "metadata"@),
    {
        join(self.root, "metadata")
    }

    /// The cache object of an artifact, named by its declared digest.
    pub fn object(&self, artifact: &ArtifactDescriptor) -> (r: String)
        ensures
            r@ == joined(joined(self.root(), "objects"@), declared_hash(artifact.content_sha256@)),
    {
        let hash = declared_hash_text(&artifact.content_sha256);
        join(&self.objects(), hash.as_str())
    }

    /// The lease file of an artifact.
    pub fn lease(&self, artifact: &ArtifactDescriptor) -> (r: String)
        ensures
            r@ == joined(
                joined(self.root(), "leases"@),
                declared_hash(artifact.content_sha256@) + ".lease"@,
            ),
    {
        let mut name = declared_hash_text(&artifact.content_sha256);
        name.append(".lease");
        join(&self.leases(), name.as_str())
    }

    /// The provenance record of an artifact.
    pub fn metadata_file(&self, artifact: &ArtifactDescriptor) -> (r: String)
        ensures
            r@ == joined(
                joined(self.root(), "metadata"@),
                declared_hash(artifact.content_sha256@) + ".meta"@,
            ),
    {
        let mut name = declared_hash_text(&artifact.content_sha256);
        name.append(".meta");
        join(&self.metadata(), name.as_str())
    }

    /// The staging copy of an artifact for the attempt numbered `suffix`.
    pub fn staged_artifact(&self, artifact: &ArtifactDescriptor, suffix: u64) -> (r: String)
        ensures
            r@ == joined(
                joined(self.root(), "staging"@),
                declared_hash(artifact.content_sha256@) + "."@ + decimal(suffix) + ".part"@,
            ),
    {
        let mut name = declared_hash_text(&artifact.content_sha256);
        name.append(".");
        name.append(decimal_text(suffix).as_str());
        name.append(".part");
        join(&self.staging(), name.as_str())
    }

    /// The staging provenance record for the attempt numbered `suffix`.
    pub fn staged_metadata(&self, artifact: &ArtifactDescriptor, suffix: u64) -> (r: String)
        ensures
            r@ == joined(
                joined(self.root(), "staging"@),
                declared_hash(artifact.content_sha256@) + "."@ + decimal(suffix) + ".meta.part"@,
            ),
    {
        let mut name = declared_hash_text(&artifact.content_sha256);
        name.append(".");
        name.append(decimal_text(suffix).as_str());
        name.append(".meta.part");
        join(&self.staging(), name.as_str())
    }
}

/// The digests a manifest retains: each artifact's declared digest, in order,
/// skipping declarations without the `sha256:` prefix.
pub open spec fn retained_hashes(artifacts: Seq<Seq<char>>) -> Seq<Seq<char>>
    decreases artifacts.len(),
{
    if artifacts.len() == 0 {
        Seq::empty()
    } else {
        let rest = retained_hashes(artifacts.drop_last());
        if artifacts.last().len() >= 7 && artifacts.last().subrange(0, 7) == "sha256:"@ {
            rest.push(declared_hash(artifacts.last()))
        } else {
            rest
        }
    }
}

/// A cache file is retained when its name is a retained digest or begins with
/// one followed by a dot.
pub open spec fn is_retained(name: Seq<char>, hashes: Seq<Seq<char>>) -> bool {
    exists|i: int|
        0 <= i < hashes.len() && (name == #[trigger] hashes[i] || (hashes[i].len() + 1 <= name.len()
            && name.subrange(0, hashes[i].len() + 1int) == hashes[i].push('.')))
}

/// The declared digests of the active manifest's artifacts.
pub fn active_hashes(manifest: &ModelManifest) -> (r: Vec<String>)
    ensures
        r@.map_values(|h: String| h@) == retained_hashes(
            manifest.artifacts@.map_values(|a: ArtifactDescriptor| a.content_sha256@),
        ),
{
    proof {
        reveal_strlit("sha256:");
    }
    let ghost decl = manifest.artifacts@.map_values(|a: ArtifactDescriptor| a.content_sha256@);
    let mut r: Vec<String> = Vec::new();
    let mut i: usize = 0;
    assert(decl.subrange(0, 0) =~= Seq::<Seq<char>>::empty());
    assert(r@.map_values(|h: String| h@) =~= Seq::<Seq<char>>::empty());
    while i < manifest.artifacts.len()
        invariant
            i <= manifest.artifacts@.len(),
            decl == manifest.artifacts@.map_values(|a: ArtifactDescriptor| a.content_sha256@),
            r@.map_values(|h: String| h@) == retained_hashes(decl.subrange(0, i as int)),
        decreases manifest.artifacts.len() - i,
    {
        proof {
            reveal_strlit("sha256:");
        }
        let c = &manifest.artifacts[i].content_sha256;
        assert(decl.subrange(0, i + 1).drop_last() =~= decl.subrange(0, i as int));
        assert(decl.subrange(0, i + 1).last() == c@);
        if starts_with(c.as_str(), "sha256:") {
            let h = declared_hash_text(c);
            let ghost before = r@;
            r.push(h);
            assert(r@.map_values(|h: String| h@) =~= before.map_values(|h: String| h@).push(h@));
        }
        i += 1;
    }
    assert(decl.subrange(0, decl.len() as int) =~= decl);
    r
}

/// Whether a cache file named `name` belongs to a retained digest.
pub fn retained(name: &str, hashes: &Vec<String>) -> (r: bool)
    ensures
        r == is_retained(name@, hashes@.map_values(|h: String| h@)),
{
    proof {
        reveal_strlit(".");
    }
    let ghost hs = hashes@.map_values(|h: String| h@);
    let mut i: usize = 0;
    while i < hashes.len()
        invariant
            i <= hashes@.len(),
            hs == hashes@.map_values(|h: String| h@),
            forall|k: int|
                0 <= k < i ==> !(name@ == #[trigger] hs[k] || (hs[k].len() + 1 <= name@.len()
                    && name@.subrange(0, hs[k].len() + 1int) == hs[k].push('.'))),
        decreases hashes.len() - i,
    {
        proof {
            reveal_strlit(".");
        }
        let h = &hashes[i];
        let exact = String::from_str(name) == *h;
        let mut dotted = copy_id(h);
        dotted.append(".");
        assert(dotted@ =~= hs[i as int].push('.'));
        if exact || starts_with(name, dotted.as_str()) {
            return true;
        }
        i += 1;
    }
    false
}

/// A content-addressed artifact cache populated only from explicitly
/// provisioned local files.
pub struct ContentAddressedArtifactStore {
    root: String,
    max_artifact_bytes: u64,
    sources: ProvisionedArtifactSources,
}

impl ContentAddressedArtifactStore {
    pub closed spec fn wf(&self) -> bool {
        self.sources.wf() && self.max_artifact_bytes > 0
    }

    pub closed spec fn root(&self) -> Seq<char> {
        self.root@
    }

    pub closed spec fn max_bytes(&self) -> u64 {
        self.max_artifact_bytes
    }

    pub closed spec fn sources(&self) -> Seq<(Seq<char>, Seq<char>)> {
        self.sources.entries()
    }

    /// A cache rooted at `root` that accepts artifacts of at most
    /// `max_artifact_bytes`; a zero limit is refused.
    pub fn new(root: String, max_artifact_bytes: u64) -> (r: Result<Self, DomainError>)
        ensures
            r is Ok <==> max_artifact_bytes != 0,
            r matches Err(e) ==> e == DomainError::CacheFailure,
            r matches Ok(s) ==> s.wf() && s.root() == root@ && s.max_bytes() == max_artifact_bytes
                && s.sources().len() == 0,
    {
        if max_artifact_bytes == 0 {
            return Err(DomainError::CacheFailure);
        }
        Ok(ContentAddressedArtifactStore {
            root,
            max_artifact_bytes,
            sources: ProvisionedArtifactSources::new(),
        })
    }

    /// Registers the only local source that may satisfy a declared HTTPS URI.
    pub fn register_provisioned_source(&mut self, uri: String, source: String) -> (r: Result<
        (),
        DomainError,
    >)
        requires
            old(self).wf(),
        ensures
            final(self).wf(),
            final(self).root() == old(self).root(),
            final(self).max_bytes() == old(self).max_bytes(),
            r is Ok <==> (allowed_uri(uri@) && forall|k: int|
                0 <= k < old(self).sources().len() ==> old(self).sources()[k].0 != uri@),
            r matches Err(e) ==> e == DomainError::DisallowedSource,
            !allowed_uri(uri@) ==> final(self).sources() == old(self).sources(),
            allowed_uri(uri@) ==> (match lookup(old(self).sources(), uri@) {
                Some(i) => final(self).sources() == old(self).sources().update(i, (uri@, source@)),
                None => final(self).sources() == old(self).sources().push((uri@, source@)),
            }),
    {
        self.sources.insert(uri, source)
    }

    /// The provisioned source of an artifact.
    pub fn source_for(&self, artifact: &ArtifactDescriptor) -> (r: Result<&String, DomainError>)
        requires
            self.wf(),
        ensures
            match lookup(self.sources(), artifact.uri@) {
                Some(i) => r matches Ok(p) && p@ == self.sources()[i].1,
                None => r == Err::<&String, DomainError>(DomainError::DisallowedSource),
            },
    {
        self.sources.get(artifact)
    }

    /// The largest artifact the cache accepts.
    pub fn max_artifact_bytes(&self) -> (r: u64)
        ensures
            r == self.max_bytes(),
    {
        self.max_artifact_bytes
    }

    /// The cache's directory layout.
    pub fn paths(&self) -> (r: CachePaths<'_>)
        ensures
            r.root() == self.root(),
    {
        CachePaths::new(&self.root)
    }
}

/// The provenance record of a cached artifact: only the model reference and the
/// artifact's identity, digest and size, one `key=value` line each.
pub open spec fn metadata_record_text(reference: Seq<char>, artifact: ArtifactDescriptor) -> Seq<char> {
    "reference="@ + reference + "\nartifact_id="@ + artifact.id@ + "\ncontent_sha256="@
        + artifact.content_sha256@ + "\nsize_bytes="@ + decimal(artifact.size_bytes) + "\n"@
}

/// Writes the provenance record of a cached artifact.
pub fn metadata_record(reference: &String, artifact: &ArtifactDescriptor) -> (r: String)
    ensures
        r@ == metadata_record_text(reference@, *artifact),
{
    let mut r = String::from_str("reference=");
    r.append(reference.as_str());
    r.append("\nartifact_id=");
    r.append(artifact.id.as_str());
    r.append("\ncontent_sha256=");
    r.append(artifact.content_sha256.as_str());
    r.append("\nsize_bytes=");
    r.append(decimal_text(artifact.size_bytes).as_str());
    r.append("\n");
    r
}

} // verus!
