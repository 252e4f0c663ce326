//! Versioned backend catalog and deterministic accelerator resolution.
//!
//! Memory sizes in gigabytes are held as the bits of a non-negative
//! single-precision number: the bits of such numbers are ordered as the numbers
//! are, so every comparison here is exact.

use crate::gpu::{DeviceView, GpuDevice, GpuKind, GpuReport};
use crate::text;
use vstd::prelude::*;

verus! {

/// The bits of 14 GB and of 6 GB, where the capacity classes begin.
pub const LARGE_GPU_GB: u32 = 0x4160_0000;

pub const SMALL_GPU_GB: u32 = 0x40c0_0000;

#[derive(Debug, Clone, Copy, PartialEq, Eq, Structural, Hash)]
pub enum BackendStage {
    Asr,
    Tts,
    Llm,
}

/// Relative resource demand (1 = light, 5 = very demanding).
#[derive(Debug, Clone, Copy, PartialEq, Eq, Structural)]
pub struct ResourceStars {
    pub cpu: u8,
    pub gpu: u8,
    pub vram: u8,
}

#[derive(Debug, Clone, Copy, PartialEq, Eq, Structural)]
pub struct ResourceEstimate {
    pub vram_gb: u32,
    pub ram_gb: u32,
    pub stars: ResourceStars,
}

#[derive(Debug)]
pub struct ModelArtifact {
    pub source: String,
    pub path: String,
    pub sha256: String,
    pub size: u64,
    /// Server-side download authentication scheme; empty for none.
    pub auth: String,
}

impl Clone for ModelArtifact {
    fn clone(&self) -> (r: Self)
        ensures
            r == *self,
    {
        ModelArtifact {
            source: self.source.clone(),
            path: self.path.clone(),
            sha256: self.sha256.clone(),
            size: self.size,
            auth: self.auth.clone(),
        }
    }
}

#[derive(Debug)]
pub struct BackendVariant {
    pub id: String,
    pub accelerator: String,
    pub vendors: Vec<String>,
    pub platforms: Vec<String>,
    pub stable: bool,
    /// False when no immutable image is published for this runtime yet. Such a
    /// variant is never compatible.
    pub published: bool,
    pub runtime_delivery_reason: String,
    pub device_match: Vec<String>,
    pub endpoint: String,
    pub native_endpoint: String,
    pub container: String,
    pub image: String,
    pub image_download_size_bytes: u64,
    pub health_path: String,
    pub environment: Vec<(String, String)>,
    /// Model files of this runtime; empty keeps those of the backend.
    pub artifacts: Vec<ModelArtifact>,
    pub bundled: Option<bool>,
    pub protocol: String,
    /// Native host launcher profile; empty means container or remote.
    pub host_profile: String,
}

/// Whether two variants hold the same data.
pub open spec fn same_variant(a: BackendVariant, b: BackendVariant) -> bool {
    &&& a.id == b.id
    &&& a.accelerator == b.accelerator
    &&& a.vendors@ == b.vendors@
    &&& a.platforms@ == b.platforms@
    &&& a.stable == b.stable
    &&& a.published == b.published
    &&& a.runtime_delivery_reason == b.runtime_delivery_reason
    &&& a.device_match@ == b.device_match@
    &&& a.endpoint == b.endpoint
    &&& a.native_endpoint == b.native_endpoint
    &&& a.container == b.container
    &&& a.image == b.image
    &&& a.image_download_size_bytes == b.image_download_size_bytes
    &&& a.health_path == b.health_path
    &&& a.environment@ == b.environment@
    &&& a.artifacts@ == b.artifacts@
    &&& a.bundled == b.bundled
    &&& a.protocol == b.protocol
    &&& a.host_profile == b.host_profile
}

impl Clone for BackendVariant {
    fn clone(&self) -> (r: Self)
        ensures
            same_variant(r, *self),
    {
        BackendVariant {
            id: self.id.clone(),
            accelerator: self.accelerator.clone(),
            vendors: clone_texts(&self.vendors),
            platforms: clone_texts(&self.platforms),
            stable: self.stable,
            published: self.published,
            runtime_delivery_reason: self.runtime_delivery_reason.clone(),
            device_match: clone_texts(&self.device_match),
            endpoint: self.endpoint.clone(),
            native_endpoint: self.native_endpoint.clone(),
            container: self.container.clone(),
            image: self.image.clone(),
            image_download_size_bytes: self.image_download_size_bytes,
            health_path: self.health_path.clone(),
            environment: clone_pairs(&self.environment),
            artifacts: clone_artifacts(&self.artifacts),
            bundled: self.bundled,
            protocol: self.protocol.clone(),
            host_profile: self.host_profile.clone(),
        }
    }
}

pub fn clone_texts(v: &Vec<String>) -> (r: Vec<String>)
    ensures
        r@ == v@,
{
    let r: Vec<String> = v.clone();
    assert(r@ =~= v@);
    r
}

pub fn clone_pairs(v: &Vec<(String, String)>) -> (r: Vec<(String, String)>)
    ensures
        r@ == v@,
{
    let mut r: Vec<(String, String)> = Vec::new();
    let mut i: usize = 0;
    while i < v.len()
        invariant
            i <= v.len(),
            r@ =~= v@.take(i as int),
        decreases v.len() - i,
    {
        r.push((v[i].0.clone(), v[i].1.clone()));
        i += 1;
    }
    r
}

pub fn clone_artifacts(v: &Vec<ModelArtifact>) -> (r: Vec<ModelArtifact>)
    ensures
        r@ == v@,
{
    let mut r: Vec<ModelArtifact> = Vec::new();
    let mut i: usize = 0;
    while i < v.len()
        invariant
            i <= v.len(),
            r@ =~= v@.take(i as int),
        decreases v.len() - i,
    {
        r.push(v[i].clone());
        i += 1;
    }
    r
}

/// How callers may select a voice.
#[derive(Debug, Clone, Copy, PartialEq, Eq, Structural)]
pub enum VoiceMode {
    Request,
    Restart,
    Fixed,
}

impl Default for VoiceMode {
    fn default() -> (r: Self)
        ensures
            r == VoiceMode::Fixed,
    {
        VoiceMode::Fixed
    }
}

#[derive(Debug)]
pub struct BackendDefinition {
    pub id: String,
    pub stage: BackendStage,
    pub name: String,
    pub tag: String,
    pub description: String,
    pub protocol: String,
    pub model: String,
    pub default_voice: String,
    pub voices: Vec<String>,
    pub voice_mode: VoiceMode,
    pub native_sample_rate: u32,
    pub languages: Vec<String>,
    pub licenses: Vec<String>,
    pub access_url: String,
    pub resources: ResourceEstimate,
    pub bundled: bool,
    pub artifacts: Vec<ModelArtifact>,
    pub variants: Vec<BackendVariant>,
}

#[derive(Debug)]
pub struct StackPreset {
    pub id: String,
    pub name: String,
    pub asr_id: String,
    pub tts_id: String,
    pub llm_id: String,
    pub languages: Vec<String>,
    pub max_vram_gb: Option<u32>,
    pub latency_hint: Option<String>,
    pub quality_hint: Option<String>,
}

pub fn default_preset_llm() -> (r: String)
    ensures
        r@ == "local-fallback"@,
{
    String::from_str("local-fallback")
}

#[derive(Debug)]
pub struct BackendCatalog {
    pub schema_version: u32,
    pub backends: Vec<BackendDefinition>,
    pub presets: Vec<StackPreset>,
}

// ---------------------------------------------------------------------------
// Fault search
// ---------------------------------------------------------------------------

/// The first fault that a numbered series of checks finds.
pub open spec fn first_of(n: int, check: spec_fn(int) -> Option<Seq<char>>) -> Option<Seq<char>>
    decreases n,
{
    if n <= 0 {
        None
    } else {
        match first_of(n - 1, check) {
            Some(m) => Some(m),
            None => check(n - 1),
        }
    }
}

/// A fault once found stays the first one.
pub proof fn lemma_first_of_stays(n: int, m: int, check: spec_fn(int) -> Option<Seq<char>>)
    requires
        0 <= m <= n,
        first_of(m, check) is Some,
    ensures
        first_of(n, check) == first_of(m, check),
    decreases n,
{
    if m < n {
        lemma_first_of_stays(n - 1, m, check);
    }
}

/// No fault is found exactly if each check passes.
pub proof fn lemma_first_of_none(n: int, check: spec_fn(int) -> Option<Seq<char>>)
    ensures
        first_of(n, check) is None <==> forall|i: int| 0 <= i < n ==> #[trigger] check(i) is None,
    decreases n,
{
    if n > 0 {
        lemma_first_of_none(n - 1, check);
        if first_of(n, check) is None {
            assert forall|i: int| 0 <= i < n implies #[trigger] check(i) is None by {
                if i == n - 1 {
                } else {
                    assert(0 <= i < n - 1);
                }
            }
        } else {
            if first_of(n - 1, check) is None {
                assert(check(n - 1) is Some);
            }
        }
    }
}

/// What a check reports, against the fault that it should find.
pub open spec fn reports(r: Result<(), String>, fault: Option<Seq<char>>) -> bool {
    match r {
        Ok(_) => fault is None,
        Err(m) => fault == Some(m@),
    }
}

pub fn wrap(a: &str, x: &str, b: &str) -> (r: String)
    ensures
        r@ == a@ + x@ + b@,
{
    let mut r: String = String::from_str(a);
    r.append(x);
    r.append(b);
    r
}

pub fn wrap2(a: &str, x: &str, b: &str, y: &str, c: &str) -> (r: String)
    ensures
        r@ == a@ + x@ + b@ + y@ + c@,
{
    let mut r: String = wrap(a, x, b);
    r.append(y);
    r.append(c);
    r
}

pub open spec fn is_id_char(c: char) -> bool {
    ||| 'a' as int <= c as int <= 'z' as int
    ||| text::is_digit(c)
    ||| c == '-'
    ||| c == '.'
}

fn char_is_id(c: char) -> (r: bool)
    ensures
        r == is_id_char(c),
{
    ('a' as u32 <= c as u32 && c as u32 <= 'z' as u32) || text::char_is_digit(c) || c == '-' || c
        == '.'
}

/// Whether a text is a catalog identifier: `[a-z0-9.-]+`.
pub open spec fn is_id(id: Seq<char>) -> bool {
    id.len() > 0 && forall|i: int| 0 <= i < id.len() ==> is_id_char(#[trigger] id[i])
}

pub open spec fn id_fault(id: Seq<char>, kind: Seq<char>) -> Option<Seq<char>> {
    if is_id(id) {
        None
    } else {
        Some(kind + " id '"@ + id + "' must match [a-z0-9.-]+"@)
    }
}

pub fn validate_id(id: &str, kind: &str) -> (r: Result<(), String>)
    ensures
        reports(r, id_fault(id@, kind@)),
{
    let v: Vec<char> = text::chars_of(id);
    let mut ok: bool = v.len() > 0;
    let mut i: usize = 0;
    while i < v.len()
        invariant
            v@ == id@,
            i <= v.len(),
            ok == (v.len() > 0 && forall|j: int| 0 <= j < i ==> is_id_char(#[trigger] id@[j])),
        decreases v.len() - i,
    {
        if !char_is_id(v[i]) {
            assert(!is_id_char(id@[i as int]));
            ok = false;
        }
        i += 1;
    }
    if ok {
        return Ok(());
    }
    let mut m: String = String::from_str(kind);
    m.append(" id '");
    m.append(id);
    m.append("' must match [a-z0-9.-]+");
    Err(m)
}

pub open spec fn last_char(s: Seq<char>, c: char) -> int
    decreases s.len(),
{
    if s.len() == 0 {
        -1
    } else if s.last() == c {
        s.len() - 1
    } else {
        last_char(s.drop_last(), c)
    }
}

proof fn lemma_last_char(s: Seq<char>, c: char)
    ensures
        -1 <= last_char(s, c) < s.len(),
    decreases s.len(),
{
    if s.len() > 0 && s.last() != c {
        lemma_last_char(s.drop_last(), c);
    }
}

/// Whether a variant id names a variant of a backend: it starts with the
/// backend's id, or with that id up to a version suffix such as `-0.6b`.
pub open spec fn belongs(backend_id: Seq<char>, variant_id: Seq<char>) -> bool {
    let cut = last_char(backend_id, '-');
    ||| text::starts_with(variant_id, backend_id)
    ||| {
        &&& cut >= 0
        &&& cut + 1 < backend_id.len()
        &&& text::is_digit(backend_id[cut + 1])
        &&& backend_id.skip(cut + 1).contains('.')
        &&& text::starts_with(variant_id, backend_id.take(cut + 1))
    }
}

pub fn variant_belongs_to_backend(backend_id: &str, variant_id: &str) -> (r: bool)
    ensures
        r == belongs(backend_id@, variant_id@),
{
    if text::begins_with(variant_id, backend_id) {
        return true;
    }
    let v: Vec<char> = text::chars_of(backend_id);
    let mut i: usize = v.len();
    assert(v@.take(i as int) =~= v@);
    proof {
        lemma_last_char(v@, '-');
    }
    while i > 0 && v[i - 1] != '-'
        invariant
            i <= v.len(),
            last_char(v@.take(i as int), '-') == last_char(v@, '-'),
        decreases i,
    {
        assert(v@.take(i as int).drop_last() =~= v@.take(i - 1));
        i -= 1;
    }
    if i == 0 {
        return false;
    }
    assert(last_char(v@, '-') == i - 1);
    if i >= v.len() || !text::char_is_digit(v[i]) {
        return false;
    }
    let family: String = text::piece(v.as_slice(), 0, i);
    let suffix: String = text::piece(v.as_slice(), i, v.len());
    assert(v@.subrange(0, i as int) =~= v@.take(i as int));
    assert(v@.subrange(i as int, v.len() as int) =~= v@.skip(i as int));
    text::contains_char(suffix.as_str(), '.') && text::begins_with(variant_id, family.as_str())
}

/// Whether a relative path stays below its root: no leading slash, no
/// backslash, no NUL and no `..` step. The path is read as on Unix, whatever the
/// system: the letter of a drive is part of a name.
pub open spec fn is_safe_path(path: Seq<char>) -> bool {
    &&& !(path.len() > 0 && path[0] == '/')
    &&& !path.contains('\\')
    &&& !path.contains('\0')
    &&& !text::split(path, '/').contains(".."@)
}

pub open spec fn path_fault(path: Seq<char>) -> Option<Seq<char>> {
    if is_safe_path(path) {
        None
    } else {
        Some("unsafe artifact path '"@ + path + "'"@)
    }
}

pub fn validate_artifact_path(path: &str) -> (r: Result<(), String>)
    ensures
        reports(r, path_fault(path@)),
{
    let v: Vec<char> = text::chars_of(path);
    let parts: Vec<String> = text::split_at_char(path, '/');
    let dots: bool = text::listed(&parts, "..");
    proof {
        let s = text::views(parts@);
        if text::lists(parts@, ".."@) {
            let i = choose|i: int| 0 <= i < parts@.len() && (#[trigger] parts@[i])@ == ".."@;
            assert(s[i] == ".."@);
        }
        if s.contains(".."@) {
            let i = choose|i: int| 0 <= i < s.len() && s[i] == ".."@;
            assert(parts@[i]@ == ".."@);
        }
    }
    if (v.len() > 0 && v[0] == '/') || text::contains_char(path, '\\') || text::contains_char(
        path,
        '\0',
    ) || dots {
        return Err(wrap("unsafe artifact path '", path, "'"));
    }
    Ok(())
}

pub open spec fn is_hex(s: Seq<char>) -> bool {
    forall|i: int| 0 <= i < s.len() ==> text::is_hex_digit(#[trigger] s[i])
}

fn all_hex(s: &str) -> (r: bool)
    ensures
        r == is_hex(s@),
{
    let v: Vec<char> = text::chars_of(s);
    let mut i: usize = 0;
    while i < v.len()
        invariant
            v@ == s@,
            i <= v.len(),
            forall|j: int| 0 <= j < i ==> text::is_hex_digit(#[trigger] s@[j]),
        decreases v.len() - i,
    {
        if !text::char_is_hex_digit(v[i]) {
            assert(!text::is_hex_digit(s@[i as int]));
            return false;
        }
        i += 1;
    }
    true
}

/// The fault of one artifact of an owner.
pub open spec fn artifact_fault(owner: Seq<char>, a: ModelArtifact) -> Option<Seq<char>> {
    let who = "'"@ + owner;
    if !is_safe_path(a.path@) {
        path_fault(a.path@)
    } else if a.sha256@.len() > 0 && (a.sha256@.len() != 64 || !is_hex(a.sha256@)) {
        Some(who + "' artifact '"@ + a.path@ + "' has an invalid SHA-256"@)
    } else if !text::starts_with(a.source@, "https://"@) && !text::starts_with(
        a.source@,
        "http://"@,
    ) {
        Some(who + "' artifact source must be http(s)"@)
    } else if a.auth@.len() > 0 && a.auth@ != "huggingface"@ {
        Some(
            who + "' artifact '"@ + a.path@ + "' has unknown auth scheme '"@ + a.auth@ + "'"@,
        )
    } else if a.auth@ == "huggingface"@ && !text::starts_with(
        a.source@,
        "https://huggingface.co/"@,
    ) {
        Some(
            who + "' authenticated artifact '"@ + a.path@
                + "' must use huggingface.co over HTTPS"@,
        )
    } else if a.auth@ == "huggingface"@ && (a.sha256@.len() != 64 || a.size == 0) {
        Some(who + "' authenticated artifact '"@ + a.path@ + "' must pin size and SHA-256"@)
    } else {
        None
    }
}

pub open spec fn artifacts_fault(owner: Seq<char>, artifacts: Seq<ModelArtifact>) -> Option<
    Seq<char>,
> {
    first_of(artifacts.len() as int, |i: int| artifact_fault(owner, artifacts[i]))
}

fn validate_artifact(owner: &str, a: &ModelArtifact) -> (r: Result<(), String>)
    ensures
        reports(r, artifact_fault(owner@, *a)),
{
    match validate_artifact_path(a.path.as_str()) {
        Err(m) => {
            return Err(m);
        },
        Ok(_) => {},
    }
    let digits: usize = a.sha256.as_str().unicode_len();
    if digits > 0 && (digits != 64 || !all_hex(a.sha256.as_str())) {
        return Err(
            wrap2("'", owner, "' artifact '", a.path.as_str(), "' has an invalid SHA-256"),
        );
    }
    if !text::begins_with(a.source.as_str(), "https://") && !text::begins_with(
        a.source.as_str(),
        "http://",
    ) {
        return Err(wrap("'", owner, "' artifact source must be http(s)"));
    }
    let gated: bool = text::same(a.auth.as_str(), "huggingface");
    if a.auth.as_str().unicode_len() > 0 && !gated {
        let mut m: String = wrap2(
            "'",
            owner,
            "' artifact '",
            a.path.as_str(),
            "' has unknown auth scheme '",
        );
        m.append(a.auth.as_str());
        m.append("'");
        return Err(m);
    }
    if gated {
        if !text::begins_with(a.source.as_str(), "https://huggingface.co/") {
            return Err(
                wrap2(
                    "'",
                    owner,
                    "' authenticated artifact '",
                    a.path.as_str(),
                    "' must use huggingface.co over HTTPS",
                ),
            );
        }
        if digits != 64 || a.size == 0 {
            return Err(
                wrap2(
                    "'",
                    owner,
                    "' authenticated artifact '",
                    a.path.as_str(),
                    "' must pin size and SHA-256",
                ),
            );
        }
    }
    Ok(())
}

pub fn validate_artifacts(owner: &str, artifacts: &Vec<ModelArtifact>) -> (r: Result<(), String>)
    ensures
        reports(r, artifacts_fault(owner@, artifacts@)),
{
    let ghost check = |i: int| artifact_fault(owner@, artifacts@[i]);
    let mut i: usize = 0;
    while i < artifacts.len()
        invariant
            check == (|i: int| artifact_fault(owner@, artifacts@[i])),
            i <= artifacts.len(),
            first_of(i as int, check) is None,
        decreases artifacts.len() - i,
    {
        match validate_artifact(owner, &artifacts[i]) {
            Err(m) => {
                proof {
                    lemma_first_of_stays(artifacts.len() as int, i + 1, check);
                }
                return Err(m);
            },
            Ok(_) => {},
        }
        i += 1;
    }
    Ok(())
}

pub open spec fn is_container_char(c: char) -> bool {
    text::is_ascii_alphanumeric(c) || c == '-' || c == '_' || c == '.'
}

pub open spec fn is_image_char(c: char) -> bool {
    text::is_ascii_alphanumeric(c) || c == '/' || c == ':' || c == '.' || c == '-' || c == '_' || c
        == '@' || c == '+'
}

pub open spec fn is_safe_container(name: Seq<char>) -> bool {
    name.len() <= 128 && forall|i: int| 0 <= i < name.len() ==> is_container_char(#[trigger] name[i])
}

pub open spec fn is_safe_image(image: Seq<char>) -> bool {
    image.len() <= 256 && forall|i: int| 0 <= i < image.len() ==> is_image_char(#[trigger] image[i])
}

pub open spec fn container_fault(name: Seq<char>) -> Option<Seq<char>> {
    if is_safe_container(name) {
        None
    } else {
        Some("unsafe container name '"@ + name + "'"@)
    }
}

pub fn validate_container_name(name: &str) -> (r: Result<(), String>)
    ensures
        reports(r, container_fault(name@)),
{
    let v: Vec<char> = text::chars_of(name);
    let mut ok: bool = v.len() <= 128;
    let mut i: usize = 0;
    while i < v.len()
        invariant
            v@ == name@,
            i <= v.len(),
            ok == (v.len() <= 128 && forall|j: int|
                0 <= j < i ==> is_container_char(#[trigger] name@[j])),
        decreases v.len() - i,
    {
        let c: char = v[i];
        if !(text::char_is_ascii_letter(c) || text::char_is_digit(c) || c == '-' || c == '_' || c
            == '.') {
            assert(!is_container_char(name@[i as int]));
            ok = false;
        }
        i += 1;
    }
    if ok {
        Ok(())
    } else {
        Err(wrap("unsafe container name '", name, "'"))
    }
}

pub fn is_safe_image_ref(image: &str) -> (r: bool)
    ensures
        r == is_safe_image(image@),
{
    let v: Vec<char> = text::chars_of(image);
    if v.len() > 256 {
        return false;
    }
    let mut i: usize = 0;
    while i < v.len()
        invariant
            v@ == image@,
            i <= v.len(),
            forall|j: int| 0 <= j < i ==> is_image_char(#[trigger] image@[j]),
        decreases v.len() - i,
    {
        let c: char = v[i];
        if !(text::char_is_ascii_letter(c) || text::char_is_digit(c) || c == '/' || c == ':' || c
            == '.' || c == '-' || c == '_' || c == '@' || c == '+') {
            assert(!is_image_char(image@[i as int]));
            return false;
        }
        i += 1;
    }
    true
}

pub open spec fn is_http_url(url: Seq<char>) -> bool {
    &&& text::starts_with(url, "http://"@) || text::starts_with(url, "https://"@)
    &&& !text::has_space(url)
}

pub open spec fn url_fault(url: Seq<char>) -> Option<Seq<char>> {
    if is_http_url(url) {
        None
    } else {
        Some("invalid http endpoint '"@ + url + "'"@)
    }
}

pub fn validate_http_url(url: &str) -> (r: Result<(), String>)
    ensures
        reports(r, url_fault(url@)),
{
    if !(text::begins_with(url, "http://") || text::begins_with(url, "https://"))
        || text::contains_space(url) {
        return Err(wrap("invalid http endpoint '", url, "'"));
    }
    Ok(())
}

pub open spec fn known_accelerator(value: Seq<char>) -> bool {
    value == "vulkan"@ || value == "cuda"@ || value == "sycl"@ || value == "cpu"@ || value
        == "remote"@
}

pub fn is_known_accelerator(value: &str) -> (r: bool)
    ensures
        r == known_accelerator(value@),
{
    text::same(value, "vulkan") || text::same(value, "cuda") || text::same(value, "sycl")
        || text::same(value, "cpu") || text::same(value, "remote")
}

pub open spec fn known_host_profile(value: Seq<char>) -> bool {
    ||| value == "crispasr-whisper"@
    ||| value == "crispasr-parakeet"@
    ||| value == "crispasr-voxtral"@
    ||| value == "crispasr-qwen3-asr"@
    ||| value == "crispasr-canary"@
    ||| value == "crispasr-funasr-mlt"@
    ||| value == "crispasr-kokoro"@
    ||| value == "crispasr-vibevoice"@
    ||| value == "crispasr-chatterbox"@
    ||| value == "crispasr-piper"@
    ||| value == "crispasr-cosyvoice3"@
    ||| value == "crispasr-omnivoice"@
    ||| value == "chatterbox-python"@
    ||| value == "inflect-python"@
    ||| value == "audio8-python"@
    ||| value == "llama-granite"@
    ||| value == "qwen-sycl"@
    ||| value == "supertonic-webgpu"@
    ||| value == "xtts-webgpu"@
    ||| value == "xtts-cpu"@
}

pub fn is_known_host_profile(value: &str) -> (r: bool)
    ensures
        r == known_host_profile(value@),
{
    text::same(value, "crispasr-whisper") || text::same(value, "crispasr-parakeet") || text::same(
        value,
        "crispasr-voxtral",
    ) || text::same(value, "crispasr-qwen3-asr") || text::same(value, "crispasr-canary")
        || text::same(value, "crispasr-funasr-mlt") || text::same(value, "crispasr-kokoro")
        || text::same(value, "crispasr-vibevoice") || text::same(value, "crispasr-chatterbox")
        || text::same(value, "crispasr-piper") || text::same(value, "crispasr-cosyvoice3")
        || text::same(value, "crispasr-omnivoice") || text::same(value, "chatterbox-python")
        || text::same(value, "inflect-python") || text::same(value, "audio8-python") || text::same(
        value,
        "llama-granite",
    ) || text::same(value, "qwen-sycl") || text::same(value, "supertonic-webgpu") || text::same(
        value,
        "xtts-webgpu",
    ) || text::same(value, "xtts-cpu")
}

pub open spec fn known_protocol(value: Seq<char>) -> bool {
    value == "faster-whisper"@ || value == "whisper-cpp"@ || value == "parakeet"@ || value
        == "voxtral"@ || value == "openai-tts"@ || value == "openai-tts-pcm"@ || value
        == "openai-chat"@
}

pub fn is_known_protocol(value: &str) -> (r: bool)
    ensures
        r == known_protocol(value@),
{
    text::same(value, "faster-whisper") || text::same(value, "whisper-cpp") || text::same(
        value,
        "parakeet",
    ) || text::same(value, "voxtral") || text::same(value, "openai-tts") || text::same(
        value,
        "openai-tts-pcm",
    ) || text::same(value, "openai-chat")
}

// ---------------------------------------------------------------------------
// Catalog validation
// ---------------------------------------------------------------------------

pub open spec fn has_control(s: Seq<char>) -> bool {
    exists|i: int| 0 <= i < s.len() && text::is_control(#[trigger] s[i])
}

fn contains_control(s: &str) -> (r: bool)
    ensures
        r == has_control(s@),
{
    let v: Vec<char> = text::chars_of(s);
    let mut i: usize = 0;
    while i < v.len()
        invariant
            v@ == s@,
            i <= v.len(),
            forall|j: int| 0 <= j < i ==> !text::is_control(#[trigger] s@[j]),
        decreases v.len() - i,
    {
        if text::char_is_control(v[i]) {
            assert(text::is_control(s@[i as int]));
            return true;
        }
        i += 1;
    }
    false
}

/// The form in which voice names are told apart.
pub open spec fn voice_key(voice: Seq<char>) -> Seq<char> {
    text::lower(text::trim(voice))
}

/// Whether a listed voice is blank, holds a control character or repeats an
/// earlier one.
pub open spec fn voice_is_bad(voices: Seq<String>, j: int) -> bool {
    let t = text::trim(voices[j]@);
    ||| t.len() == 0
    ||| has_control(t)
    ||| exists|k: int| 0 <= k < j && voice_key((#[trigger] voices[k])@) == voice_key(voices[j]@)
}

fn bad_voice(voices: &Vec<String>, j: usize) -> (r: bool)
    requires
        j < voices.len(),
    ensures
        r == voice_is_bad(voices@, j as int),
{
    let t: String = text::trimmed(voices[j].as_str());
    if t.as_str().is_empty() || contains_control(t.as_str()) {
        return true;
    }
    let key: String = text::to_lower(t.as_str());
    let mut k: usize = 0;
    while k < j
        invariant
            k <= j < voices.len(),
            key@ == voice_key(voices@[j as int]@),
            forall|i: int|
                0 <= i < k ==> voice_key((#[trigger] voices@[i])@) != voice_key(
                    voices@[j as int]@,
                ),
        decreases j - k,
    {
        let other: String = text::to_lower(text::trimmed(voices[k].as_str()).as_str());
        if other == key {
            assert(voice_key(voices@[k as int]@) == voice_key(voices@[j as int]@));
            return true;
        }
        k += 1;
    }
    false
}

/// Whether a list holds a voice, ASCII case aside.
pub open spec fn lists_voice(voices: Seq<String>, voice: Seq<char>) -> bool {
    exists|i: int| 0 <= i < voices.len() && text::alike((#[trigger] voices[i])@, voice)
}

pub fn voice_listed(voices: &Vec<String>, voice: &str) -> (r: bool)
    ensures
        r == lists_voice(voices@, voice@),
{
    let mut i: usize = 0;
    while i < voices.len()
        invariant
            i <= voices.len(),
            forall|j: int| 0 <= j < i ==> !text::alike((#[trigger] voices@[j])@, voice@),
        decreases voices.len() - i,
    {
        if text::same_ignoring_case(voices[i].as_str(), voice) {
            return true;
        }
        i += 1;
    }
    false
}

pub open spec fn switches_voices(mode: VoiceMode) -> bool {
    mode == VoiceMode::Request || mode == VoiceMode::Restart
}

pub open spec fn voices_fault(b: BackendDefinition) -> Option<Seq<char>> {
    let who = "TTS backend '"@ + b.id@;
    if text::trim(b.default_voice@).len() == 0 {
        Some(who + "' has no default_voice"@)
    } else if exists|j: int| 0 <= j < b.voices@.len() && #[trigger] voice_is_bad(b.voices@, j) {
        Some(who + "' has an invalid or duplicate voice"@)
    } else if b.voices@.len() > 0 && !lists_voice(b.voices@, text::trim(b.default_voice@)) {
        Some(
            who + "' default_voice '"@ + b.default_voice@ + "' is not listed in voices"@,
        )
    } else if switches_voices(b.voice_mode) && b.voices@.len() == 0 {
        Some(who + "' voice_mode requires at least one catalog voice"@)
    } else {
        None
    }
}

fn validate_voices(b: &BackendDefinition) -> (r: Result<(), String>)
    ensures
        reports(r, voices_fault(*b)),
{
    let default_voice: String = text::trimmed(b.default_voice.as_str());
    if default_voice.as_str().is_empty() {
        return Err(wrap("TTS backend '", b.id.as_str(), "' has no default_voice"));
    }
    let mut j: usize = 0;
    while j < b.voices.len()
        invariant
            j <= b.voices.len(),
            default_voice@ == text::trim(b.default_voice@),
            default_voice@.len() > 0,
            forall|i: int| 0 <= i < j ==> !#[trigger] voice_is_bad(b.voices@, i),
        decreases b.voices.len() - j,
    {
        if bad_voice(&b.voices, j) {
            return Err(
                wrap("TTS backend '", b.id.as_str(), "' has an invalid or duplicate voice"),
            );
        }
        j += 1;
    }
    if b.voices.len() > 0 && !voice_listed(&b.voices, default_voice.as_str()) {
        return Err(
            wrap2(
                "TTS backend '",
                b.id.as_str(),
                "' default_voice '",
                b.default_voice.as_str(),
                "' is not listed in voices",
            ),
        );
    }
    if (b.voice_mode == VoiceMode::Request || b.voice_mode == VoiceMode::Restart)
        && b.voices.len() == 0 {
        return Err(
            wrap(
                "TTS backend '",
                b.id.as_str(),
                "' voice_mode requires at least one catalog voice",
            ),
        );
    }
    Ok(())
}

/// Whether some artifact needs authentication with Hugging Face.
pub open spec fn any_gated(artifacts: Seq<ModelArtifact>) -> bool {
    exists|i: int| 0 <= i < artifacts.len() && (#[trigger] artifacts[i]).auth@ == "huggingface"@
}

pub fn some_gated(artifacts: &[ModelArtifact]) -> (r: bool)
    ensures
        r == any_gated(artifacts@),
{
    let mut i: usize = 0;
    while i < artifacts.len()
        invariant
            i <= artifacts.len(),
            forall|j: int|
                0 <= j < i ==> (#[trigger] artifacts@[j]).auth@ != "huggingface"@,
        decreases artifacts.len() - i,
    {
        if text::same(artifacts[i].auth.as_str(), "huggingface") {
            return true;
        }
        i += 1;
    }
    false
}

/// Whether a backend offers some model: in the image, or for download.
pub open spec fn offers_model(b: BackendDefinition) -> bool {
    ||| b.bundled
    ||| b.artifacts@.len() > 0
    ||| exists|i: int|
        0 <= i < b.variants@.len() && ((#[trigger] b.variants@[i]).bundled == Some(true)
            || b.variants@[i].artifacts@.len() > 0)
}

fn has_model(b: &BackendDefinition) -> (r: bool)
    ensures
        r == offers_model(*b),
{
    if b.bundled || b.artifacts.len() > 0 {
        return true;
    }
    let mut i: usize = 0;
    while i < b.variants.len()
        invariant
            i <= b.variants.len(),
            forall|j: int|
                0 <= j < i ==> !((#[trigger] b.variants@[j]).bundled == Some(true)
                    || b.variants@[j].artifacts@.len() > 0),
        decreases b.variants.len() - i,
    {
        let baked: bool = match b.variants[i].bundled {
            Some(x) => x,
            None => false,
        };
        if baked || b.variants[i].artifacts.len() > 0 {
            return true;
        }
        i += 1;
    }
    false
}

/// Whether an artifact of a backend or of one of its variants needs
/// authentication.
pub open spec fn is_gated(b: BackendDefinition) -> bool {
    ||| any_gated(b.artifacts@)
    ||| exists|i: int|
        0 <= i < b.variants@.len() && any_gated((#[trigger] b.variants@[i]).artifacts@)
}

fn has_gated(b: &BackendDefinition) -> (r: bool)
    ensures
        r == is_gated(*b),
{
    if some_gated(b.artifacts.as_slice()) {
        return true;
    }
    let mut i: usize = 0;
    while i < b.variants.len()
        invariant
            i <= b.variants.len(),
            forall|j: int| 0 <= j < i ==> !any_gated((#[trigger] b.variants@[j]).artifacts@),
        decreases b.variants.len() - i,
    {
        if some_gated(b.variants[i].artifacts.as_slice()) {
            return true;
        }
        i += 1;
    }
    false
}

/// Whether one of the first `n` variants of a backend has the id.
pub open spec fn has_variant(b: BackendDefinition, n: int, id: Seq<char>) -> bool {
    exists|j: int| 0 <= j < n && (#[trigger] b.variants@[j]).id@ == id
}

fn variant_among(b: &BackendDefinition, n: usize, id: &str) -> (r: bool)
    requires
        n <= b.variants.len(),
    ensures
        r == has_variant(*b, n as int, id@),
{
    let mut j: usize = 0;
    while j < n
        invariant
            j <= n <= b.variants.len(),
            forall|i: int| 0 <= i < j ==> (#[trigger] b.variants@[i]).id@ != id@,
        decreases n - j,
    {
        if text::same(b.variants[j].id.as_str(), id) {
            return true;
        }
        j += 1;
    }
    false
}

/// Whether a variant before the `k`th one of the `i`th backend has the id.
pub open spec fn variant_id_taken(
    bs: Seq<BackendDefinition>,
    i: int,
    k: int,
    id: Seq<char>,
) -> bool {
    ||| has_variant(bs[i], k, id)
    ||| exists|a: int|
        0 <= a < i && has_variant(#[trigger] bs[a], bs[a].variants@.len() as int, id)
}

/// The model files of a variant.
pub open spec fn artifacts_of(b: BackendDefinition, v: BackendVariant) -> Seq<ModelArtifact> {
    if v.artifacts@.len() == 0 {
        b.artifacts@
    } else {
        v.artifacts@
    }
}

/// Whether the image of a variant holds its model.
pub open spec fn bundled_of(b: BackendDefinition, v: BackendVariant) -> bool {
    match v.bundled {
        Some(x) => x,
        None => b.bundled,
    }
}

pub open spec fn protocol_of(b: BackendDefinition, v: BackendVariant) -> Seq<char> {
    if v.protocol@.len() == 0 {
        b.protocol@
    } else {
        v.protocol@
    }
}

pub fn variant_artifacts<'a>(
    backend: &'a BackendDefinition,
    variant: &'a BackendVariant,
) -> (r: &'a [ModelArtifact])
    ensures
        r@ == artifacts_of(*backend, *variant),
{
    if variant.artifacts.is_empty() {
        backend.artifacts.as_slice()
    } else {
        variant.artifacts.as_slice()
    }
}

pub fn variant_bundled(backend: &BackendDefinition, variant: &BackendVariant) -> (r: bool)
    ensures
        r == bundled_of(*backend, *variant),
{
    variant.bundled.unwrap_or(backend.bundled)
}

pub fn variant_protocol<'a>(
    backend: &'a BackendDefinition,
    variant: &'a BackendVariant,
) -> (r: &'a str)
    ensures
        r@ == protocol_of(*backend, *variant),
{
    if variant.protocol.as_str().is_empty() {
        backend.protocol.as_str()
    } else {
        variant.protocol.as_str()
    }
}

/// The fault of the `k`th variant of the `i`th backend.
pub open spec fn variant_fault(bs: Seq<BackendDefinition>, i: int, k: int) -> Option<Seq<char>> {
    let b = bs[i];
    let v = b.variants@[k];
    let who = "variant '"@ + v.id@;
    if !is_id(v.id@) {
        id_fault(v.id@, "variant"@)
    } else if !belongs(b.id@, v.id@) {
        Some(who + "' does not belong to backend '"@ + b.id@ + "'"@)
    } else if variant_id_taken(bs, i, k, v.id@) {
        Some("duplicate variant id '"@ + v.id@ + "'"@)
    } else if !known_accelerator(v.accelerator@) {
        Some(who + "' has unknown accelerator '"@ + v.accelerator@ + "'"@)
    } else if v.container@.len() > 0 && !is_safe_container(v.container@) {
        container_fault(v.container@)
    } else if v.image@.len() > 0 && !is_safe_image(v.image@) {
        Some(who + "' has unsafe image reference"@)
    } else if v.endpoint@.len() > 0 && !is_http_url(v.endpoint@) {
        url_fault(v.endpoint@)
    } else if v.native_endpoint@.len() > 0 && !is_http_url(v.native_endpoint@) {
        url_fault(v.native_endpoint@)
    } else if artifacts_fault(v.id@, v.artifacts@) is Some {
        artifacts_fault(v.id@, v.artifacts@)
    } else if v.host_profile@.len() > 0 && !known_host_profile(v.host_profile@) {
        Some(who + "' has unknown host profile '"@ + v.host_profile@ + "'"@)
    } else if v.host_profile@.len() > 0 && v.container@.len() > 0 {
        Some(who + "' cannot declare both host_profile and container"@)
    } else if v.protocol@.len() > 0 && !known_protocol(v.protocol@) {
        Some(who + "' has unknown protocol '"@ + v.protocol@ + "'"@)
    } else if !bundled_of(b, v) && artifacts_of(b, v).len() == 0 {
        Some(who + "' is not bundled and has no downloadable artifacts"@)
    } else {
        None
    }
}

/// The fault of the `i`th backend.
pub open spec fn backend_fault(bs: Seq<BackendDefinition>, i: int) -> Option<Seq<char>> {
    let b = bs[i];
    let who = "backend '"@ + b.id@;
    if !is_id(b.id@) {
        id_fault(b.id@, "backend"@)
    } else if has_backend(bs, i, b.id@) {
        Some("duplicate backend id '"@ + b.id@ + "'"@)
    } else if b.variants@.len() == 0 {
        Some(who + "' has no variants"@)
    } else if b.stage == BackendStage::Tts && voices_fault(b) is Some {
        voices_fault(b)
    } else if b.access_url@.len() > 0 && !is_http_url(b.access_url@) {
        url_fault(b.access_url@)
    } else if !offers_model(b) {
        Some(who + "' is neither bundled nor backed by downloadable artifacts"@)
    } else if artifacts_fault(b.id@, b.artifacts@) is Some {
        artifacts_fault(b.id@, b.artifacts@)
    } else if b.access_url@.len() == 0 && is_gated(b) {
        Some(who + "' has authenticated artifacts but no access_url"@)
    } else {
        first_of(b.variants@.len() as int, |k: int| variant_fault(bs, i, k))
    }
}

/// Whether one of the first `n` backends has the id.
pub open spec fn has_backend(bs: Seq<BackendDefinition>, n: int, id: Seq<char>) -> bool {
    exists|j: int| 0 <= j < n && (#[trigger] bs[j]).id@ == id
}

pub open spec fn preset_fault(c: BackendCatalog, i: int) -> Option<Seq<char>> {
    let p = c.presets@[i];
    let n = c.backends@.len() as int;
    if !is_id(p.id@) {
        id_fault(p.id@, "preset"@)
    } else if !has_backend(c.backends@, n, p.asr_id@) || !has_backend(c.backends@, n, p.tts_id@)
        || !has_backend(c.backends@, n, p.llm_id@) {
        Some("preset '"@ + p.id@ + "' references an unknown backend"@)
    } else {
        None
    }
}

/// The first fault of a catalog.
pub open spec fn catalog_fault(c: BackendCatalog) -> Option<Seq<char>> {
    let backends = first_of(c.backends@.len() as int, |i: int| backend_fault(c.backends@, i));
    if c.schema_version != 1 && c.schema_version != 2 {
        Some(
            "unsupported backend catalog schema_version="@ + text::decimal(c.schema_version as nat)
                + " (expected 1 or 2)"@,
        )
    } else if backends is Some {
        backends
    } else {
        first_of(c.presets@.len() as int, |i: int| preset_fault(c, i))
    }
}

/// The index of the first backend with an id.
pub open spec fn backend_index(bs: Seq<BackendDefinition>, id: Seq<char>) -> Option<int>
    decreases bs.len(),
{
    if bs.len() == 0 {
        None
    } else {
        match backend_index(bs.drop_last(), id) {
            Some(i) => Some(i),
            None => if bs.last().id@ == id {
                Some(bs.len() - 1)
            } else {
                None
            },
        }
    }
}

/// The lookup by id finds a backend exactly if one has the id, and then the
/// first such.
pub proof fn law_lookup_finds_the_first(bs: Seq<BackendDefinition>, id: Seq<char>)
    ensures
        backend_index(bs, id) is Some <==> has_backend(bs, bs.len() as int, id),
        backend_index(bs, id) matches Some(i) ==> {
            &&& 0 <= i < bs.len()
            &&& bs[i].id@ == id
            &&& forall|j: int| 0 <= j < i ==> (#[trigger] bs[j]).id@ != id
        },
    decreases bs.len(),
{
    if bs.len() > 0 {
        let t = bs.drop_last();
        law_lookup_finds_the_first(t, id);
        if backend_index(t, id) is Some {
            let i = backend_index(t, id).unwrap();
            assert(bs[i] == t[i]);
            assert forall|j: int| 0 <= j < i implies (#[trigger] bs[j]).id@ != id by {
                assert(bs[j] == t[j]);
            }
        } else {
            assert forall|j: int| 0 <= j < bs.len() - 1 implies (#[trigger] bs[j]).id@ != id by {
                assert(bs[j] == t[j]);
            }
        }
    }
}

impl BackendCatalog {
    /// The first backend with the given id.
    pub fn find(&self, id: &str) -> (r: Option<&BackendDefinition>)
        ensures
            match r {
                Some(b) => backend_index(self.backends@, id@) matches Some(i) && *b
                    == self.backends@[i],
                None => backend_index(self.backends@, id@) is None,
            },
    {
        match self.position(id) {
            Some(i) => {
                proof {
                    law_lookup_finds_the_first(self.backends@, id@);
                }
                Some(&self.backends[i])
            },
            None => None,
        }
    }

    /// The index of the first backend with the given id.
    pub fn position(&self, id: &str) -> (r: Option<usize>)
        ensures
            match r {
                Some(i) => backend_index(self.backends@, id@) == Some(i as int) && i
                    < self.backends.len(),
                None => backend_index(self.backends@, id@) is None,
            },
    {
        let mut i: usize = 0;
        while i < self.backends.len()
            invariant
                i <= self.backends.len(),
                forall|j: int| 0 <= j < i ==> (#[trigger] self.backends@[j]).id@ != id@,
            decreases self.backends.len() - i,
        {
            if text::same(self.backends[i].id.as_str(), id) {
                proof {
                    law_lookup_finds_the_first(self.backends@, id@);
                    let k = backend_index(self.backends@, id@);
                    assert(has_backend(self.backends@, self.backends@.len() as int, id@));
                    if k.unwrap() < i {
                        assert(self.backends@[k.unwrap()].id@ != id@);
                    }
                    if i < k.unwrap() {
                        assert(self.backends@[i as int].id@ != id@);
                    }
                }
                return Some(i);
            }
            i += 1;
        }
        proof {
            law_lookup_finds_the_first(self.backends@, id@);
        }
        None
    }

    fn backend_among(&self, n: usize, id: &str) -> (r: bool)
        requires
            n <= self.backends.len(),
        ensures
            r == has_backend(self.backends@, n as int, id@),
    {
        let mut j: usize = 0;
        while j < n
            invariant
                j <= n <= self.backends.len(),
                forall|i: int| 0 <= i < j ==> (#[trigger] self.backends@[i]).id@ != id@,
            decreases n - j,
        {
            if text::same(self.backends[j].id.as_str(), id) {
                return true;
            }
            j += 1;
        }
        false
    }

    fn variant_id_in_use(&self, i: usize, k: usize, id: &str) -> (r: bool)
        requires
            i < self.backends.len(),
            k <= self.backends[i as int].variants.len(),
        ensures
            r == variant_id_taken(self.backends@, i as int, k as int, id@),
    {
        if variant_among(&self.backends[i], k, id) {
            return true;
        }
        let mut a: usize = 0;
        while a < i
            invariant
                a <= i < self.backends.len(),
                forall|j: int|
                    0 <= j < a ==> !has_variant(
                        #[trigger] self.backends@[j],
                        self.backends@[j].variants@.len() as int,
                        id@,
                    ),
            decreases i - a,
        {
            if variant_among(&self.backends[a], self.backends[a].variants.len(), id) {
                return true;
            }
            a += 1;
        }
        false
    }

    fn validate_variant(&self, i: usize, k: usize) -> (r: Result<(), String>)
        requires
            i < self.backends.len(),
            k < self.backends[i as int].variants.len(),
        ensures
            reports(r, variant_fault(self.backends@, i as int, k as int)),
    {
        let b: &BackendDefinition = &self.backends[i];
        let v: &BackendVariant = &b.variants[k];
        let id: &str = v.id.as_str();
        match validate_id(id, "variant") {
            Err(m) => {
                return Err(m);
            },
            Ok(_) => {},
        }
        if !variant_belongs_to_backend(b.id.as_str(), id) {
            return Err(
                wrap2("variant '", id, "' does not belong to backend '", b.id.as_str(), "'"),
            );
        }
        if self.variant_id_in_use(i, k, id) {
            return Err(wrap("duplicate variant id '", id, "'"));
        }
        if !is_known_accelerator(v.accelerator.as_str()) {
            return Err(
                wrap2("variant '", id, "' has unknown accelerator '", v.accelerator.as_str(), "'"),
            );
        }
        if !v.container.as_str().is_empty() {
            match validate_container_name(v.container.as_str()) {
                Err(m) => {
                    return Err(m);
                },
                Ok(_) => {},
            }
        }
        if !v.image.as_str().is_empty() && !is_safe_image_ref(v.image.as_str()) {
            return Err(wrap("variant '", id, "' has unsafe image reference"));
        }
        if !v.endpoint.as_str().is_empty() {
            match validate_http_url(v.endpoint.as_str()) {
                Err(m) => {
                    return Err(m);
                },
                Ok(_) => {},
            }
        }
        if !v.native_endpoint.as_str().is_empty() {
            match validate_http_url(v.native_endpoint.as_str()) {
                Err(m) => {
                    return Err(m);
                },
                Ok(_) => {},
            }
        }
        match validate_artifacts(id, &v.artifacts) {
            Err(m) => {
                return Err(m);
            },
            Ok(_) => {},
        }
        if !v.host_profile.as_str().is_empty() && !is_known_host_profile(v.host_profile.as_str()) {
            return Err(
                wrap2(
                    "variant '",
                    id,
                    "' has unknown host profile '",
                    v.host_profile.as_str(),
                    "'",
                ),
            );
        }
        if !v.host_profile.as_str().is_empty() && !v.container.as_str().is_empty() {
            return Err(
                wrap("variant '", id, "' cannot declare both host_profile and container"),
            );
        }
        if !v.protocol.as_str().is_empty() && !is_known_protocol(v.protocol.as_str()) {
            return Err(
                wrap2("variant '", id, "' has unknown protocol '", v.protocol.as_str(), "'"),
            );
        }
        if !variant_bundled(b, v) && variant_artifacts(b, v).len() == 0 {
            return Err(
                wrap("variant '", id, "' is not bundled and has no downloadable artifacts"),
            );
        }
        Ok(())
    }

    fn validate_backend(&self, i: usize) -> (r: Result<(), String>)
        requires
            i < self.backends.len(),
        ensures
            reports(r, backend_fault(self.backends@, i as int)),
    {
        let b: &BackendDefinition = &self.backends[i];
        let id: &str = b.id.as_str();
        match validate_id(id, "backend") {
            Err(m) => {
                return Err(m);
            },
            Ok(_) => {},
        }
        if self.backend_among(i, id) {
            return Err(wrap("duplicate backend id '", id, "'"));
        }
        if b.variants.is_empty() {
            return Err(wrap("backend '", id, "' has no variants"));
        }
        if b.stage == BackendStage::Tts {
            match validate_voices(b) {
                Err(m) => {
                    return Err(m);
                },
                Ok(_) => {},
            }
        }
        if !b.access_url.as_str().is_empty() {
            match validate_http_url(b.access_url.as_str()) {
                Err(m) => {
                    return Err(m);
                },
                Ok(_) => {},
            }
        }
        if !has_model(b) {
            return Err(
                wrap(
                    "backend '",
                    id,
                    "' is neither bundled nor backed by downloadable artifacts",
                ),
            );
        }
        match validate_artifacts(id, &b.artifacts) {
            Err(m) => {
                return Err(m);
            },
            Ok(_) => {},
        }
        if b.access_url.as_str().is_empty() && has_gated(b) {
            return Err(
                wrap("backend '", id, "' has authenticated artifacts but no access_url"),
            );
        }
        let ghost check = |k: int| variant_fault(self.backends@, i as int, k);
        let mut k: usize = 0;
        while k < b.variants.len()
            invariant
                i < self.backends.len(),
                *b == self.backends@[i as int],
                check == (|k: int| variant_fault(self.backends@, i as int, k)),
                k <= b.variants.len(),
                first_of(k as int, check) is None,
                backend_fault(self.backends@, i as int) == first_of(
                    b.variants@.len() as int,
                    check,
                ),
            decreases b.variants.len() - k,
        {
            match self.validate_variant(i, k) {
                Err(m) => {
                    proof {
                        lemma_first_of_stays(b.variants.len() as int, k + 1, check);
                    }
                    return Err(m);
                },
                Ok(_) => {},
            }
            k += 1;
        }
        Ok(())
    }

    fn validate_preset(&self, i: usize) -> (r: Result<(), String>)
        requires
            i < self.presets.len(),
        ensures
            reports(r, preset_fault(*self, i as int)),
    {
        let p: &StackPreset = &self.presets[i];
        match validate_id(p.id.as_str(), "preset") {
            Err(m) => {
                return Err(m);
            },
            Ok(_) => {},
        }
        proof {
            law_lookup_finds_the_first(self.backends@, p.asr_id@);
            law_lookup_finds_the_first(self.backends@, p.tts_id@);
            law_lookup_finds_the_first(self.backends@, p.llm_id@);
        }
        if self.find(p.asr_id.as_str()).is_none() || self.find(p.tts_id.as_str()).is_none()
            || self.find(p.llm_id.as_str()).is_none() {
            return Err(wrap("preset '", p.id.as_str(), "' references an unknown backend"));
        }
        Ok(())
    }

    /// Checks the whole catalog; the error is the message of the first fault.
    pub fn validate(&self) -> (r: Result<(), String>)
        ensures
            reports(r, catalog_fault(*self)),
    {
        if self.schema_version != 1 && self.schema_version != 2 {
            let version: String = text::decimal_of(self.schema_version as u64);
            return Err(
                wrap(
                    "unsupported backend catalog schema_version=",
                    version.as_str(),
                    " (expected 1 or 2)",
                ),
            );
        }
        let ghost check = |i: int| backend_fault(self.backends@, i);
        let mut i: usize = 0;
        while i < self.backends.len()
            invariant
                self.schema_version == 1 || self.schema_version == 2,
                check == (|i: int| backend_fault(self.backends@, i)),
                i <= self.backends.len(),
                first_of(i as int, check) is None,
            decreases self.backends.len() - i,
        {
            match self.validate_backend(i) {
                Err(m) => {
                    proof {
                        lemma_first_of_stays(self.backends.len() as int, i + 1, check);
                    }
                    return Err(m);
                },
                Ok(_) => {},
            }
            i += 1;
        }
        let ghost preset_check = |i: int| preset_fault(*self, i);
        let mut p: usize = 0;
        while p < self.presets.len()
            invariant
                self.schema_version == 1 || self.schema_version == 2,
                first_of(self.backends@.len() as int, |i: int| backend_fault(self.backends@, i))
                    is None,
                preset_check == (|i: int| preset_fault(*self, i)),
                p <= self.presets.len(),
                first_of(p as int, preset_check) is None,
            decreases self.presets.len() - p,
        {
            match self.validate_preset(p) {
                Err(m) => {
                    proof {
                        lemma_first_of_stays(self.presets.len() as int, p + 1, preset_check);
                    }
                    return Err(m);
                },
                Ok(_) => {},
            }
            p += 1;
        }
        Ok(())
    }
}

/// In an accepted catalog no two backends share an id and no two variants do;
/// every backend has a variant, and every variant is in the image or can be
/// downloaded, and runs under a host profile or in a container, not both.
pub proof fn law_accepted_catalog_is_consistent(c: BackendCatalog)
    requires
        catalog_fault(c) is None,
    ensures
        forall|i: int, j: int|
            #![trigger c.backends@[i], c.backends@[j]]
            0 <= i < j < c.backends@.len() ==> c.backends@[i].id@ != c.backends@[j].id@,
        forall|i: int| 0 <= i < c.backends@.len() ==> (#[trigger] c.backends@[i]).variants@.len() > 0,
        forall|i: int, k: int, a: int, b: int|
            #![trigger c.backends@[i].variants@[k], c.backends@[a].variants@[b]]
            0 <= i < c.backends@.len() && 0 <= k < c.backends@[i].variants@.len() && 0 <= a
                < c.backends@.len() && 0 <= b < c.backends@[a].variants@.len() && (a < i || (a == i
                && b < k)) ==> c.backends@[i].variants@[k].id@ != c.backends@[a].variants@[b].id@,
        forall|i: int, k: int|
            #![trigger c.backends@[i].variants@[k]]
            0 <= i < c.backends@.len() && 0 <= k < c.backends@[i].variants@.len() ==> {
                let v = c.backends@[i].variants@[k];
                &&& bundled_of(c.backends@[i], v) || artifacts_of(c.backends@[i], v).len() > 0
                &&& v.host_profile@.len() == 0 || v.container@.len() == 0
                &&& v.host_profile@.len() > 0 ==> known_host_profile(v.host_profile@)
                &&& known_accelerator(v.accelerator@)
            },
{
    let bs = c.backends@;
    let check = |i: int| backend_fault(bs, i);
    lemma_first_of_none(bs.len() as int, check);
    assert forall|i: int| 0 <= i < bs.len() implies #[trigger] backend_fault(bs, i) is None by {
        assert(check(i) is None);
    }
    assert forall|i: int, j: int|
        #![trigger bs[i], bs[j]]
        0 <= i < j < bs.len() implies bs[i].id@ != bs[j].id@ by {
        assert(backend_fault(bs, j) is None);
    }
    assert forall|i: int| 0 <= i < bs.len() implies (#[trigger] bs[i]).variants@.len() > 0 by {
        assert(backend_fault(bs, i) is None);
    }
    assert forall|i: int, k: int|
        0 <= i < bs.len() && 0 <= k < bs[i].variants@.len() implies #[trigger] variant_fault(
        bs,
        i,
        k,
    ) is None by {
        assert(backend_fault(bs, i) is None);
        let vcheck = |k: int| variant_fault(bs, i, k);
        lemma_first_of_none(bs[i].variants@.len() as int, vcheck);
        assert(vcheck(k) is None);
    }
    assert forall|i: int, k: int, a: int, b: int|
        #![trigger bs[i].variants@[k], bs[a].variants@[b]]
        0 <= i < bs.len() && 0 <= k < bs[i].variants@.len() && 0 <= a < bs.len() && 0 <= b
            < bs[a].variants@.len() && (a < i || (a == i && b < k)) implies bs[i].variants@[k].id@
        != bs[a].variants@[b].id@ by {
        assert(variant_fault(bs, i, k) is None);
        let id = bs[i].variants@[k].id@;
        assert(!variant_id_taken(bs, i, k, id));
        if bs[a].variants@[b].id@ == id {
            if a == i {
                assert(has_variant(bs[i], k, id));
            } else {
                assert(has_variant(bs[a], bs[a].variants@.len() as int, id));
            }
        }
    }
    assert forall|i: int, k: int|
        #![trigger bs[i].variants@[k]]
        0 <= i < bs.len() && 0 <= k < bs[i].variants@.len() implies {
        let v = bs[i].variants@[k];
        &&& bundled_of(bs[i], v) || artifacts_of(bs[i], v).len() > 0
        &&& v.host_profile@.len() == 0 || v.container@.len() == 0
        &&& v.host_profile@.len() > 0 ==> known_host_profile(v.host_profile@)
        &&& known_accelerator(v.accelerator@)
    } by {
        assert(variant_fault(bs, i, k) is None);
    }
}

/// In an accepted catalog every speech backend has a default voice, which its
/// voice list holds if it has one, and no two listed voices are alike.
pub proof fn law_accepted_voices(c: BackendCatalog, i: int)
    requires
        catalog_fault(c) is None,
        0 <= i < c.backends@.len(),
        c.backends@[i].stage == BackendStage::Tts,
    ensures
        text::trim(c.backends@[i].default_voice@).len() > 0,
        c.backends@[i].voices@.len() > 0 ==> lists_voice(
            c.backends@[i].voices@,
            text::trim(c.backends@[i].default_voice@),
        ),
        switches_voices(c.backends@[i].voice_mode) ==> c.backends@[i].voices@.len() > 0,
        forall|k: int, j: int|
            #![trigger c.backends@[i].voices@[k], c.backends@[i].voices@[j]]
            0 <= k < j < c.backends@[i].voices@.len() ==> voice_key(c.backends@[i].voices@[k]@)
                != voice_key(c.backends@[i].voices@[j]@),
{
    let bs = c.backends@;
    let check = |i: int| backend_fault(bs, i);
    lemma_first_of_none(bs.len() as int, check);
    assert(check(i) is None);
    assert(voices_fault(bs[i]) is None);
    let voices = bs[i].voices@;
    assert forall|k: int, j: int|
        #![trigger voices[k], voices[j]]
        0 <= k < j < voices.len() implies voice_key(voices[k]@) != voice_key(voices[j]@) by {
        assert(!voice_is_bad(voices, j));
    }
}

/// In an accepted catalog every artifact path stays below its root, and every
/// artifact that needs authentication comes from Hugging Face over HTTPS with
/// its size and digest pinned.
pub proof fn law_accepted_artifacts(c: BackendCatalog, i: int, n: int)
    requires
        catalog_fault(c) is None,
        0 <= i < c.backends@.len(),
        0 <= n < c.backends@[i].artifacts@.len(),
    ensures
        is_safe_path(c.backends@[i].artifacts@[n].path@),
        c.backends@[i].artifacts@[n].auth@ == "huggingface"@ ==> {
            let a = c.backends@[i].artifacts@[n];
            &&& text::starts_with(a.source@, "https://huggingface.co/"@)
            &&& a.sha256@.len() == 64
            &&& a.size > 0
            &&& c.backends@[i].access_url@.len() > 0
        },
{
    let bs = c.backends@;
    let check = |i: int| backend_fault(bs, i);
    lemma_first_of_none(bs.len() as int, check);
    assert(check(i) is None);
    let b = bs[i];
    let acheck = |n: int| artifact_fault(b.id@, b.artifacts@[n]);
    lemma_first_of_none(b.artifacts@.len() as int, acheck);
    assert(artifacts_fault(b.id@, b.artifacts@) is None);
    assert(acheck(n) is None);
    if b.artifacts@[n].auth@ == "huggingface"@ {
        reveal_strlit("huggingface");
        assert(any_gated(b.artifacts@));
    }
}

/// Every preset of an accepted catalog names backends of that catalog.
pub proof fn law_accepted_presets(c: BackendCatalog, p: int)
    requires
        catalog_fault(c) is None,
        0 <= p < c.presets@.len(),
    ensures
        backend_index(c.backends@, c.presets@[p].asr_id@) is Some,
        backend_index(c.backends@, c.presets@[p].tts_id@) is Some,
        backend_index(c.backends@, c.presets@[p].llm_id@) is Some,
{
    let check = |i: int| preset_fault(c, i);
    lemma_first_of_none(c.presets@.len() as int, check);
    assert(check(p) is None);
    law_lookup_finds_the_first(c.backends@, c.presets@[p].asr_id@);
    law_lookup_finds_the_first(c.backends@, c.presets@[p].tts_id@);
    law_lookup_finds_the_first(c.backends@, c.presets@[p].llm_id@);
}

// ---------------------------------------------------------------------------
// Hardware profile
// ---------------------------------------------------------------------------

/// Hardware with a best-effort capacity probe.
#[derive(Debug)]
pub struct HardwareProfile {
    pub vendor: String,
    pub device_name: String,
    pub accelerators: Vec<String>,
    pub platform: String,
    pub in_container: bool,
    pub allow_experimental: bool,
    pub vram_total_gb: Option<u32>,
    pub vram_free_gb: Option<u32>,
    pub ram_total_gb: Option<u32>,
    pub ram_available_gb: Option<u32>,
    /// A fresh heartbeat of the host supervisor was seen.
    pub host_agent_online: bool,
    /// Host profiles the supervisor can launch.
    pub host_profiles: Vec<String>,
    /// Capacity class: `cpu-light`, `gpu-8gb`, `gpu-16gb+` or `host-vulkan`.
    pub tier: String,
}

/// Alias of the capability endpoint.
pub type CapabilityProfile = HardwareProfile;

/// Whether two profiles hold the same data.
pub open spec fn same_hardware(a: HardwareProfile, b: HardwareProfile) -> bool {
    &&& same_hardware_but_tier(a, b)
    &&& a.tier@ == b.tier@
}

/// Whether two profiles hold the same data, the capacity class aside.
pub open spec fn same_hardware_but_tier(a: HardwareProfile, b: HardwareProfile) -> bool {
    &&& a.vendor@ == b.vendor@
    &&& a.device_name@ == b.device_name@
    &&& a.accelerators@ == b.accelerators@
    &&& a.platform@ == b.platform@
    &&& a.in_container == b.in_container
    &&& a.allow_experimental == b.allow_experimental
    &&& a.vram_total_gb == b.vram_total_gb
    &&& a.vram_free_gb == b.vram_free_gb
    &&& a.ram_total_gb == b.ram_total_gb
    &&& a.ram_available_gb == b.ram_available_gb
    &&& a.host_agent_online == b.host_agent_online
    &&& a.host_profiles@ == b.host_profiles@
}

impl Clone for HardwareProfile {
    fn clone(&self) -> (r: Self)
        ensures
            same_hardware(r, *self),
    {
        HardwareProfile {
            vendor: self.vendor.clone(),
            device_name: self.device_name.clone(),
            accelerators: clone_texts(&self.accelerators),
            platform: self.platform.clone(),
            in_container: self.in_container,
            allow_experimental: self.allow_experimental,
            vram_total_gb: self.vram_total_gb,
            vram_free_gb: self.vram_free_gb,
            ram_total_gb: self.ram_total_gb,
            ram_available_gb: self.ram_available_gb,
            host_agent_online: self.host_agent_online,
            host_profiles: clone_texts(&self.host_profiles),
            tier: self.tier.clone(),
        }
    }
}

pub open spec fn or_else(a: Option<u32>, b: Option<u32>) -> Option<u32> {
    if a is Some {
        a
    } else {
        b
    }
}

/// The capacity class of a profile.
pub open spec fn tier_of(hw: HardwareProfile) -> Seq<char> {
    let vulkan = text::lists(hw.accelerators@, "vulkan"@);
    let any_gpu = vulkan || text::lists(hw.accelerators@, "cuda"@) || text::lists(
        hw.accelerators@,
        "sycl"@,
    );
    let vram = or_else(hw.vram_total_gb, hw.vram_free_gb);
    if hw.host_agent_online && vulkan {
        "host-vulkan"@
    } else if vram matches Some(g) && g >= LARGE_GPU_GB {
        "gpu-16gb+"@
    } else if (vram matches Some(g) && g >= SMALL_GPU_GB) || any_gpu {
        "gpu-8gb"@
    } else {
        "cpu-light"@
    }
}

pub fn derive_capability_tier(hw: &HardwareProfile) -> (r: String)
    ensures
        r@ == tier_of(*hw),
{
    let has_vulkan: bool = text::listed(&hw.accelerators, "vulkan");
    let has_cuda: bool = text::listed(&hw.accelerators, "cuda");
    let has_sycl: bool = text::listed(&hw.accelerators, "sycl");
    if hw.host_agent_online && has_vulkan {
        return String::from_str("host-vulkan");
    }
    let vram: Option<u32> = match hw.vram_total_gb {
        Some(g) => Some(g),
        None => hw.vram_free_gb,
    };
    match vram {
        Some(g) => {
            if g >= LARGE_GPU_GB {
                return String::from_str("gpu-16gb+");
            }
            if g >= SMALL_GPU_GB {
                return String::from_str("gpu-8gb");
            }
        },
        None => {},
    }
    if has_cuda || has_sycl || has_vulkan {
        return String::from_str("gpu-8gb");
    }
    default_capability_tier()
}

pub fn default_capability_tier() -> (r: String)
    ensures
        r@ == "cpu-light"@,
{
    String::from_str("cpu-light")
}

/// The capacity class, where a forced one takes the place of the derived one
/// unless it is blank.
pub open spec fn tier_with(forced: Option<Seq<char>>, hw: HardwareProfile) -> Seq<char> {
    match forced {
        Some(f) => if text::trim(f).len() > 0 {
            text::lower(text::trim(f))
        } else {
            tier_of(hw)
        },
        None => tier_of(hw),
    }
}

/// The view of an optional text.
pub open spec fn opt_view(s: Option<String>) -> Option<Seq<char>> {
    match s {
        Some(t) => Some(t@),
        None => None,
    }
}

/// What a probe of memory sizes yields and what overrides it.
#[derive(Debug, Clone, Copy)]
pub struct MemoryReading {
    pub forced: Option<u32>,
    pub probed: Option<u32>,
}

/// The readings of the four memory sizes.
#[derive(Debug, Clone, Copy)]
pub struct MemoryReadings {
    pub vram_total: MemoryReading,
    pub vram_free: MemoryReading,
    pub ram_total: MemoryReading,
    pub ram_available: MemoryReading,
}

fn first_value(a: Option<u32>, b: Option<u32>) -> (r: Option<u32>)
    ensures
        r == or_else(a, b),
{
    match a {
        Some(x) => Some(x),
        None => b,
    }
}

/// Values of the process environment that shape a hardware profile.
#[derive(Debug)]
pub struct LabEnvironment {
    pub accelerators: Option<String>,
    pub gpu_vendor: Option<String>,
    pub device_name: Option<String>,
    pub platform: Option<String>,
    pub os: String,
    pub allow_experimental: Option<String>,
    pub tier: Option<String>,
}

/// The override unless it is missing or blank.
pub open spec fn unless_blank(value: Option<String>, fallback: Seq<char>) -> Seq<char> {
    match value {
        Some(v) => if text::trim(v@).len() > 0 {
            v@
        } else {
            fallback
        },
        None => fallback,
    }
}

fn or_fallback(value: &Option<String>, fallback: String) -> (r: String)
    ensures
        r@ == unless_blank(*value, fallback@),
{
    match value {
        Some(v) => {
            if !text::trimmed(v.as_str()).as_str().is_empty() {
                v.clone()
            } else {
                fallback
            }
        },
        None => fallback,
    }
}

pub open spec fn platform_of(value: Seq<char>) -> Option<Seq<char>> {
    let v = text::lower(text::trim(value));
    if v == "linux"@ || v == "windows"@ || v == "macos"@ {
        Some(v)
    } else {
        None
    }
}

pub fn normalize_platform(value: &str) -> (r: Option<String>)
    ensures
        opt_view(r) == platform_of(value@),
{
    let v: String = text::to_lower(text::trimmed(value).as_str());
    if text::same(v.as_str(), "linux") || text::same(v.as_str(), "windows") || text::same(
        v.as_str(),
        "macos",
    ) {
        Some(v)
    } else {
        None
    }
}

/// Whether a setting switches something on.
pub open spec fn truthy(value: Option<String>) -> bool {
    match value {
        Some(v) => {
            let t = text::lower(v@);
            t == "1"@ || t == "true"@ || t == "yes"@ || t == "on"@
        },
        None => false,
    }
}

pub fn env_truthy(value: &Option<String>) -> (r: bool)
    ensures
        r == truthy(*value),
{
    match value {
        Some(v) => {
            let t: String = text::to_lower(v.as_str());
            text::same(t.as_str(), "1") || text::same(t.as_str(), "true") || text::same(
                t.as_str(),
                "yes",
            ) || text::same(t.as_str(), "on")
        },
        None => false,
    }
}

pub open spec fn vendor_of(name: Seq<char>) -> Seq<char> {
    let n = text::lower(name);
    if text::has(n, "nvidia"@) {
        "nvidia"@
    } else if text::has(n, "amd"@) || text::has(n, "radeon"@) {
        "amd"@
    } else if text::has(n, "intel"@) || text::has(n, "arc"@) {
        "intel"@
    } else {
        "unknown"@
    }
}

pub fn infer_vendor(name: &str) -> (r: String)
    ensures
        r@ == vendor_of(name@),
{
    let n: String = text::to_lower(name);
    if text::contains(n.as_str(), "nvidia") {
        String::from_str("nvidia")
    } else if text::contains(n.as_str(), "amd") || text::contains(n.as_str(), "radeon") {
        String::from_str("amd")
    } else if text::contains(n.as_str(), "intel") || text::contains(n.as_str(), "arc") {
        String::from_str("intel")
    } else {
        String::from_str("unknown")
    }
}

/// A list of texts with one more at its end, unless it is there already.
pub open spec fn with_new(v: Seq<Seq<char>>, x: Seq<char>) -> Seq<Seq<char>> {
    if v.contains(x) {
        v
    } else {
        v.push(x)
    }
}

pub fn push_new(v: &mut Vec<String>, x: &str)
    ensures
        text::views(final(v)@) == with_new(text::views(old(v)@), x@),
{
    let ghost before = text::views(v@);
    proof {
        lemma_lists_is_contains(v@, x@);
    }
    if !text::listed(v, x) {
        v.push(String::from_str(x));
        assert(text::views(v@) =~= before.push(x@));
    }
}

pub proof fn lemma_lists_is_contains(v: Seq<String>, x: Seq<char>)
    ensures
        text::lists(v, x) == text::views(v).contains(x),
{
    let s = text::views(v);
    if text::lists(v, x) {
        let i = choose|i: int| 0 <= i < v.len() && (#[trigger] v[i])@ == x;
        assert(s[i] == x);
    }
    if s.contains(x) {
        let i = choose|i: int| 0 <= i < s.len() && s[i] == x;
        assert(v[i]@ == x);
    }
}

pub fn accelerator_name(kind: GpuKind) -> (r: &'static str)
    ensures
        r@ == crate::gpu::kind_name(kind),
{
    kind.as_str()
}

/// The accelerator names of a device list, each once, in order.
pub open spec fn kinds_listed(all: Seq<DeviceView>) -> Seq<Seq<char>>
    decreases all.len(),
{
    if all.len() == 0 {
        seq![]
    } else {
        with_new(kinds_listed(all.drop_last()), crate::gpu::kind_name(all.last().kind))
    }
}

/// A list with the known accelerators among comma-separated names added.
pub open spec fn with_extras(base: Seq<Seq<char>>, names: Seq<Seq<char>>) -> Seq<Seq<char>>
    decreases names.len(),
{
    if names.len() == 0 {
        base
    } else {
        let prev = with_extras(base, names.drop_last());
        let n = text::trim(names.last());
        if known_accelerator(n) {
            with_new(prev, n)
        } else {
            prev
        }
    }
}

/// The accelerators of a machine: its devices', the CPU, and configured extras.
pub open spec fn accelerators_of(all: Seq<DeviceView>, extra: Option<Seq<char>>) -> Seq<Seq<char>> {
    let base = with_new(kinds_listed(all), "cpu"@);
    match extra {
        Some(e) => with_extras(base, text::split(e, ',')),
        None => base,
    }
}

fn list_accelerators(all: &Vec<GpuDevice>, extra: &Option<String>) -> (r: Vec<String>)
    ensures
        text::views(r@) == accelerators_of(crate::gpu::device_views(all@), opt_view(*extra)),
{
    let ghost views = crate::gpu::device_views(all@);
    let mut r: Vec<String> = Vec::new();
    let mut i: usize = 0;
    while i < all.len()
        invariant
            views == crate::gpu::device_views(all@),
            i <= all.len(),
            text::views(r@) =~= kinds_listed(views.take(i as int)),
        decreases all.len() - i,
    {
        assert(views.take(i + 1).drop_last() =~= views.take(i as int));
        assert(views.take(i + 1).last() == all@[i as int]@);
        push_new(&mut r, accelerator_name(all[i].kind));
        i += 1;
    }
    assert(views.take(all.len() as int) =~= views);
    push_new(&mut r, "cpu");
    match extra {
        Some(e) => {
            let names: Vec<String> = text::split_at_char(e.as_str(), ',');
            let ghost base = text::views(r@);
            let ghost pieces = text::views(names@);
            let mut k: usize = 0;
            while k < names.len()
                invariant
                    pieces == text::views(names@),
                    k <= names.len(),
                    text::views(r@) =~= with_extras(base, pieces.take(k as int)),
                decreases names.len() - k,
            {
                assert(pieces.take(k + 1).drop_last() =~= pieces.take(k as int));
                assert(pieces.take(k + 1).last() == names@[k as int]@);
                let n: String = text::trimmed(names[k].as_str());
                if is_known_accelerator(n.as_str()) {
                    push_new(&mut r, n.as_str());
                }
                k += 1;
            }
            assert(pieces.take(names.len() as int) =~= pieces);
        },
        None => {},
    }
    r
}

/// Whether texts stand in strictly ascending order.
pub open spec fn ascending(v: Seq<String>) -> bool {
    forall|i: int, j: int|
        #![trigger v[i], v[j]]
        0 <= i < j < v.len() ==> text::before(v[i]@, v[j]@)
}

/// Whether two lists hold the same texts.
pub open spec fn same_texts(a: Seq<String>, b: Seq<String>) -> bool {
    forall|x: Seq<char>| #[trigger] text::lists(a, x) <==> text::lists(b, x)
}

fn insert_ascending(v: &mut Vec<String>, x: &String)
    requires
        ascending(old(v)@),
    ensures
        ascending(final(v)@),
        forall|y: Seq<char>|
            #[trigger] text::lists(final(v)@, y) <==> (text::lists(old(v)@, y) || y == x@),
{
    let ghost start = v@;
    let mut i: usize = 0;
    while i < v.len() && text::stands_before(v[i].as_str(), x.as_str())
        invariant
            v@ == start,
            ascending(start),
            i <= v.len(),
            forall|j: int| 0 <= j < i ==> text::before((#[trigger] start[j])@, x@),
        decreases v.len() - i,
    {
        i += 1;
    }
    if i < v.len() && text::same(v[i].as_str(), x.as_str()) {
        assert(start[i as int]@ == x@);
        assert(text::lists(start, x@));
        return;
    }
    v.insert(i, x.clone());
    proof {
        assert(v@ =~= start.insert(i as int, *x));
        if i < start.len() {
            text::lemma_before_total(start[i as int]@, x@);
        }
        assert forall|a: int, b: int|
            #![trigger v@[a], v@[b]]
            0 <= a < b < v@.len() implies text::before(v@[a]@, v@[b]@) by {
            if a < i && b < i {
                assert(v@[a] == start[a] && v@[b] == start[b]);
            } else if a < i && b == i {
                assert(v@[a] == start[a]);
            } else if a < i {
                assert(v@[a] == start[a] && v@[b] == start[b - 1]);
            } else if a == i {
                assert(v@[b] == start[b - 1]);
                if b - 1 > i {
                    assert(text::before(start[i as int]@, start[b - 1]@));
                    text::lemma_before_transitive(x@, start[i as int]@, start[b - 1]@);
                }
            } else {
                assert(v@[a] == start[a - 1] && v@[b] == start[b - 1]);
            }
        }
        assert forall|y: Seq<char>| #[trigger]
            text::lists(v@, y) <==> (text::lists(start, y) || y == x@) by {
            if text::lists(v@, y) {
                let k = choose|k: int| 0 <= k < v@.len() && (#[trigger] v@[k])@ == y;
                if k < i {
                    assert(start[k]@ == y);
                } else if k > i {
                    assert(start[k - 1]@ == y);
                }
            }
            if text::lists(start, y) {
                let k = choose|k: int| 0 <= k < start.len() && (#[trigger] start[k])@ == y;
                if k < i {
                    assert(v@[k]@ == y);
                } else {
                    assert(v@[k + 1]@ == y);
                }
            }
            if y == x@ {
                assert(v@[i as int]@ == y);
            }
        }
    }
}

/// The texts of a list, each once, in ascending order.
pub fn sorted_unique(v: &Vec<String>) -> (r: Vec<String>)
    ensures
        ascending(r@),
        same_texts(r@, v@),
{
    let mut r: Vec<String> = Vec::new();
    let mut i: usize = 0;
    while i < v.len()
        invariant
            i <= v.len(),
            ascending(r@),
            same_texts(r@, v@.take(i as int)),
        decreases v.len() - i,
    {
        let ghost before = r@;
        insert_ascending(&mut r, &v[i]);
        proof {
            let t = v@.take(i as int);
            let u = v@.take(i + 1);
            assert forall|y: Seq<char>| #[trigger] text::lists(r@, y) <==> text::lists(u, y) by {
                assert(text::lists(before, y) <==> text::lists(t, y));
                if text::lists(t, y) {
                    let k = choose|k: int| 0 <= k < t.len() && (#[trigger] t[k])@ == y;
                    assert(u[k]@ == y);
                }
                if y == v@[i as int]@ {
                    assert(u[i as int]@ == y);
                }
                if text::lists(u, y) {
                    let k = choose|k: int| 0 <= k < u.len() && (#[trigger] u[k])@ == y;
                    if k < i {
                        assert(t[k]@ == y);
                    }
                }
            }
        }
        i += 1;
    }
    assert(v@.take(v.len() as int) =~= v@);
    r
}

impl HardwareProfile {
    /// The profile of the machine that a report describes.
    pub fn from_gpu_report(
        report: &GpuReport,
        env: &LabEnvironment,
        readings: &MemoryReadings,
    ) -> (r: Self)
        ensures
            r.vendor@ == unless_blank(
                env.gpu_vendor,
                match report.selected.vendor_hint {
                    Some(v) => v@,
                    None => vendor_of(report.selected.name@),
                },
            ),
            r.device_name@ == unless_blank(env.device_name, report.selected.name@),
            text::views(r.accelerators@) == accelerators_of(
                crate::gpu::device_views(report.all@),
                opt_view(env.accelerators),
            ),
            r.platform@ == match env.platform {
                Some(p) => match platform_of(p@) {
                    Some(known) => known,
                    None => env.os@,
                },
                None => env.os@,
            },
            r.in_container == report.in_container,
            r.allow_experimental == truthy(env.allow_experimental),
            r.vram_total_gb == or_else(readings.vram_total.forced, readings.vram_total.probed),
            r.vram_free_gb == or_else(readings.vram_free.forced, readings.vram_free.probed),
            r.ram_total_gb == or_else(readings.ram_total.forced, readings.ram_total.probed),
            r.ram_available_gb == or_else(
                readings.ram_available.forced,
                readings.ram_available.probed,
            ),
            !r.host_agent_online,
            r.host_profiles@.len() == 0,
            r.tier@ == tier_with(opt_view(env.tier), r),
    {
        let detected: String = match &report.selected.vendor_hint {
            Some(v) => v.clone(),
            None => infer_vendor(report.selected.name.as_str()),
        };
        let platform: Option<String> = match &env.platform {
            Some(p) => normalize_platform(p.as_str()),
            None => None,
        };
        let mut profile = HardwareProfile {
            vendor: or_fallback(&env.gpu_vendor, detected),
            device_name: or_fallback(&env.device_name, report.selected.name.clone()),
            accelerators: list_accelerators(&report.all, &env.accelerators),
            platform: match platform {
                Some(p) => p,
                None => env.os.clone(),
            },
            in_container: report.in_container,
            allow_experimental: env_truthy(&env.allow_experimental),
            vram_total_gb: None,
            vram_free_gb: None,
            ram_total_gb: None,
            ram_available_gb: None,
            host_agent_online: false,
            host_profiles: Vec::new(),
            tier: default_capability_tier(),
        };
        profile.apply_static_probes(readings, &env.tier);
        profile
    }

    /// Refreshes the sizes of main and video memory and recomputes the capacity
    /// class. A forced size wins, then a probed one; an older one stays where
    /// neither is there.
    pub fn apply_static_probes(&mut self, readings: &MemoryReadings, forced_tier: &Option<String>)
        ensures
            final(self).vram_total_gb == or_else(
                readings.vram_total.forced,
                or_else(readings.vram_total.probed, old(self).vram_total_gb),
            ),
            final(self).vram_free_gb == or_else(
                readings.vram_free.forced,
                or_else(readings.vram_free.probed, old(self).vram_free_gb),
            ),
            final(self).ram_total_gb == or_else(
                readings.ram_total.forced,
                or_else(readings.ram_total.probed, old(self).ram_total_gb),
            ),
            final(self).ram_available_gb == or_else(
                readings.ram_available.forced,
                or_else(readings.ram_available.probed, old(self).ram_available_gb),
            ),
            final(self).tier@ == tier_with(opt_view(*forced_tier), *final(self)),
            *final(self) == (HardwareProfile {
                vram_total_gb: final(self).vram_total_gb,
                vram_free_gb: final(self).vram_free_gb,
                ram_total_gb: final(self).ram_total_gb,
                ram_available_gb: final(self).ram_available_gb,
                tier: final(self).tier,
                ..*old(self)
            }),
    {
        self.vram_total_gb =
        first_value(
            readings.vram_total.forced,
            first_value(readings.vram_total.probed, self.vram_total_gb),
        );
        self.vram_free_gb =
        first_value(
            readings.vram_free.forced,
            first_value(readings.vram_free.probed, self.vram_free_gb),
        );
        self.ram_total_gb =
        first_value(
            readings.ram_total.forced,
            first_value(readings.ram_total.probed, self.ram_total_gb),
        );
        self.ram_available_gb =
        first_value(
            readings.ram_available.forced,
            first_value(readings.ram_available.probed, self.ram_available_gb),
        );
        self.recompute_tier(forced_tier);
    }

    /// Takes over a heartbeat of the host supervisor.
    pub fn apply_host_agent(
        &mut self,
        online: bool,
        profiles: &Vec<String>,
        forced_tier: &Option<String>,
    )
        ensures
            final(self).host_agent_online == online,
            ascending(final(self).host_profiles@),
            same_texts(final(self).host_profiles@, profiles@),
            final(self).tier@ == tier_with(opt_view(*forced_tier), *final(self)),
            *final(self) == (HardwareProfile {
                host_agent_online: online,
                host_profiles: final(self).host_profiles,
                tier: final(self).tier,
                ..*old(self)
            }),
    {
        self.host_agent_online = online;
        self.host_profiles = sorted_unique(profiles);
        self.recompute_tier(forced_tier);
    }

    /// Recomputes the capacity class.
    pub fn recompute_tier(&mut self, forced: &Option<String>)
        ensures
            final(self).tier@ == tier_with(opt_view(*forced), *old(self)),
            *final(self) == (HardwareProfile { tier: final(self).tier, ..*old(self) }),
    {
        match forced {
            Some(f) => {
                let t: String = text::trimmed(f.as_str());
                if !t.as_str().is_empty() {
                    self.tier = text::to_lower(t.as_str());
                    return;
                }
            },
            None => {},
        }
        let tier: String = derive_capability_tier(self);
        self.tier = tier;
    }
}

/// The first two comma-separated fields of the first line.
pub open spec fn two_fields(output: Seq<char>) -> Option<(Seq<char>, Seq<char>)> {
    let parts = text::split(text::trim(text::split(output, '\n')[0]), ',');
    if parts.len() >= 2 {
        Some((text::trim(parts[0]), text::trim(parts[1])))
    } else {
        None
    }
}

/// The total and free memory fields in the output of the driver tool.
pub fn memory_fields(output: &str) -> (r: Option<(String, String)>)
    ensures
        match r {
            Some(p) => two_fields(output@) == Some((p.0@, p.1@)),
            None => two_fields(output@) is None,
        },
{
    let lines: Vec<String> = text::split_at_char(output, '\n');
    proof {
        text::lemma_split_not_empty(output@, '\n');
        assert(text::views(lines@)[0] == lines@[0]@);
        assert(lines@.len() == text::views(lines@).len());
    }
    let line: String = text::trimmed(lines[0].as_str());
    let parts: Vec<String> = text::split_at_char(line.as_str(), ',');
    assert(parts@.len() == text::views(parts@).len());
    if parts.len() < 2 {
        return None;
    }
    assert(text::views(parts@)[0] == parts@[0]@);
    assert(text::views(parts@)[1] == parts@[1]@);
    Some((text::trimmed(parts[0].as_str()), text::trimmed(parts[1].as_str())))
}

/// Where the first word of a text ends, if the text begins with it.
pub open spec fn first_space(s: Seq<char>) -> int
    decreases s.len(),
{
    if s.len() == 0 || text::is_space(s[0]) {
        0
    } else {
        1 + first_space(s.drop_first())
    }
}

pub open spec fn first_word(s: Seq<char>) -> Seq<char> {
    let t = text::trim_start(s);
    t.take(first_space(t))
}

/// The word behind a label in the first line that begins with it.
pub open spec fn labelled_word(lines: Seq<Seq<char>>, label: Seq<char>) -> Option<Seq<char>>
    decreases lines.len(),
{
    if lines.len() == 0 {
        None
    } else if text::starts_with(lines[0], label) {
        let w = first_word(lines[0].skip(label.len() as int));
        if w.len() > 0 {
            Some(w)
        } else {
            None
        }
    } else {
        labelled_word(lines.drop_first(), label)
    }
}

fn take_first_word(s: &str) -> (r: String)
    ensures
        r@ == first_word(s@),
{
    let t: String = text::trimmed_start(s);
    let v: Vec<char> = text::chars_of(t.as_str());
    let mut i: usize = 0;
    assert(v@.skip(0) =~= v@);
    while i < v.len() && !text::char_is_space(v[i])
        invariant
            i <= v.len(),
            first_space(v@) == i + first_space(v@.skip(i as int)),
        decreases v.len() - i,
    {
        assert(v@.skip(i as int).drop_first() =~= v@.skip(i + 1));
        i += 1;
    }
    assert(first_space(v@.skip(i as int)) == 0);
    let w: String = text::piece(v.as_slice(), 0, i);
    assert(v@.subrange(0, i as int) =~= v@.take(i as int));
    w
}

/// The amount behind a label in the memory report of the system.
pub fn meminfo_field(report: &str, label: &str) -> (r: Option<String>)
    ensures
        opt_view(r) == labelled_word(text::split(report@, '\n'), label@),
{
    let lines: Vec<String> = text::split_at_char(report, '\n');
    let ghost all = text::views(lines@);
    let mut i: usize = 0;
    assert(all.skip(0) =~= all);
    while i < lines.len()
        invariant
            i <= lines.len(),
            all == text::views(lines@),
            all == text::split(report@, '\n'),
            labelled_word(all, label@) == labelled_word(all.skip(i as int), label@),
        decreases lines.len() - i,
    {
        assert(all.skip(i as int)[0] == lines@[i as int]@);
        if text::begins_with(lines[i].as_str(), label) {
            let v: Vec<char> = text::chars_of(lines[i].as_str());
            let p: Vec<char> = text::chars_of(label);
            let rest: String = text::piece(v.as_slice(), p.len(), v.len());
            assert(rest@ =~= lines@[i as int]@.skip(label@.len() as int));
            let w: String = take_first_word(rest.as_str());
            return if w.as_str().is_empty() {
                None
            } else {
                Some(w)
            };
        }
        assert(all.skip(i as int).drop_first() =~= all.skip(i + 1));
        i += 1;
    }
    None
}

// ---------------------------------------------------------------------------
// Variant resolution
// ---------------------------------------------------------------------------

/// Whether some device pattern occurs in a device name, ASCII case aside.
pub open spec fn device_matches(patterns: Seq<String>, device: Seq<char>) -> bool {
    exists|i: int|
        0 <= i < patterns.len() && text::has(
            text::lower(device),
            text::lower((#[trigger] patterns[i])@),
        )
}

fn some_device_matches(patterns: &Vec<String>, device: &str) -> (r: bool)
    ensures
        r == device_matches(patterns@, device@),
{
    let d: String = text::to_lower(device);
    let mut i: usize = 0;
    while i < patterns.len()
        invariant
            d@ == text::lower(device@),
            i <= patterns.len(),
            forall|j: int|
                0 <= j < i ==> !text::has(
                    text::lower(device@),
                    text::lower((#[trigger] patterns@[j])@),
                ),
        decreases patterns.len() - i,
    {
        let p: String = text::to_lower(patterns[i].as_str());
        if text::contains(d.as_str(), p.as_str()) {
            return true;
        }
        i += 1;
    }
    false
}

/// Whether a variant can run on a machine.
pub open spec fn matches_hardware(v: BackendVariant, hw: HardwareProfile) -> bool {
    &&& v.published
    &&& v.vendors@.len() == 0 || text::lists(v.vendors@, "any"@) || text::lists(
        v.vendors@,
        hw.vendor@,
    )
    &&& v.platforms@.len() == 0 || text::lists(v.platforms@, hw.platform@)
    &&& v.accelerator@ == "remote"@ || text::lists(hw.accelerators@, v.accelerator@)
    &&& v.device_match@.len() == 0 || device_matches(v.device_match@, hw.device_name@)
    &&& v.stable || hw.allow_experimental
}

pub fn variant_is_compatible(variant: &BackendVariant, hw: &HardwareProfile) -> (r: bool)
    ensures
        r == matches_hardware(*variant, *hw),
{
    variant.published && (variant.vendors.is_empty() || text::listed(&variant.vendors, "any")
        || text::listed(&variant.vendors, hw.vendor.as_str())) && (variant.platforms.is_empty()
        || text::listed(&variant.platforms, hw.platform.as_str())) && (text::same(
        variant.accelerator.as_str(),
        "remote",
    ) || text::listed(&hw.accelerators, variant.accelerator.as_str())) && (
    variant.device_match.is_empty() || some_device_matches(
        &variant.device_match,
        hw.device_name.as_str(),
    )) && (variant.stable || hw.allow_experimental)
}

/// The rank of a variant on a machine; a lower one is preferred. A local CPU
/// runtime is preferred over a remote endpoint.
pub open spec fn rank_of(v: BackendVariant, hw: HardwareProfile) -> u8 {
    if v.accelerator@ == "vulkan"@ {
        0
    } else if v.accelerator@ == "cuda"@ && hw.vendor@ == "nvidia"@ {
        1
    } else if v.accelerator@ == "sycl"@ && hw.vendor@ == "intel"@ {
        2
    } else if v.accelerator@ == "cpu"@ {
        3
    } else if v.accelerator@ == "remote"@ {
        4
    } else {
        5
    }
}

pub fn variant_rank(variant: &BackendVariant, hw: &HardwareProfile) -> (r: u8)
    ensures
        r == rank_of(*variant, *hw),
{
    let a: &str = variant.accelerator.as_str();
    if text::same(a, "vulkan") {
        0
    } else if text::same(a, "cuda") && text::same(hw.vendor.as_str(), "nvidia") {
        1
    } else if text::same(a, "sycl") && text::same(hw.vendor.as_str(), "intel") {
        2
    } else if text::same(a, "cpu") {
        3
    } else if text::same(a, "remote") {
        4
    } else {
        5
    }
}

/// The index of the variant to use on a machine: of those that can run there,
/// the first of lowest rank.
pub open spec fn chosen(variants: Seq<BackendVariant>, hw: HardwareProfile) -> Option<int>
    decreases variants.len(),
{
    if variants.len() == 0 {
        None
    } else {
        let prev = chosen(variants.drop_last(), hw);
        let v = variants.last();
        if !matches_hardware(v, hw) {
            prev
        } else {
            match prev {
                Some(k) => if rank_of(v, hw) < rank_of(variants[k], hw) {
                    Some(variants.len() - 1)
                } else {
                    Some(k)
                },
                None => Some(variants.len() - 1),
            }
        }
    }
}

/// The variant chosen can run on the machine and none that can ranks lower; of
/// equals it is the first. None is chosen exactly if none can run there.
pub proof fn law_chosen_variant(variants: Seq<BackendVariant>, hw: HardwareProfile)
    ensures
        match chosen(variants, hw) {
            Some(k) => {
                &&& 0 <= k < variants.len()
                &&& matches_hardware(variants[k], hw)
                &&& forall|j: int|
                    0 <= j < variants.len() && matches_hardware(#[trigger] variants[j], hw) ==> (
                    rank_of(variants[k], hw) < rank_of(variants[j], hw) || (rank_of(
                        variants[k],
                        hw,
                    ) == rank_of(variants[j], hw) && k <= j))
            },
            None => forall|j: int|
                0 <= j < variants.len() ==> !matches_hardware(#[trigger] variants[j], hw),
        },
    decreases variants.len(),
{
    if variants.len() > 0 {
        let t = variants.drop_last();
        law_chosen_variant(t, hw);
        assert forall|j: int| 0 <= j < t.len() implies #[trigger] variants[j] == t[j] by {}
        assert(forall|j: int|
            0 <= j < variants.len() ==> j == variants.len() - 1 || #[trigger] variants[j] == t[j]);
    }
}

/// An unpublished variant is never chosen, and an unstable one only where
/// experiments are allowed.
pub proof fn law_chosen_is_published(variants: Seq<BackendVariant>, hw: HardwareProfile)
    ensures
        chosen(variants, hw) matches Some(k) ==> variants[k].published && (variants[k].stable
            || hw.allow_experimental),
{
    law_chosen_variant(variants, hw);
}

pub fn resolve_variant<'a>(backend: &'a BackendDefinition, hw: &HardwareProfile) -> (r: Option<
    &'a BackendVariant,
>)
    ensures
        match r {
            Some(v) => chosen(backend.variants@, *hw) matches Some(k) && *v
                == backend.variants@[k],
            None => chosen(backend.variants@, *hw) is None,
        },
{
    match resolve_index(backend, hw) {
        Some(k) => Some(&backend.variants[k]),
        None => None,
    }
}

/// The index of the variant to use on a machine.
pub fn resolve_index(backend: &BackendDefinition, hw: &HardwareProfile) -> (r: Option<usize>)
    ensures
        match r {
            Some(k) => chosen(backend.variants@, *hw) == Some(k as int) && k
                < backend.variants.len(),
            None => chosen(backend.variants@, *hw) is None,
        },
{
    let ghost vs = backend.variants@;
    let mut best: Option<usize> = None;
    let mut i: usize = 0;
    while i < backend.variants.len()
        invariant
            vs == backend.variants@,
            i <= backend.variants.len(),
            match best {
                Some(k) => k < i && chosen(vs.take(i as int), *hw) == Some(k as int),
                None => chosen(vs.take(i as int), *hw) is None,
            },
        decreases backend.variants.len() - i,
    {
        assert(vs.take(i + 1).drop_last() =~= vs.take(i as int));
        assert(vs.take(i + 1).last() == vs[i as int]);
        if variant_is_compatible(&backend.variants[i], hw) {
            match best {
                Some(k) => {
                    assert(vs.take(i + 1)[k as int] == vs[k as int]);
                    if variant_rank(&backend.variants[i], hw) < variant_rank(
                        &backend.variants[k],
                        hw,
                    ) {
                        best = Some(i);
                    }
                },
                None => {
                    best = Some(i);
                },
            }
        }
        i += 1;
    }
    assert(vs.take(backend.variants.len() as int) =~= vs);
    best
}

/// The first stated reason why no runtime is delivered.
pub open spec fn delivery_reason(variants: Seq<BackendVariant>) -> Option<Seq<char>>
    decreases variants.len(),
{
    if variants.len() == 0 {
        None
    } else if variants[0].runtime_delivery_reason@.len() > 0 {
        Some(variants[0].runtime_delivery_reason@)
    } else {
        delivery_reason(variants.drop_first())
    }
}

pub open spec fn supports_platform(v: BackendVariant, platform: Seq<char>) -> bool {
    v.platforms@.len() == 0 || text::lists(v.platforms@, platform)
}

/// Why a backend has no variant for a machine.
pub open spec fn reason_of(b: BackendDefinition, hw: HardwareProfile) -> Seq<char> {
    let vs = b.variants@;
    if forall|i: int| 0 <= i < vs.len() ==> !(#[trigger] vs[i]).published {
        match delivery_reason(vs) {
            Some(r) => r,
            None => "runtime image is not published"@,
        }
    } else if !exists|i: int| 0 <= i < vs.len() && supports_platform(#[trigger] vs[i], hw.platform@) {
        "not supported on "@ + hw.platform@
    } else if !(exists|i: int| 0 <= i < vs.len() && (#[trigger] vs[i]).stable)
        && !hw.allow_experimental {
        "only experimental variants are registered"@
    } else {
        "no compatible variant for vendor="@ + hw.vendor@ + " accelerators="@ + text::joined(
            text::views(hw.accelerators@),
            ","@,
        )
    }
}

fn first_delivery_reason(variants: &Vec<BackendVariant>) -> (r: Option<String>)
    ensures
        opt_view(r) == delivery_reason(variants@),
{
    let mut i: usize = 0;
    assert(variants@.skip(0) =~= variants@);
    while i < variants.len()
        invariant
            i <= variants.len(),
            delivery_reason(variants@) == delivery_reason(variants@.skip(i as int)),
        decreases variants.len() - i,
    {
        assert(variants@.skip(i as int)[0] == variants@[i as int]);
        if !variants[i].runtime_delivery_reason.as_str().is_empty() {
            return Some(variants[i].runtime_delivery_reason.clone());
        }
        assert(variants@.skip(i as int).drop_first() =~= variants@.skip(i + 1));
        i += 1;
    }
    None
}

pub fn incompatibility_reason(backend: &BackendDefinition, hw: &HardwareProfile) -> (r: String)
    ensures
        r@ == reason_of(*backend, *hw),
{
    let ghost vs = backend.variants@;
    let mut any_published: bool = false;
    let mut any_platform: bool = false;
    let mut any_stable: bool = false;
    let mut i: usize = 0;
    while i < backend.variants.len()
        invariant
            vs == backend.variants@,
            i <= backend.variants.len(),
            any_published == exists|j: int| 0 <= j < i && (#[trigger] vs[j]).published,
            any_platform == exists|j: int|
                0 <= j < i && supports_platform(#[trigger] vs[j], hw.platform@),
            any_stable == exists|j: int| 0 <= j < i && (#[trigger] vs[j]).stable,
        decreases backend.variants.len() - i,
    {
        let v: &BackendVariant = &backend.variants[i];
        assert(vs[i as int] == *v);
        if v.published {
            any_published = true;
        }
        if v.platforms.is_empty() || text::listed(&v.platforms, hw.platform.as_str()) {
            assert(supports_platform(vs[i as int], hw.platform@));
            any_platform = true;
        }
        if v.stable {
            any_stable = true;
        }
        i += 1;
    }
    if !any_published {
        return match first_delivery_reason(&backend.variants) {
            Some(r) => r,
            None => String::from_str("runtime image is not published"),
        };
    }
    if !any_platform {
        return String::from_str("not supported on ").concat(hw.platform.as_str());
    }
    if !any_stable && !hw.allow_experimental {
        return String::from_str("only experimental variants are registered");
    }
    let list: String = text::join(&hw.accelerators, ",");
    let mut r: String = String::from_str("no compatible variant for vendor=");
    r.append(hw.vendor.as_str());
    r.append(" accelerators=");
    r.append(list.as_str());
    r
}

pub open spec fn endpoint_of(v: BackendVariant, in_container: bool) -> Seq<char> {
    if in_container || v.native_endpoint@.len() == 0 {
        v.endpoint@
    } else {
        v.native_endpoint@
    }
}

/// The endpoint of a variant, as seen from inside or outside a container.
pub fn endpoint_for(variant: &BackendVariant, in_container: bool) -> (r: String)
    ensures
        r@ == endpoint_of(*variant, in_container),
{
    if in_container || variant.native_endpoint.as_str().is_empty() {
        variant.endpoint.clone()
    } else {
        variant.native_endpoint.clone()
    }
}

// ---------------------------------------------------------------------------
// Resolved catalog
// ---------------------------------------------------------------------------

#[derive(Debug)]
pub struct CatalogBackendStatus {
    pub backend: BackendDefinition,
    pub available: bool,
    /// Compatible with the machine, installed or not.
    pub compatible: bool,
    /// The selected runtime can be activated at once.
    pub activatable: bool,
    pub reason: String,
    pub selected_variant: Option<BackendVariant>,
    pub variant_id: String,
    pub installed: bool,
    pub download_state: String,
    pub download_size_bytes: u64,
    pub downloaded_bytes: u64,
    pub deletable: bool,
    pub download_error: String,
    pub host_managed: bool,
    pub runtime_state: String,
    pub runtime_reason: String,
    pub image_download_size_bytes: u64,
    /// Some artifact needs authentication.
    pub auth_required: bool,
    pub hf_token_configured: bool,
}

pub open spec fn same_variants(a: Seq<BackendVariant>, b: Seq<BackendVariant>) -> bool {
    a.len() == b.len() && forall|i: int|
        #![trigger a[i]]
        #![trigger b[i]]
        0 <= i < a.len() ==> same_variant(a[i], b[i])
}

/// Whether two definitions agree in all that a variant cannot override.
pub open spec fn same_backend(a: BackendDefinition, b: BackendDefinition) -> bool {
    &&& a.id == b.id
    &&& a.stage == b.stage
    &&& a.name == b.name
    &&& a.tag == b.tag
    &&& a.description == b.description
    &&& a.model == b.model
    &&& a.default_voice == b.default_voice
    &&& a.voices@ == b.voices@
    &&& a.voice_mode == b.voice_mode
    &&& a.native_sample_rate == b.native_sample_rate
    &&& a.languages@ == b.languages@
    &&& a.licenses@ == b.licenses@
    &&& a.access_url == b.access_url
    &&& a.resources == b.resources
    &&& same_variants(a.variants@, b.variants@)
}

fn clone_variants(v: &Vec<BackendVariant>) -> (r: Vec<BackendVariant>)
    ensures
        same_variants(r@, v@),
{
    let mut r: Vec<BackendVariant> = Vec::new();
    let mut i: usize = 0;
    while i < v.len()
        invariant
            i <= v.len(),
            r@.len() == i,
            forall|j: int| 0 <= j < i ==> same_variant(#[trigger] r@[j], v@[j]),
        decreases v.len() - i,
    {
        r.push(v[i].clone());
        i += 1;
    }
    r
}

impl Clone for BackendDefinition {
    fn clone(&self) -> (r: Self)
        ensures
            same_backend(r, *self),
            r.protocol == self.protocol,
            r.bundled == self.bundled,
            r.artifacts@ == self.artifacts@,
    {
        BackendDefinition {
            id: self.id.clone(),
            stage: self.stage,
            name: self.name.clone(),
            tag: self.tag.clone(),
            description: self.description.clone(),
            protocol: self.protocol.clone(),
            model: self.model.clone(),
            default_voice: self.default_voice.clone(),
            voices: clone_texts(&self.voices),
            voice_mode: self.voice_mode,
            native_sample_rate: self.native_sample_rate,
            languages: clone_texts(&self.languages),
            licenses: clone_texts(&self.licenses),
            access_url: self.access_url.clone(),
            resources: self.resources,
            bundled: self.bundled,
            artifacts: clone_artifacts(&self.artifacts),
            variants: clone_variants(&self.variants),
        }
    }
}

/// The sum of the artifact sizes.
pub open spec fn total_size(artifacts: Seq<ModelArtifact>) -> nat
    decreases artifacts.len(),
{
    if artifacts.len() == 0 {
        0
    } else {
        total_size(artifacts.drop_last()) + artifacts.last().size as nat
    }
}

proof fn lemma_total_grows(artifacts: Seq<ModelArtifact>, i: int)
    requires
        0 <= i <= artifacts.len(),
    ensures
        total_size(artifacts.take(i)) <= total_size(artifacts),
    decreases artifacts.len() - i,
{
    if i == artifacts.len() {
        assert(artifacts.take(i) =~= artifacts);
    } else {
        lemma_total_grows(artifacts, i + 1);
        assert(artifacts.take(i + 1).drop_last() =~= artifacts.take(i));
    }
}

pub fn sum_sizes(artifacts: &[ModelArtifact]) -> (r: u64)
    requires
        total_size(artifacts@) <= u64::MAX,
    ensures
        r == total_size(artifacts@),
{
    let mut sum: u64 = 0;
    let mut i: usize = 0;
    while i < artifacts.len()
        invariant
            i <= artifacts.len(),
            sum == total_size(artifacts@.take(i as int)),
            total_size(artifacts@) <= u64::MAX,
        decreases artifacts.len() - i,
    {
        proof {
            lemma_total_grows(artifacts@, i + 1);
        }
        assert(artifacts@.take(i + 1).drop_last() =~= artifacts@.take(i as int));
        sum = sum + artifacts[i].size;
        i += 1;
    }
    assert(artifacts@.take(artifacts.len() as int) =~= artifacts@);
    sum
}

/// Whether the download sizes of a backend fit their type.
pub open spec fn sizes_fit(b: BackendDefinition) -> bool {
    &&& total_size(b.artifacts@) <= u64::MAX
    &&& forall|k: int|
        0 <= k < b.variants@.len() ==> total_size((#[trigger] b.variants@[k]).artifacts@)
            <= u64::MAX
}

/// Whether some sizes can be added up.
fn can_add_up(artifacts: &[ModelArtifact]) -> (r: bool)
    ensures
        r == (total_size(artifacts@) <= u64::MAX),
{
    let mut sum: u64 = 0;
    let mut i: usize = 0;
    while i < artifacts.len()
        invariant
            i <= artifacts.len(),
            sum == total_size(artifacts@.take(i as int)),
        decreases artifacts.len() - i,
    {
        proof {
            lemma_total_grows(artifacts@, i + 1);
        }
        assert(artifacts@.take(i + 1).drop_last() =~= artifacts@.take(i as int));
        if artifacts[i].size > u64::MAX - sum {
            return false;
        }
        sum = sum + artifacts[i].size;
        i += 1;
    }
    assert(artifacts@.take(artifacts.len() as int) =~= artifacts@);
    true
}

/// Checks that the download sizes of a backend fit their type.
pub fn check_sizes(b: &BackendDefinition) -> (r: Result<(), String>)
    ensures
        reports(
            r,
            if sizes_fit(*b) {
                None
            } else {
                Some("artifact sizes of backend '"@ + b.id@ + "' overflow"@)
            },
        ),
{
    let mut fit: bool = can_add_up(b.artifacts.as_slice());
    let mut k: usize = 0;
    while k < b.variants.len()
        invariant
            k <= b.variants.len(),
            fit == (total_size(b.artifacts@) <= u64::MAX && forall|j: int|
                0 <= j < k ==> total_size((#[trigger] b.variants@[j]).artifacts@) <= u64::MAX),
        decreases b.variants.len() - k,
    {
        fit = fit && can_add_up(b.variants[k].artifacts.as_slice());
        k += 1;
    }
    if fit {
        Ok(())
    } else {
        Err(wrap("artifact sizes of backend '", b.id.as_str(), "' overflow"))
    }
}

/// The state of a runtime before anything is known of it.
pub open spec fn initial_runtime_state(v: BackendVariant) -> Seq<char> {
    if v.host_profile@.len() > 0 {
        "host_module_delivery_pending"@
    } else if v.container@.len() > 0 {
        "missing"@
    } else {
        "external"@
    }
}

/// Whether a status describes a backend on a machine, before any runtime or
/// download state is known.
pub open spec fn describes(
    st: CatalogBackendStatus,
    b: BackendDefinition,
    hw: HardwareProfile,
) -> bool {
    let pick = chosen(b.variants@, hw);
    let bundled = match pick {
        Some(k) => bundled_of(b, b.variants@[k]),
        None => b.bundled,
    };
    let artifacts = match pick {
        Some(k) => artifacts_of(b, b.variants@[k]),
        None => b.artifacts@,
    };
    let host = pick matches Some(k) && b.variants@[k].host_profile@.len() > 0;
    &&& same_backend(st.backend, b)
    &&& st.backend.bundled == bundled
    &&& st.backend.artifacts@ == artifacts
    &&& st.backend.protocol@ == match pick {
        Some(k) => protocol_of(b, b.variants@[k]),
        None => b.protocol@,
    }
    &&& match pick {
        Some(k) => st.selected_variant matches Some(v) && same_variant(v, b.variants@[k]),
        None => st.selected_variant is None,
    }
    &&& st.available == pick is Some
    &&& st.compatible == pick is Some
    &&& st.activatable == (pick is Some && !host)
    &&& st.reason@ == if pick is Some {
        ""@
    } else {
        reason_of(b, hw)
    }
    &&& st.variant_id@ == match pick {
        Some(k) => b.variants@[k].id@,
        None => ""@,
    }
    &&& st.installed == bundled
    &&& st.download_state@ == if bundled {
        "bundled"@
    } else {
        "missing"@
    }
    &&& st.download_size_bytes == total_size(artifacts)
    &&& st.downloaded_bytes == 0
    &&& st.deletable == !bundled
    &&& st.download_error@ == ""@
    &&& st.host_managed == host
    &&& st.runtime_state@ == match pick {
        Some(k) => initial_runtime_state(b.variants@[k]),
        None => "unavailable"@,
    }
    &&& st.runtime_reason@ == if host {
        "managed Windows host-module delivery is not installed"@
    } else {
        ""@
    }
    &&& st.image_download_size_bytes == match pick {
        Some(k) => b.variants@[k].image_download_size_bytes,
        None => 0,
    }
    &&& st.auth_required == any_gated(artifacts)
    &&& !st.hf_token_configured
}

fn resolve_backend(b: &BackendDefinition, hw: &HardwareProfile) -> (r: CatalogBackendStatus)
    requires
        sizes_fit(*b),
    ensures
        describes(r, *b, *hw),
{
    let mut backend: BackendDefinition = b.clone();
    match resolve_index(b, hw) {
        Some(k) => {
            let v: &BackendVariant = &b.variants[k];
            let bundled: bool = variant_bundled(b, v);
            let host_managed: bool = !v.host_profile.as_str().is_empty();
            if !v.artifacts.is_empty() {
                backend.artifacts = clone_artifacts(&v.artifacts);
            }
            backend.protocol = String::from_str(variant_protocol(b, v));
            backend.bundled = bundled;
            let download_size_bytes: u64 = sum_sizes(backend.artifacts.as_slice());
            let auth_required: bool = some_gated(backend.artifacts.as_slice());
            let runtime_state: String = if host_managed {
                String::from_str("host_module_delivery_pending")
            } else if !v.container.as_str().is_empty() {
                String::from_str("missing")
            } else {
                String::from_str("external")
            };
            CatalogBackendStatus {
                backend,
                available: true,
                compatible: true,
                activatable: !host_managed,
                reason: String::from_str(""),
                selected_variant: Some(v.clone()),
                variant_id: v.id.clone(),
                installed: bundled,
                download_state: if bundled {
                    String::from_str("bundled")
                } else {
                    String::from_str("missing")
                },
                download_size_bytes,
                downloaded_bytes: 0,
                deletable: !bundled,
                download_error: String::from_str(""),
                host_managed,
                runtime_state,
                runtime_reason: if host_managed {
                    String::from_str("managed Windows host-module delivery is not installed")
                } else {
                    String::from_str("")
                },
                image_download_size_bytes: v.image_download_size_bytes,
                auth_required,
                hf_token_configured: false,
            }
        },
        None => {
            let bundled: bool = b.bundled;
            let download_size_bytes: u64 = sum_sizes(backend.artifacts.as_slice());
            let auth_required: bool = some_gated(backend.artifacts.as_slice());
            CatalogBackendStatus {
                backend,
                available: false,
                compatible: false,
                activatable: false,
                reason: incompatibility_reason(b, hw),
                selected_variant: None,
                variant_id: String::from_str(""),
                installed: bundled,
                download_state: if bundled {
                    String::from_str("bundled")
                } else {
                    String::from_str("missing")
                },
                download_size_bytes,
                downloaded_bytes: 0,
                deletable: !bundled,
                download_error: String::from_str(""),
                host_managed: false,
                runtime_state: String::from_str("unavailable"),
                runtime_reason: String::from_str(""),
                image_download_size_bytes: 0,
                auth_required,
                hf_token_configured: false,
            }
        },
    }
}

impl BackendCatalog {
    /// The status of every backend on a machine, in catalog order.
    pub fn resolved(&self, hw: &HardwareProfile) -> (r: Vec<CatalogBackendStatus>)
        requires
            forall|i: int| 0 <= i < self.backends@.len() ==> sizes_fit(#[trigger] self.backends@[i]),
        ensures
            r@.len() == self.backends@.len(),
            forall|i: int| 0 <= i < r@.len() ==> describes(#[trigger] r@[i], self.backends@[i], *hw),
    {
        let mut r: Vec<CatalogBackendStatus> = Vec::new();
        let mut i: usize = 0;
        while i < self.backends.len()
            invariant
                forall|i: int|
                    0 <= i < self.backends@.len() ==> sizes_fit(#[trigger] self.backends@[i]),
                i <= self.backends.len(),
                r@.len() == i,
                forall|j: int|
                    0 <= j < i ==> describes(#[trigger] r@[j], self.backends@[j], *hw),
            decreases self.backends.len() - i,
        {
            assert(sizes_fit(self.backends@[i as int]));
            r.push(resolve_backend(&self.backends[i], hw));
            i += 1;
        }
        r
    }
}

/// Of the variants that can run on a machine the one chosen is of the first kind in
/// the order Vulkan, CUDA on an NVIDIA machine, SYCL on an Intel one, the CPU, a
/// remote endpoint, anything else; of one kind it is the first.
pub proof fn law_order_of_kinds(variants: Seq<BackendVariant>, hw: HardwareProfile, j: int)
    requires
        0 <= j < variants.len(),
        matches_hardware(variants[j], hw),
    ensures
        chosen(variants, hw) is Some,
        ({
            let k = chosen(variants, hw).unwrap();
            let got = variants[k].accelerator@;
            let is = variants[j].accelerator@;
            &&& 0 <= k < variants.len()
            &&& matches_hardware(variants[k], hw)
            &&& is == got ==> k <= j
            &&& is == "vulkan"@ ==> got == "vulkan"@
            &&& is == "cuda"@ && hw.vendor@ == "nvidia"@ ==> got == "vulkan"@ || got == "cuda"@
            &&& is == "sycl"@ && hw.vendor@ == "intel"@ ==> got == "vulkan"@ || got == "sycl"@
            &&& is == "cpu"@ ==> got == "vulkan"@ || got == "cpu"@ || (got == "cuda"@
                && hw.vendor@ == "nvidia"@) || (got == "sycl"@ && hw.vendor@ == "intel"@)
            &&& is == "remote"@ ==> got == "vulkan"@ || got == "cpu"@ || got == "remote"@ || (got
                == "cuda"@ && hw.vendor@ == "nvidia"@) || (got == "sycl"@ && hw.vendor@
                == "intel"@)
            &&& k <= j || got == "vulkan"@ || got == "cpu"@ || got == "remote"@ || (got
                == "cuda"@ && hw.vendor@ == "nvidia"@) || (got == "sycl"@ && hw.vendor@
                == "intel"@)
        }),
{
    law_chosen_variant(variants, hw);
    reveal_strlit("vulkan");
    reveal_strlit("cuda");
    reveal_strlit("sycl");
    reveal_strlit("cpu");
    reveal_strlit("remote");
    reveal_strlit("nvidia");
    reveal_strlit("intel");
    assert("nvidia"@.len() != "intel"@.len());
    assert("vulkan"@.len() == 6 && "cuda"@.len() == 4 && "sycl"@.len() == 4 && "cpu"@.len() == 3
        && "remote"@.len() == 6);
    assert("vulkan"@[0] == 'v' && "remote"@[0] == 'r' && "cuda"@[0] == 'c' && "sycl"@[0] == 's');
}

/// A variant is chosen only if it can run: it is published, its maker lists the
/// vendor and the platform or leaves them open, the machine has its accelerator or
/// it is remote, one of its patterns is in the name of the device, whatever the
/// case, and it is stable or experiments are allowed. A variant of which all this
/// holds is never passed over for want of another.
pub proof fn law_runs_where_it_can(variants: Seq<BackendVariant>, hw: HardwareProfile, j: int)
    requires
        0 <= j < variants.len(),
    ensures
        chosen(variants, hw) == Some(j) ==> {
            let v = variants[j];
            &&& v.published
            &&& v.vendors@.len() > 0 ==> exists|i: int|
                0 <= i < v.vendors@.len() && ((#[trigger] v.vendors@[i])@ == "any"@
                    || v.vendors@[i]@ == hw.vendor@)
            &&& v.platforms@.len() > 0 ==> exists|i: int|
                0 <= i < v.platforms@.len() && (#[trigger] v.platforms@[i])@ == hw.platform@
            &&& v.accelerator@ != "remote"@ ==> exists|i: int|
                0 <= i < hw.accelerators@.len() && (#[trigger] hw.accelerators@[i])@
                    == v.accelerator@
            &&& v.device_match@.len() > 0 ==> exists|i: int|
                0 <= i < v.device_match@.len() && text::has(
                    text::lower(hw.device_name@),
                    text::lower((#[trigger] v.device_match@[i])@),
                )
            &&& !v.stable ==> hw.allow_experimental
        },
        ({
            let v = variants[j];
            &&& v.published
            &&& v.stable || hw.allow_experimental
            &&& v.vendors@.len() == 0 || exists|i: int|
                0 <= i < v.vendors@.len() && ((#[trigger] v.vendors@[i])@ == "any"@
                    || v.vendors@[i]@ == hw.vendor@)
            &&& v.platforms@.len() == 0 || exists|i: int|
                0 <= i < v.platforms@.len() && (#[trigger] v.platforms@[i])@ == hw.platform@
            &&& v.accelerator@ == "remote"@ || exists|i: int|
                0 <= i < hw.accelerators@.len() && (#[trigger] hw.accelerators@[i])@
                    == v.accelerator@
            &&& v.device_match@.len() == 0 || exists|i: int|
                0 <= i < v.device_match@.len() && text::has(
                    text::lower(hw.device_name@),
                    text::lower((#[trigger] v.device_match@[i])@),
                )
        }) ==> chosen(variants, hw) is Some,
{
    law_chosen_variant(variants, hw);
}

/// What a variant says of its model goes before what its backend says, and what it
/// leaves open is as its backend says.
pub proof fn law_variant_overrides(b: BackendDefinition, v: BackendVariant)
    ensures
        v.artifacts@.len() > 0 ==> artifacts_of(b, v) == v.artifacts@,
        v.artifacts@.len() == 0 ==> artifacts_of(b, v) == b.artifacts@,
        v.bundled is Some ==> bundled_of(b, v) == v.bundled.unwrap(),
        v.bundled is None ==> bundled_of(b, v) == b.bundled,
        v.protocol@.len() > 0 ==> protocol_of(b, v) == v.protocol@,
        v.protocol@.len() == 0 ==> protocol_of(b, v) == b.protocol@,
{
}

/// The size of a model is that of all its files together.
pub proof fn law_total_size(a: Seq<ModelArtifact>, b: Seq<ModelArtifact>, x: ModelArtifact)
    ensures
        total_size(a + b) == total_size(a) + total_size(b),
        total_size(seq![x]) == x.size,
        total_size(Seq::empty()) == 0,
    decreases b.len(),
{
    assert(seq![x].drop_last() =~= Seq::empty());
    assert(total_size(Seq::<ModelArtifact>::empty()) == 0);
    if b.len() == 0 {
        assert(a + b =~= a);
    } else {
        law_total_size(a, b.drop_last(), x);
        assert((a + b).drop_last() =~= a + b.drop_last());
    }
}

/// A path of an artifact stays below its root: none from the top, none with a
/// backslash or a zero, and none that goes up at its start or at its end.
pub proof fn law_safe_paths(path: Seq<char>, name: Seq<char>, i: int)
    requires
        forall|k: int| 0 <= k < name.len() ==> #[trigger] name[k] != '/',
    ensures
        path.len() > 0 && path[0] == '/' ==> !is_safe_path(path),
        0 <= i < path.len() && (path[i] == '\\' || path[i] == '\0') ==> !is_safe_path(path),
        !is_safe_path(".."@),
        !is_safe_path(".."@.push('/') + path),
        !is_safe_path(name.push('/') + ".."@),
        !is_safe_path(name.push('/') + (".."@.push('/') + path)),
        name != ".."@ && !name.contains('\\') && !name.contains('\0') ==> is_safe_path(name),
{
    reveal_strlit("..");
    let up = ".."@;
    lemma_split_one(up);
    assert(text::split(up, '/')[0] == up);
    lemma_split_head(up, path);
    assert(text::split(up.push('/') + path, '/')[0] == up);
    lemma_split_head(name, up);
    assert(text::split(name.push('/') + up, '/')[1] == up);
    lemma_split_head(name, up.push('/') + path);
    assert(text::split(name.push('/') + (up.push('/') + path), '/')[1] == up);
    lemma_split_one(name);
    if 0 <= i < path.len() && (path[i] == '\\' || path[i] == '\0') {
        assert(path.contains(path[i]));
    }
    if name.len() > 0 {
        assert(name[0] != '/');
    }
    if name != up && text::split(name, '/').contains(up) {
        let k = choose|k: int|
            0 <= k < text::split(name, '/').len() && text::split(name, '/')[k] == up;
        assert(text::split(name, '/')[k] == name);
    }
}

proof fn lemma_split_one(s: Seq<char>)
    requires
        forall|k: int| 0 <= k < s.len() ==> #[trigger] s[k] != '/',
    ensures
        text::split(s, '/') == seq![s],
{
    text::lemma_first_char_is(s, '/', s.len() as int);
}

proof fn lemma_split_head(a: Seq<char>, b: Seq<char>)
    requires
        forall|k: int| 0 <= k < a.len() ==> #[trigger] a[k] != '/',
    ensures
        text::split(a.push('/') + b, '/') == seq![a] + text::split(b, '/'),
{
    let s = a.push('/') + b;
    assert(s[a.len() as int] == '/');
    assert forall|k: int| 0 <= k < a.len() implies s[k] != '/' by {
        assert(s[k] == a[k]);
    }
    text::lemma_first_char_is(s, '/', a.len() as int);
    assert(s.take(a.len() as int) =~= a);
    assert(s.skip((a.len() + 1) as int) =~= b);
}

/// An id has small letters, digits, hyphens and dots, and at least one of them.
pub proof fn law_ids(id: Seq<char>, kind: Seq<char>)
    ensures
        id_fault(id, kind) is None <==> id.len() > 0 && forall|i: int|
            0 <= i < id.len() ==> ('a' <= #[trigger] id[i] <= 'z') || ('0' <= id[i] <= '9') || id[i]
                == '-' || id[i] == '.',
{
    if id_fault(id, kind) is None {
        assert forall|i: int| 0 <= i < id.len() implies ('a' <= #[trigger] id[i] <= 'z') || ('0'
            <= id[i] <= '9') || id[i] == '-' || id[i] == '.' by {
            assert(is_id_char(id[i]));
        }
    }
}

/// An artifact is accepted if its path is safe, its checksum, where it has one, has 64
/// hexadecimal digits, and it comes over HTTP; one that needs access comes from
/// Hugging Face over HTTPS and is pinned.
pub proof fn law_artifacts(owner: Seq<char>, a: ModelArtifact)
    ensures
        artifact_fault(owner, a) is None ==> {
            &&& is_safe_path(a.path@)
            &&& a.sha256@.len() == 0 || a.sha256@.len() == 64
            &&& forall|i: int|
                0 <= i < a.sha256@.len() ==> ('0' <= #[trigger] a.sha256@[i] <= '9') || ('a'
                    <= a.sha256@[i] <= 'f') || ('A' <= a.sha256@[i] <= 'F')
            &&& text::starts_with(a.source@, "https://"@) || text::starts_with(
                a.source@,
                "http://"@,
            )
            &&& a.auth@.len() == 0 || a.auth@ == "huggingface"@
            &&& a.auth@ == "huggingface"@ ==> a.sha256@.len() == 64 && a.size > 0
                && text::starts_with(a.source@, "https://huggingface.co/"@)
        },
        is_safe_path(a.path@) && a.sha256@.len() == 0 && text::starts_with(a.source@, "https://"@)
            && a.auth@.len() == 0 ==> artifact_fault(owner, a) is None,
{
    reveal_strlit("huggingface");
    assert("huggingface"@.len() == 11);
    if artifact_fault(owner, a) is None && a.sha256@.len() > 0 {
        assert forall|i: int| 0 <= i < a.sha256@.len() implies ('0' <= #[trigger] a.sha256@[i]
            <= '9') || ('a' <= a.sha256@[i] <= 'f') || ('A' <= a.sha256@[i] <= 'F') by {
            assert(text::is_hex_digit(a.sha256@[i]));
        }
    }
}

/// The first fault of a list is the one that is told, and none only if nothing is at
/// fault.
pub proof fn law_first_fault(n: int, check: spec_fn(int) -> Option<Seq<char>>, i: int)
    requires
        0 <= i < n,
    ensures
        check(i) is Some && (forall|j: int| 0 <= j < i ==> (#[trigger] check(j)) is None) ==> first_of(
            n,
            check,
        ) == check(i),
        first_of(n, check) is None ==> check(i) is None,
    decreases n,
{
    if i < n - 1 {
        law_first_fault(n - 1, check, i);
    } else if check(i) is Some && (forall|j: int| 0 <= j < i ==> (#[trigger] check(j)) is None) {
        lemma_no_fault(i, check);
    }
}

proof fn lemma_no_fault(n: int, check: spec_fn(int) -> Option<Seq<char>>)
    requires
        forall|j: int| 0 <= j < n ==> (#[trigger] check(j)) is None,
    ensures
        first_of(n, check) is None,
    decreases n,
{
    if n > 0 {
        lemma_no_fault(n - 1, check);
    }
}

/// The class of a machine: with a host agent and Vulkan the host's; else by the memory
/// of its card, fourteen gigabytes or more and six or more; a card of unknown memory
/// counts as the smaller.
pub proof fn law_classes_of_machines(hw: HardwareProfile, i: int)
    requires
        0 <= i < hw.accelerators@.len(),
    ensures
        hw.host_agent_online && hw.accelerators@[i]@ == "vulkan"@ ==> tier_of(hw) == "host-vulkan"@,
        !hw.host_agent_online && hw.vram_total_gb is Some && hw.vram_total_gb.unwrap()
            >= 0x4160_0000 ==> tier_of(hw) == "gpu-16gb+"@,
        !hw.host_agent_online && hw.vram_total_gb is Some && 0x40c0_0000
            <= hw.vram_total_gb.unwrap() < 0x4160_0000 ==> tier_of(hw) == "gpu-8gb"@,
        !hw.host_agent_online && hw.vram_total_gb is None && hw.vram_free_gb is None && (
        hw.accelerators@[i]@ == "vulkan"@ || hw.accelerators@[i]@ == "cuda"@ || hw.accelerators@[i]@
            == "sycl"@) ==> tier_of(hw) == "gpu-8gb"@,
        hw.vram_total_gb is None && hw.vram_free_gb is None && (forall|k: int|
            0 <= k < hw.accelerators@.len() ==> (#[trigger] hw.accelerators@[k])@ != "vulkan"@
                && hw.accelerators@[k]@ != "cuda"@ && hw.accelerators@[k]@ != "sycl"@) ==> tier_of(hw)
            == "cpu-light"@,
{
    assert(text::lists(hw.accelerators@, hw.accelerators@[i]@));
}

/// A class that is set is taken, in small letters; a blank one is not.
pub proof fn law_forced_class(forced: Seq<char>, hw: HardwareProfile)
    ensures
        text::trim(forced).len() > 0 ==> tier_with(Some(forced), hw) == text::lower(
            text::trim(forced),
        ),
        text::trim(forced).len() == 0 ==> tier_with(Some(forced), hw) == tier_of(hw),
        tier_with(None, hw) == tier_of(hw),
{
}

/// The vendor of a card is in its name, in any case.
pub proof fn law_vendors(name: Seq<char>)
    ensures
        ({
            let n = text::lower(name);
            &&& text::has(n, "nvidia"@) ==> vendor_of(name) == "nvidia"@
            &&& !text::has(n, "nvidia"@) && (text::has(n, "amd"@) || text::has(n, "radeon"@))
                ==> vendor_of(name) == "amd"@
            &&& !text::has(n, "nvidia"@) && !text::has(n, "amd"@) && !text::has(n, "radeon"@) && (
            text::has(n, "intel"@) || text::has(n, "arc"@)) ==> vendor_of(name) == "intel"@
            &&& !text::has(n, "nvidia"@) && !text::has(n, "amd"@) && !text::has(n, "radeon"@)
                && !text::has(n, "intel"@) && !text::has(n, "arc"@) ==> vendor_of(name)
                == "unknown"@
        }),
{
}

/// What counts as yes, and which platforms are known.
pub proof fn law_settings(v: String, platform: Seq<char>)
    ensures
        truthy(Some(v)) <==> text::lower(v@) == "1"@ || text::lower(v@) == "true"@ || text::lower(
            v@,
        ) == "yes"@ || text::lower(v@) == "on"@,
        !truthy(None),
        platform_of(platform) is Some <==> text::lower(text::trim(platform)) == "linux"@
            || text::lower(text::trim(platform)) == "windows"@ || text::lower(text::trim(platform))
            == "macos"@,
        platform_of(platform) is Some ==> platform_of(platform).unwrap() == text::lower(
            text::trim(platform),
        ),
{
}

/// A machine can use its CPU and the kind of every device that it has.
pub proof fn law_accelerators(all: Seq<DeviceView>, i: int)
    ensures
        accelerators_of(all, None).contains("cpu"@),
        0 <= i < all.len() ==> accelerators_of(all, None).contains(
            match all[i].kind {
                GpuKind::Vulkan => "vulkan"@,
                GpuKind::Cuda => "cuda"@,
                GpuKind::Sycl => "sycl"@,
                GpuKind::Cpu => "cpu"@,
            },
        ),
        accelerators_of(all, None).len() <= all.len() + 1,
{
    let base = kinds_listed(all);
    let r = with_new(base, "cpu"@);
    lemma_kinds_listed(all, i);
    lemma_with_new(base, "cpu"@);
    if 0 <= i < all.len() {
        let x = crate::gpu::kind_name(all[i].kind);
        let k = choose|k: int| 0 <= k < base.len() && base[k] == x;
        assert(r[k] == x);
    }
}

proof fn lemma_with_new(v: Seq<Seq<char>>, x: Seq<char>)
    ensures
        with_new(v, x).contains(x),
        v.len() <= with_new(v, x).len() <= v.len() + 1,
{
    if !v.contains(x) {
        assert(with_new(v, x)[v.len() as int] == x);
    }
}

proof fn lemma_kinds_listed(all: Seq<DeviceView>, i: int)
    ensures
        0 <= i < all.len() ==> kinds_listed(all).contains(crate::gpu::kind_name(all[i].kind)),
        kinds_listed(all).len() <= all.len(),
    decreases all.len(),
{
    if all.len() > 0 {
        let t = all.drop_last();
        lemma_kinds_listed(t, i);
        let base = kinds_listed(t);
        lemma_with_new(base, crate::gpu::kind_name(all.last().kind));
        if 0 <= i < t.len() {
            assert(t[i] == all[i]);
            let x = crate::gpu::kind_name(all[i].kind);
            let k = choose|k: int| 0 <= k < base.len() && base[k] == x;
            assert(kinds_listed(all)[k] == x);
        }
    }
}

/// Why a backend cannot be used: none of its variants is published, none is for the
/// platform, all are experimental, or none fits the machine.
pub proof fn law_reasons(b: BackendDefinition, hw: HardwareProfile, i: int)
    requires
        0 <= i < b.variants@.len(),
    ensures
        ({
            let vs = b.variants@;
            let none_published = forall|k: int|
                0 <= k < vs.len() ==> !(#[trigger] vs[k]).published;
            &&& none_published && vs[i].runtime_delivery_reason@.len() > 0 && (forall|k: int|
                0 <= k < i ==> (#[trigger] vs[k]).runtime_delivery_reason@.len() == 0) ==> reason_of(
                b,
                hw,
            ) == vs[i].runtime_delivery_reason@
            &&& vs[i].published && (forall|k: int|
                0 <= k < vs.len() ==> (#[trigger] vs[k]).platforms@.len() > 0 && !text::lists(
                    vs[k].platforms@,
                    hw.platform@,
                )) ==> reason_of(b, hw) == "not supported on "@ + hw.platform@
            &&& vs[i].published && vs[i].platforms@.len() == 0 && !hw.allow_experimental && (forall|
                k: int,
            |
                0 <= k < vs.len() ==> !(#[trigger] vs[k]).stable) ==> reason_of(b, hw)
                == "only experimental variants are registered"@
        }),
{
    lemma_delivery_reason(b.variants@, i);
    if b.variants@[i].platforms@.len() == 0 {
        assert(supports_platform(b.variants@[i], hw.platform@));
    }
}

proof fn lemma_delivery_reason(vs: Seq<BackendVariant>, i: int)
    requires
        0 <= i < vs.len(),
    ensures
        vs[i].runtime_delivery_reason@.len() > 0 && (forall|k: int|
            0 <= k < i ==> (#[trigger] vs[k]).runtime_delivery_reason@.len() == 0)
            ==> delivery_reason(vs) == Some(vs[i].runtime_delivery_reason@),
    decreases i,
{
    if i > 0 {
        let t = vs.drop_first();
        lemma_delivery_reason(t, i - 1);
        assert(t[i - 1] == vs[i]);
        if forall|k: int| 0 <= k < i ==> (#[trigger] vs[k]).runtime_delivery_reason@.len() == 0 {
            assert(vs[0].runtime_delivery_reason@.len() == 0);
            assert forall|k: int| 0 <= k < i - 1 implies (
            #[trigger] t[k]).runtime_delivery_reason@.len() == 0 by {
                assert(t[k] == vs[k + 1]);
            }
        }
    }
}

/// What a catalog shows of a backend: it is available exactly if a variant of it can
/// run on the machine, can be activated at once unless the host runs it, and counts as
/// installed exactly if its model is bundled.
pub proof fn law_shown_backend(st: CatalogBackendStatus, b: BackendDefinition, hw: HardwareProfile)
    requires
        describes(st, b, hw),
    ensures
        st.backend.id == b.id,
        st.available <==> chosen(b.variants@, hw) is Some,
        match chosen(b.variants@, hw) {
            Some(k) => {
                let v = b.variants@[k];
                &&& st.variant_id@ == v.id@
                &&& st.host_managed <==> v.host_profile@.len() > 0
                &&& st.activatable <==> v.host_profile@.len() == 0
                &&& v.host_profile@.len() == 0 && v.container@.len() > 0 ==> st.runtime_state@
                    == "missing"@
                &&& v.host_profile@.len() == 0 && v.container@.len() == 0 ==> st.runtime_state@
                    == "external"@
                &&& v.bundled is Some ==> st.installed == v.bundled.unwrap()
                &&& v.bundled is None ==> st.installed == b.bundled
                &&& st.reason@ == ""@
                &&& v.artifacts@.len() == 1 ==> st.download_size_bytes == v.artifacts@[0].size
            },
            None => !st.activatable && st.selected_variant is None && st.runtime_state@
                == "unavailable"@,
        },
        st.deletable <==> !st.installed,
{
    let pick = chosen(b.variants@, hw);
    if pick is Some {
        let v = b.variants@[pick.unwrap()];
        if v.artifacts@.len() == 1 {
            assert(v.artifacts@ =~= seq![v.artifacts@[0]]);
            law_total_size(Seq::empty(), Seq::empty(), v.artifacts@[0]);
        }
    }
}

/// A value that is given wins over the fallback, unless it is blank.
pub proof fn law_blank_values_fall_back(value: String, fallback: Seq<char>)
    ensures
        unless_blank(None, fallback) == fallback,
        (exists|i: int| 0 <= i < value@.len() && !text::is_space(#[trigger] value@[i]))
            ==> unless_blank(Some(value), fallback) == value@,
        (forall|i: int| 0 <= i < value@.len() ==> text::is_space(#[trigger] value@[i]))
            ==> unless_blank(Some(value), fallback) == fallback,
{
    text::law_trim(value@);
}

/// The first word of a text is what stands before its first white space, without the
/// white space in front of it.
pub proof fn law_first_word(blanks: Seq<char>, word: Seq<char>, c: char, rest: Seq<char>)
    requires
        forall|i: int| 0 <= i < blanks.len() ==> text::is_space(#[trigger] blanks[i]),
        forall|i: int| 0 <= i < word.len() ==> !text::is_space(#[trigger] word[i]),
        word.len() > 0,
        text::is_space(c),
    ensures
        first_word(blanks + word) == word,
        first_word(blanks + word + seq![c] + rest) == word,
    decreases blanks.len(),
{
    let s = blanks + word + seq![c] + rest;
    let short = blanks + word;
    if blanks.len() > 0 {
        let b = blanks.drop_first();
        assert(forall|i: int| 0 <= i < b.len() ==> #[trigger] b[i] == blanks[i + 1]);
        law_first_word(b, word, c, rest);
        assert(s.drop_first() =~= b + word + seq![c] + rest);
        assert(short.drop_first() =~= b + word);
        assert(s[0] == blanks[0] && short[0] == blanks[0]);
    } else {
        assert(s[0] == word[0] && short[0] == word[0]);
        lemma_first_space(word, seq![c] + rest);
        lemma_first_space(word, Seq::empty());
        assert(s =~= word + (seq![c] + rest));
        assert(short =~= word + Seq::<char>::empty());
        assert(s.take(word.len() as int) =~= word);
        assert(short.take(word.len() as int) =~= word);
    }
}

proof fn lemma_first_space(word: Seq<char>, rest: Seq<char>)
    requires
        forall|i: int| 0 <= i < word.len() ==> !text::is_space(#[trigger] word[i]),
        rest.len() == 0 || text::is_space(rest[0]),
    ensures
        first_space(word + rest) == word.len(),
    decreases word.len(),
{
    let s = word + rest;
    if word.len() > 0 {
        let w = word.drop_first();
        assert(forall|i: int| 0 <= i < w.len() ==> #[trigger] w[i] == word[i + 1]);
        lemma_first_space(w, rest);
        assert(s[0] == word[0]);
        assert(s.drop_first() =~= w + rest);
    } else {
        assert(s =~= rest);
    }
}

/// The word behind a label is taken from the first line that begins with the label;
/// without such a line, or without a word in it, there is none.
pub proof fn law_labelled_word(lines: Seq<Seq<char>>, label: Seq<char>, k: int)
    ensures
        0 <= k < lines.len() && text::starts_with(lines[k], label) && (forall|i: int|
            0 <= i < k ==> !text::starts_with(#[trigger] lines[i], label)) ==> match labelled_word(
            lines,
            label,
        ) {
            Some(w) => w.len() > 0 && w == first_word(lines[k].skip(label.len() as int)),
            None => first_word(lines[k].skip(label.len() as int)).len() == 0,
        },
        (forall|i: int| 0 <= i < lines.len() ==> !text::starts_with(#[trigger] lines[i], label))
            ==> labelled_word(lines, label) is None,
    decreases lines.len(),
{
    if lines.len() > 0 && !text::starts_with(lines[0], label) {
        let t = lines.drop_first();
        law_labelled_word(t, label, k - 1);
        assert(forall|i: int| 0 <= i < t.len() ==> #[trigger] t[i] == lines[i + 1]);
        if 0 < k < lines.len() {
            assert(t[k - 1] == lines[k]);
        }
    }
}

/// In a list in strictly ascending order no text stands twice.
pub proof fn law_ascending_texts(v: Seq<String>, i: int, j: int)
    requires
        ascending(v),
        0 <= i < v.len(),
        0 <= j < v.len(),
    ensures
        v[i]@ == v[j]@ ==> i == j,
        i < j ==> text::before(v[i]@, v[j]@),
{
    text::lemma_before_total(v[i]@, v[j]@);
}

/// Inside a container the address of the container network is used; outside it the
/// native one, where there is one.
pub proof fn law_addresses_of_a_variant(v: BackendVariant)
    ensures
        endpoint_of(v, true) == v.endpoint@,
        v.native_endpoint@.len() > 0 ==> endpoint_of(v, false) == v.native_endpoint@,
        v.native_endpoint@.len() == 0 ==> endpoint_of(v, false) == v.endpoint@,
{
}

/// A variant belongs to a backend if its id begins with that of the backend. Where
/// this ends in a version with a dot, it may also begin with what stands before it.
pub proof fn law_variants_of_a_backend(
    family: Seq<char>,
    version: Seq<char>,
    id: Seq<char>,
    rest: Seq<char>,
)
    requires
        !version.contains('-'),
        version.len() > 0,
    ensures
        belongs(id, id + rest),
        ({
            let b = family + seq!['-'] + version;
            &&& text::is_digit(version[0]) && version.contains('.') ==> belongs(
                b,
                family + seq!['-'] + rest,
            )
            &&& !text::is_digit(version[0]) || !version.contains('.') ==> forall|v: Seq<char>|
                #[trigger] belongs(b, v) ==> text::starts_with(v, b)
            &&& forall|v: Seq<char>| #[trigger] belongs(b, v) ==> text::starts_with(
                v,
                family + seq!['-'],
            )
        }),
{
    assert((id + rest).take(id.len() as int) =~= id);
    let head = family + seq!['-'];
    let b = head + version;
    lemma_last_dash(head, version);
    assert(b.skip(head.len() as int) =~= version);
    assert(b.take(head.len() as int) =~= head);
    assert(b[head.len() as int] == version[0]);
    assert((head + rest).take(head.len() as int) =~= head);
    assert(family + seq!['-'] + rest =~= head + rest);
    assert forall|v: Seq<char>| #[trigger] belongs(b, v) implies text::starts_with(v, head) by {
        if text::starts_with(v, b) {
            assert(v.take(head.len() as int) =~= v.take(b.len() as int).take(head.len() as int));
        }
    }
}

proof fn lemma_last_dash(head: Seq<char>, version: Seq<char>)
    requires
        head.len() > 0,
        head.last() == '-',
        !version.contains('-'),
    ensures
        last_char(head + version, '-') == head.len() - 1,
    decreases version.len(),
{
    let s = head + version;
    if version.len() > 0 {
        let v = version.drop_last();
        assert(s.last() == version.last());
        assert(version[version.len() - 1] != '-');
        if v.contains('-') {
            let i = choose|i: int| 0 <= i < v.len() && v[i] == '-';
            assert(version[i] == '-');
        }
        lemma_last_dash(head, v);
        assert(s.drop_last() =~= head + v);
    } else {
        assert(s =~= head);
    }
}

} // verus!
