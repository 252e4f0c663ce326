//! Downloading model files: what is fetched, what is kept for a later attempt, and
//! what is accepted.

use crate::digest::{checksum_is_expected, Checksum};
use crate::lab::{ModelActionResponse, ModelDownloadRequest};
use crate::registry::{
    resolve_index, some_gated, sum_sizes, variant_artifacts, variant_bundled, wrap, wrap2,
    BackendCatalog, BackendDefinition, BackendVariant, HardwareProfile, ModelArtifact,
};
use crate::text;
use vstd::prelude::*;

verus! {

// ---------------------------------------------------------------------------
// One attempt at one file
// ---------------------------------------------------------------------------

/// What an attempt begins with.
#[derive(Debug, Clone, Copy, PartialEq, Eq, Structural)]
pub enum AttemptStart {
    /// The partial file is larger than the file can be: remove it and begin anew.
    Discard,
    /// The partial file is complete; only its checksum is to be checked.
    Promote,
    /// Fetch the file from this byte on.
    Fetch { from: u64 },
}

pub open spec fn attempt_start(size: u64, existing: u64) -> AttemptStart {
    if size > 0 && existing > size {
        AttemptStart::Discard
    } else if size > 0 && existing == size {
        AttemptStart::Promote
    } else {
        AttemptStart::Fetch { from: existing }
    }
}

/// What to do with a partial file of a given length.
pub fn begin_attempt(artifact: &ModelArtifact, existing: u64) -> (r: AttemptStart)
    ensures
        r == attempt_start(artifact.size, existing),
{
    if artifact.size > 0 && existing > artifact.size {
        AttemptStart::Discard
    } else if artifact.size > 0 && existing == artifact.size {
        AttemptStart::Promote
    } else {
        AttemptStart::Fetch { from: existing }
    }
}

/// The error for a wrong checksum.
pub open spec fn mismatch(path: Seq<char>, what: Seq<char>, got: Seq<char>, expected: Seq<char>) -> Seq<char> {
    "artifact '"@ + path + what + got + ", expected "@ + expected
}

fn mismatch_text(path: &str, what: &str, got: &str, expected: &str) -> (r: String)
    ensures
        r@ == mismatch(path@, what@, got@, expected@),
{
    let mut m: String = wrap("artifact '", path, what);
    m.append(got);
    m.append(", expected ");
    m.append(expected);
    m
}

/// Checks a complete partial file by its checksum.
pub fn check_partial(artifact: &ModelArtifact, checksum: &str) -> (r: Result<u64, String>)
    ensures
        match r {
            Ok(n) => n == artifact.size && crate::digest::is_expected(
                artifact.sha256@,
                checksum@,
            ),
            Err(m) => !crate::digest::is_expected(artifact.sha256@, checksum@) && m@ == mismatch(
                artifact.path@,
                "' SHA-256 mismatch on partial: got "@,
                checksum@,
                artifact.sha256@,
            ),
        },
{
    if checksum_is_expected(artifact.sha256.as_str(), checksum) {
        Ok(artifact.size)
    } else {
        Err(
            mismatch_text(
                artifact.path.as_str(),
                "' SHA-256 mismatch on partial: got ",
                checksum,
                artifact.sha256.as_str(),
            ),
        )
    }
}

/// Whether a server goes on where a partial file ends.
pub fn resumes(existing: u64, status: u16) -> (r: bool)
    ensures
        r == (existing > 0 && status == 206),
{
    existing > 0 && status == 206
}

/// The value of the range header for a partial file.
pub fn range_header(existing: u64) -> (r: Option<String>)
    ensures
        match r {
            Some(h) => existing > 0 && h@ == "bytes="@ + text::decimal(existing as nat) + "-"@,
            None => existing == 0,
        },
{
    if existing == 0 {
        return None;
    }
    let n: String = text::decimal_of(existing);
    Some(wrap("bytes=", n.as_str(), "-"))
}

pub open spec fn first_token(a: Option<Seq<char>>, b: Option<Seq<char>>) -> Option<Seq<char>> {
    match a {
        Some(t) if text::trim(t).len() > 0 => Some(text::trim(t)),
        _ => b,
    }
}

/// The token to use: the one of the request, else the remembered one, else one of
/// the environment.
pub open spec fn token_in(
    request: Option<Seq<char>>,
    session: Option<Seq<char>>,
    env: Option<Seq<char>>,
    env_common: Option<Seq<char>>,
) -> Option<Seq<char>> {
    first_token(request, first_token(session, first_token(env, first_token(env_common, None))))
}

fn pick_token(a: &Option<String>, b: Option<String>) -> (r: Option<String>)
    ensures
        crate::registry::opt_view(r) == first_token(
            crate::registry::opt_view(*a),
            crate::registry::opt_view(b),
        ),
{
    match a {
        Some(t) => {
            let t: String = text::trimmed(t.as_str());
            if t.as_str().is_empty() {
                b
            } else {
                Some(t)
            }
        },
        None => b,
    }
}

/// The token of the environment.
pub fn env_hf_token(env: &Option<String>, env_common: &Option<String>) -> (r: Option<String>)
    ensures
        crate::registry::opt_view(r) == first_token(
            crate::registry::opt_view(*env),
            first_token(crate::registry::opt_view(*env_common), None),
        ),
{
    pick_token(env, pick_token(env_common, None))
}

pub fn resolve_hf_token(
    request: &Option<String>,
    session: &Option<String>,
    env: &Option<String>,
    env_common: &Option<String>,
) -> (r: Option<String>)
    ensures
        crate::registry::opt_view(r) == token_in(
            crate::registry::opt_view(*request),
            crate::registry::opt_view(*session),
            crate::registry::opt_view(*env),
            crate::registry::opt_view(*env_common),
        ),
{
    pick_token(request, pick_token(session, env_hf_token(env, env_common)))
}

/// Whether a token is known without one in the request.
pub fn hf_token_is_configured(
    session: &Option<String>,
    env: &Option<String>,
    env_common: &Option<String>,
) -> (r: bool)
    ensures
        r == (token_in(
            None,
            crate::registry::opt_view(*session),
            crate::registry::opt_view(*env),
            crate::registry::opt_view(*env_common),
        ) is Some),
{
    resolve_hf_token(&None, session, env, env_common).is_some()
}

pub const TOKEN_HINT: &'static str = " and enter a Hugging Face token in the Lab UI (or set HF_TOKEN server-side)";

/// The token for the request of a file; none for a file that is free.
pub fn artifact_token(
    artifact: &ModelArtifact,
    access_url: &str,
    token: Option<String>,
) -> (r: Result<Option<String>, String>)
    ensures
        match r {
            Ok(t) => if artifact.auth@ == "huggingface"@ {
                t is Some && t == token
            } else {
                t is None
            },
            Err(m) => artifact.auth@ == "huggingface"@ && token is None && m@ == "artifact '"@
                + artifact.path@
                + "' requires Hugging Face access. Accept the model terms at "@ + access_url@
                + TOKEN_HINT@,
        },
{
    if !text::same(artifact.auth.as_str(), "huggingface") {
        return Ok(None);
    }
    match token {
        Some(t) => Ok(Some(t)),
        None => Err(
            wrap2(
                "artifact '",
                artifact.path.as_str(),
                "' requires Hugging Face access. Accept the model terms at ",
                access_url,
                TOKEN_HINT,
            ),
        ),
    }
}

/// The error for a file that Hugging Face does not hand out.
pub fn access_fault(artifact: &ModelArtifact, access_url: &str, status: u16, status_text: &str) -> (r:
    Option<String>)
    ensures
        match r {
            Some(m) => {
                &&& artifact.auth@ == "huggingface"@
                &&& status == 401 || status == 403
                &&& m@ == "Hugging Face denied access to artifact '"@ + artifact.path@
                    + "' (HTTP "@ + status_text@ + "). Accept the model terms at "@ + access_url@
                    + " and verify the Hugging Face token (Lab UI or HF_TOKEN)"@
            },
            None => artifact.auth@ != "huggingface"@ || (status != 401 && status != 403),
        },
{
    if !text::same(artifact.auth.as_str(), "huggingface") || (status != 401 && status != 403) {
        return None;
    }
    let mut m: String = wrap2(
        "Hugging Face denied access to artifact '",
        artifact.path.as_str(),
        "' (HTTP ",
        status_text,
        "). Accept the model terms at ",
    );
    m.append(access_url);
    m.append(" and verify the Hugging Face token (Lab UI or HF_TOKEN)");
    Some(m)
}

/// A file that is being fetched: its bytes so far, those of the partial file
/// first.
pub struct Fetch {
    pub path: String,
    /// The length that is pinned; zero if none is.
    pub size: u64,
    /// The checksum that is pinned; empty if none is.
    pub sha256: String,
    pub downloaded: u64,
    pub checksum: Checksum,
}

pub open spec fn too_large(path: Seq<char>, size: u64) -> Seq<char> {
    "artifact '"@ + path + "' exceeded expected size "@ + text::decimal(size as nat)
}

/// Why a complete fetch is not accepted.
pub open spec fn fetch_fault(f: Fetch) -> Option<Seq<char>> {
    let got = crate::digest::checksum_text(crate::digest::fed(f.checksum));
    if f.size > 0 && f.downloaded != f.size {
        Some(
            "artifact '"@ + f.path@ + "' has size "@ + text::decimal(f.downloaded as nat)
                + ", expected "@ + text::decimal(f.size as nat) + " (incomplete — will resume)"@,
        )
    } else if !crate::digest::is_expected(f.sha256@, got) {
        Some(mismatch(f.path@, "' SHA-256 mismatch: got "@, got, f.sha256@))
    } else {
        None
    }
}

impl Fetch {
    pub open spec fn wf(self) -> bool {
        self.downloaded == crate::digest::fed(self.checksum).len()
    }

    pub fn new(artifact: &ModelArtifact) -> (r: Fetch)
        ensures
            r.wf(),
            r.path@ == artifact.path@,
            r.size == artifact.size,
            r.sha256@ == artifact.sha256@,
            r.downloaded == 0,
            crate::digest::fed(r.checksum) == Seq::<u8>::empty(),
    {
        Fetch {
            path: artifact.path.clone(),
            size: artifact.size,
            sha256: artifact.sha256.clone(),
            downloaded: 0,
            checksum: Checksum::new(),
        }
    }

    /// Takes in bytes that the partial file holds.
    pub fn reuse(&mut self, bytes: &[u8]) -> (r: Result<(), String>)
        requires
            old(self).wf(),
        ensures
            final(self).wf(),
            match r {
                Ok(_) => {
                    &&& crate::digest::fed(final(self).checksum) == crate::digest::fed(
                        old(self).checksum,
                    ) + bytes@
                    &&& *final(self) == (Fetch {
                        downloaded: final(self).downloaded,
                        checksum: final(self).checksum,
                        ..*old(self)
                    })
                },
                Err(m) => {
                    &&& old(self).downloaded + bytes@.len() > u64::MAX
                    &&& m@ == "artifact byte count overflow"@
                    &&& *final(self) == *old(self)
                },
            },
    {
        let n: u64 = bytes.len() as u64;
        if n > u64::MAX - self.downloaded {
            return Err(String::from_str("artifact byte count overflow"));
        }
        self.downloaded = self.downloaded + n;
        self.checksum.feed(bytes);
        Ok(())
    }

    /// Takes in bytes that were fetched; they may be written behind the others
    /// unless the file grew too large.
    pub fn chunk(&mut self, bytes: &[u8]) -> (r: Result<(), String>)
        requires
            old(self).wf(),
        ensures
            final(self).wf(),
            match r {
                Ok(_) => {
                    &&& crate::digest::fed(final(self).checksum) == crate::digest::fed(
                        old(self).checksum,
                    ) + bytes@
                    &&& *final(self) == (Fetch {
                        downloaded: final(self).downloaded,
                        checksum: final(self).checksum,
                        ..*old(self)
                    })
                    &&& final(self).size > 0 ==> final(self).downloaded <= final(self).size
                },
                Err(m) => {
                    &&& *final(self) == *old(self)
                    &&& if old(self).downloaded + bytes@.len() > u64::MAX {
                        m@ == "artifact byte count overflow"@
                    } else {
                        old(self).size > 0 && old(self).downloaded + bytes@.len() > old(self).size
                            && m@ == too_large(old(self).path@, old(self).size)
                    }
                },
            },
    {
        let n: u64 = bytes.len() as u64;
        if n > u64::MAX - self.downloaded {
            return Err(String::from_str("artifact byte count overflow"));
        }
        if self.size > 0 && self.downloaded + n > self.size {
            let size: String = text::decimal_of(self.size);
            let mut m: String = wrap("artifact '", self.path.as_str(), "' exceeded expected size ");
            m.append(size.as_str());
            return Err(m);
        }
        self.downloaded = self.downloaded + n;
        self.checksum.feed(bytes);
        Ok(())
    }

    /// Ends a fetch. The error comes with whether the partial file is worthless.
    pub fn finish(self) -> (r: Result<u64, (String, bool)>)
        requires
            self.wf(),
        ensures
            match r {
                Ok(n) => fetch_fault(self) is None && n == self.downloaded,
                Err(e) => fetch_fault(self) == Some(e.0@) && e.1 == (self.size == 0
                    || self.downloaded == self.size),
            },
    {
        if self.size > 0 && self.downloaded != self.size {
            let got: String = text::decimal_of(self.downloaded);
            let want: String = text::decimal_of(self.size);
            let mut m: String = wrap2(
                "artifact '",
                self.path.as_str(),
                "' has size ",
                got.as_str(),
                ", expected ",
            );
            m.append(want.as_str());
            m.append(" (incomplete — will resume)");
            return Err((m, false));
        }
        let checksum: String = self.checksum.text();
        if checksum_is_expected(self.sha256.as_str(), checksum.as_str()) {
            Ok(self.downloaded)
        } else {
            Err(
                (
                    mismatch_text(
                        self.path.as_str(),
                        "' SHA-256 mismatch: got ",
                        checksum.as_str(),
                        self.sha256.as_str(),
                    ),
                    true,
                ),
            )
        }
    }
}

/// A file that is accepted has the pinned length and the pinned checksum.
pub proof fn law_accepted_file_is_pinned(f: Fetch)
    requires
        f.wf(),
        fetch_fault(f) is None,
    ensures
        f.size > 0 ==> crate::digest::fed(f.checksum).len() == f.size,
        f.sha256@.len() > 0 ==> text::alike(
            crate::digest::checksum_text(crate::digest::fed(f.checksum)),
            f.sha256@,
        ),
{
}

// ---------------------------------------------------------------------------
// Retrying
// ---------------------------------------------------------------------------

pub const MAX_ATTEMPTS: u32 = 12;

/// Whether an error may go away by itself.
pub open spec fn is_transient(error: Seq<char>) -> bool {
    let e = text::lower(error);
    ||| text::has(e, "timed out"@)
    ||| text::has(e, "timeout"@)
    ||| text::has(e, "connection reset"@)
    ||| text::has(e, "connection refused"@)
    ||| text::has(e, "broken pipe"@)
    ||| text::has(e, "error decoding response body"@)
    ||| text::has(e, "error sending request"@)
    ||| text::has(e, "incomplete"@)
    ||| text::has(e, "temporarily"@)
    ||| text::has(e, "503"@)
    ||| text::has(e, "429"@)
    ||| text::has(e, "502"@)
    ||| text::has(e, "504"@)
}

pub fn is_transient_download_error(error: &str) -> (r: bool)
    ensures
        r == is_transient(error@),
{
    let e: String = text::to_lower(error);
    let s: &str = e.as_str();
    text::contains(s, "timed out") || text::contains(s, "timeout") || text::contains(
        s,
        "connection reset",
    ) || text::contains(s, "connection refused") || text::contains(s, "broken pipe")
        || text::contains(s, "error decoding response body") || text::contains(
        s,
        "error sending request",
    ) || text::contains(s, "incomplete") || text::contains(s, "temporarily") || text::contains(
        s,
        "503",
    ) || text::contains(s, "429") || text::contains(s, "502") || text::contains(s, "504")
}

/// The seconds before the next attempt: two, doubled with every attempt, for six
/// attempts.
pub open spec fn backoff(attempt: nat) -> nat
    decreases attempt,
{
    if attempt == 0 {
        1
    } else if attempt > 6 {
        64
    } else {
        2 * backoff((attempt - 1) as nat)
    }
}

/// How long to wait after a failed attempt, or none if it was the last.
pub fn retry_after(attempt: u32, cancelled: bool, error: &str) -> (r: Option<u64>)
    ensures
        match r {
            Some(secs) => !cancelled && attempt < MAX_ATTEMPTS && is_transient(error@) && secs
                == backoff(attempt as nat),
            None => cancelled || attempt >= MAX_ATTEMPTS || !is_transient(error@),
        },
        r matches Some(secs) ==> attempt < 12 && 1 <= secs <= 64,
        !cancelled && attempt < 12 && text::has(text::lower(error@), "timeout"@) ==> r is Some,
{
    if cancelled || attempt >= MAX_ATTEMPTS || !is_transient_download_error(error) {
        return None;
    }
    proof {
        reveal_with_fuel(backoff, 8);
    }
    let secs: u64 = if attempt == 0 {
        1
    } else if attempt == 1 {
        2
    } else if attempt == 2 {
        4
    } else if attempt == 3 {
        8
    } else if attempt == 4 {
        16
    } else if attempt == 5 {
        32
    } else {
        64
    };
    Some(secs)
}

// ---------------------------------------------------------------------------
// What is there
// ---------------------------------------------------------------------------

pub open spec fn saturated(n: int) -> u64 {
    if n > u64::MAX {
        u64::MAX
    } else {
        n as u64
    }
}

fn add_saturating(a: u64, b: u64) -> (r: u64)
    ensures
        r == saturated(a + b),
{
    if b > u64::MAX - a {
        u64::MAX
    } else {
        a + b
    }
}

/// The bytes of a file that count: no more than the file may have.
pub open spec fn counted(size: u64, length: u64) -> u64 {
    if size > 0 && length > size {
        size
    } else {
        length
    }
}

fn count_bytes(size: u64, length: u64) -> (r: u64)
    ensures
        r == counted(size, length),
{
    if size > 0 && length > size {
        size
    } else {
        length
    }
}

/// The bytes of files that are there.
pub open spec fn present_bytes(artifacts: Seq<ModelArtifact>, lengths: Seq<Option<u64>>) -> u64
    decreases artifacts.len(),
{
    if artifacts.len() == 0 || lengths.len() != artifacts.len() {
        0
    } else {
        let before = present_bytes(artifacts.drop_last(), lengths.drop_last());
        match lengths.last() {
            Some(n) => saturated(before + counted(artifacts.last().size, n)),
            None => before,
        }
    }
}

/// Whether a file is there with the length that it should have.
pub open spec fn is_present(a: ModelArtifact, length: Option<u64>) -> bool {
    length matches Some(n) && (a.size == 0 || n == a.size)
}

/// Whether a model is installed and how much of it is there. `lengths` holds the
/// length of each file that exists.
pub fn installation_state(
    backend: &BackendDefinition,
    variant: &BackendVariant,
    lengths: &Vec<Option<u64>>,
) -> (r: (bool, u64))
    requires
        !crate::registry::bundled_of(*backend, *variant) ==> lengths@.len()
            == crate::registry::artifacts_of(*backend, *variant).len(),
        crate::registry::total_size(crate::registry::artifacts_of(*backend, *variant)) <= u64::MAX,
    ensures
        ({
            let artifacts = crate::registry::artifacts_of(*backend, *variant);
            if crate::registry::bundled_of(*backend, *variant) {
                r.0 && r.1 == crate::registry::total_size(artifacts)
            } else {
                &&& r.0 == (artifacts.len() > 0 && forall|i: int|
                    0 <= i < artifacts.len() ==> is_present(artifacts[i], #[trigger] lengths@[i]))
                &&& r.1 == present_bytes(artifacts, lengths@)
            }
        }),
{
    let artifacts: &[ModelArtifact] = variant_artifacts(backend, variant);
    if variant_bundled(backend, variant) {
        return (true, sum_sizes(artifacts));
    }
    let mut installed: bool = artifacts.len() > 0;
    let mut bytes: u64 = 0;
    let mut i: usize = 0;
    while i < artifacts.len()
        invariant
            i <= artifacts.len(),
            lengths@.len() == artifacts@.len(),
            installed == (artifacts@.len() > 0 && forall|j: int|
                0 <= j < i ==> is_present(artifacts@[j], #[trigger] lengths@[j])),
            bytes == present_bytes(artifacts@.take(i as int), lengths@.take(i as int)),
        decreases artifacts.len() - i,
    {
        assert(artifacts@.take(i + 1).drop_last() =~= artifacts@.take(i as int));
        assert(lengths@.take(i + 1).drop_last() =~= lengths@.take(i as int));
        match lengths[i] {
            Some(n) => {
                bytes = add_saturating(bytes, count_bytes(artifacts[i].size, n));
                if artifacts[i].size > 0 && n != artifacts[i].size {
                    installed = false;
                    assert(!is_present(artifacts@[i as int], lengths@[i as int]));
                }
            },
            None => {
                installed = false;
                assert(!is_present(artifacts@[i as int], lengths@[i as int]));
            },
        }
        i += 1;
    }
    assert(artifacts@.take(i as int) =~= artifacts@);
    assert(lengths@.take(i as int) =~= lengths@);
    (installed, bytes)
}

/// The bytes in partial files; `lengths` holds the length of the partial file of
/// each file that is not there yet.
pub fn partial_bytes(
    backend: &BackendDefinition,
    variant: &BackendVariant,
    lengths: &Vec<Option<u64>>,
) -> (r: u64)
    requires
        lengths@.len() == crate::registry::artifacts_of(*backend, *variant).len(),
    ensures
        r == present_bytes(crate::registry::artifacts_of(*backend, *variant), lengths@),
{
    let artifacts: &[ModelArtifact] = variant_artifacts(backend, variant);
    let mut bytes: u64 = 0;
    let mut i: usize = 0;
    while i < artifacts.len()
        invariant
            i <= artifacts.len(),
            lengths@.len() == artifacts@.len(),
            bytes == present_bytes(artifacts@.take(i as int), lengths@.take(i as int)),
        decreases artifacts.len() - i,
    {
        assert(artifacts@.take(i + 1).drop_last() =~= artifacts@.take(i as int));
        assert(lengths@.take(i + 1).drop_last() =~= lengths@.take(i as int));
        match lengths[i] {
            Some(n) => {
                bytes = add_saturating(bytes, count_bytes(artifacts[i].size, n));
            },
            None => {},
        }
        i += 1;
    }
    assert(artifacts@.take(i as int) =~= artifacts@);
    assert(lengths@.take(i as int) =~= lengths@);
    bytes
}

/// Whether a file that exists has the expected length; its checksum is another
/// matter.
pub fn length_matches(expected_size: u64, length: u64) -> (r: bool)
    ensures
        r == (expected_size == 0 || length == expected_size),
{
    expected_size == 0 || length == expected_size
}

/// A path without separators and single dots at its end.
pub open spec fn bare(path: Seq<char>) -> Seq<char>
    decreases path.len(),
{
    let n = path.len();
    if n > 0 && path[n - 1] == '/' {
        bare(path.drop_last())
    } else if n > 1 && path[n - 1] == '.' && path[n - 2] == '/' {
        bare(path.drop_last())
    } else {
        path
    }
}

/// Whether a path names a file.
pub open spec fn names_file(path: Seq<char>) -> bool {
    let b = bare(path);
    let n = b.len();
    &&& n > 0
    &&& b != "."@
    &&& b != ".."@
    &&& !(n > 2 && b[n - 1] == '.' && b[n - 2] == '.' && b[n - 3] == '/')
}

/// The partial file of a model file stands beside it.
pub fn part_path(path: &str) -> (r: Result<String, String>)
    ensures
        match r {
            Ok(p) => names_file(path@) && p@ == bare(path@) + ".part"@,
            Err(m) => !names_file(path@) && m@ == "invalid artifact filename '"@ + path@ + "'"@,
        },
{
    let v: Vec<char> = text::chars_of(path);
    let mut n: usize = v.len();
    assert(v@.take(n as int) =~= v@);
    while n > 0 && (v[n - 1] == '/' || (n > 1 && v[n - 1] == '.' && v[n - 2] == '/'))
        invariant
            n <= v.len(),
            bare(v@) == bare(v@.take(n as int)),
        decreases n,
    {
        assert(v@.take(n as int).drop_last() =~= v@.take(n - 1));
        n -= 1;
    }
    let name: String = text::piece(v.as_slice(), 0, n);
    assert(v@.subrange(0, n as int) =~= v@.take(n as int));
    assert(name@ == bare(path@));
    if n == 0 || text::same(name.as_str(), ".") || text::same(name.as_str(), "..") || (n > 2 && v[n
        - 1] == '.' && v[n - 2] == '.' && v[n - 3] == '/') {
        return Err(wrap("invalid artifact filename '", path, "'"));
    }
    Ok(text::joined_pair(name.as_str(), ".part"))
}

/// The files that a model may have left: each of its files and the partial one
/// beside it.
pub open spec fn files_of(artifacts: Seq<ModelArtifact>) -> Seq<Seq<char>>
    decreases artifacts.len(),
{
    if artifacts.len() == 0 {
        Seq::empty()
    } else {
        files_of(artifacts.drop_last()) + seq![
            artifacts.last().path@,
            bare(artifacts.last().path@) + ".part"@,
        ]
    }
}

/// The first file of a model whose path names none.
pub open spec fn nameless(artifacts: Seq<ModelArtifact>, i: int) -> bool {
    &&& 0 <= i < artifacts.len()
    &&& !names_file(artifacts[i].path@)
    &&& forall|j: int| 0 <= j < i ==> names_file((#[trigger] artifacts[j]).path@)
}

/// The files to remove with a model, below the directory of models.
pub fn model_files(backend: &BackendDefinition, variant: &BackendVariant) -> (r: Result<
    Vec<String>,
    String,
>)
    ensures
        ({
            let artifacts = crate::registry::artifacts_of(*backend, *variant);
            match r {
                Ok(v) => text::views(v@) == files_of(artifacts) && forall|i: int|
                    0 <= i < artifacts.len() ==> names_file((#[trigger] artifacts[i]).path@),
                Err(m) => exists|i: int| #[trigger]
                    nameless(artifacts, i) && m@ == "invalid artifact filename '"@
                        + artifacts[i].path@ + "'"@,
            }
        }),
{
    let artifacts: &[ModelArtifact] = variant_artifacts(backend, variant);
    let mut files: Vec<String> = Vec::new();
    let mut i: usize = 0;
    assert(text::views(files@) =~= files_of(artifacts@.take(0)));
    while i < artifacts.len()
        invariant
            i <= artifacts.len(),
            artifacts@ == crate::registry::artifacts_of(*backend, *variant),
            text::views(files@) == files_of(artifacts@.take(i as int)),
            forall|j: int| 0 <= j < i ==> names_file((#[trigger] artifacts@[j]).path@),
        decreases artifacts.len() - i,
    {
        assert(artifacts@.take(i + 1).drop_last() =~= artifacts@.take(i as int));
        let part: String = match part_path(artifacts[i].path.as_str()) {
            Ok(part) => part,
            Err(m) => {
                assert(nameless(artifacts@, i as int));
                return Err(m);
            },
        };
        let ghost before = text::views(files@);
        files.push(artifacts[i].path.clone());
        files.push(part);
        assert(text::views(files@) =~= before + seq![artifacts@[i as int].path@, part@]);
        i += 1;
    }
    assert(artifacts@.take(i as int) =~= artifacts@);
    Ok(files)
}

// ---------------------------------------------------------------------------
// Records
// ---------------------------------------------------------------------------

/// How the download of a model stands.
#[derive(Debug)]
pub struct ModelDownloadRecord {
    pub variant_id: String,
    pub state: String,
    pub downloaded_bytes: u64,
    pub total_bytes: u64,
    pub error: String,
}

impl Clone for ModelDownloadRecord {
    fn clone(&self) -> (r: Self)
        ensures
            r == *self,
    {
        ModelDownloadRecord {
            variant_id: self.variant_id.clone(),
            state: self.state.clone(),
            downloaded_bytes: self.downloaded_bytes,
            total_bytes: self.total_bytes,
            error: self.error.clone(),
        }
    }
}

/// Whether a record says what is given.
pub open spec fn record_is(
    r: ModelDownloadRecord,
    variant_id: Seq<char>,
    state: Seq<char>,
    downloaded: u64,
    total: u64,
    error: Seq<char>,
) -> bool {
    &&& r.variant_id@ == variant_id
    &&& r.state@ == state
    &&& r.downloaded_bytes == downloaded
    &&& r.total_bytes == total
    &&& r.error@ == error
}

/// Whether an answer says what is given.
pub open spec fn answer_is(
    a: ModelActionResponse,
    backend_id: Seq<char>,
    state: Seq<char>,
    downloaded: u64,
    total: u64,
    message: Seq<char>,
) -> bool {
    &&& a.backend_id@ == backend_id
    &&& a.state@ == state
    &&& a.downloaded_bytes == downloaded
    &&& a.total_bytes == total
    &&& a.message@ == message
}

fn answer(backend_id: &str, state: &str, downloaded: u64, total: u64, message: &str) -> (r:
    ModelActionResponse)
    ensures
        answer_is(r, backend_id@, state@, downloaded, total, message@),
{
    ModelActionResponse {
        backend_id: String::from_str(backend_id),
        state: String::from_str(state),
        downloaded_bytes: downloaded,
        total_bytes: total,
        message: String::from_str(message),
    }
}

/// Why there is no module to speak of.
pub open spec fn module_fault(c: BackendCatalog, hw: HardwareProfile, id: Seq<char>) -> Option<
    Seq<char>,
> {
    match crate::registry::backend_index(c.backends@, id) {
        None => Some("unknown backend id '"@ + id + "'"@),
        Some(i) => match crate::registry::chosen(c.backends@[i].variants@, hw) {
            None => Some("backend '"@ + id + "' has no compatible variant"@),
            Some(_) => None,
        },
    }
}

/// The backend with an id and the variant of it that fits the machine, by their
/// indices.
pub fn find_module(catalog: &BackendCatalog, hw: &HardwareProfile, id: &str) -> (r: Result<
    (usize, usize),
    String,
>)
    ensures
        match r {
            Ok((i, k)) => {
                &&& module_fault(*catalog, *hw, id@) is None
                &&& crate::registry::backend_index(catalog.backends@, id@) == Some(i as int)
                &&& i < catalog.backends@.len()
                &&& crate::registry::chosen(catalog.backends@[i as int].variants@, *hw) == Some(
                    k as int,
                )
                &&& k < catalog.backends@[i as int].variants@.len()
            },
            Err(m) => module_fault(*catalog, *hw, id@) == Some(m@),
        },
{
    match catalog.position(id) {
        None => Err(wrap("unknown backend id '", id, "'")),
        Some(i) => match resolve_index(&catalog.backends[i], hw) {
            None => Err(wrap("backend '", id, "' has no compatible variant")),
            Some(k) => Ok((i, k)),
        },
    }
}

/// A download to start.
#[derive(Debug)]
pub struct DownloadStart {
    pub record: ModelDownloadRecord,
    pub token: Option<String>,
    /// The token to remember for later downloads.
    pub remember: Option<String>,
    pub answer: ModelActionResponse,
}

/// What comes of a request to download a model.
#[derive(Debug)]
pub enum DownloadDecision {
    /// Nothing is to be done.
    Answer(ModelActionResponse),
    Start(DownloadStart),
}

/// The token of a request, trimmed.
pub open spec fn request_token(r: ModelDownloadRequest) -> Option<Seq<char>> {
    first_token(crate::registry::opt_view(r.hf_token), None)
}

pub open spec fn is_running(record: Option<ModelDownloadRecord>, variant_id: Seq<char>) -> bool {
    record matches Some(r) && r.variant_id@ == variant_id && (r.state@ == "downloading"@ || r.state@
        == "cancelling"@)
}

/// Where the terms of a model are accepted.
pub open spec fn terms_url(b: BackendDefinition) -> Seq<char> {
    if b.access_url@.len() == 0 {
        "https://huggingface.co/"@
    } else {
        b.access_url@
    }
}

/// Why a model cannot be downloaded.
pub open spec fn download_fault(
    b: BackendDefinition,
    v: BackendVariant,
    installed: bool,
    record: Option<ModelDownloadRecord>,
    token: Option<Seq<char>>,
) -> Option<Seq<char>> {
    let artifacts = crate::registry::artifacts_of(b, v);
    if crate::registry::bundled_of(b, v) {
        None
    } else if artifacts.len() == 0 {
        Some("backend '"@ + b.id@ + "' has no downloadable artifacts"@)
    } else if installed || is_running(record, v.id@) {
        None
    } else if crate::registry::any_gated(artifacts) && token is None {
        Some(
            "backend '"@ + b.id@ + "' requires Hugging Face access. Accept the model terms at "@
                + terms_url(b) + TOKEN_HINT@,
        )
    } else {
        None
    }
}

/// Whether a download has nothing to do, and what is answered instead.
pub open spec fn download_answered(
    b: BackendDefinition,
    v: BackendVariant,
    installed: bool,
    downloaded: u64,
    record: Option<ModelDownloadRecord>,
    a: ModelActionResponse,
) -> bool {
    let total = crate::registry::total_size(crate::registry::artifacts_of(b, v)) as u64;
    if crate::registry::bundled_of(b, v) {
        answer_is(a, b.id@, "bundled"@, 0, 0, "model is bundled with its container image"@)
    } else if installed {
        answer_is(a, b.id@, "installed"@, downloaded, total, "model is already installed"@)
    } else {
        &&& is_running(record, v.id@)
        &&& answer_is(
            a,
            b.id@,
            record.unwrap().state@,
            record.unwrap().downloaded_bytes,
            record.unwrap().total_bytes,
            "model download is already running"@,
        )
    }
}

/// Decides on a request to download a model. `installed` and `downloaded` tell how
/// much of it is there, `partial` what partial files hold.
pub fn decide_download(
    backend: &BackendDefinition,
    variant: &BackendVariant,
    installed: bool,
    downloaded: u64,
    partial: u64,
    record: &Option<ModelDownloadRecord>,
    request: &ModelDownloadRequest,
    session: &Option<String>,
    env: &Option<String>,
    env_common: &Option<String>,
) -> (r: Result<DownloadDecision, String>)
    requires
        crate::registry::total_size(crate::registry::artifacts_of(*backend, *variant)) <= u64::MAX,
    ensures
        ({
            let token = token_in(
                crate::registry::opt_view(request.hf_token),
                crate::registry::opt_view(*session),
                crate::registry::opt_view(*env),
                crate::registry::opt_view(*env_common),
            );
            let total = crate::registry::total_size(
                crate::registry::artifacts_of(*backend, *variant),
            ) as u64;
            let bytes = saturated(downloaded + partial);
            match r {
                Err(m) => download_fault(*backend, *variant, installed, *record, token) == Some(m@),
                Ok(d) => {
                    &&& download_fault(*backend, *variant, installed, *record, token) is None
                    &&& match d {
                        DownloadDecision::Answer(a) => download_answered(
                            *backend,
                            *variant,
                            installed,
                            downloaded,
                            *record,
                            a,
                        ),
                        DownloadDecision::Start(s) => {
                            &&& !crate::registry::bundled_of(*backend, *variant)
                            &&& !installed
                            &&& !is_running(*record, variant.id@)
                            &&& record_is(
                                s.record,
                                variant.id@,
                                "downloading"@,
                                bytes,
                                total,
                                ""@,
                            )
                            &&& crate::registry::opt_view(s.token) == token
                            &&& crate::registry::opt_view(s.remember) == (if request.remember {
                                request_token(*request)
                            } else {
                                None
                            })
                            &&& answer_is(
                                s.answer,
                                backend.id@,
                                "downloading"@,
                                bytes,
                                total,
                                "model download started"@,
                            )
                        },
                    }
                },
            }
        }),
{
    let id: &str = backend.id.as_str();
    if variant_bundled(backend, variant) {
        return Ok(
            DownloadDecision::Answer(
                answer(id, "bundled", 0, 0, "model is bundled with its container image"),
            ),
        );
    }
    let artifacts: &[ModelArtifact] = variant_artifacts(backend, variant);
    if artifacts.len() == 0 {
        return Err(wrap("backend '", id, "' has no downloadable artifacts"));
    }
    let total: u64 = sum_sizes(artifacts);
    if installed {
        return Ok(
            DownloadDecision::Answer(
                answer(id, "installed", downloaded, total, "model is already installed"),
            ),
        );
    }
    match record {
        Some(rec) => {
            if text::same(rec.variant_id.as_str(), variant.id.as_str()) && (text::same(
                rec.state.as_str(),
                "downloading",
            ) || text::same(rec.state.as_str(), "cancelling")) {
                return Ok(
                    DownloadDecision::Answer(
                        answer(
                            id,
                            rec.state.as_str(),
                            rec.downloaded_bytes,
                            rec.total_bytes,
                            "model download is already running",
                        ),
                    ),
                );
            }
        },
        None => {},
    }
    let token: Option<String> = resolve_hf_token(&request.hf_token, session, env, env_common);
    if some_gated(artifacts) && token.is_none() {
        let url: &str = if backend.access_url.as_str().is_empty() {
            "https://huggingface.co/"
        } else {
            backend.access_url.as_str()
        };
        return Err(
            wrap2(
                "backend '",
                id,
                "' requires Hugging Face access. Accept the model terms at ",
                url,
                TOKEN_HINT,
            ),
        );
    }
    let bytes: u64 = add_saturating(downloaded, partial);
    let remember: Option<String> = if request.remember {
        pick_token(&request.hf_token, None)
    } else {
        None
    };
    Ok(
        DownloadDecision::Start(
            DownloadStart {
                record: ModelDownloadRecord {
                    variant_id: variant.id.clone(),
                    state: String::from_str("downloading"),
                    downloaded_bytes: bytes,
                    total_bytes: total,
                    error: String::from_str(""),
                },
                token,
                remember,
                answer: answer(id, "downloading", bytes, total, "model download started"),
            },
        ),
    )
}

/// Shows the progress of a download.
pub fn update_progress(record: &mut ModelDownloadRecord, downloaded: u64)
    ensures
        *final(record) == (ModelDownloadRecord {
            downloaded_bytes: if downloaded > old(record).total_bytes {
                old(record).total_bytes
            } else {
                downloaded
            },
            ..*old(record)
        }),
        final(record).downloaded_bytes <= final(record).total_bytes,
        downloaded <= old(record).total_bytes ==> final(record).downloaded_bytes == downloaded,
{
    record.downloaded_bytes = if downloaded > record.total_bytes {
        record.total_bytes
    } else {
        downloaded
    };
}

/// How a download ended.
pub open spec fn ended_state(
    error: Option<String>,
    installed: bool,
    cancelled: bool,
) -> (Seq<char>, Seq<char>) {
    match error {
        None => if installed {
            ("installed"@, ""@)
        } else if cancelled {
            ("cancelled"@, ""@)
        } else {
            ("missing"@, "download ended without a complete model"@)
        },
        Some(m) => if cancelled {
            ("cancelled"@, ""@)
        } else {
            ("failed"@, m@)
        },
    }
}

/// The record of a download that ended. `partial` counts only while the model is
/// not installed.
pub fn ended_record(
    variant_id: &str,
    total: u64,
    error: &Option<String>,
    installed: bool,
    cancelled: bool,
    downloaded: u64,
    partial: u64,
) -> (r: ModelDownloadRecord)
    ensures
        ({
            let bytes = if installed {
                downloaded
            } else {
                saturated(downloaded + partial)
            };
            record_is(
                r,
                variant_id@,
                ended_state(*error, installed, cancelled).0,
                if bytes > total {
                    total
                } else {
                    bytes
                },
                total,
                ended_state(*error, installed, cancelled).1,
            )
        }),
{
    let bytes: u64 = if installed {
        downloaded
    } else {
        add_saturating(downloaded, partial)
    };
    let (state, message): (&str, String) = match error {
        None => if installed {
            ("installed", String::from_str(""))
        } else if cancelled {
            ("cancelled", String::from_str(""))
        } else {
            ("missing", String::from_str("download ended without a complete model"))
        },
        Some(m) => if cancelled {
            ("cancelled", String::from_str(""))
        } else {
            ("failed", m.clone())
        },
    };
    ModelDownloadRecord {
        variant_id: String::from_str(variant_id),
        state: String::from_str(state),
        downloaded_bytes: if bytes > total {
            total
        } else {
            bytes
        },
        total_bytes: total,
        error: message,
    }
}

/// Whether a download that ended leaves its files to be removed.
pub fn removes_files(error: &Option<String>, cancelled: bool) -> (r: bool)
    ensures
        r == (error is Some && cancelled),
{
    error.is_some() && cancelled
}

pub open spec fn cancel_fault(
    c: BackendCatalog,
    hw: HardwareProfile,
    id: Seq<char>,
    record: Option<ModelDownloadRecord>,
) -> Option<Seq<char>> {
    match module_fault(c, hw, id) {
        Some(m) => Some(m),
        None => {
            let b = c.backends@[crate::registry::backend_index(c.backends@, id).unwrap()];
            let v = b.variants@[crate::registry::chosen(b.variants@, hw).unwrap()];
            match record {
                Some(r) if r.variant_id@ == v.id@ => if is_running(record, v.id@) {
                    None
                } else {
                    Some("model download for '"@ + id + "' is not running"@)
                },
                _ => Some("no model download is active for '"@ + id + "'"@),
            }
        },
    }
}

/// Asks a running download to stop.
pub fn cancel_download(
    catalog: &BackendCatalog,
    hw: &HardwareProfile,
    backend_id: &str,
    record: &mut Option<ModelDownloadRecord>,
) -> (r: Result<ModelActionResponse, String>)
    ensures
        match r {
            Ok(a) => {
                &&& cancel_fault(*catalog, *hw, backend_id@, *old(record)) is None
                &&& *final(record) matches Some(rec) && record_is(
                    rec,
                    old(record).unwrap().variant_id@,
                    "cancelling"@,
                    old(record).unwrap().downloaded_bytes,
                    old(record).unwrap().total_bytes,
                    old(record).unwrap().error@,
                )
                &&& answer_is(
                    a,
                    backend_id@,
                    "cancelling"@,
                    old(record).unwrap().downloaded_bytes,
                    old(record).unwrap().total_bytes,
                    "cancellation requested"@,
                )
            },
            Err(m) => cancel_fault(*catalog, *hw, backend_id@, *old(record)) == Some(m@)
                && *final(record) == *old(record),
        },
{
    let (i, k): (usize, usize) = match find_module(catalog, hw, backend_id) {
        Ok(x) => x,
        Err(m) => {
            return Err(m);
        },
    };
    let variant: &BackendVariant = &catalog.backends[i].variants[k];
    let current: ModelDownloadRecord = match &*record {
        Some(rec) => rec.clone(),
        None => {
            return Err(wrap("no model download is active for '", backend_id, "'"));
        },
    };
    if !text::same(current.variant_id.as_str(), variant.id.as_str()) {
        return Err(wrap("no model download is active for '", backend_id, "'"));
    }
    if !text::same(current.state.as_str(), "downloading") && !text::same(
        current.state.as_str(),
        "cancelling",
    ) {
        return Err(wrap("model download for '", backend_id, "' is not running"));
    }
    let a: ModelActionResponse = answer(
        backend_id,
        "cancelling",
        current.downloaded_bytes,
        current.total_bytes,
        "cancellation requested",
    );
    *record =
    Some(
        ModelDownloadRecord {
            variant_id: current.variant_id,
            state: String::from_str("cancelling"),
            downloaded_bytes: current.downloaded_bytes,
            total_bytes: current.total_bytes,
            error: current.error,
        },
    );
    Ok(a)
}

/// Whether a backend is in use: it serves a stage or is the selected language
/// model.
pub open spec fn in_use(
    s: crate::lab::ControllerState,
    rt: crate::runtime::RuntimeState,
    id: Seq<char>,
) -> bool {
    ||| s.asr matches Some(a) && a.backend_id@ == id
    ||| s.tts matches Some(a) && a.backend_id@ == id
    ||| s.llm matches Some(a) && a.backend_id@ == id
    ||| rt.llm_id@ == id
}

fn serves_as(a: &Option<crate::lab::ActiveBackend>, id: &str) -> (r: bool)
    ensures
        r == (*a matches Some(x) && x.backend_id@ == id@),
{
    match a {
        Some(x) => text::same(x.backend_id.as_str(), id),
        None => false,
    }
}

pub fn backend_is_active(
    s: &crate::lab::ControllerState,
    rt: &crate::runtime::RuntimeState,
    id: &str,
) -> (r: bool)
    ensures
        r == in_use(*s, *rt, id@),
{
    serves_as(&s.asr, id) || serves_as(&s.tts, id) || serves_as(&s.llm, id) || text::same(
        rt.llm_id.as_str(),
        id,
    )
}

/// Whether a stage is served by a backend.
pub fn serves_a_stage(s: &crate::lab::ControllerState, id: &str) -> (r: bool)
    ensures
        r == ((s.asr matches Some(a) && a.backend_id@ == id@) || (s.tts matches Some(a)
            && a.backend_id@ == id@) || (s.llm matches Some(a) && a.backend_id@ == id@)),
{
    serves_as(&s.asr, id) || serves_as(&s.tts, id) || serves_as(&s.llm, id)
}

pub open spec fn delete_fault(b: BackendDefinition, v: BackendVariant, active: bool) -> Option<
    Seq<char>,
> {
    if crate::registry::bundled_of(b, v) {
        Some("bundled model '"@ + b.id@ + "' cannot be deleted separately"@)
    } else if active {
        Some("model '"@ + b.id@ + "' is active; switch this stage before deleting it"@)
    } else {
        None
    }
}

/// Whether the files of a model may be removed.
pub fn admit_delete(backend: &BackendDefinition, variant: &BackendVariant, active: bool) -> (r:
    Result<(), String>)
    ensures
        crate::registry::reports(r, delete_fault(*backend, *variant, active)),
{
    if variant_bundled(backend, variant) {
        return Err(wrap("bundled model '", backend.id.as_str(), "' cannot be deleted separately"));
    }
    if active {
        return Err(
            wrap(
                "model '",
                backend.id.as_str(),
                "' is active; switch this stage before deleting it",
            ),
        );
    }
    Ok(())
}

/// The record and the answer when the files of a model were removed.
pub fn deleted(backend: &BackendDefinition, variant: &BackendVariant) -> (r: (
    ModelDownloadRecord,
    ModelActionResponse,
))
    requires
        crate::registry::total_size(crate::registry::artifacts_of(*backend, *variant)) <= u64::MAX,
    ensures
        ({
            let total = crate::registry::total_size(
                crate::registry::artifacts_of(*backend, *variant),
            ) as u64;
            &&& record_is(r.0, variant.id@, "missing"@, 0, total, ""@)
            &&& answer_is(r.1, backend.id@, "missing"@, 0, total, "model files deleted"@)
        }),
{
    let total: u64 = sum_sizes(variant_artifacts(backend, variant));
    (
        ModelDownloadRecord {
            variant_id: variant.id.clone(),
            state: String::from_str("missing"),
            downloaded_bytes: 0,
            total_bytes: total,
            error: String::from_str(""),
        },
        answer(backend.id.as_str(), "missing", 0, total, "model files deleted"),
    )
}

/// The error for a model that is not installed when its stage is prepared.
pub fn not_installed(
    backend: &BackendDefinition,
    variant: &BackendVariant,
    backend_id: &str,
    downloaded: u64,
) -> (r: String)
    requires
        crate::registry::total_size(crate::registry::artifacts_of(*backend, *variant)) <= u64::MAX,
    ensures
        r@ == "model '"@ + backend_id@ + "' is not installed ("@ + text::decimal(
            downloaded as nat,
        ) + "/"@ + text::decimal(
            crate::registry::total_size(crate::registry::artifacts_of(*backend, *variant)),
        ) + " bytes); confirm the model download first"@,
{
    let total: u64 = sum_sizes(variant_artifacts(backend, variant));
    let got: String = text::decimal_of(downloaded);
    let want: String = text::decimal_of(total);
    let mut m: String = wrap2("model '", backend_id, "' is not installed (", got.as_str(), "/");
    m.append(want.as_str());
    m.append(" bytes); confirm the model download first");
    m
}

/// A bundled model is neither downloaded nor deleted.
pub proof fn law_bundled_model_stays(
    b: BackendDefinition,
    v: BackendVariant,
    installed: bool,
    downloaded: u64,
    record: Option<ModelDownloadRecord>,
    token: Option<Seq<char>>,
    a: ModelActionResponse,
    active: bool,
)
    requires
        crate::registry::bundled_of(b, v),
    ensures
        download_fault(b, v, installed, record, token) is None,
        download_answered(b, v, installed, downloaded, record, a) ==> a.state@ == "bundled"@,
        delete_fault(b, v, active) is Some,
{
}

/// What is removed with a model is one of its own files or the partial file of
/// one; every other file stays.
pub proof fn law_only_model_files_go(artifacts: Seq<ModelArtifact>, k: int)
    requires
        0 <= k < files_of(artifacts).len(),
    ensures
        exists|i: int|
            0 <= i < artifacts.len() && (files_of(artifacts)[k] == (#[trigger] artifacts[i]).path@
                || files_of(artifacts)[k] == bare(artifacts[i].path@) + ".part"@),
    decreases artifacts.len(),
{
    let rest = artifacts.drop_last();
    let n = artifacts.len() - 1;
    if k < files_of(rest).len() {
        law_only_model_files_go(rest, k);
        let i = choose|i: int|
            0 <= i < rest.len() && (files_of(rest)[k] == (#[trigger] rest[i]).path@ || files_of(
                rest,
            )[k] == bare(rest[i].path@) + ".part"@);
        assert(artifacts[i] == rest[i]);
    } else {
        assert(artifacts[n] == artifacts.last());
    }
}

/// The token of a request comes before a remembered one, and that before those of
/// the environment.
pub proof fn law_token_order(
    request: Option<Seq<char>>,
    session: Option<Seq<char>>,
    env: Option<Seq<char>>,
    env_common: Option<Seq<char>>,
)
    ensures
        request matches Some(t) && text::trim(t).len() > 0 ==> token_in(
            request,
            session,
            env,
            env_common,
        ) == Some(text::trim(request.unwrap())),
        request is None && (session matches Some(t) && text::trim(t).len() > 0) ==> token_in(
            request,
            session,
            env,
            env_common,
        ) == Some(text::trim(session.unwrap())),
        request is None && session is None ==> token_in(request, session, env, env_common)
            == first_token(env, first_token(env_common, None)),
{
}

/// A download goes on exactly where it stopped, a complete partial file is taken as
/// it is, and only one that is longer than the artifact is thrown away. Without a
/// pinned size it always goes on.
pub proof fn law_download_goes_on(size: u64, existing: u64)
    ensures
        existing < size ==> attempt_start(size, existing) == (AttemptStart::Fetch {
            from: existing,
        }),
        size == 0 ==> attempt_start(size, existing) == (AttemptStart::Fetch { from: existing }),
        0 < size && size == existing ==> attempt_start(size, existing) == AttemptStart::Promote,
        0 < size < existing ==> attempt_start(size, existing) == AttemptStart::Discard,
{
}

/// The wait before another attempt begins with one second and doubles up to 64.
pub proof fn law_wait_doubles(attempt: nat)
    ensures
        backoff(0) == 1,
        attempt < 6 ==> backoff(attempt + 1) == 2 * backoff(attempt),
        attempt >= 6 ==> backoff(attempt) == 64,
        MAX_ATTEMPTS == 12,
    decreases attempt,
{
    reveal_with_fuel(backoff, 8);
}

/// Failures of the network and of a busy server are worth another attempt, whatever
/// is said around them; an error that names none of them is final.
pub proof fn law_transient_errors(error: Seq<char>)
    ensures
        ({
            let e = text::lower(error);
            &&& text::has(e, "timed out"@) || text::has(e, "timeout"@) ==> is_transient(error)
            &&& text::has(e, "connection reset"@) || text::has(e, "connection refused"@)
                || text::has(e, "broken pipe"@) ==> is_transient(error)
            &&& text::has(e, "429"@) || text::has(e, "502"@) || text::has(e, "503"@) || text::has(
                e,
                "504"@,
            ) ==> is_transient(error)
            &&& text::has(e, "incomplete"@) || text::has(e, "temporarily"@) || text::has(
                e,
                "error decoding response body"@,
            ) || text::has(e, "error sending request"@) ==> is_transient(error)
            &&& is_transient(error) && !text::has(e, "timed out"@) && !text::has(e, "timeout"@)
                && !text::has(e, "connection reset"@) && !text::has(e, "connection refused"@)
                && !text::has(e, "broken pipe"@) && !text::has(e, "429"@) && !text::has(e, "502"@)
                && !text::has(e, "503"@) && !text::has(e, "504"@) && !text::has(e, "temporarily"@)
                && !text::has(e, "error decoding response body"@) && !text::has(
                e,
                "error sending request"@,
            ) ==> text::has(e, "incomplete"@)
        }),
{
}

/// Of files that are all complete as many bytes are there as the artifacts have
/// together, and never more, whatever lengths are found.
pub proof fn law_present_bytes(artifacts: Seq<ModelArtifact>, lengths: Seq<Option<u64>>)
    requires
        lengths.len() == artifacts.len(),
        forall|i: int| 0 <= i < artifacts.len() ==> (#[trigger] artifacts[i]).size > 0,
        crate::registry::total_size(artifacts) <= u64::MAX,
    ensures
        present_bytes(artifacts, lengths) <= crate::registry::total_size(artifacts),
        (forall|i: int|
            0 <= i < artifacts.len() ==> lengths[i] == Some((#[trigger] artifacts[i]).size))
            ==> present_bytes(artifacts, lengths) == crate::registry::total_size(artifacts),
        (forall|i: int| 0 <= i < lengths.len() ==> (#[trigger] lengths[i]) is None)
            ==> present_bytes(artifacts, lengths) == 0,
    decreases artifacts.len(),
{
    if artifacts.len() > 0 {
        let a = artifacts.drop_last();
        let l = lengths.drop_last();
        assert forall|i: int| 0 <= i < a.len() implies (#[trigger] a[i]).size > 0 by {
            assert(a[i] == artifacts[i]);
        }
        law_present_bytes(a, l);
        assert(artifacts.last() == artifacts[artifacts.len() - 1]);
        if forall|i: int|
            0 <= i < artifacts.len() ==> lengths[i] == Some((#[trigger] artifacts[i]).size) {
            assert forall|i: int| 0 <= i < a.len() implies l[i] == Some((#[trigger] a[i]).size) by {
                assert(a[i] == artifacts[i]);
            }
        }
        if forall|i: int| 0 <= i < lengths.len() ==> (#[trigger] lengths[i]) is None {
            assert forall|i: int| 0 <= i < l.len() implies (#[trigger] l[i]) is None by {
                assert(l[i] == lengths[i]);
            }
            assert(lengths[lengths.len() - 1] is None);
        }
    }
}

/// An artifact is there with its exact size; without a pinned size any file will do,
/// and a missing one never does.
pub proof fn law_artifact_is_there(a: ModelArtifact, n: u64)
    ensures
        is_present(a, Some(a.size)),
        a.size > 0 && n != a.size ==> !is_present(a, Some(n)),
        a.size == 0 ==> is_present(a, Some(n)),
        !is_present(a, None),
{
}

/// A partial file stands beside its artifact: behind a name that ends as a name the
/// suffix is put.
pub proof fn law_partial_file_name(path: Seq<char>)
    requires
        path.len() > 0,
        path.last() != '/',
        path.last() != '.',
    ensures
        names_file(path),
        bare(path) == path,
{
    reveal_strlit(".");
    reveal_strlit("..");
    assert("."@[0] == '.');
    assert(".."@[1] == '.');
}

/// An artifact that needs access is not fetched without a token, and a token or an
/// installed model is enough.
pub proof fn law_access_is_asked_for(
    b: BackendDefinition,
    v: BackendVariant,
    installed: bool,
    record: Option<ModelDownloadRecord>,
    token: Option<Seq<char>>,
)
    requires
        !crate::registry::bundled_of(b, v),
        crate::registry::artifacts_of(b, v).len() > 0,
    ensures
        (exists|i: int|
            0 <= i < crate::registry::artifacts_of(b, v).len() && (
            #[trigger] crate::registry::artifacts_of(b, v)[i]).auth@ == "huggingface"@) && token
            is None && !installed && record is None ==> download_fault(
            b,
            v,
            installed,
            record,
            token,
        ) is Some,
        token is Some || installed ==> download_fault(b, v, installed, record, token) is None,
        (forall|i: int|
            0 <= i < crate::registry::artifacts_of(b, v).len() ==> (
            #[trigger] crate::registry::artifacts_of(b, v)[i]).auth@ != "huggingface"@)
            ==> download_fault(b, v, installed, record, token) is None,
{
}

/// A blank token counts as none: the next one that is given is taken, in the order
/// request, session, environment, and none only where all are blank or missing.
pub proof fn law_blank_token_is_skipped(
    request: Option<Seq<char>>,
    session: Option<Seq<char>>,
    env: Option<Seq<char>>,
    env_common: Option<Seq<char>>,
)
    ensures
        ({
            let given = |t: Option<Seq<char>>| t matches Some(s) && text::trim(s).len() > 0;
            let got = token_in(request, session, env, env_common);
            &&& given(request) ==> got == Some(text::trim(request.unwrap()))
            &&& !given(request) && given(session) ==> got == Some(text::trim(session.unwrap()))
            &&& !given(request) && !given(session) && given(env) ==> got == Some(
                text::trim(env.unwrap()),
            )
            &&& !given(request) && !given(session) && !given(env) && given(env_common) ==> got
                == Some(text::trim(env_common.unwrap()))
            &&& !given(request) && !given(session) && !given(env) && !given(env_common) ==> got
                is None
        }),
{
}

/// How a download ends: a cancelled one is never reported as failed, an error is
/// told as it is, and a model counts as installed only without an error and with all
/// its files.
pub proof fn law_end_of_a_download(error: Option<String>, installed: bool, cancelled: bool)
    ensures
        ({
            let (state, message) = ended_state(error, installed, cancelled);
            &&& error is Some && !cancelled ==> state == "failed"@ && message == error.unwrap()@
            &&& error is Some && cancelled ==> state == "cancelled"@ && message == ""@
            &&& error is None && installed ==> state == "installed"@ && message == ""@
            &&& error is None && !installed && cancelled ==> state == "cancelled"@ && message == ""@
            &&& error is None && !installed && !cancelled ==> state == "missing"@
        }),
{
}

/// A model that serves a stage, or the language model of the runtime, is in use and
/// cannot be deleted; one that is neither in use nor bundled can.
pub proof fn law_model_in_use_stays(
    b: BackendDefinition,
    v: BackendVariant,
    s: crate::lab::ControllerState,
    rt: crate::runtime::RuntimeState,
)
    ensures
        (s.asr is Some && s.asr.unwrap().backend_id@ == b.id@) || (s.tts is Some
            && s.tts.unwrap().backend_id@ == b.id@) || (s.llm is Some
            && s.llm.unwrap().backend_id@ == b.id@) || rt.llm_id@ == b.id@ ==> delete_fault(
            b,
            v,
            in_use(s, rt, b.id@),
        ) is Some,
        s.asr is None && s.tts is None && s.llm is None && rt.llm_id@ != b.id@
            && !crate::registry::bundled_of(b, v) ==> delete_fault(b, v, in_use(s, rt, b.id@)) is None,
{
}

/// Only a download that runs can be cancelled.
pub proof fn law_only_a_running_download_is_cancelled(
    c: BackendCatalog,
    hw: HardwareProfile,
    id: Seq<char>,
    record: Option<ModelDownloadRecord>,
)
    requires
        cancel_fault(c, hw, id, record) is None,
    ensures
        record is Some,
        record.unwrap().state@ == "downloading"@ || record.unwrap().state@ == "cancelling"@,
        module_fault(c, hw, id) is None,
{
}

/// The terms of a model are accepted where its backend says, and else at the start
/// page of Hugging Face.
pub proof fn law_where_terms_are(b: BackendDefinition)
    ensures
        b.access_url@.len() > 0 ==> terms_url(b) == b.access_url@,
        b.access_url@.len() == 0 ==> terms_url(b) == "https://huggingface.co/"@,
{
}

/// What is answered where there is nothing to download: that the model comes with its
/// image, that it is installed, or how far the running download is.
pub proof fn law_nothing_to_download(
    b: BackendDefinition,
    v: BackendVariant,
    installed: bool,
    downloaded: u64,
    record: Option<ModelDownloadRecord>,
    a: ModelActionResponse,
)
    requires
        download_answered(b, v, installed, downloaded, record, a),
    ensures
        a.backend_id@ == b.id@,
        crate::registry::bundled_of(b, v) ==> a.state@ == "bundled"@,
        !crate::registry::bundled_of(b, v) && installed ==> a.state@ == "installed"@
            && a.downloaded_bytes == downloaded,
        !crate::registry::bundled_of(b, v) && !installed ==> record is Some && a.state@
            == record.unwrap().state@ && a.downloaded_bytes == record.unwrap().downloaded_bytes
            && a.total_bytes == record.unwrap().total_bytes,
{
}

/// A path names a file if something other than dots stands behind its last separator;
/// an empty path and one of separators alone name none.
pub proof fn law_paths_that_name_files(path: Seq<char>, c: char)
    requires
        c != '/' && c != '.',
    ensures
        names_file(path.push(c)),
        !names_file(Seq::empty()),
        names_file(path.push('/')) == names_file(path),
        !names_file(path + seq!['/', '.', '.']),
{
    let p = path.push(c);
    assert(p.last() == c);
    assert(bare(p) == p);
    reveal_strlit(".");
    reveal_strlit("..");
    assert("."@[0] == '.' && "."@.len() == 1);
    assert(".."@[1] == '.' && ".."@.len() == 2);
    assert(p[p.len() - 1] == c);
    assert(path.push('/').drop_last() =~= path);
    let up = path + seq!['/', '.', '.'];
    assert(up[up.len() - 1] == '.' && up[up.len() - 2] == '.' && up[up.len() - 3] == '/');
    assert(bare(up) == up);
}

} // verus!
