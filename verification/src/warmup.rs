//! Probing and warming a backend that was started.

use crate::json::{object, push_member, Json, JsonView};
use crate::registry::{wrap, wrap2, BackendDefinition, BackendStage, BackendVariant};
use crate::text;
use crate::wav::{wav_info, WavInfo};
use vstd::prelude::*;

verus! {

// ---------------------------------------------------------------------------
// Health
// ---------------------------------------------------------------------------

/// The part of an address in front of its versioned path.
pub open spec fn server_part(endpoint: Seq<char>) -> Seq<char> {
    let i = text::first_occurrence(endpoint, "/v1/"@);
    text::trim_end_of(
        if i < endpoint.len() {
            endpoint.take(i)
        } else {
            endpoint
        },
        '/',
    )
}

pub fn server_part_of(endpoint: &str) -> (r: String)
    ensures
        r@ == server_part(endpoint@),
{
    let v: Vec<char> = text::chars_of(endpoint);
    let p: Vec<char> = text::chars_of("/v1/");
    let i: usize = text::find(v.as_slice(), p.as_slice());
    let head: String = if i < v.len() {
        assert(v@.subrange(0, i as int) =~= v@.take(i as int));
        text::piece(v.as_slice(), 0, i)
    } else {
        String::from_str(endpoint)
    };
    text::without_trailing(head.as_str(), '/')
}

pub open spec fn health_path_of(v: BackendVariant) -> Seq<char> {
    if v.health_path@.len() == 0 {
        "/"@
    } else {
        v.health_path@
    }
}

/// Where the health of a server is asked for. A versioned health path goes behind
/// the endpoint itself, any other behind the server.
pub open spec fn health_address(endpoint: Seq<char>, path: Seq<char>) -> Seq<char> {
    if text::starts_with(path, "/v1/"@) && text::has(endpoint, "/v1"@) {
        text::trim_end_of(endpoint, '/') + text::trim_prefixes(path, "/v1"@)
    } else {
        server_part(endpoint) + path
    }
}

pub fn health_url(variant: &BackendVariant, endpoint: &str) -> (r: String)
    ensures
        r@ == health_address(endpoint@, health_path_of(*variant)),
{
    let path: &str = if variant.health_path.as_str().is_empty() {
        "/"
    } else {
        variant.health_path.as_str()
    };
    if text::begins_with(path, "/v1/") && text::contains(endpoint, "/v1") {
        let base: String = text::without_trailing(endpoint, '/');
        let rest: String = text::without_prefixes(path, "/v1");
        text::joined_pair(base.as_str(), rest.as_str())
    } else {
        let base: String = server_part_of(endpoint);
        text::joined_pair(base.as_str(), path)
    }
}

/// How long a backend is waited for. One that is not managed must be there already.
pub fn health_wait_secs(variant: &BackendVariant, docker: bool, setting: &Option<String>) -> (r: u64)
    ensures
        r == if variant.container@.len() == 0 {
            12
        } else if docker {
            crate::bring_up::health_seconds(*setting)
        } else {
            1
        },
{
    if variant.container.as_str().is_empty() {
        12
    } else if docker {
        crate::bring_up::health_timeout_secs(setting)
    } else {
        1
    }
}

/// What is wrong with an answer to a health request. A page of some web interface
/// on the same port is no answer.
pub open spec fn health_fault(
    status: u16,
    status_text: Seq<char>,
    content_type: Seq<char>,
    url: Seq<char>,
) -> Option<Seq<char>> {
    if !crate::docker::is_success(status) {
        Some("HTTP "@ + status_text)
    } else if text::has(text::lower(content_type), "text/html"@) {
        Some("HTML response at "@ + url + " (wrong service / port conflict)"@)
    } else {
        None
    }
}

pub fn check_health(status: u16, status_text: &str, content_type: &str, url: &str) -> (r: Result<
    (),
    String,
>)
    ensures
        crate::registry::reports(r, health_fault(status, status_text@, content_type@, url@)),
{
    if !(status >= 200 && status < 300) {
        return Err(text::joined_pair("HTTP ", status_text));
    }
    let kind: String = text::to_lower(content_type);
    if text::contains(kind.as_str(), "text/html") {
        return Err(wrap("HTML response at ", url, " (wrong service / port conflict)"));
    }
    Ok(())
}

/// The error for a backend that did not become healthy.
pub fn health_error(backend_id: &str, url: &str, last_error: &str) -> (r: String)
    ensures
        r@ == "backend '"@ + backend_id@ + "' health check failed at "@ + url@ + ": "@
            + last_error@,
{
    let mut m: String = wrap2("backend '", backend_id, "' health check failed at ", url, ": ");
    m.append(last_error);
    m
}

/// Whether a credential is needed for an external server: as configured, or else if
/// it is asked over a secure connection.
pub open spec fn needs_credentials(
    backend_id: Seq<char>,
    endpoint: Seq<char>,
    setting: Option<String>,
) -> bool {
    backend_id == "external-openai"@ && match setting {
        Some(s) => {
            let t = text::trim(s@);
            !(t == "0"@ || t == "false"@ || t == "no"@)
        },
        None => text::starts_with(text::trim(endpoint), "https://"@),
    }
}

fn asks_for_credentials(backend_id: &str, endpoint: &str, setting: &Option<String>) -> (r: bool)
    ensures
        r == needs_credentials(backend_id@, endpoint@, *setting),
{
    if !text::same(backend_id, "external-openai") {
        return false;
    }
    match setting {
        Some(s) => {
            let t: String = text::trimmed(s.as_str());
            !(text::same(t.as_str(), "0") || text::same(t.as_str(), "false") || text::same(
                t.as_str(),
                "no",
            ))
        },
        None => {
            let t: String = text::trimmed(endpoint);
            text::begins_with(t.as_str(), "https://")
        },
    }
}

/// The state of a remote runtime that can be told without asking it.
pub open spec fn remote_fault(
    backend_id: Seq<char>,
    endpoint: Seq<char>,
    api_key: Seq<char>,
    setting: Option<String>,
) -> Option<(Seq<char>, Seq<char>)> {
    if text::trim(endpoint).len() == 0 {
        Some(("needs_configuration"@, "remote endpoint is not configured"@))
    } else if needs_credentials(backend_id, endpoint, setting) && text::trim(api_key).len() == 0 {
        Some(("needs_credentials"@, "required remote credentials are not configured"@))
    } else {
        None
    }
}

/// Where a remote runtime is asked for its health, or its state if that can be told
/// without asking.
pub fn remote_check(
    backend: &BackendDefinition,
    variant: &BackendVariant,
    endpoint: &str,
    api_key: &str,
    requires_auth: &Option<String>,
) -> (r: Result<String, (String, String)>)
    ensures
        match r {
            Ok(url) => remote_fault(backend.id@, endpoint@, api_key@, *requires_auth) is None
                && url@ == server_part(endpoint@) + health_path_of(*variant),
            Err(e) => remote_fault(backend.id@, endpoint@, api_key@, *requires_auth) == Some(
                (e.0@, e.1@),
            ),
        },
{
    let t: String = text::trimmed(endpoint);
    if t.as_str().is_empty() {
        return Err(
            (
                String::from_str("needs_configuration"),
                String::from_str("remote endpoint is not configured"),
            ),
        );
    }
    let key: String = text::trimmed(api_key);
    if asks_for_credentials(backend.id.as_str(), endpoint, requires_auth)
        && key.as_str().is_empty() {
        return Err(
            (
                String::from_str("needs_credentials"),
                String::from_str("required remote credentials are not configured"),
            ),
        );
    }
    let base: String = server_part_of(endpoint);
    let path: &str = if variant.health_path.as_str().is_empty() {
        "/"
    } else {
        variant.health_path.as_str()
    };
    Ok(text::joined_pair(base.as_str(), path))
}

/// The state of a remote runtime by its answer: a status, or why there is none.
pub fn remote_state(status: Option<u16>, detail: &str) -> (r: (String, String))
    ensures
        match status {
            Some(s) => if crate::docker::is_success(s) {
                r.0@ == "external"@ && r.1@ == ""@
            } else {
                r.0@ == "unhealthy"@ && r.1@ == "remote healthcheck returned HTTP "@ + detail@
            },
            None => r.0@ == "unhealthy"@ && r.1@ == "remote healthcheck failed: "@ + detail@,
        },
{
    match status {
        Some(s) => if s >= 200 && s < 300 {
            (String::from_str("external"), String::from_str(""))
        } else {
            (
                String::from_str("unhealthy"),
                text::joined_pair("remote healthcheck returned HTTP ", detail),
            )
        },
        None => (
            String::from_str("unhealthy"),
            text::joined_pair("remote healthcheck failed: ", detail),
        ),
    }
}

// ---------------------------------------------------------------------------
// Warmup
// ---------------------------------------------------------------------------

/// The address at which recognition is warmed.
pub open spec fn asr_warmup_path(b: BackendDefinition) -> Seq<char> {
    if b.protocol@ == "openai-asr"@ {
        "/v1/audio/transcriptions"@
    } else {
        "/inference"@
    }
}

/// The address and the form fields by which recognition is warmed; the audio goes
/// with them as a file.
pub fn asr_warmup(backend: &BackendDefinition, endpoint: &str) -> (r: (
    String,
    Vec<(String, String)>,
))
    ensures
        r.0@ == text::trim_end_of(endpoint@, '/') + asr_warmup_path(*backend),
        r.1@.len() == 3,
        r.1@[0].0@ == "language"@ && r.1@[0].1@ == "de"@,
        r.1@[1].0@ == "response_format"@ && r.1@[1].1@ == "json"@,
        if backend.protocol@ == "openai-asr"@ {
            r.1@[2].0@ == "model"@ && r.1@[2].1@ == backend.model@
        } else {
            r.1@[2].0@ == "no_timestamps"@ && r.1@[2].1@ == "true"@
        },
{
    let mut fields: Vec<(String, String)> = Vec::new();
    fields.push((String::from_str("language"), String::from_str("de")));
    fields.push((String::from_str("response_format"), String::from_str("json")));
    let path: &str = if text::same(backend.protocol.as_str(), "openai-asr") {
        fields.push((String::from_str("model"), backend.model.clone()));
        "/v1/audio/transcriptions"
    } else {
        fields.push((String::from_str("no_timestamps"), String::from_str("true")));
        "/inference"
    };
    let base: String = text::without_trailing(endpoint, '/');
    (text::joined_pair(base.as_str(), path), fields)
}

/// What is wrong with the answer to a warmup request.
pub fn check_warmup_status(backend: &BackendDefinition, status: u16, status_text: &str) -> (r: Result<
    (),
    String,
>)
    ensures
        crate::registry::reports(
            r,
            if crate::docker::is_success(status) {
                None
            } else {
                Some("warmup for '"@ + backend.id@ + "' failed: HTTP "@ + status_text@)
            },
        ),
{
    if status >= 200 && status < 300 {
        return Ok(());
    }
    let mut m: String = wrap("warmup for '", backend.id.as_str(), "' failed: HTTP ");
    m.append(status_text);
    Err(m)
}

/// Recognition is warm when it answers with a text.
pub fn check_asr_warmup(backend: &BackendDefinition, body: &Json) -> (r: Result<(), String>)
    ensures
        crate::registry::reports(
            r,
            if crate::json::text_of(crate::json::member(body@, "text"@)) is Some {
                None
            } else {
                Some("warmup for '"@ + backend.id@ + "' returned no text field"@)
            },
        ),
{
    match body.text_member("text") {
        Some(_) => Ok(()),
        None => Err(wrap("warmup for '", backend.id.as_str(), "' returned no text field")),
    }
}

pub open spec fn is_qwen_id(id: Seq<char>) -> bool {
    id == "qwen3-tts-0.6b"@
}

pub open spec fn is_audio8_id(id: Seq<char>) -> bool {
    id == "audio8-tts-preview-0.6b"@ || id == "audio8-tts-preview-0.1b"@
}

/// Whether a synthesis backend is asked for a WAV file rather than raw samples.
pub open spec fn answers_wav(id: Seq<char>) -> bool {
    ||| id == "higgs-tts-3-4b"@
    ||| id == "vibevoice-realtime-0.5b"@
    ||| id == "xtts-v2"@
    ||| id == "piper"@
    ||| id == "cosyvoice3-0.5b"@
    ||| id == "omnivoice"@
    ||| id == "kokoro"@
    ||| id == "inflect-micro-v2"@
    ||| is_audio8_id(id)
}

/// Whether a backend has its voice from when it was started, so that a placeholder
/// must not be sent.
pub open spec fn has_fixed_voice(id: Seq<char>) -> bool {
    id == "piper"@ || id == "omnivoice"@ || id == "inflect-micro-v2"@
}

pub open spec fn warmup_voice(b: BackendDefinition) -> Seq<char> {
    if b.default_voice@.len() == 0 {
        "default"@
    } else {
        b.default_voice@
    }
}

pub open spec fn drops_voice(b: BackendDefinition) -> bool {
    has_fixed_voice(b.id@) && (warmup_voice(b) == "default"@ || warmup_voice(b) == "male"@)
}

/// The members of a warmup request. But for a placeholder that is dropped the voice
/// goes out as the catalog has it: no policy for models that were started with a
/// voice is applied to it.
pub open spec fn warmup_members(b: BackendDefinition) -> Seq<(Seq<char>, JsonView)> {
    let id = b.id@;
    let inflect = id == "inflect-micro-v2"@;
    let head = seq![
        ("model"@, JsonView::Text(b.model@)),
        (
            "input"@,
            JsonView::Text(
                if is_qwen_id(id) {
                    "Hallo."@
                } else if inflect {
                    "Hello."@
                } else {
                    "Test."@
                },
            ),
        ),
    ];
    let voice = if drops_voice(b) {
        Seq::empty()
    } else {
        seq![("voice"@, JsonView::Text(warmup_voice(b)))]
    };
    let tail = seq![
        (
            "language"@,
            JsonView::Text(
                if is_qwen_id(id) {
                    "german"@
                } else if inflect {
                    "en"@
                } else {
                    "de"@
                },
            ),
        ),
        (
            "response_format"@,
            JsonView::Text(
                if answers_wav(id) {
                    "wav"@
                } else {
                    "pcm"@
                },
            ),
        ),
        (
            "max_new_tokens"@,
            JsonView::Number(
                text::decimal(
                    if is_qwen_id(id) {
                        16
                    } else if id == "higgs-tts-3-4b"@ || is_audio8_id(id) {
                        256
                    } else {
                        64
                    },
                ),
            ),
        ),
    ];
    let seed = if inflect {
        seq![("seed"@, JsonView::Number(text::decimal(7)))]
    } else {
        Seq::empty()
    };
    head + voice + tail + seed
}

fn wav_is_asked(id: &str) -> (r: bool)
    ensures
        r == answers_wav(id@),
{
    text::same(id, "higgs-tts-3-4b") || text::same(id, "vibevoice-realtime-0.5b") || text::same(
        id,
        "xtts-v2",
    ) || text::same(id, "piper") || text::same(id, "cosyvoice3-0.5b") || text::same(
        id,
        "omnivoice",
    ) || text::same(id, "kokoro") || text::same(id, "inflect-micro-v2") || text::same(
        id,
        "audio8-tts-preview-0.6b",
    ) || text::same(id, "audio8-tts-preview-0.1b")
}

/// The request by which synthesis is warmed.
pub fn tts_warmup(backend: &BackendDefinition) -> (r: Json)
    ensures
        r@ == JsonView::Object(warmup_members(*backend)),
{
    let id: &str = backend.id.as_str();
    let qwen: bool = text::same(id, "qwen3-tts-0.6b");
    let inflect: bool = text::same(id, "inflect-micro-v2");
    let large: bool = text::same(id, "higgs-tts-3-4b") || text::same(id, "audio8-tts-preview-0.6b")
        || text::same(id, "audio8-tts-preview-0.1b");
    let voice: &str = if backend.default_voice.as_str().is_empty() {
        "default"
    } else {
        backend.default_voice.as_str()
    };
    let fixed: bool = text::same(id, "piper") || text::same(id, "omnivoice") || inflect;
    let dropped: bool = fixed && (text::same(voice, "default") || text::same(voice, "male"));
    let mut m: Vec<(String, Json)> = Vec::new();
    assert(crate::json::members_view(m@) =~= Seq::empty());
    push_member(&mut m, "model", Json::text(backend.model.as_str()));
    push_member(
        &mut m,
        "input",
        Json::text(
            if qwen {
                "Hallo."
            } else if inflect {
                "Hello."
            } else {
                "Test."
            },
        ),
    );
    if !dropped {
        push_member(&mut m, "voice", Json::text(voice));
    }
    push_member(
        &mut m,
        "language",
        Json::text(
            if qwen {
                "german"
            } else if inflect {
                "en"
            } else {
                "de"
            },
        ),
    );
    push_member(
        &mut m,
        "response_format",
        Json::text(
            if wav_is_asked(id) {
                "wav"
            } else {
                "pcm"
            },
        ),
    );
    push_member(
        &mut m,
        "max_new_tokens",
        Json::number(
            if qwen {
                16
            } else if large {
                256
            } else {
                64
            },
        ),
    );
    if inflect {
        push_member(&mut m, "seed", Json::number(7));
    }
    assert(crate::json::members_view(m@) =~= warmup_members(*backend));
    object(m)
}

/// How long the answer to a warmup request may take.
pub fn tts_warmup_secs(backend: &BackendDefinition) -> (r: u64)
    ensures
        r == if is_audio8_id(backend.id@) {
            180u64
        } else {
            60
        },
{
    if text::same(backend.id.as_str(), "audio8-tts-preview-0.6b") || text::same(
        backend.id.as_str(),
        "audio8-tts-preview-0.1b",
    ) {
        180
    } else {
        60
    }
}

/// What is wrong with the audio of a warmup, by what was read of it.
pub open spec fn warmup_fault(
    id: Seq<char>,
    bytes: nat,
    head: Result<(u16, u32, u16, bool, u32), Seq<char>>,
) -> Option<Seq<char>> {
    if is_qwen_id(id) && (bytes == 0 || bytes % 2 != 0) {
        Some(
            "warmup for '"@ + id + "' returned invalid PCM payload ("@ + text::decimal(bytes)
                + " bytes)"@,
        )
    } else if id == "xtts-v2"@ {
        match head {
            Err(e) => Some("XTTS warmup returned invalid WAV data: "@ + e),
            Ok(h) => if h.0 != 1 || h.1 != 24000 || h.2 != 16 || h.4 == 0 {
                Some(
                    "warmup for '"@ + id + "' returned unsupported WAV format (channels="@
                        + text::decimal(h.0 as nat) + ", rate="@ + text::decimal(h.1 as nat)
                        + ", bits="@ + text::decimal(h.2 as nat) + ", frames="@ + text::decimal(
                        h.4 as nat,
                    ) + ")"@,
                )
            } else {
                None
            },
        }
    } else {
        None
    }
}

/// Checks the audio of a warmup by its length and by what was read of its head.
pub fn check_warmup_audio(id: &str, bytes: usize, head: &Result<WavInfo, String>) -> (r: Result<
    (),
    String,
>)
    ensures
        crate::registry::reports(
            r,
            warmup_fault(
                id@,
                bytes as nat,
                match head {
                    Ok(i) => Ok(
                        (i.channels, i.sample_rate, i.bits_per_sample, i.integer, i.frames),
                    ),
                    Err(m) => Err(m@),
                },
            ),
        ),
{
    if text::same(id, "qwen3-tts-0.6b") && (bytes == 0 || bytes % 2 != 0) {
        let n: String = text::decimal_of(bytes as u64);
        return Err(
            wrap2("warmup for '", id, "' returned invalid PCM payload (", n.as_str(), " bytes)"),
        );
    }
    if text::same(id, "xtts-v2") {
        let i: WavInfo = match head {
            Ok(i) => *i,
            Err(m) => {
                return Err(
                    text::joined_pair("XTTS warmup returned invalid WAV data: ", m.as_str()),
                );
            },
        };
        if i.channels != 1 || i.sample_rate != 24000 || i.bits_per_sample != 16 || i.frames == 0 {
            let channels: String = text::decimal_of(i.channels as u64);
            let rate: String = text::decimal_of(i.sample_rate as u64);
            let bits: String = text::decimal_of(i.bits_per_sample as u64);
            let frames: String = text::decimal_of(i.frames as u64);
            let mut m: String = wrap2(
                "warmup for '",
                id,
                "' returned unsupported WAV format (channels=",
                channels.as_str(),
                ", rate=",
            );
            m.append(rate.as_str());
            m.append(", bits=");
            m.append(bits.as_str());
            m.append(", frames=");
            m.append(frames.as_str());
            m.append(")");
            return Err(m);
        }
    }
    Ok(())
}

/// Checks the audio of a warmup: raw samples must be whole ones, and a WAV file
/// must be of the expected kind.
pub fn validate_tts_warmup_audio(backend: &BackendDefinition, bytes: &[u8]) -> (r: Result<
    (),
    String,
>)
    ensures
        crate::registry::reports(
            r,
            warmup_fault(backend.id@, bytes@.len(), crate::wav::wav_head(bytes@)),
        ),
{
    let head: Result<WavInfo, String> = wav_info(bytes);
    check_warmup_audio(backend.id.as_str(), bytes.len(), &head)
}

/// Whether a stage is warmed at all.
pub fn is_warmed(stage: BackendStage, endpoint: &str) -> (r: bool)
    ensures
        r == (endpoint@.len() > 0 && stage != BackendStage::Llm),
{
    !endpoint.is_empty() && stage != BackendStage::Llm
}

/// A backend that keeps its voice from when it was started is not sent a
/// placeholder for one.
pub proof fn law_no_placeholder_voice(b: BackendDefinition)
    requires
        has_fixed_voice(b.id@),
        b.default_voice@.len() == 0 || b.default_voice@ == "default"@ || b.default_voice@
            == "male"@,
    ensures
        crate::json::member(JsonView::Object(warmup_members(b)), "voice"@) is None,
{
    let ms = warmup_members(b);
    reveal_strlit("model");
    reveal_strlit("input");
    reveal_strlit("voice");
    reveal_strlit("language");
    reveal_strlit("response_format");
    reveal_strlit("max_new_tokens");
    reveal_strlit("seed");
    assert("model"@[0] != "voice"@[0]);
    assert("input"@[0] != "voice"@[0]);
    assert("language"@[0] != "voice"@[0]);
    assert("response_format"@[0] != "voice"@[0]);
    assert("max_new_tokens"@[0] != "voice"@[0]);
    assert("seed"@[0] != "voice"@[0]);
    assert forall|i: int| 0 <= i < ms.len() implies (#[trigger] ms[i]).0 != "voice"@ by {}
    lemma_no_member(ms, "voice"@);
}

proof fn lemma_no_member(ms: Seq<(Seq<char>, JsonView)>, key: Seq<char>)
    requires
        forall|i: int| 0 <= i < ms.len() ==> (#[trigger] ms[i]).0 != key,
    ensures
        crate::json::first_member(ms, key) is None,
    decreases ms.len(),
{
    if ms.len() > 0 {
        assert forall|i: int| 0 <= i < ms.drop_first().len() implies (
        #[trigger] ms.drop_first()[i]).0 != key by {
            assert(ms.drop_first()[i] == ms[i + 1]);
        }
        lemma_no_member(ms.drop_first(), key);
    }
}

/// The part of an address before the first `/v1/`, without slashes at its end, is its
/// server; a health path is asked there, and one that begins with the version is not
/// asked with it twice.
pub proof fn law_health_address(base: Seq<char>, rest: Seq<char>, path: Seq<char>)
    requires
        base.len() > 0,
        base.last() != '/',
        forall|i: int|
            0 <= i < base.len() ==> !text::starts_with(
                #[trigger] (base + "/v1/"@ + rest).skip(i),
                "/v1/"@,
            ),
    ensures
        server_part(base + "/v1/"@ + rest) == base,
        !text::starts_with(path, "/v1/"@) ==> health_address(base + "/v1/"@ + rest, path) == base
            + path,
{
    let p = "/v1/"@;
    let e = base + p + rest;
    reveal_strlit("/v1/");
    assert(e.skip(base.len() as int).take(4) =~= p);
    text::lemma_first_occurrence_is(e, p, base.len() as int);
    assert(e.take(base.len() as int) =~= base);
    assert(text::trim_end_of(base, '/') == base);
}

/// A service is healthy with a status of success and an answer that is not a page; the
/// status counts first.
pub proof fn law_health(status: u16, status_text: Seq<char>, content_type: Seq<char>, url: Seq<char>)
    ensures
        health_fault(status, status_text, content_type, url) is None <==> 200 <= status <= 299
            && !text::has(text::lower(content_type), "text/html"@),
        !(200 <= status <= 299) ==> health_fault(status, status_text, content_type, url) == Some(
            "HTTP "@ + status_text,
        ),
{
}

/// Only the external language model may need a key: by default where it is asked
/// over HTTPS, and never where a setting says no.
pub proof fn law_credentials(id: Seq<char>, endpoint: Seq<char>, key: Seq<char>, setting: Option<String>)
    ensures
        id != "external-openai"@ ==> !needs_credentials(id, endpoint, setting),
        setting is None ==> (needs_credentials(id, endpoint, setting) <==> id
            == "external-openai"@ && text::starts_with(text::trim(endpoint), "https://"@)),
        setting is Some && (text::trim(setting.unwrap()@) == "0"@ || text::trim(setting.unwrap()@)
            == "false"@ || text::trim(setting.unwrap()@) == "no"@) ==> !needs_credentials(
            id,
            endpoint,
            setting,
        ),
        text::trim(endpoint).len() == 0 ==> remote_fault(id, endpoint, key, setting) is Some,
        text::trim(endpoint).len() > 0 && text::trim(key).len() > 0 ==> remote_fault(
            id,
            endpoint,
            key,
            setting,
        ) is None,
        text::trim(endpoint).len() > 0 && text::trim(key).len() == 0 ==> (remote_fault(
            id,
            endpoint,
            key,
            setting,
        ) is Some <==> needs_credentials(id, endpoint, setting)),
{
}

/// What a synthesis backend is asked before it takes over: a word in its model, in
/// German unless it speaks only English, as a file where it writes files.
pub proof fn law_warmup_request(b: BackendDefinition)
    ensures
        ({
            let m = warmup_members(b);
            &&& m.contains(("model"@, JsonView::Text(b.model@)))
            &&& b.id@ == "qwen3-tts-0.6b"@ ==> m.contains(("input"@, JsonView::Text("Hallo."@)))
            &&& b.id@ == "xtts-v2"@ ==> m.contains(("response_format"@, JsonView::Text("wav"@)))
            &&& b.default_voice@.len() > 0 && b.default_voice@ != "default"@ && b.default_voice@
                != "male"@ ==> m.contains(("voice"@, JsonView::Text(b.default_voice@)))
        }),
{
    let m = warmup_members(b);
    assert(m[0] == ("model"@, JsonView::Text(b.model@)));
    assert(m[1].0 == "input"@);
    if !drops_voice(b) {
        assert(m[2] == ("voice"@, JsonView::Text(warmup_voice(b))));
        assert(m[4].0 == "response_format"@);
        assert(m.contains(m[4]));
    } else {
        assert(m[3].0 == "response_format"@);
        assert(m.contains(m[3]));
    }
    assert(m.contains(m[1]));
}

/// A warmup of raw samples has whole samples, and at least one; the one that answers
/// with a file has one channel at 24000 samples a second of 16 bits, and a frame.
pub proof fn law_warmup_audio(id: Seq<char>, bytes: nat, h: (u16, u32, u16, bool, u32), e: Seq<char>)
    ensures
        id == "qwen3-tts-0.6b"@ ==> (warmup_fault(id, bytes, Ok(h)) is None <==> bytes > 0 && bytes % 2
            == 0),
        id == "xtts-v2"@ ==> (warmup_fault(id, bytes, Ok(h)) is None <==> h.0 == 1 && h.1 == 24000
            && h.2 == 16 && h.4 > 0) && warmup_fault(id, bytes, Err(e)) is Some,
        id != "xtts-v2"@ && id != "qwen3-tts-0.6b"@ ==> warmup_fault(id, bytes, Ok(h)) is None,
{
    reveal_strlit("qwen3-tts-0.6b");
    reveal_strlit("xtts-v2");
    assert("qwen3-tts-0.6b"@.len() == 14 && "xtts-v2"@.len() == 7);
}

/// A runtime without a health path is asked at its root, one of the OpenAI kind is
/// warmed where it is asked later.
pub proof fn law_paths_of_a_runtime(v: BackendVariant, b: BackendDefinition)
    ensures
        v.health_path@.len() == 0 ==> health_path_of(v) == "/"@,
        v.health_path@.len() > 0 ==> health_path_of(v) == v.health_path@,
        b.protocol@ == "openai-asr"@ ==> asr_warmup_path(b) == "/v1/audio/transcriptions"@,
        b.protocol@ != "openai-asr"@ ==> asr_warmup_path(b) == "/inference"@,
{
}

} // verus!
