//! Speech synthesis: which backend speaks, what is asked of a synthesis server, and
//! how the audio that comes back is passed on.

use crate::config::{Config, TtsBackend};
use crate::json::{object, push_member, Json, JsonView};
use crate::pcm::bytes_to_i16_le;
use crate::registry::{wrap, wrap2};
use crate::runtime::is_supertonic_voice;
use crate::text;
use vstd::prelude::*;

verus! {

/// The backend that speaks for a configuration.
pub open spec fn resolved_backend(cfg: Config, supertonic: bool) -> TtsBackend {
    if cfg.tts != TtsBackend::Auto {
        cfg.tts
    } else if supertonic {
        TtsBackend::Supertonic
    } else if cfg.piper_model is Some {
        TtsBackend::Piper
    } else {
        TtsBackend::System
    }
}

/// Picks the backend where the configuration leaves it open; `supertonic` tells
/// whether the models for in-process synthesis are there.
pub fn resolve_tts_backend(cfg: &Config, supertonic: bool) -> (r: TtsBackend)
    ensures
        r == resolved_backend(*cfg, supertonic),
        r != TtsBackend::Auto,
{
    if cfg.tts != TtsBackend::Auto {
        cfg.tts
    } else if supertonic {
        TtsBackend::Supertonic
    } else if cfg.piper_model.is_some() {
        TtsBackend::Piper
    } else {
        TtsBackend::System
    }
}

pub open spec fn model_has(cfg: Config, p: Seq<char>) -> bool {
    text::has(text::lower(cfg.tts_model@), p)
}

pub open spec fn url_has(cfg: Config, p: Seq<char>) -> bool {
    text::has(text::lower(cfg.tts_url@), p)
}

/// Whether raw samples are asked for; some servers are better asked for WAV files.
pub open spec fn wants_pcm(cfg: Config) -> bool {
    !(model_has(cfg, "kokoro"@) || url_has(cfg, "8084"@) || url_has(cfg, "kokoro"@) || model_has(
        cfg,
        "higgs"@,
    ) || url_has(cfg, "higgs"@) || url_has(cfg, "8086"@) || url_has(cfg, "tts-higgs"@)
        || model_has(cfg, "vibevoice"@) || url_has(cfg, "vibevoice"@) || url_has(cfg, "8089"@)
        || url_has(cfg, "tts-vibevoice"@))
}

pub fn http_wants_pcm(cfg: &Config) -> (r: bool)
    ensures
        r == wants_pcm(*cfg),
{
    let model: String = text::to_lower(cfg.tts_model.as_str());
    let url: String = text::to_lower(cfg.tts_url.as_str());
    let m: &str = model.as_str();
    let u: &str = url.as_str();
    if text::contains(m, "kokoro") || text::contains(u, "8084") || text::contains(u, "kokoro") {
        return false;
    }
    if text::contains(m, "higgs") || text::contains(u, "higgs") || text::contains(u, "8086")
        || text::contains(u, "tts-higgs") {
        return false;
    }
    !(text::contains(m, "vibevoice") || text::contains(u, "vibevoice") || text::contains(u, "8089")
        || text::contains(u, "tts-vibevoice"))
}

pub open spec fn is_qwen(cfg: Config) -> bool {
    model_has(cfg, "qwen"@) || url_has(cfg, "qwen"@) || url_has(cfg, ":8083/"@) || text::ends_with(
        text::lower(cfg.tts_url@),
        ":8083"@,
    )
}

pub fn http_is_qwen(cfg: &Config) -> (r: bool)
    ensures
        r == is_qwen(*cfg),
{
    let model: String = text::to_lower(cfg.tts_model.as_str());
    let url: String = text::to_lower(cfg.tts_url.as_str());
    text::contains(model.as_str(), "qwen") || text::contains(url.as_str(), "qwen")
        || text::contains(url.as_str(), ":8083/") || text::finishes_with(url.as_str(), ":8083")
}

pub open spec fn is_higgs(cfg: Config) -> bool {
    model_has(cfg, "higgs"@) || url_has(cfg, "higgs"@) || url_has(cfg, "tts-higgs"@) || url_has(
        cfg,
        ":8086/"@,
    ) || text::ends_with(text::lower(cfg.tts_url@), ":8086"@)
}

pub fn http_is_higgs(cfg: &Config) -> (r: bool)
    ensures
        r == is_higgs(*cfg),
{
    let model: String = text::to_lower(cfg.tts_model.as_str());
    let url: String = text::to_lower(cfg.tts_url.as_str());
    text::contains(model.as_str(), "higgs") || text::contains(url.as_str(), "higgs")
        || text::contains(url.as_str(), "tts-higgs") || text::contains(url.as_str(), ":8086/")
        || text::finishes_with(url.as_str(), ":8086")
}

/// How many frames one request may give at most.
pub open spec fn frame_limit(cfg: Config) -> u32 {
    if cfg.tts_http_max_new_tokens < 1 {
        1
    } else if cfg.tts_http_max_new_tokens > 256 {
        256
    } else {
        cfg.tts_http_max_new_tokens
    }
}

pub fn qwen_frame_limit(cfg: &Config) -> (r: u32)
    ensures
        r == frame_limit(*cfg),
        1 <= r <= 256,
{
    if cfg.tts_http_max_new_tokens < 1 {
        1
    } else if cfg.tts_http_max_new_tokens > 256 {
        256
    } else {
        cfg.tts_http_max_new_tokens
    }
}

pub open spec fn request_model(cfg: Config) -> Seq<char> {
    if text::trim(cfg.tts_model@).len() == 0 {
        "tts"@
    } else {
        cfg.tts_model@
    }
}

pub open spec fn or_english(language: Option<&str>) -> Seq<char> {
    match language {
        Some(l) => l@,
        None => "en"@,
    }
}

/// The members of a synthesis request. The same things go under several names, for
/// servers differ.
pub open spec fn speech_members(
    cfg: Config,
    input: Seq<char>,
    language: Seq<char>,
    streamed: bool,
) -> Seq<(Seq<char>, JsonView)> {
    let head = seq![
        ("model"@, JsonView::Text(request_model(cfg))),
        ("input"@, JsonView::Text(input)),
        ("text"@, JsonView::Text(input)),
        ("language"@, JsonView::Text(language)),
        ("lang"@, JsonView::Text(language)),
        ("voice"@, JsonView::Text(cfg.supertonic_voice@)),
        (
            "response_format"@,
            JsonView::Text(
                if streamed && wants_pcm(cfg) {
                    "pcm"@
                } else {
                    "wav"@
                },
            ),
        ),
    ];
    let tail = if is_higgs(cfg) {
        seq![
            ("max_new_tokens"@, JsonView::Number(text::decimal(1024))),
            ("temperature"@, JsonView::Number("0.8"@)),
            ("top_k"@, JsonView::Number(text::decimal(50))),
        ]
    } else if streamed && is_qwen(cfg) {
        seq![("max_new_tokens"@, JsonView::Number(text::decimal(frame_limit(cfg) as nat)))]
    } else {
        Seq::empty()
    };
    head + tail
}

/// The body of a synthesis request. A streamed one may ask for raw samples.
pub fn speech_body(cfg: &Config, input: &str, language: Option<&str>, streamed: bool) -> (r: Json)
    ensures
        r@ == JsonView::Object(speech_members(*cfg, input@, or_english(language), streamed)),
{
    let trimmed: String = text::trimmed(cfg.tts_model.as_str());
    let model: &str = if trimmed.as_str().is_empty() {
        "tts"
    } else {
        cfg.tts_model.as_str()
    };
    let lang: &str = match language {
        Some(l) => l,
        None => "en",
    };
    let mut m: Vec<(String, Json)> = Vec::new();
    assert(crate::json::members_view(m@) =~= Seq::empty());
    push_member(&mut m, "model", Json::text(model));
    push_member(&mut m, "input", Json::text(input));
    push_member(&mut m, "text", Json::text(input));
    push_member(&mut m, "language", Json::text(lang));
    push_member(&mut m, "lang", Json::text(lang));
    push_member(&mut m, "voice", Json::text(cfg.supertonic_voice.as_str()));
    push_member(
        &mut m,
        "response_format",
        Json::text(
            if streamed && http_wants_pcm(cfg) {
                "pcm"
            } else {
                "wav"
            },
        ),
    );
    if http_is_higgs(cfg) {
        push_member(&mut m, "max_new_tokens", Json::number(1024));
        push_member(&mut m, "temperature", Json::Number(String::from_str("0.8")));
        push_member(&mut m, "top_k", Json::number(50));
    } else if streamed && http_is_qwen(cfg) {
        push_member(&mut m, "max_new_tokens", Json::number(qwen_frame_limit(cfg) as u64));
    }
    assert(crate::json::members_view(m@) =~= speech_members(
        *cfg,
        input@,
        or_english(language),
        streamed,
    ));
    object(m)
}

pub fn accept_header(cfg: &Config) -> (r: &'static str)
    ensures
        r@ == if wants_pcm(*cfg) {
            "audio/pcm, audio/wav, */*"@
        } else {
            "audio/wav, audio/pcm, */*"@
        },
{
    if http_wants_pcm(cfg) {
        "audio/pcm, audio/wav, */*"
    } else {
        "audio/wav, audio/pcm, */*"
    }
}

/// The error for an answer that is not a success.
pub fn http_error(status_text: &str, body: &str) -> (r: String)
    ensures
        r@ == "TTS HTTP "@ + status_text@ + ": "@ + body@ + ""@,
{
    wrap2("TTS HTTP ", status_text, ": ", body, "")
}

/// Whether an answer is read as a whole before anything of it is played: a WAV
/// file, announced or asked for.
pub fn reads_whole_answer(cfg: &Config, content_type: &str) -> (r: bool)
    ensures
        r == (text::has(content_type@, "wav"@) || text::has(content_type@, "wave"@)
            || !wants_pcm(*cfg)),
{
    text::contains(content_type, "wav") || text::contains(content_type, "wave") || !http_wants_pcm(
        cfg,
    )
}

/// Whether audio begins as a WAV file does.
pub open spec fn begins_as_wav(bytes: Seq<u8>, at_least: nat) -> bool {
    &&& bytes.len() >= at_least
    &&& bytes.len() >= 4
    &&& bytes[0] == 0x52 && bytes[1] == 0x49 && bytes[2] == 0x46 && bytes[3] == 0x46
}

pub fn looks_like_wav(bytes: &[u8], at_least: usize) -> (r: bool)
    ensures
        r == begins_as_wav(bytes@, at_least as nat),
{
    bytes.len() >= at_least && bytes.len() >= 4 && bytes[0] == 0x52 && bytes[1] == 0x49 && bytes[2]
        == 0x46 && bytes[3] == 0x46
}

/// The rate of raw samples: the announced one if it is plausible, else the
/// configured one.
pub open spec fn source_rate(cfg: Config, announced: Option<u32>) -> u32 {
    match announced {
        Some(r) if 8000 <= r <= 96000 => r,
        _ => if cfg.tts_native_sample_rate < 8000 {
            8000
        } else {
            cfg.tts_native_sample_rate
        },
    }
}

pub fn native_sample_rate(cfg: &Config, announced: Option<u32>) -> (r: u32)
    ensures
        r == source_rate(*cfg, announced),
        r >= 8000,
{
    match announced {
        Some(r) => {
            if r >= 8000 && r <= 96000 {
                return r;
            }
        },
        None => {},
    }
    if cfg.tts_native_sample_rate < 8000 {
        8000
    } else {
        cfg.tts_native_sample_rate
    }
}

/// The rate that a header announces.
pub fn announced_rate(header: &Option<String>) -> (r: Option<u32>)
    ensures
        match header {
            Some(h) => match text::parsed_unsigned(h@, u32::MAX as nat) {
                Some(n) => r matches Some(x) && x == n,
                None => r is None,
            },
            None => r is None,
        },
{
    match header {
        Some(h) => match text::parse_unsigned(h.as_str(), u32::MAX as u64) {
            Some(n) => Some(n as u32),
            None => None,
        },
        None => None,
    }
}

/// How many samples are passed on at a time while audio streams in.
pub open spec fn chunk_len(cfg: Config) -> int {
    let ms: int = if cfg.tts_stream_chunk_ms < 40 {
        40
    } else if cfg.tts_stream_chunk_ms > 2000 {
        2000
    } else {
        cfg.tts_stream_chunk_ms as int
    };
    let n = cfg.tts_sample_rate * ms / 1000;
    if n < 1 {
        1
    } else {
        n
    }
}

pub fn chunk_samples(cfg: &Config) -> (r: u64)
    ensures
        r == chunk_len(*cfg),
        r >= 1,
{
    let ms: u64 = if cfg.tts_stream_chunk_ms < 40 {
        40
    } else if cfg.tts_stream_chunk_ms > 2000 {
        2000
    } else {
        cfg.tts_stream_chunk_ms as u64
    };
    let rate: u64 = cfg.tts_sample_rate as u64;
    assert(rate * ms <= 0xffff_ffff * 2000) by (nonlinear_arith)
        requires
            rate <= 0xffff_ffff,
            ms <= 2000,
    ;
    let n: u64 = rate * ms / 1000;
    if n < 1 {
        1
    } else {
        n
    }
}

/// Decodes an answer of raw samples that was read as a whole.
pub fn decode_pcm_answer(bytes: &[u8]) -> (r: Result<Vec<i16>, String>)
    ensures
        match r {
            Ok(v) => bytes@.len() >= 2 && bytes@.len() % 2 == 0 && v@ == crate::pcm::decoded(
                bytes@,
            ),
            Err(m) => if bytes@.len() < 2 {
                m@ == "TTS PCM stream produced no samples"@
            } else {
                bytes@.len() % 2 != 0 && m@ == "TTS PCM odd length "@ + text::decimal(
                    bytes@.len(),
                )
            },
        },
{
    if bytes.len() < 2 {
        return Err(String::from_str("TTS PCM stream produced no samples"));
    }
    if bytes.len() % 2 != 0 {
        let n: String = text::decimal_of(bytes.len() as u64);
        return Err(text::joined_pair("TTS PCM odd length ", n.as_str()));
    }
    Ok(bytes_to_i16_le(bytes))
}

/// Decodes audio that is not a WAV file and so is taken for raw samples.
pub fn decode_raw_audio(bytes: &[u8]) -> (r: Result<Vec<i16>, String>)
    ensures
        match r {
            Ok(v) => bytes@.len() % 2 == 0 && v@ == crate::pcm::decoded(bytes@),
            Err(m) => bytes@.len() % 2 != 0 && m@ == "odd-length raw PCM from TTS"@,
        },
{
    if bytes.len() % 2 != 0 {
        return Err(String::from_str("odd-length raw PCM from TTS"));
    }
    Ok(bytes_to_i16_le(bytes))
}

// ---------------------------------------------------------------------------
// The synthesis stage
// ---------------------------------------------------------------------------

/// What is taken from the queue of texts to be spoken.
#[derive(Debug)]
pub enum SpeechItem {
    PipelineEnd,
    SessionEnd,
    /// The answer is complete.
    Final,
    Text(String),
}

/// What is done with it.
#[derive(Debug)]
pub enum TtsAction {
    Stop,
    /// Listen again.
    Listen,
    /// Tell that the answer is complete and listen again.
    FinishTurn,
    Skip,
    /// Speak; the in-process engine is to be loaded first with this voice.
    LoadAndSpeak(String),
    /// Speak by a request to a synthesis server.
    Stream,
    Speak,
}

/// The voice with which the in-process engine is loaded: a voice of another
/// backend is replaced.
pub open spec fn engine_voice(voice: Seq<char>) -> Seq<char> {
    if crate::runtime::supertonic_voice(voice) {
        voice
    } else {
        "M1"@
    }
}

pub open spec fn is_action(a: TtsAction, item: SpeechItem, backend: TtsBackend, voice: Seq<char>, loaded: bool) -> bool {
    match item {
        SpeechItem::PipelineEnd => a is Stop,
        SpeechItem::SessionEnd => a is Listen,
        SpeechItem::Final => a is FinishTurn,
        SpeechItem::Text(t) => if text::trim(t@).len() == 0 {
            a is Skip
        } else if backend == TtsBackend::Supertonic && !loaded {
            a matches TtsAction::LoadAndSpeak(v) && v@ == engine_voice(voice)
        } else if backend == TtsBackend::Http {
            a is Stream
        } else {
            a is Speak
        },
    }
}

/// Decides on an item of the queue. `backend` is the resolved backend, `loaded`
/// tells whether the in-process engine is there.
pub fn tts_action(item: &SpeechItem, backend: TtsBackend, voice: &str, loaded: bool) -> (r:
    TtsAction)
    ensures
        is_action(r, *item, backend, voice@, loaded),
{
    match item {
        SpeechItem::PipelineEnd => TtsAction::Stop,
        SpeechItem::SessionEnd => TtsAction::Listen,
        SpeechItem::Final => TtsAction::FinishTurn,
        SpeechItem::Text(t) => {
            let t: String = text::trimmed(t.as_str());
            if t.as_str().is_empty() {
                TtsAction::Skip
            } else if backend == TtsBackend::Supertonic && !loaded {
                if is_supertonic_voice(voice) {
                    TtsAction::LoadAndSpeak(String::from_str(voice))
                } else {
                    TtsAction::LoadAndSpeak(String::from_str("M1"))
                }
            } else if backend == TtsBackend::Http {
                TtsAction::Stream
            } else {
                TtsAction::Speak
            }
        },
    }
}

// ---------------------------------------------------------------------------
// The synthesis server
// ---------------------------------------------------------------------------

/// Why a request to the synthesis server is refused. It has one voice loaded, and
/// refuses others rather than speak with the wrong one.
pub open spec fn server_fault(input: Seq<char>, voice: Seq<char>, loaded: Seq<char>) -> Option<
    Seq<char>,
> {
    if text::trim(input).len() == 0 {
        Some("input must not be empty"@)
    } else if text::trim(voice).len() > 0 && voice != loaded {
        Some("voice '"@ + voice + "' is not loaded; active voice is '"@ + loaded + "'"@)
    } else {
        None
    }
}

pub fn check_server_request(input: &str, voice: &str, loaded: &str) -> (r: Result<(), String>)
    ensures
        crate::registry::reports(r, server_fault(input@, voice@, loaded@)),
{
    let t: String = text::trimmed(input);
    if t.as_str().is_empty() {
        return Err(String::from_str("input must not be empty"));
    }
    let v: String = text::trimmed(voice);
    if !v.as_str().is_empty() && !text::same(voice, loaded) {
        return Err(wrap2("voice '", voice, "' is not loaded; active voice is '", loaded, "'"));
    }
    Ok(())
}

/// The language in which the synthesis server speaks.
pub fn server_language(cfg: &Config, language: &str) -> (r: String)
    ensures
        r@ == if text::trim(language@).len() == 0 {
            crate::config::tts_language_of(*cfg, None)
        } else {
            language@
        },
{
    let t: String = text::trimmed(language);
    if t.as_str().is_empty() {
        cfg.resolve_tts_language(None)
    } else {
        String::from_str(language)
    }
}

/// Whether the synthesis server answers with a WAV file.
pub fn server_wants_wav(response_format: &str) -> (r: bool)
    ensures
        r == text::alike(response_format@, "wav"@),
{
    text::same_ignoring_case(response_format, "wav")
}

/// The language in which the in-process engine speaks when none is given.
pub fn engine_default_language(cfg: &Config) -> (r: String)
    ensures
        r@ == if cfg.language@ == "auto"@ {
            "en"@
        } else {
            cfg.language@
        },
{
    if text::same(cfg.language.as_str(), "auto") {
        String::from_str("en")
    } else {
        cfg.language.clone()
    }
}

/// The language in which the in-process engine speaks.
pub fn engine_language<'a>(language: Option<&'a str>, default_lang: &'a str) -> (r: &'a str)
    ensures
        r@ == match language {
            Some(l) => if l@.len() == 0 || l@ == "auto"@ {
                default_lang@
            } else {
                l@
            },
            None => default_lang@,
        },
{
    match language {
        Some(l) => if l.is_empty() || text::same(l, "auto") {
            default_lang
        } else {
            l
        },
        None => default_lang,
    }
}

/// The rate at which the in-process engine gives its audio.
pub fn engine_rate(native: u32, wanted: u32) -> (r: u32)
    ensures
        r == if wanted != 0 && wanted != native {
            wanted
        } else {
            native
        },
{
    if wanted != 0 && wanted != native {
        wanted
    } else {
        native
    }
}

/// The files that a model directory must have.
pub fn model_files() -> (r: Vec<String>)
    ensures
        text::views(r@) == seq![
            "duration_predictor.onnx"@,
            "text_encoder.onnx"@,
            "vector_estimator.onnx"@,
            "vocoder.onnx"@,
            "unicode_indexer.json"@,
        ],
{
    let mut v: Vec<String> = Vec::new();
    v.push(String::from_str("duration_predictor.onnx"));
    v.push(String::from_str("text_encoder.onnx"));
    v.push(String::from_str("vector_estimator.onnx"));
    v.push(String::from_str("vocoder.onnx"));
    v.push(String::from_str("unicode_indexer.json"));
    assert(text::views(v@) =~= seq![
        "duration_predictor.onnx"@,
        "text_encoder.onnx"@,
        "vector_estimator.onnx"@,
        "vocoder.onnx"@,
        "unicode_indexer.json"@,
    ]);
    v
}

pub open spec fn opt_seq(s: Option<String>) -> Seq<Seq<char>> {
    match s {
        Some(t) => seq![t@],
        None => Seq::empty(),
    }
}

/// Where models are looked for, in this order.
pub fn model_dirs(cfg: &Config, env: &Option<String>) -> (r: Vec<String>)
    ensures
        text::views(r@) == opt_seq(cfg.supertonic_model_dir) + seq![
            "models/supertonic/onnx"@,
            "assets/onnx"@,
        ] + opt_seq(*env),
{
    let mut v: Vec<String> = Vec::new();
    match &cfg.supertonic_model_dir {
        Some(d) => {
            v.push(d.clone());
        },
        None => {},
    }
    v.push(String::from_str("models/supertonic/onnx"));
    v.push(String::from_str("assets/onnx"));
    match env {
        Some(d) => {
            v.push(d.clone());
        },
        None => {},
    }
    assert(text::views(v@) =~= opt_seq(cfg.supertonic_model_dir) + seq![
        "models/supertonic/onnx"@,
        "assets/onnx"@,
    ] + opt_seq(*env));
    v
}

/// The first index at which something is found.
pub open spec fn first_found_from(found: Seq<bool>, from: int) -> Option<int>
    decreases found.len() - from,
{
    if from >= found.len() {
        None
    } else if found[from] {
        Some(from)
    } else {
        first_found_from(found, from + 1)
    }
}

pub fn first_found(found: &Vec<bool>) -> (r: Option<usize>)
    ensures
        match r {
            Some(i) => first_found_from(found@, 0) == Some(i as int) && i < found@.len(),
            None => first_found_from(found@, 0) is None,
        },
{
    let mut i: usize = 0;
    while i < found.len()
        invariant
            i <= found.len(),
            first_found_from(found@, 0) == first_found_from(found@, i as int),
        decreases found.len() - i,
    {
        if found[i] {
            return Some(i);
        }
        i += 1;
    }
    None
}

/// The directory with the models: the first of those that are looked at which is
/// complete.
pub fn choose_model_dir(cfg: &Config, env: &Option<String>, complete: &Vec<bool>) -> (r: Result<
    String,
    String,
>)
    requires
        complete@.len() == opt_seq(cfg.supertonic_model_dir).len() + 2 + opt_seq(*env).len(),
    ensures
        ({
            let dirs = opt_seq(cfg.supertonic_model_dir) + seq![
                "models/supertonic/onnx"@,
                "assets/onnx"@,
            ] + opt_seq(*env);
            match r {
                Ok(d) => first_found_from(complete@, 0) matches Some(i) && d@ == dirs[i],
                Err(m) => first_found_from(complete@, 0) is None && m@
                    == "Supertonic ONNX models not found. Download with:\n  python scripts/download_supertonic.py\n  or set --supertonic-model-dir to the `onnx` folder of Supertone/supertonic-3"@,
            }
        }),
{
    let dirs: Vec<String> = model_dirs(cfg, env);
    match first_found(complete) {
        Some(i) => {
            assert(text::views(dirs@).len() == complete@.len());
            assert(text::views(dirs@)[i as int] == dirs@[i as int]@);
            Ok(dirs[i].clone())
        },
        None => Err(
            String::from_str(
                "Supertonic ONNX models not found. Download with:\n  python scripts/download_supertonic.py\n  or set --supertonic-model-dir to the `onnx` folder of Supertone/supertonic-3",
            ),
        ),
    }
}

/// Where the style of a voice is looked for, in this order. `parent` is the directory
/// above that of the models.
pub fn voice_paths(cfg: &Config, onnx_dir: &str, parent: &str) -> (r: Vec<String>)
    ensures
        ({
            let file = voice_file(cfg.supertonic_voice@);
            text::views(r@) == opt_seq(cfg.supertonic_voice_path) + seq![
                text::path_in(text::path_in(onnx_dir@, "../voice_styles"@), file),
                text::path_in(text::path_in(parent@, "voice_styles"@), file),
                text::path_in("models/supertonic/voice_styles"@, file),
                text::path_in("assets/voice_styles"@, file),
            ]
        }),
{
    let file: String = voice_file_of(cfg.supertonic_voice.as_str());
    let f: &str = file.as_str();
    let mut v: Vec<String> = Vec::new();
    match &cfg.supertonic_voice_path {
        Some(p) => {
            v.push(p.clone());
        },
        None => {},
    }
    let beside: String = text::join_path(onnx_dir, "../voice_styles");
    v.push(text::join_path(beside.as_str(), f));
    let above: String = text::join_path(parent, "voice_styles");
    v.push(text::join_path(above.as_str(), f));
    v.push(text::join_path("models/supertonic/voice_styles", f));
    v.push(text::join_path("assets/voice_styles", f));
    assert(text::views(v@) =~= opt_seq(cfg.supertonic_voice_path) + seq![
        text::path_in(text::path_in(onnx_dir@, "../voice_styles"@), f@),
        text::path_in(text::path_in(parent@, "voice_styles"@), f@),
        text::path_in("models/supertonic/voice_styles"@, f@),
        text::path_in("assets/voice_styles"@, f@),
    ]);
    v
}

/// The file of a voice style.
pub open spec fn voice_file(voice: Seq<char>) -> Seq<char> {
    let name = text::trim(voice);
    if text::ends_with(name, ".json"@) {
        name
    } else {
        name + ".json"@
    }
}

pub fn voice_file_of(voice: &str) -> (r: String)
    ensures
        r@ == voice_file(voice@),
{
    let name: String = text::trimmed(voice);
    if text::finishes_with(name.as_str(), ".json") {
        name
    } else {
        text::joined_pair(name.as_str(), ".json")
    }
}

/// The error for a voice style that is nowhere.
pub fn voice_not_found(voice: &str) -> (r: String)
    ensures
        r@ == "Supertonic voice style '"@ + voice_file(voice@)
            + "' not found (tried models/supertonic/voice_styles/)"@,
{
    let file: String = voice_file_of(voice);
    wrap(
        "Supertonic voice style '",
        file.as_str(),
        "' not found (tried models/supertonic/voice_styles/)",
    )
}

/// A text with its apostrophes doubled, as a quoted text of the system shell needs
/// it.
pub open spec fn doubled(s: Seq<char>) -> Seq<char>
    decreases s.len(),
{
    if s.len() == 0 {
        Seq::empty()
    } else if s.last() == '\'' {
        doubled(s.drop_last()).push('\'').push('\'')
    } else {
        doubled(s.drop_last()).push(s.last())
    }
}

pub fn double_apostrophes(s: &str) -> (r: String)
    ensures
        r@ == doubled(s@),
{
    let v: Vec<char> = text::chars_of(s);
    let mut out: Vec<char> = Vec::new();
    let mut i: usize = 0;
    assert(v@.take(0) =~= Seq::empty());
    while i < v.len()
        invariant
            i <= v.len(),
            out@ == doubled(v@.take(i as int)),
        decreases v.len() - i,
    {
        assert(v@.take(i + 1).drop_last() =~= v@.take(i as int));
        out.push(v[i]);
        if v[i] == '\'' {
            out.push('\'');
        }
        i += 1;
    }
    assert(v@.take(i as int) =~= v@);
    text::string_of(out.as_slice())
}

/// A backend that is named is taken. Else the in-process engine comes first, then
/// Piper where it has a model, then the voice of the system.
pub proof fn law_backend_order(cfg: Config, supertonic: bool)
    ensures
        cfg.tts != TtsBackend::Auto ==> resolved_backend(cfg, supertonic) == cfg.tts,
        cfg.tts == TtsBackend::Auto && supertonic ==> resolved_backend(cfg, supertonic)
            == TtsBackend::Supertonic,
        cfg.tts == TtsBackend::Auto && !supertonic && cfg.piper_model is Some ==> resolved_backend(
            cfg,
            supertonic,
        ) == TtsBackend::Piper,
        cfg.tts == TtsBackend::Auto && !supertonic && cfg.piper_model is None ==> resolved_backend(
            cfg,
            supertonic,
        ) == TtsBackend::System,
{
}

/// The rate that a server announces is taken if it is between 8000 and 96000; else
/// the one that is configured, and never less than 8000.
pub proof fn law_rate_of_the_source(cfg: Config, announced: u32)
    ensures
        8000 <= announced <= 96000 ==> source_rate(cfg, Some(announced)) == announced,
        announced < 8000 || announced > 96000 ==> source_rate(cfg, Some(announced)) == source_rate(
            cfg,
            None,
        ),
        cfg.tts_native_sample_rate >= 8000 ==> source_rate(cfg, None) == cfg.tts_native_sample_rate,
        cfg.tts_native_sample_rate < 8000 ==> source_rate(cfg, None) == 8000,
{
}

/// A chunk has as many samples as fit in its time, at least one; times under 40
/// milliseconds count as 40 and times over two seconds as two seconds.
pub proof fn law_chunk_has_its_time(cfg: Config)
    ensures
        chunk_len(cfg) >= 1,
        40 <= cfg.tts_stream_chunk_ms <= 2000 && cfg.tts_sample_rate * cfg.tts_stream_chunk_ms
            >= 1000 ==> chunk_len(cfg) * 1000 <= cfg.tts_sample_rate * cfg.tts_stream_chunk_ms < (
        chunk_len(cfg) + 1) * 1000,
        cfg.tts_stream_chunk_ms < 40 && cfg.tts_sample_rate >= 25 ==> chunk_len(cfg)
            == cfg.tts_sample_rate * 40 / 1000,
        cfg.tts_stream_chunk_ms > 2000 && cfg.tts_sample_rate >= 1 ==> chunk_len(cfg)
            == cfg.tts_sample_rate * 2,
{
}

/// The limit of frames is what is configured, between 1 and 256.
pub proof fn law_limit_of_frames(cfg: Config)
    ensures
        1 <= frame_limit(cfg) <= 256,
        1 <= cfg.tts_http_max_new_tokens <= 256 ==> frame_limit(cfg) == cfg.tts_http_max_new_tokens,
        cfg.tts_http_max_new_tokens > 256 ==> frame_limit(cfg) == 256,
{
}

/// A server that can only write files, told by its model or its address, is asked
/// for WAV; all others are asked for raw samples where the answer is streamed.
pub proof fn law_file_servers_send_wav(cfg: Config, input: Seq<char>, language: Seq<char>)
    ensures
        ({
            let model = text::lower(cfg.tts_model@);
            let url = text::lower(cfg.tts_url@);
            let files = text::has(model, "kokoro"@) || text::has(model, "higgs"@) || text::has(
                model,
                "vibevoice"@,
            ) || text::has(url, "kokoro"@) || text::has(url, "higgs"@) || text::has(
                url,
                "vibevoice"@,
            ) || text::has(url, "8084"@) || text::has(url, "8086"@) || text::has(url, "8089"@);
            &&& files ==> speech_members(cfg, input, language, true)[6] == (
                "response_format"@,
                JsonView::Text("wav"@),
            )
            &&& speech_members(cfg, input, language, false)[6] == (
                "response_format"@,
                JsonView::Text("wav"@),
            )
            &&& !files && !text::has(url, "tts-higgs"@) && !text::has(url, "tts-vibevoice"@)
                ==> speech_members(cfg, input, language, true)[6] == (
                "response_format"@,
                JsonView::Text("pcm"@),
            )
        }),
{
}

/// What is spoken is sent as it is, under both names that servers know, in the voice
/// of the configuration and in the language that is given.
pub proof fn law_speech_body(cfg: Config, input: Seq<char>, language: Seq<char>, streamed: bool)
    ensures
        ({
            let m = speech_members(cfg, input, language, streamed);
            &&& m.contains(("input"@, JsonView::Text(input)))
            &&& m.contains(("text"@, JsonView::Text(input)))
            &&& m.contains(("language"@, JsonView::Text(language)))
            &&& m.contains(("lang"@, JsonView::Text(language)))
            &&& m.contains(("voice"@, JsonView::Text(cfg.supertonic_voice@)))
            &&& text::trim(cfg.tts_model@).len() > 0 ==> m.contains(
                ("model"@, JsonView::Text(cfg.tts_model@)),
            )
            &&& text::has(text::lower(cfg.tts_model@), "higgs"@) ==> m.contains(
                ("temperature"@, JsonView::Number("0.8"@)),
            )
            &&& streamed && text::has(text::lower(cfg.tts_model@), "qwen"@) && !is_higgs(cfg)
                && 1 <= cfg.tts_http_max_new_tokens <= 256 ==> m.contains(
                (
                    "max_new_tokens"@,
                    JsonView::Number(text::decimal(cfg.tts_http_max_new_tokens as nat)),
                ),
            )
        }),
{
    let m = speech_members(cfg, input, language, streamed);
    assert(m[0] == ("model"@, JsonView::Text(request_model(cfg))));
    assert(m[1] == ("input"@, JsonView::Text(input)));
    assert(m[2] == ("text"@, JsonView::Text(input)));
    assert(m[3] == ("language"@, JsonView::Text(language)));
    assert(m[4] == ("lang"@, JsonView::Text(language)));
    assert(m[5] == ("voice"@, JsonView::Text(cfg.supertonic_voice@)));
    if is_higgs(cfg) {
        assert(m[8] == ("temperature"@, JsonView::Number("0.8"@)));
    } else if streamed && is_qwen(cfg) {
        assert(m[7].0 == "max_new_tokens"@);
    }
}

/// The first directory that is complete is taken.
pub proof fn law_first_complete_is_taken(found: Seq<bool>)
    ensures
        match first_found_from(found, 0) {
            Some(i) => 0 <= i < found.len() && found[i] && forall|j: int|
                0 <= j < i ==> !#[trigger] found[j],
            None => forall|j: int| 0 <= j < found.len() ==> !#[trigger] found[j],
        },
{
    lemma_first_found(found, 0);
}

proof fn lemma_first_found(found: Seq<bool>, from: int)
    requires
        0 <= from <= found.len(),
    ensures
        match first_found_from(found, from) {
            Some(i) => from <= i < found.len() && found[i] && forall|j: int|
                from <= j < i ==> !#[trigger] found[j],
            None => forall|j: int| from <= j < found.len() ==> !#[trigger] found[j],
        },
    decreases found.len() - from,
{
    if from < found.len() && !found[from] {
        lemma_first_found(found, from + 1);
    }
}

/// Quoting doubles the apostrophes of a text and leaves the rest: the quoted text of
/// two parts is that of the one and that of the other.
pub proof fn law_apostrophes_are_doubled(a: Seq<char>, b: Seq<char>, c: char)
    ensures
        doubled(a + b) == doubled(a) + doubled(b),
        doubled(seq!['\'']) == seq!['\'', '\''],
        c != '\'' ==> doubled(seq![c]) == seq![c],
        doubled(Seq::empty()) == Seq::<char>::empty(),
    decreases b.len(),
{
    assert(seq!['\''].drop_last() =~= Seq::empty());
    assert(seq![c].drop_last() =~= Seq::empty());
    assert(doubled(Seq::empty()) =~= Seq::<char>::empty());
    assert(doubled(seq!['\'']) =~= seq!['\'', '\'']);
    assert(c != '\'' ==> doubled(seq![c]) =~= seq![c]);
    if b.len() == 0 {
        assert(a + b =~= a);
        assert(doubled(a) + doubled(b) =~= doubled(a));
    } else {
        law_apostrophes_are_doubled(a, b.drop_last(), c);
        assert((a + b).drop_last() =~= a + b.drop_last());
        assert(doubled(a + b) =~= doubled(a) + doubled(b));
    }
}

/// The file of a voice has one ending, whether the voice is named with it or not.
pub proof fn law_voice_file_has_one_ending(voice: Seq<char>)
    ensures
        text::ends_with(voice_file(voice), ".json"@),
        voice.len() > 0 && !text::is_space(voice[0]) && !text::is_space(voice.last())
            && !text::ends_with(voice, ".json"@) ==> voice_file(voice) == voice + ".json"@,
{
    text::law_trim(voice);
    let n = text::trim(voice);
    assert((n + ".json"@).skip(n.len() as int) =~= ".json"@);
}

/// What is done with what comes to be spoken: blank text is skipped, a server is
/// asked where one is configured, the in-process engine is loaded before its first
/// words, and ends are passed on.
pub proof fn law_what_is_done_to_speak(
    a: TtsAction,
    t: String,
    backend: TtsBackend,
    voice: Seq<char>,
    loaded: bool,
)
    requires
        is_action(a, SpeechItem::Text(t), backend, voice, loaded),
    ensures
        a is Skip <==> text::trim(t@).len() == 0,
        text::trim(t@).len() > 0 && backend == TtsBackend::Http ==> a is Stream,
        text::trim(t@).len() > 0 && backend == TtsBackend::Supertonic && !loaded ==> a is LoadAndSpeak,
        text::trim(t@).len() > 0 && backend == TtsBackend::Supertonic && loaded ==> a is Speak,
        text::trim(t@).len() > 0 && (backend == TtsBackend::Piper || backend == TtsBackend::System)
            ==> a is Speak,
{
}

/// A server speaks with the voice that it has loaded: a request for it, or for none,
/// is answered, and one for another is not; nor is one without words.
pub proof fn law_loaded_voice_answers(input: Seq<char>, voice: Seq<char>, loaded: Seq<char>)
    ensures
        text::trim(input).len() == 0 ==> server_fault(input, voice, loaded) is Some,
        text::trim(input).len() > 0 ==> server_fault(input, loaded, loaded) is None,
        text::trim(input).len() > 0 && text::trim(voice).len() == 0 ==> server_fault(
            input,
            voice,
            loaded,
        ) is None,
        text::trim(voice).len() > 0 && voice != loaded ==> server_fault(input, voice, loaded) is Some,
{
}

/// A server is of the Higgs or the Qwen kind if its model or its address says so, or
/// if it listens on the port of that kind.
pub proof fn law_kinds_of_servers(cfg: Config)
    ensures
        ({
            let model = text::lower(cfg.tts_model@);
            let url = text::lower(cfg.tts_url@);
            &&& text::has(model, "higgs"@) ==> is_higgs(cfg)
            &&& text::has(url, "higgs"@) ==> is_higgs(cfg)
            &&& text::has(url, ":8086/"@) || text::ends_with(url, ":8086"@) ==> is_higgs(cfg)
            &&& text::has(model, "qwen"@) ==> is_qwen(cfg)
            &&& text::has(url, "qwen"@) ==> is_qwen(cfg)
            &&& text::has(url, ":8083/"@) || text::ends_with(url, ":8083"@) ==> is_qwen(cfg)
            &&& is_higgs(cfg) ==> text::has(model, "higgs"@) || text::has(url, "higgs"@)
                || text::has(url, "tts-higgs"@) || text::has(url, ":8086/"@) || text::ends_with(
                url,
                ":8086"@,
            )
            &&& is_qwen(cfg) ==> text::has(model, "qwen"@) || text::has(url, "qwen"@) || text::has(
                url,
                ":8083/"@,
            ) || text::ends_with(url, ":8083"@)
        }),
{
}

} // verus!
