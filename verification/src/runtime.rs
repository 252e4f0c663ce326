//! The runtime stack (recognition, language model, synthesis) and the barrier for
//! speech turns.

use crate::config::{Config, TtsBackend};
use crate::registry::{wrap, wrap2};
use crate::text;
use vstd::prelude::*;

verus! {

/// A stack selection of a client.
#[derive(Debug)]
pub struct StackSelection {
    pub asr: Option<String>,
    pub tts: Option<String>,
    pub llm: Option<String>,
    pub whisper_url: Option<String>,
    pub llm_base_url: Option<String>,
    pub model_name: Option<String>,
    pub tts_url: Option<String>,
    pub tts_backend: Option<String>,
    pub voice: Option<String>,
    pub language: Option<String>,
}

impl Default for StackSelection {
    fn default() -> (r: Self)
        ensures
            r.asr is None,
            r.tts is None,
            r.llm is None,
            r.whisper_url is None,
            r.llm_base_url is None,
            r.model_name is None,
            r.tts_url is None,
            r.tts_backend is None,
            r.voice is None,
            r.language is None,
    {
        StackSelection {
            asr: None,
            tts: None,
            llm: None,
            whisper_url: None,
            llm_base_url: None,
            model_name: None,
            tts_url: None,
            tts_backend: None,
            voice: None,
            language: None,
        }
    }
}

#[derive(Debug)]
pub struct StackStatus {
    pub asr: String,
    pub tts: String,
    pub llm: String,
    pub whisper_url: String,
    pub llm_base_url: String,
    pub model_name: String,
    pub tts_backend: String,
    pub tts_url: String,
    pub voice: String,
    pub language: String,
    pub ok: bool,
    pub message: String,
}

impl Clone for StackStatus {
    fn clone(&self) -> (r: Self)
        ensures
            r == *self,
    {
        StackStatus {
            asr: self.asr.clone(),
            tts: self.tts.clone(),
            llm: self.llm.clone(),
            whisper_url: self.whisper_url.clone(),
            llm_base_url: self.llm_base_url.clone(),
            model_name: self.model_name.clone(),
            tts_backend: self.tts_backend.clone(),
            tts_url: self.tts_url.clone(),
            voice: self.voice.clone(),
            language: self.language.clone(),
            ok: self.ok,
            message: self.message.clone(),
        }
    }
}

/// The settings in force with the ids of the selected backends.
#[derive(Debug)]
pub struct RuntimeState {
    pub cfg: Config,
    pub asr_id: String,
    pub tts_id: String,
    pub llm_id: String,
}

impl Clone for RuntimeState {
    fn clone(&self) -> (r: Self)
        ensures
            r == *self,
    {
        RuntimeState {
            cfg: self.cfg.clone(),
            asr_id: self.asr_id.clone(),
            tts_id: self.tts_id.clone(),
            llm_id: self.llm_id.clone(),
        }
    }
}

// ---------------------------------------------------------------------------
// Turns
// ---------------------------------------------------------------------------

/// Counts running speech turns and nested pauses.
#[derive(Debug, Clone, Copy)]
pub struct TurnCoordinator {
    pub pause_depth: usize,
    pub active: usize,
}

impl Default for TurnCoordinator {
    fn default() -> (r: Self)
        ensures
            r.pause_depth == 0,
            r.active == 0,
    {
        TurnCoordinator { pause_depth: 0, active: 0 }
    }
}

impl TurnCoordinator {
    /// Bars new turns; pauses nest.
    pub fn pause(&mut self)
        requires
            old(self).pause_depth < usize::MAX,
        ensures
            final(self).pause_depth == old(self).pause_depth + 1,
            final(self).active == old(self).active,
    {
        self.pause_depth = self.pause_depth + 1;
    }

    /// Ends one pause.
    pub fn resume(&mut self)
        requires
            old(self).pause_depth > 0,
        ensures
            final(self).pause_depth == old(self).pause_depth - 1,
            final(self).active == old(self).active,
    {
        self.pause_depth = self.pause_depth - 1;
    }

    /// Starts a turn unless new turns are barred.
    pub fn try_acquire(&mut self) -> (r: bool)
        requires
            old(self).active < usize::MAX,
        ensures
            r == (old(self).pause_depth == 0),
            final(self).pause_depth == old(self).pause_depth,
            final(self).active == old(self).active + if r {
                1int
            } else {
                0
            },
    {
        if self.pause_depth != 0 {
            return false;
        }
        self.active = self.active + 1;
        true
    }

    pub fn is_idle(&self) -> (r: bool)
        ensures
            r == (self.active == 0),
    {
        self.active == 0
    }

    /// Ends a turn; tells whether it was the last one, so that waiters wake.
    pub fn release_turn(&mut self) -> (r: bool)
        requires
            old(self).active > 0,
        ensures
            final(self).active == old(self).active - 1,
            final(self).pause_depth == old(self).pause_depth,
            r == (final(self).active == 0),
    {
        self.active = self.active - 1;
        self.active == 0
    }
}

// ---------------------------------------------------------------------------
// Inferred ids
// ---------------------------------------------------------------------------

pub open spec fn asr_id_of(c: Config) -> Seq<char> {
    let u = text::lower(c.whisper_url@);
    if text::has(u, "confucius"@) {
        "confucius4-r2t2"@
    } else if text::has(u, "voxtral"@) || text::has(u, ":8087"@) {
        "voxtral-mini-4b-realtime"@
    } else if text::has(u, "parakeet"@) {
        "parakeet-tdt-0.6b-v3"@
    } else if text::has(u, "whisper-tiny"@) {
        "fw-tiny"@
    } else if text::has(u, "whisper-small"@) {
        "fw-small"@
    } else if text::has(u, "whisper-base"@) || text::has(u, "8082"@) {
        "fw-base"@
    } else {
        "custom-asr"@
    }
}

/// The recognition backend that an endpoint points to.
pub fn infer_asr_id(cfg: &Config) -> (r: String)
    ensures
        r@ == asr_id_of(*cfg),
{
    let url: String = text::to_lower(cfg.whisper_url.as_str());
    let u: &str = url.as_str();
    if text::contains(u, "confucius") {
        String::from_str("confucius4-r2t2")
    } else if text::contains(u, "voxtral") || text::contains(u, ":8087") {
        String::from_str("voxtral-mini-4b-realtime")
    } else if text::contains(u, "parakeet") {
        String::from_str("parakeet-tdt-0.6b-v3")
    } else if text::contains(u, "whisper-tiny") {
        String::from_str("fw-tiny")
    } else if text::contains(u, "whisper-small") {
        String::from_str("fw-small")
    } else if text::contains(u, "whisper-base") || text::contains(u, "8082") {
        String::from_str("fw-base")
    } else {
        String::from_str("custom-asr")
    }
}

pub open spec fn tts_id_of(c: Config) -> Seq<char> {
    let u = text::lower(c.tts_url@);
    let m = text::lower(c.tts_model@);
    match c.tts {
        TtsBackend::Supertonic | TtsBackend::Auto => "supertonic"@,
        TtsBackend::Http => if text::has(u, "8091"@) || text::has(m, "xtts"@) || text::has(
            u,
            "xtts"@,
        ) {
            "xtts-v2"@
        } else if text::has(u, "8084"@) || text::has(m, "kokoro"@) || text::has(u, "kokoro"@) {
            "kokoro"@
        } else if text::has(u, "vibevoice"@) || text::has(m, "vibevoice"@) || text::has(u, "8089"@)
            || text::has(u, "tts-vibevoice"@) {
            "vibevoice-realtime-0.5b"@
        } else if text::has(u, "higgs"@) || text::has(m, "higgs"@) || text::has(u, "8086"@)
            || text::has(u, "tts-higgs"@) {
            "higgs-tts-3-4b"@
        } else if text::has(u, "supertonic"@) || text::has(m, "supertonic"@) {
            "supertonic"@
        } else if text::has(u, "qwen"@) || text::has(m, "qwen"@) || text::has(u, "8083"@) {
            "qwen3-tts-0.6b"@
        } else {
            "http"@
        },
        TtsBackend::Piper => "piper"@,
        TtsBackend::System => "system"@,
    }
}

/// The synthesis backend that the settings point to.
pub fn infer_tts_id(cfg: &Config) -> (r: String)
    ensures
        r@ == tts_id_of(*cfg),
{
    match cfg.tts {
        TtsBackend::Supertonic | TtsBackend::Auto => String::from_str("supertonic"),
        TtsBackend::Http => {
            let url: String = text::to_lower(cfg.tts_url.as_str());
            let model: String = text::to_lower(cfg.tts_model.as_str());
            let u: &str = url.as_str();
            let m: &str = model.as_str();
            if text::contains(u, "8091") || text::contains(m, "xtts") || text::contains(u, "xtts") {
                String::from_str("xtts-v2")
            } else if text::contains(u, "8084") || text::contains(m, "kokoro") || text::contains(
                u,
                "kokoro",
            ) {
                String::from_str("kokoro")
            } else if text::contains(u, "vibevoice") || text::contains(m, "vibevoice")
                || text::contains(u, "8089") || text::contains(u, "tts-vibevoice") {
                String::from_str("vibevoice-realtime-0.5b")
            } else if text::contains(u, "higgs") || text::contains(m, "higgs") || text::contains(
                u,
                "8086",
            ) || text::contains(u, "tts-higgs") {
                String::from_str("higgs-tts-3-4b")
            } else if text::contains(u, "supertonic") || text::contains(m, "supertonic") {
                String::from_str("supertonic")
            } else if text::contains(u, "qwen") || text::contains(m, "qwen") || text::contains(
                u,
                "8083",
            ) {
                String::from_str("qwen3-tts-0.6b")
            } else {
                String::from_str("http")
            }
        },
        TtsBackend::Piper => String::from_str("piper"),
        TtsBackend::System => String::from_str("system"),
    }
}

pub open spec fn llm_id_of(c: Config) -> Seq<char> {
    let m = text::lower(c.model_name@);
    if text::has(text::lower(c.llm_base_url@), "llama-fallback"@) {
        "local-fallback"@
    } else if text::has(m, "qwen3.5"@) {
        "external-openai"@
    } else if text::has(m, "llama3.2"@) {
        "llama-1b"@
    } else if text::has(m, "granite"@) {
        "granite-2b"@
    } else {
        "external-openai"@
    }
}

/// The language model backend that the settings point to.
pub fn infer_llm_id(cfg: &Config) -> (r: String)
    ensures
        r@ == llm_id_of(*cfg),
{
    let url: String = text::to_lower(cfg.llm_base_url.as_str());
    if text::contains(url.as_str(), "llama-fallback") {
        return String::from_str("local-fallback");
    }
    let m: String = text::to_lower(cfg.model_name.as_str());
    if text::contains(m.as_str(), "qwen3.5") {
        String::from_str("external-openai")
    } else if text::contains(m.as_str(), "llama3.2") {
        String::from_str("llama-1b")
    } else if text::contains(m.as_str(), "granite") {
        String::from_str("granite-2b")
    } else {
        String::from_str("external-openai")
    }
}

/// The runtime state that the settings describe.
pub fn runtime_from(cfg: Config) -> (r: RuntimeState)
    ensures
        r.cfg == cfg,
        r.asr_id@ == asr_id_of(cfg),
        r.tts_id@ == tts_id_of(cfg),
        r.llm_id@ == llm_id_of(cfg),
{
    let asr_id: String = infer_asr_id(&cfg);
    let tts_id: String = infer_tts_id(&cfg);
    let llm_id: String = infer_llm_id(&cfg);
    RuntimeState { cfg, asr_id, tts_id, llm_id }
}

pub open spec fn tts_backend_name(b: TtsBackend) -> Seq<char> {
    match b {
        TtsBackend::Auto => "auto"@,
        TtsBackend::Supertonic => "supertonic"@,
        TtsBackend::Http => "http"@,
        TtsBackend::Piper => "piper"@,
        TtsBackend::System => "system"@,
    }
}

fn name_of_tts_backend(b: TtsBackend) -> (r: &'static str)
    ensures
        r@ == tts_backend_name(b),
{
    match b {
        TtsBackend::Auto => "auto",
        TtsBackend::Supertonic => "supertonic",
        TtsBackend::Http => "http",
        TtsBackend::Piper => "piper",
        TtsBackend::System => "system",
    }
}

/// Whether a status shows the state of a runtime.
pub open spec fn shows(st: StackStatus, rt: RuntimeState) -> bool {
    &&& st.asr@ == rt.asr_id@
    &&& st.tts@ == rt.tts_id@
    &&& st.llm@ == rt.llm_id@
    &&& st.whisper_url@ == rt.cfg.whisper_url@
    &&& st.llm_base_url@ == rt.cfg.llm_base_url@
    &&& st.model_name@ == rt.cfg.model_name@
    &&& st.tts_backend@ == tts_backend_name(rt.cfg.tts)
    &&& st.tts_url@ == rt.cfg.tts_url@
    &&& st.voice@ == rt.cfg.supertonic_voice@
    &&& st.language@ == rt.cfg.language@
}

pub fn status_of(rt: &RuntimeState) -> (r: StackStatus)
    ensures
        shows(r, *rt),
        r.ok,
        r.message@ == "ok"@,
{
    StackStatus {
        asr: rt.asr_id.clone(),
        tts: rt.tts_id.clone(),
        llm: rt.llm_id.clone(),
        whisper_url: rt.cfg.whisper_url.clone(),
        llm_base_url: rt.cfg.llm_base_url.clone(),
        model_name: rt.cfg.model_name.clone(),
        tts_backend: String::from_str(name_of_tts_backend(rt.cfg.tts)),
        tts_url: rt.cfg.tts_url.clone(),
        voice: rt.cfg.supertonic_voice.clone(),
        language: rt.cfg.language.clone(),
        ok: true,
        message: String::from_str("ok"),
    }
}

// ---------------------------------------------------------------------------
// Stack selection
// ---------------------------------------------------------------------------

pub open spec fn tts_backend_of(s: Seq<char>) -> Option<TtsBackend> {
    let t = text::lower(text::trim(s));
    if t == "auto"@ {
        Some(TtsBackend::Auto)
    } else if t == "supertonic"@ {
        Some(TtsBackend::Supertonic)
    } else if t == "http"@ {
        Some(TtsBackend::Http)
    } else if t == "piper"@ {
        Some(TtsBackend::Piper)
    } else if t == "system"@ {
        Some(TtsBackend::System)
    } else {
        None
    }
}

pub fn parse_tts_backend(s: &str) -> (r: Option<TtsBackend>)
    ensures
        r == tts_backend_of(s@),
{
    let l: String = text::to_lower(text::trimmed(s).as_str());
    let t: &str = l.as_str();
    if text::same(t, "auto") {
        Some(TtsBackend::Auto)
    } else if text::same(t, "supertonic") {
        Some(TtsBackend::Supertonic)
    } else if text::same(t, "http") {
        Some(TtsBackend::Http)
    } else if text::same(t, "piper") {
        Some(TtsBackend::Piper)
    } else if text::same(t, "system") {
        Some(TtsBackend::System)
    } else {
        None
    }
}

pub open spec fn whisper_model_of(id: Seq<char>) -> Option<Seq<char>> {
    if id == "fw-tiny"@ {
        Some("tiny"@)
    } else if id == "fw-base"@ {
        Some("base"@)
    } else if id == "fw-small"@ {
        Some("small"@)
    } else if id == "fw-medium"@ {
        Some("medium"@)
    } else {
        None
    }
}

/// The Whisper model that a backend id stands for.
pub fn asr_whisper_model(id: &str) -> (r: Option<&'static str>)
    ensures
        match r {
            Some(m) => whisper_model_of(id@) == Some(m@),
            None => whisper_model_of(id@) is None,
        },
{
    if text::same(id, "fw-tiny") {
        Some("tiny")
    } else if text::same(id, "fw-base") {
        Some("base")
    } else if text::same(id, "fw-small") {
        Some("small")
    } else if text::same(id, "fw-medium") {
        Some("medium")
    } else {
        None
    }
}

/// The part of a runtime state that a stack selection can change.
#[verifier::ext_equal]
pub struct StackView {
    pub asr_id: Seq<char>,
    pub tts_id: Seq<char>,
    pub llm_id: Seq<char>,
    pub whisper_url: Seq<char>,
    pub llm_base_url: Seq<char>,
    pub model_name: Seq<char>,
    pub llm_no_think: bool,
    pub tts: TtsBackend,
    pub tts_url: Seq<char>,
    pub tts_model: Seq<char>,
    pub tts_rate: u32,
    pub voice: Seq<char>,
    pub language: Seq<char>,
    pub tts_language: Seq<char>,
}

pub open spec fn stack_view(rt: RuntimeState) -> StackView {
    StackView {
        asr_id: rt.asr_id@,
        tts_id: rt.tts_id@,
        llm_id: rt.llm_id@,
        whisper_url: rt.cfg.whisper_url@,
        llm_base_url: rt.cfg.llm_base_url@,
        model_name: rt.cfg.model_name@,
        llm_no_think: rt.cfg.llm_no_think,
        tts: rt.cfg.tts,
        tts_url: rt.cfg.tts_url@,
        tts_model: rt.cfg.tts_model@,
        tts_rate: rt.cfg.tts_native_sample_rate,
        voice: rt.cfg.supertonic_voice@,
        language: rt.cfg.language@,
        tts_language: rt.cfg.tts_language@,
    }
}

/// Whether two runtime states agree in what no stack selection changes.
pub open spec fn same_settings(a: RuntimeState, b: RuntimeState) -> bool {
    a.cfg == (Config {
        whisper_url: a.cfg.whisper_url,
        llm_base_url: a.cfg.llm_base_url,
        model_name: a.cfg.model_name,
        llm_no_think: a.cfg.llm_no_think,
        tts: a.cfg.tts,
        tts_url: a.cfg.tts_url,
        tts_model: a.cfg.tts_model,
        tts_native_sample_rate: a.cfg.tts_native_sample_rate,
        supertonic_voice: a.cfg.supertonic_voice,
        language: a.cfg.language,
        tts_language: a.cfg.tts_language,
        ..b.cfg
    })
}

/// The recognition endpoint after a selection, with the note on it.
pub open spec fn asr_setup(url: Seq<char>, id: Seq<char>) -> (Seq<char>, Seq<char>) {
    if whisper_model_of(id) is Some {
        (
            if url.len() == 0 {
                "http://127.0.0.1:8082"@
            } else {
                url
            },
            "ASR → faster-whisper "@ + id + ""@,
        )
    } else if id == "parakeet-tdt-0.6b-v3"@ || id == "parakeet"@ {
        (
            "http://127.0.0.1:8082"@,
            "ASR → Parakeet HTTP ("@ + id + ") @ http://127.0.0.1:8082"@,
        )
    } else if id == "voxtral-mini-4b-realtime"@ || id == "voxtral"@ {
        (
            "http://127.0.0.1:8087"@,
            "ASR → Voxtral Mini 4B Realtime @ http://127.0.0.1:8087"@,
        )
    } else if id == "wcpp-base"@ || id == "wcpp-small"@ {
        (
            "http://127.0.0.1:8082"@,
            "ASR → whisper.cpp id="@ + id + " (ensure server serves that model)"@,
        )
    } else {
        (url, "ASR id '"@ + id + "' recorded (no mapping)"@)
    }
}

/// A stack with a recognition backend selected.
pub open spec fn with_asr(v: StackView, id: Seq<char>) -> StackView {
    StackView { asr_id: id, whisper_url: asr_setup(v.whisper_url, id).0, ..v }
}

/// Selects a recognition backend and returns the note on it.
pub fn apply_asr(rt: &mut RuntimeState, id: &str) -> (r: String)
    ensures
        r@ == asr_setup(old(rt).cfg.whisper_url@, id@).1,
        stack_view(*final(rt)) == with_asr(stack_view(*old(rt)), id@),
        same_settings(*final(rt), *old(rt)),
{
    rt.asr_id = String::from_str(id);
    if asr_whisper_model(id).is_some() {
        if rt.cfg.whisper_url.as_str().is_empty() {
            rt.cfg.whisper_url = String::from_str("http://127.0.0.1:8082");
        }
        wrap("ASR → faster-whisper ", id, "")
    } else if text::same(id, "parakeet-tdt-0.6b-v3") || text::same(id, "parakeet") {
        rt.cfg.whisper_url = String::from_str("http://127.0.0.1:8082");
        wrap("ASR → Parakeet HTTP (", id, ") @ http://127.0.0.1:8082")
    } else if text::same(id, "voxtral-mini-4b-realtime") || text::same(id, "voxtral") {
        rt.cfg.whisper_url = String::from_str("http://127.0.0.1:8087");
        String::from_str("ASR → Voxtral Mini 4B Realtime @ http://127.0.0.1:8087")
    } else if text::same(id, "wcpp-base") || text::same(id, "wcpp-small") {
        rt.cfg.whisper_url = String::from_str("http://127.0.0.1:8082");
        wrap("ASR → whisper.cpp id=", id, " (ensure server serves that model)")
    } else {
        wrap("ASR id '", id, "' recorded (no mapping)")
    }
}

pub open spec fn supertonic_voice(name: Seq<char>) -> bool {
    let n = text::upper(text::trim(name));
    n == "M1"@ || n == "M2"@ || n == "M3"@ || n == "M4"@ || n == "M5"@ || n == "F1"@ || n == "F2"@
        || n == "F3"@ || n == "F4"@ || n == "F5"@
}

/// Whether a name is one of the Supertonic styles.
pub fn is_supertonic_voice(name: &str) -> (r: bool)
    ensures
        r == supertonic_voice(name@),
{
    let up: String = text::to_upper(text::trimmed(name).as_str());
    let n: &str = up.as_str();
    text::same(n, "M1") || text::same(n, "M2") || text::same(n, "M3") || text::same(n, "M4")
        || text::same(n, "M5") || text::same(n, "F1") || text::same(n, "F2") || text::same(n, "F3")
        || text::same(n, "F4") || text::same(n, "F5")
}

/// Whether a name looks like a Kokoro voice id: an underscore, at least four
/// bytes, and a letter first.
pub open spec fn kokoro_voice(name: Seq<char>) -> bool {
    let n = text::trim(name);
    n.contains('_') && text::utf8_len(n) >= 4 && text::is_ascii_letter(n[0])
}

pub fn is_kokoro_voice(name: &str) -> (r: bool)
    ensures
        r == kokoro_voice(name@),
{
    let n: String = text::trimmed(name);
    let v: Vec<char> = text::chars_of(n.as_str());
    if v.len() == 0 {
        return false;
    }
    text::contains_char(n.as_str(), '_') && text::utf8_len_at_least(v.as_slice(), 4)
        && text::char_is_ascii_letter(v[0])
}

/// What a synthesis selection sets.
pub struct TtsSetup {
    pub tts: TtsBackend,
    pub url: Seq<char>,
    pub model: Seq<char>,
    pub rate: u32,
    pub voice: Seq<char>,
    pub note: Seq<char>,
}

/// A synthesis server at an address.
pub open spec fn http_setup(
    url: Seq<char>,
    model: Seq<char>,
    voice: Seq<char>,
    note: Seq<char>,
) -> TtsSetup {
    TtsSetup { tts: TtsBackend::Http, url, model, rate: 24000, voice, note }
}

pub open spec fn tts_setup(c: StackView, id: Seq<char>) -> TtsSetup {
    let v = c.voice;
    let foreign = supertonic_voice(v) || kokoro_voice(v);
    let same = TtsSetup {
        tts: c.tts,
        url: c.tts_url,
        model: c.tts_model,
        rate: c.tts_rate,
        voice: v,
        note: ""@,
    };
    if id == "supertonic"@ {
        let voice = if supertonic_voice(v) {
            v
        } else {
            "M1"@
        };
        TtsSetup {
            tts: TtsBackend::Supertonic,
            model: "tts"@,
            voice,
            note: "TTS → Supertonic ONNX (voice="@ + voice + ")"@,
            ..same
        }
    } else if id == "qwen-sycl"@ || id == "qwen-vulkan"@ || id == "qwen"@ || id == "http"@ {
        http_setup(
            "http://127.0.0.1:8083/v1/audio/speech"@,
            "tts"@,
            if foreign || v.len() == 0 {
                "Aiden"@
            } else {
                v
            },
            "TTS → HTTP Qwen ("@ + id + ") @ http://127.0.0.1:8083/v1/audio/speech"@,
        )
    } else if id == "xtts-v2"@ || id == "xtts"@ {
        http_setup(
            "http://127.0.0.1:8091/v1/audio/speech"@,
            "coqui/XTTS-v2"@,
            "de_sample"@,
            "TTS → XTTS-v2 ONNX (voice=de_sample) @ http://127.0.0.1:8091/v1/audio/speech"@,
        )
    } else if id == "kokoro"@ {
        let voice = if supertonic_voice(v) || !kokoro_voice(v) {
            "af_bella"@
        } else {
            v
        };
        http_setup(
            "http://127.0.0.1:8084/v1/audio/speech"@,
            "kokoro"@,
            voice,
            "TTS → Kokoro HTTP (voice="@ + voice + ") @ http://127.0.0.1:8084/v1/audio/speech"@,
        )
    } else if id == "vibevoice-realtime-0.5b"@ || id == "vibevoice"@ {
        let voice = if foreign || text::alike(v, "Aiden"@) || text::alike(v, "default"@) || v.len()
            == 0 {
            "emma"@
        } else {
            v
        };
        http_setup(
            "http://127.0.0.1:8089/v1/audio/speech"@,
            "vibevoice-realtime-0.5b"@,
            voice,
            "TTS → VibeVoice Realtime 0.5B (voice="@ + voice
                + ") @ http://127.0.0.1:8089/v1/audio/speech"@,
        )
    } else if id == "higgs-tts-3-4b"@ || id == "higgs"@ {
        let voice = if foreign || text::alike(v, "Aiden"@) || v.len() == 0 {
            "default"@
        } else {
            v
        };
        http_setup(
            "http://127.0.0.1:8086/v1/audio/speech"@,
            "bosonai/higgs-tts-3-4b"@,
            voice,
            "TTS → Higgs TTS 3 HTTP (voice="@ + voice
                + ") @ http://127.0.0.1:8086/v1/audio/speech"@,
        )
    } else if id == "system"@ {
        TtsSetup { tts: TtsBackend::System, note: "TTS → system (SAPI/espeak)"@, ..same }
    } else if id == "piper"@ {
        TtsSetup { tts: TtsBackend::Piper, note: "TTS → Piper (needs --piper-model)"@, ..same }
    } else {
        TtsSetup { note: "TTS id '"@ + id + "' recorded (no mapping)"@, ..same }
    }
}

/// A stack with a synthesis backend selected.
pub open spec fn with_tts(v: StackView, id: Seq<char>) -> StackView {
    let s = tts_setup(v, id);
    StackView {
        tts_id: id,
        tts: s.tts,
        tts_url: s.url,
        tts_model: s.model,
        tts_rate: s.rate,
        voice: s.voice,
        ..v
    }
}

/// A synthesis selection.
struct TtsChoice {
    tts: TtsBackend,
    url: String,
    model: String,
    rate: u32,
    voice: String,
    note: String,
}

spec fn is_setup(c: TtsChoice, s: TtsSetup) -> bool {
    &&& c.tts == s.tts
    &&& c.url@ == s.url
    &&& c.model@ == s.model
    &&& c.rate == s.rate
    &&& c.voice@ == s.voice
    &&& c.note@ == s.note
}

fn server(url: &str, model: &str, voice: String, note: String) -> (r: TtsChoice)
    ensures
        is_setup(r, http_setup(url@, model@, voice@, note@)),
{
    TtsChoice {
        tts: TtsBackend::Http,
        url: String::from_str(url),
        model: String::from_str(model),
        rate: 24000,
        voice,
        note,
    }
}

fn choose_tts(rt: &RuntimeState, id: &str) -> (r: TtsChoice)
    ensures
        is_setup(r, tts_setup(stack_view(*rt), id@)),
{
    let cfg: &Config = &rt.cfg;
    let v: &str = cfg.supertonic_voice.as_str();
    let supertonic: bool = is_supertonic_voice(v);
    let kokoro: bool = is_kokoro_voice(v);
    let blank: bool = v.is_empty();
    if text::same(id, "supertonic") {
        let voice: String = if supertonic {
            String::from_str(v)
        } else {
            String::from_str("M1")
        };
        let note: String = wrap("TTS → Supertonic ONNX (voice=", voice.as_str(), ")");
        return TtsChoice {
            tts: TtsBackend::Supertonic,
            url: cfg.tts_url.clone(),
            model: String::from_str("tts"),
            rate: cfg.tts_native_sample_rate,
            voice,
            note,
        };
    }
    if text::same(id, "qwen-sycl") || text::same(id, "qwen-vulkan") || text::same(id, "qwen")
        || text::same(id, "http") {
        let voice: String = if supertonic || kokoro || blank {
            String::from_str("Aiden")
        } else {
            String::from_str(v)
        };
        return server(
            "http://127.0.0.1:8083/v1/audio/speech",
            "tts",
            voice,
            wrap("TTS → HTTP Qwen (", id, ") @ http://127.0.0.1:8083/v1/audio/speech"),
        );
    }
    if text::same(id, "xtts-v2") || text::same(id, "xtts") {
        return server(
            "http://127.0.0.1:8091/v1/audio/speech",
            "coqui/XTTS-v2",
            String::from_str("de_sample"),
            String::from_str(
                "TTS → XTTS-v2 ONNX (voice=de_sample) @ http://127.0.0.1:8091/v1/audio/speech",
            ),
        );
    }
    if text::same(id, "kokoro") {
        let voice: String = if supertonic || !kokoro {
            String::from_str("af_bella")
        } else {
            String::from_str(v)
        };
        let note: String = wrap(
            "TTS → Kokoro HTTP (voice=",
            voice.as_str(),
            ") @ http://127.0.0.1:8084/v1/audio/speech",
        );
        return server("http://127.0.0.1:8084/v1/audio/speech", "kokoro", voice, note);
    }
    if text::same(id, "vibevoice-realtime-0.5b") || text::same(id, "vibevoice") {
        let voice: String = if supertonic || kokoro || text::same_ignoring_case(v, "Aiden")
            || text::same_ignoring_case(v, "default") || blank {
            String::from_str("emma")
        } else {
            String::from_str(v)
        };
        let note: String = wrap(
            "TTS → VibeVoice Realtime 0.5B (voice=",
            voice.as_str(),
            ") @ http://127.0.0.1:8089/v1/audio/speech",
        );
        return server(
            "http://127.0.0.1:8089/v1/audio/speech",
            "vibevoice-realtime-0.5b",
            voice,
            note,
        );
    }
    if text::same(id, "higgs-tts-3-4b") || text::same(id, "higgs") {
        let voice: String = if supertonic || kokoro || text::same_ignoring_case(v, "Aiden")
            || blank {
            String::from_str("default")
        } else {
            String::from_str(v)
        };
        let note: String = wrap(
            "TTS → Higgs TTS 3 HTTP (voice=",
            voice.as_str(),
            ") @ http://127.0.0.1:8086/v1/audio/speech",
        );
        return server(
            "http://127.0.0.1:8086/v1/audio/speech",
            "bosonai/higgs-tts-3-4b",
            voice,
            note,
        );
    }
    let (tts, note): (TtsBackend, String) = if text::same(id, "system") {
        (TtsBackend::System, String::from_str("TTS → system (SAPI/espeak)"))
    } else if text::same(id, "piper") {
        (TtsBackend::Piper, String::from_str("TTS → Piper (needs --piper-model)"))
    } else {
        (cfg.tts, wrap("TTS id '", id, "' recorded (no mapping)"))
    };
    TtsChoice {
        tts,
        url: cfg.tts_url.clone(),
        model: cfg.tts_model.clone(),
        rate: cfg.tts_native_sample_rate,
        voice: String::from_str(v),
        note,
    }
}

/// Selects a synthesis backend, replaces a voice that it does not know, and
/// returns the note on it.
pub fn apply_tts(rt: &mut RuntimeState, id: &str) -> (r: String)
    ensures
        r@ == tts_setup(stack_view(*old(rt)), id@).note,
        stack_view(*final(rt)) == with_tts(stack_view(*old(rt)), id@),
        same_settings(*final(rt), *old(rt)),
{
    let c: TtsChoice = choose_tts(rt, id);
    rt.tts_id = String::from_str(id);
    rt.cfg.tts = c.tts;
    rt.cfg.tts_url = c.url;
    rt.cfg.tts_model = c.model;
    rt.cfg.tts_native_sample_rate = c.rate;
    rt.cfg.supertonic_voice = c.voice;
    c.note
}

/// What a language model selection sets.
pub struct LlmSetup {
    pub url: Seq<char>,
    pub model: Seq<char>,
    pub no_think: bool,
    pub note: Seq<char>,
}

pub open spec fn llm_setup(c: StackView, id: Seq<char>) -> LlmSetup {
    let ollama = "http://127.0.0.1:11434/v1"@;
    let elsewhere = if text::has(c.llm_base_url, "11434"@) {
        "http://127.0.0.1:8081/v1"@
    } else {
        c.llm_base_url
    };
    if id == "qwen-cloud"@ || id == "qwen3.5:cloud"@ {
        LlmSetup {
            url: ollama,
            model: "qwen3.5:cloud"@,
            no_think: true,
            note: "LLM → Ollama qwen3.5:cloud"@,
        }
    } else if id == "llama-1b"@ || id == "llama3.2:1b"@ {
        LlmSetup {
            url: ollama,
            model: "llama3.2:1b"@,
            no_think: true,
            note: "LLM → Ollama llama3.2:1b"@,
        }
    } else if id == "granite-2b"@ {
        LlmSetup {
            url: elsewhere,
            model: "granite-3.3-2b-instruct"@,
            no_think: c.llm_no_think,
            note: "LLM → granite-3.3-2b-instruct @ "@ + elsewhere + ""@,
        }
    } else if id == "qwen-1.5b"@ {
        LlmSetup {
            url: elsewhere,
            model: "qwen2.5-1.5b-instruct"@,
            no_think: c.llm_no_think,
            note: "LLM → qwen2.5-1.5b @ "@ + elsewhere + ""@,
        }
    } else if id.contains(':') {
        LlmSetup {
            url: ollama,
            model: id,
            no_think: c.llm_no_think,
            note: "LLM → Ollama "@ + id + ""@,
        }
    } else {
        LlmSetup {
            url: c.llm_base_url,
            model: c.model_name,
            no_think: c.llm_no_think,
            note: "LLM id '"@ + id + "' recorded (no mapping)"@,
        }
    }
}

/// A stack with a language model selected.
pub open spec fn with_llm(v: StackView, id: Seq<char>) -> StackView {
    let s = llm_setup(v, id);
    StackView {
        llm_id: id,
        llm_base_url: s.url,
        model_name: s.model,
        llm_no_think: s.no_think,
        ..v
    }
}

/// A language model selection.
struct LlmChoice {
    url: String,
    model: String,
    no_think: bool,
    note: String,
}

fn choose_llm(rt: &RuntimeState, id: &str) -> (r: LlmChoice)
    ensures
        ({
            let s = llm_setup(stack_view(*rt), id@);
            &&& r.url@ == s.url
            &&& r.model@ == s.model
            &&& r.no_think == s.no_think
            &&& r.note@ == s.note
        }),
{
    let cfg: &Config = &rt.cfg;
    if text::same(id, "qwen-cloud") || text::same(id, "qwen3.5:cloud") {
        return LlmChoice {
            url: String::from_str("http://127.0.0.1:11434/v1"),
            model: String::from_str("qwen3.5:cloud"),
            no_think: true,
            note: String::from_str("LLM → Ollama qwen3.5:cloud"),
        };
    }
    if text::same(id, "llama-1b") || text::same(id, "llama3.2:1b") {
        return LlmChoice {
            url: String::from_str("http://127.0.0.1:11434/v1"),
            model: String::from_str("llama3.2:1b"),
            no_think: true,
            note: String::from_str("LLM → Ollama llama3.2:1b"),
        };
    }
    let granite: bool = text::same(id, "granite-2b");
    if granite || text::same(id, "qwen-1.5b") {
        let url: String = if text::contains(cfg.llm_base_url.as_str(), "11434") {
            String::from_str("http://127.0.0.1:8081/v1")
        } else {
            cfg.llm_base_url.clone()
        };
        let note: String = if granite {
            wrap("LLM → granite-3.3-2b-instruct @ ", url.as_str(), "")
        } else {
            wrap("LLM → qwen2.5-1.5b @ ", url.as_str(), "")
        };
        return LlmChoice {
            url,
            model: if granite {
                String::from_str("granite-3.3-2b-instruct")
            } else {
                String::from_str("qwen2.5-1.5b-instruct")
            },
            no_think: cfg.llm_no_think,
            note,
        };
    }
    if text::contains_char(id, ':') {
        return LlmChoice {
            url: String::from_str("http://127.0.0.1:11434/v1"),
            model: String::from_str(id),
            no_think: cfg.llm_no_think,
            note: wrap("LLM → Ollama ", id, ""),
        };
    }
    LlmChoice {
        url: cfg.llm_base_url.clone(),
        model: cfg.model_name.clone(),
        no_think: cfg.llm_no_think,
        note: wrap("LLM id '", id, "' recorded (no mapping)"),
    }
}

/// Selects a language model and returns the note on it.
pub fn apply_llm(rt: &mut RuntimeState, id: &str) -> (r: String)
    ensures
        r@ == llm_setup(stack_view(*old(rt)), id@).note,
        stack_view(*final(rt)) == with_llm(stack_view(*old(rt)), id@),
        same_settings(*final(rt), *old(rt)),
{
    let c: LlmChoice = choose_llm(rt, id);
    rt.llm_id = String::from_str(id);
    rt.cfg.llm_base_url = c.url;
    rt.cfg.model_name = c.model;
    rt.cfg.llm_no_think = c.no_think;
    c.note
}

/// A stack with the notes on what changed in it.
pub struct Selected {
    pub stack: StackView,
    pub notes: Seq<Seq<char>>,
}

pub open spec fn after_asr(s: Selected, id: Option<String>) -> Selected {
    match id {
        Some(i) => Selected {
            stack: with_asr(s.stack, i@),
            notes: s.notes.push(asr_setup(s.stack.whisper_url, i@).1),
        },
        None => s,
    }
}

pub open spec fn after_tts(s: Selected, id: Option<String>) -> Selected {
    match id {
        Some(i) => Selected {
            stack: with_tts(s.stack, i@),
            notes: s.notes.push(tts_setup(s.stack, i@).note),
        },
        None => s,
    }
}

pub open spec fn after_llm(s: Selected, id: Option<String>) -> Selected {
    match id {
        Some(i) => Selected {
            stack: with_llm(s.stack, i@),
            notes: s.notes.push(llm_setup(s.stack, i@).note),
        },
        None => s,
    }
}

/// The override, if there is one.
pub open spec fn or_kept(value: Option<String>, kept: Seq<char>) -> Seq<char> {
    match value {
        Some(v) => v@,
        None => kept,
    }
}

/// A note where a value is given.
pub open spec fn note_if(given: bool, note: Seq<char>) -> Seq<Seq<char>> {
    if given {
        seq![note]
    } else {
        seq![]
    }
}

/// A stack with the free-form overrides of a selection.
pub open spec fn overridden(v: StackView, sel: StackSelection) -> StackView {
    StackView {
        whisper_url: or_kept(sel.whisper_url, v.whisper_url),
        llm_base_url: or_kept(sel.llm_base_url, v.llm_base_url),
        model_name: or_kept(sel.model_name, v.model_name),
        tts_url: or_kept(sel.tts_url, v.tts_url),
        tts: match sel.tts_backend {
            Some(b) => match tts_backend_of(b@) {
                Some(t) => t,
                None => v.tts,
            },
            None => v.tts,
        },
        voice: or_kept(sel.voice, v.voice),
        language: or_kept(sel.language, v.language),
        tts_language: or_kept(sel.language, v.tts_language),
        ..v
    }
}

/// The notes on the free-form overrides, in order.
pub open spec fn override_notes(sel: StackSelection) -> Seq<Seq<char>> {
    let backend = match sel.tts_backend {
        Some(b) => note_if(tts_backend_of(b@) is Some, "tts_backend="@ + b@ + ""@),
        None => seq![],
    };
    note_if(sel.whisper_url is Some, "whisper_url override"@) + note_if(
        sel.llm_base_url is Some,
        "llm_base_url override"@,
    ) + note_if(sel.model_name is Some, "model_name override"@) + note_if(
        sel.tts_url is Some,
        "tts_url override"@,
    ) + backend + note_if(sel.voice is Some, "voice override"@) + note_if(
        sel.language is Some,
        "language override"@,
    )
}

/// The stack after a selection: backends first, free-form overrides last.
pub open spec fn selected(v: StackView, sel: StackSelection) -> Selected {
    let s = after_llm(
        after_tts(after_asr(Selected { stack: v, notes: seq![] }, sel.asr), sel.tts),
        sel.llm,
    );
    Selected { stack: overridden(s.stack, sel), notes: s.notes + override_notes(sel) }
}

fn note(notes: &mut Vec<String>, s: String)
    ensures
        text::views(final(notes)@) == text::views(old(notes)@).push(s@),
{
    let ghost before = text::views(notes@);
    notes.push(s);
    assert(text::views(notes@) =~= before.push(s@));
}

/// Applies a stack selection to the runtime state and returns the notes on it.
/// The recognition model to load and the synthesis server to probe are told by
/// [`model_to_reload`] and [`server_to_probe`].
pub fn apply_stack(rt: &mut RuntimeState, sel: &StackSelection) -> (notes: Vec<String>)
    ensures
        stack_view(*final(rt)) == selected(stack_view(*old(rt)), *sel).stack,
        text::views(notes@) == selected(stack_view(*old(rt)), *sel).notes,
        same_settings(*final(rt), *old(rt)),
{
    let mut notes: Vec<String> = Vec::new();
    assert(text::views(notes@) =~= seq![]);
    match &sel.asr {
        Some(id) => {
            let n: String = apply_asr(rt, id.as_str());
            note(&mut notes, n);
        },
        None => {},
    }
    match &sel.tts {
        Some(id) => {
            let n: String = apply_tts(rt, id.as_str());
            note(&mut notes, n);
        },
        None => {},
    }
    match &sel.llm {
        Some(id) => {
            let n: String = apply_llm(rt, id.as_str());
            note(&mut notes, n);
        },
        None => {},
    }
    apply_overrides(rt, sel);
    note_overrides(sel, &mut notes);
    notes
}

fn replace_if_given(place: &mut String, value: &Option<String>)
    ensures
        final(place)@ == or_kept(*value, old(place)@),
{
    match value {
        Some(v) => {
            *place = v.clone();
        },
        None => {},
    }
}

fn apply_overrides(rt: &mut RuntimeState, sel: &StackSelection)
    ensures
        stack_view(*final(rt)) == overridden(stack_view(*old(rt)), *sel),
        same_settings(*final(rt), *old(rt)),
{
    replace_if_given(&mut rt.cfg.whisper_url, &sel.whisper_url);
    replace_if_given(&mut rt.cfg.llm_base_url, &sel.llm_base_url);
    replace_if_given(&mut rt.cfg.model_name, &sel.model_name);
    replace_if_given(&mut rt.cfg.tts_url, &sel.tts_url);
    let backend: Option<TtsBackend> = match &sel.tts_backend {
        Some(b) => parse_tts_backend(b.as_str()),
        None => None,
    };
    rt.cfg.tts = backend.unwrap_or(rt.cfg.tts);
    replace_if_given(&mut rt.cfg.supertonic_voice, &sel.voice);
    replace_if_given(&mut rt.cfg.language, &sel.language);
    replace_if_given(&mut rt.cfg.tts_language, &sel.language);
}

fn note_given(notes: &mut Vec<String>, given: bool, s: &str)
    ensures
        text::views(final(notes)@) == text::views(old(notes)@) + note_if(given, s@),
{
    let ghost before = text::views(notes@);
    if given {
        notes.push(String::from_str(s));
    }
    assert(text::views(notes@) =~= before + note_if(given, s@));
}

proof fn lemma_concat(a: Seq<Seq<char>>, b: Seq<Seq<char>>, c: Seq<Seq<char>>)
    ensures
        (a + b) + c == a + (b + c),
{
    assert((a + b) + c =~= a + (b + c));
}

fn note_overrides(sel: &StackSelection, notes: &mut Vec<String>)
    ensures
        text::views(final(notes)@) == text::views(old(notes)@) + override_notes(*sel),
{
    let ghost n0 = text::views(notes@);
    let ghost n1 = note_if(sel.whisper_url is Some, "whisper_url override"@);
    let ghost n2 = note_if(sel.llm_base_url is Some, "llm_base_url override"@);
    let ghost n3 = note_if(sel.model_name is Some, "model_name override"@);
    let ghost n4 = note_if(sel.tts_url is Some, "tts_url override"@);
    let ghost n5 = match &sel.tts_backend {
        Some(b) => note_if(tts_backend_of(b@) is Some, "tts_backend="@ + b@ + ""@),
        None => seq![],
    };
    let ghost n6 = note_if(sel.voice is Some, "voice override"@);
    let ghost n7 = note_if(sel.language is Some, "language override"@);
    proof {
        lemma_concat(n0, n1, n2);
        lemma_concat(n0, n1 + n2, n3);
        lemma_concat(n0, n1 + n2 + n3, n4);
        lemma_concat(n0, n1 + n2 + n3 + n4, n5);
        lemma_concat(n0, n1 + n2 + n3 + n4 + n5, n6);
        lemma_concat(n0, n1 + n2 + n3 + n4 + n5 + n6, n7);
    }
    note_given(notes, sel.whisper_url.is_some(), "whisper_url override");
    note_given(notes, sel.llm_base_url.is_some(), "llm_base_url override");
    note_given(notes, sel.model_name.is_some(), "model_name override");
    note_given(notes, sel.tts_url.is_some(), "tts_url override");
    match &sel.tts_backend {
        Some(b) => {
            let known: bool = parse_tts_backend(b.as_str()).is_some();
            note_given(notes, known, wrap("tts_backend=", b.as_str(), "").as_str());
        },
        None => {
            assert(text::views(notes@) + n5 =~= text::views(notes@));
        },
    }
    note_given(notes, sel.voice.is_some(), "voice override");
    note_given(notes, sel.language.is_some(), "language override");
}

/// The endpoint and the model that the recognition server is to load after a
/// selection.
pub fn model_to_reload(rt: &RuntimeState, sel: &StackSelection) -> (r: Option<(String, &'static str)>)
    ensures
        match r {
            Some((url, model)) => sel.asr matches Some(id) && whisper_model_of(id@) == Some(model@)
                && url@ == rt.cfg.whisper_url@,
            None => sel.asr matches Some(id) ==> whisper_model_of(id@) is None,
        },
{
    match &sel.asr {
        Some(id) => match asr_whisper_model(id.as_str()) {
            Some(m) => Some((rt.cfg.whisper_url.clone(), m)),
            None => None,
        },
        None => None,
    }
}

/// The synthesis server that is to be probed after a selection.
pub fn server_to_probe(rt: &RuntimeState) -> (r: Option<String>)
    ensures
        match r {
            Some(url) => rt.cfg.tts == TtsBackend::Http && url@ == rt.cfg.tts_url@,
            None => rt.cfg.tts != TtsBackend::Http,
        },
{
    match rt.cfg.tts {
        TtsBackend::Http => Some(rt.cfg.tts_url.clone()),
        _ => None,
    }
}

/// The message of a selection: its notes, or that nothing changed.
pub open spec fn selection_message(notes: Seq<Seq<char>>) -> Seq<char> {
    if notes.len() == 0 {
        "no changes"@
    } else {
        text::joined(notes, "; "@)
    }
}

/// The status after a selection, given whether the synthesis server answers.
pub fn selection_status(rt: &RuntimeState, notes: &Vec<String>, ok: bool) -> (r: StackStatus)
    ensures
        shows(r, *rt),
        r.ok == ok,
        r.message@ == selection_message(text::views(notes@)),
{
    let mut st: StackStatus = status_of(rt);
    st.ok = ok;
    assert(notes@.len() == text::views(notes@).len());
    st.message = if notes.is_empty() {
        String::from_str("no changes")
    } else {
        text::join(notes, "; ")
    };
    st
}

/// The note on a failed probe of the synthesis server.
pub fn unreachable_note(url: &str, error: &str) -> (r: String)
    ensures
        r@ == "TTS HTTP nicht erreichbar ("@ + url@ + "): "@ + error@
            + ". Starte Qwen TTS: scripts/start_qwen_sycl.ps1 (tts-server auf 127.0.0.1:8083). Bis dahin keine Stimme."@,
{
    wrap2(
        "TTS HTTP nicht erreichbar (",
        url,
        "): ",
        error,
        ". Starte Qwen TTS: scripts/start_qwen_sycl.ps1 (tts-server auf 127.0.0.1:8083). Bis dahin keine Stimme.",
    )
}

/// The host and port of a URL: what stands before the first slash once the
/// scheme is gone.
pub open spec fn authority(url: Seq<char>) -> Seq<char> {
    text::split(text::trim_prefixes(text::trim_prefixes(url, "http://"@), "https://"@), '/')[0]
}

/// The address to connect to when a synthesis server is probed.
pub fn probe_address(url: &str) -> (r: Result<String, String>)
    ensures
        match r {
            Ok(a) => a@ == authority(url@) && a@.len() > 0,
            Err(m) => authority(url@).len() == 0 && m@ == "empty tts_url"@,
        },
{
    let a: String = text::without_prefixes(
        text::without_prefixes(url, "http://").as_str(),
        "https://",
    );
    let parts: Vec<String> = text::split_at_char(a.as_str(), '/');
    proof {
        text::lemma_split_not_empty(a@, '/');
        assert(parts@.len() == text::views(parts@).len());
        assert(text::views(parts@)[0] == parts@[0]@);
    }
    let host: String = parts[0].clone();
    if host.as_str().is_empty() {
        Err(String::from_str("empty tts_url"))
    } else {
        Ok(host)
    }
}

/// The part of an endpoint before `/v1/`, or the endpoint without slashes at
/// its end.
pub open spec fn server_base(url: Seq<char>) -> Seq<char> {
    let i = text::first_occurrence(url, "/v1/"@);
    if i < url.len() {
        url.take(i)
    } else {
        text::trim_end_of(url, '/')
    }
}

/// The URLs that a synthesis server is asked for, in order.
pub fn probe_urls(url: &str) -> (r: Vec<String>)
    ensures
        text::views(r@) == seq![
            server_base(url@) + "/health"@,
            server_base(url@) + "/v1/models"@,
            server_base(url@) + "/"@,
        ],
{
    let v: Vec<char> = text::chars_of(url);
    let w: Vec<char> = text::chars_of("/v1/");
    let i: usize = text::find(v.as_slice(), w.as_slice());
    let base: String = if i < v.len() {
        assert(v@.subrange(0, i as int) =~= v@.take(i as int));
        text::piece(v.as_slice(), 0, i)
    } else {
        text::without_trailing(url, '/')
    };
    let mut r: Vec<String> = Vec::new();
    r.push(base.clone().concat("/health"));
    r.push(base.clone().concat("/v1/models"));
    r.push(base.concat("/"));
    assert(text::views(r@) =~= seq![
        server_base(url@) + "/health"@,
        server_base(url@) + "/v1/models"@,
        server_base(url@) + "/"@,
    ]);
    r
}

/// What the recognition server answered to a request to load a model.
#[derive(Debug, Clone, Copy, PartialEq, Eq, Structural)]
pub enum ReloadReply {
    Loaded,
    NoSuchRoute,
    Refused,
}

pub fn reload_reply(status: u16) -> (r: ReloadReply)
    ensures
        r == if 200 <= status < 300 {
            ReloadReply::Loaded
        } else if status == 404 {
            ReloadReply::NoSuchRoute
        } else {
            ReloadReply::Refused
        },
{
    if 200 <= status && status < 300 {
        ReloadReply::Loaded
    } else if status == 404 {
        ReloadReply::NoSuchRoute
    } else {
        ReloadReply::Refused
    }
}

/// The note on a loaded model, with the name that the server reports, if any.
pub fn loaded_note(model: &str, reported: Option<&str>) -> (r: String)
    ensures
        r@ == "ASR reloaded model="@ + model@ + " ("@ + (match reported {
            Some(m) => m@,
            None => model@,
        }) + ")"@,
{
    match reported {
        Some(m) => wrap2("ASR reloaded model=", model, " (", m, ")"),
        None => wrap2("ASR reloaded model=", model, " (", model, ")"),
    }
}

/// The name of a model in what a server answered.
pub open spec fn reported_model(body: Seq<char>) -> Option<Seq<char>> {
    match crate::json::parsed_json(body) {
        Some(v) => crate::json::text_of(crate::json::member(v, "model"@)),
        None => None,
    }
}

/// The note on a loaded model by what the server answered.
pub fn reload_note(model: &str, body: &str) -> (r: String)
    ensures
        r@ == "ASR reloaded model="@ + model@ + " ("@ + (match reported_model(body@) {
            Some(m) => m,
            None => model@,
        }) + ")"@,
{
    let reported: Option<String> = match crate::json::parse_json(body) {
        Some(v) => v.text_member("model"),
        None => None,
    };
    match reported {
        Some(m) => loaded_note(model, Some(m.as_str())),
        None => loaded_note(model, None),
    }
}

/// A selection without any choice changes nothing.
pub proof fn law_empty_selection(v: StackView, sel: StackSelection)
    requires
        sel.asr is None,
        sel.tts is None,
        sel.llm is None,
        sel.whisper_url is None,
        sel.llm_base_url is None,
        sel.model_name is None,
        sel.tts_url is None,
        sel.tts_backend is None,
        sel.voice is None,
        sel.language is None,
    ensures
        selected(v, sel).stack == v,
        selected(v, sel).notes.len() == 0,
{
}

/// Free-form overrides win over what the selected backends set.
pub proof fn law_overrides_win(v: StackView, sel: StackSelection)
    ensures
        sel.whisper_url matches Some(u) ==> selected(v, sel).stack.whisper_url == u@,
        sel.llm_base_url matches Some(u) ==> selected(v, sel).stack.llm_base_url == u@,
        sel.model_name matches Some(m) ==> selected(v, sel).stack.model_name == m@,
        sel.tts_url matches Some(u) ==> selected(v, sel).stack.tts_url == u@,
        sel.voice matches Some(x) ==> selected(v, sel).stack.voice == x@,
        sel.language matches Some(l) ==> selected(v, sel).stack.language == l@ && selected(
            v,
            sel,
        ).stack.tts_language == l@,
{
}

/// Selecting Supertonic always leaves a voice that it knows.
pub proof fn law_supertonic_voice_is_known(v: StackView)
    ensures
        supertonic_voice(with_tts(v, "supertonic"@).voice),
{
    reveal_strlit("M1");
    if !supertonic_voice(v.voice) {
        let n = "M1"@;
        assert(text::trim_start(n) == n);
        assert(text::trim_end(n) == n);
        assert(text::upper(n) =~= n);
    }
}

/// Every backend of synthesis is read from its own name, in any case and with white
/// space around it.
pub proof fn law_backend_names_read_back(b: TtsBackend)
    ensures
        tts_backend_of(tts_backend_name(b)) == Some(b),
{
    reveal_strlit("auto");
    reveal_strlit("supertonic");
    reveal_strlit("http");
    reveal_strlit("piper");
    reveal_strlit("system");
    assert forall|i: int| 0 <= i < "auto"@.len() implies 'a' <= #[trigger] "auto"@[i] <= 'z' by {}
    assert forall|i: int| 0 <= i < "supertonic"@.len() implies 'a' <= #[trigger] "supertonic"@[i]
        <= 'z' by {}
    assert forall|i: int| 0 <= i < "http"@.len() implies 'a' <= #[trigger] "http"@[i] <= 'z' by {}
    assert forall|i: int| 0 <= i < "piper"@.len() implies 'a' <= #[trigger] "piper"@[i] <= 'z' by {}
    assert forall|i: int| 0 <= i < "system"@.len() implies 'a' <= #[trigger] "system"@[i] <= 'z' by {}
    text::lemma_lower_trim("auto"@);
    text::lemma_lower_trim("supertonic"@);
    text::lemma_lower_trim("http"@);
    text::lemma_lower_trim("piper"@);
    text::lemma_lower_trim("system"@);
    assert("auto"@.len() == 4 && "supertonic"@.len() == 10 && "http"@.len() == 4 && "piper"@.len()
        == 5 && "system"@.len() == 6);
    assert("auto"@[0] == 'a' && "http"@[0] == 'h');
}

/// A model that the recognition server can load is named in the id of its backend.
pub proof fn law_model_is_in_the_id(id: Seq<char>)
    ensures
        whisper_model_of(id) matches Some(m) ==> id == "fw-"@ + m,
        id == "fw-"@ + "tiny"@ ==> whisper_model_of(id) == Some("tiny"@),
        id == "fw-"@ + "base"@ ==> whisper_model_of(id) == Some("base"@),
        id == "fw-"@ + "small"@ ==> whisper_model_of(id) == Some("small"@),
        id == "fw-"@ + "medium"@ ==> whisper_model_of(id) == Some("medium"@),
{
    reveal_strlit("fw-");
    reveal_strlit("tiny");
    reveal_strlit("base");
    reveal_strlit("small");
    reveal_strlit("medium");
    reveal_strlit("fw-tiny");
    reveal_strlit("fw-base");
    reveal_strlit("fw-small");
    reveal_strlit("fw-medium");
    assert("fw-tiny"@ =~= "fw-"@ + "tiny"@);
    assert("fw-base"@ =~= "fw-"@ + "base"@);
    assert("fw-small"@ =~= "fw-"@ + "small"@);
    assert("fw-medium"@ =~= "fw-"@ + "medium"@);
    assert("fw-tiny"@[3] == 't' && "fw-base"@[3] == 'b');
    assert("fw-tiny"@.len() == 7 && "fw-base"@.len() == 7 && "fw-small"@.len() == 8
        && "fw-medium"@.len() == 9);
}

/// A selection changes the stages that it names and no other.
pub proof fn law_selection_is_local(v: StackView, sel: StackSelection)
    ensures
        ({
            let t = selected(v, sel).stack;
            &&& sel.asr is Some ==> t.asr_id == sel.asr.unwrap()@
            &&& sel.tts is Some ==> t.tts_id == sel.tts.unwrap()@
            &&& sel.llm is Some ==> t.llm_id == sel.llm.unwrap()@
            &&& sel.asr is None ==> t.asr_id == v.asr_id
            &&& sel.asr is None && sel.whisper_url is None ==> t.whisper_url == v.whisper_url
            &&& sel.tts is None ==> t.tts_id == v.tts_id && t.tts_model == v.tts_model && t.tts_rate
                == v.tts_rate
            &&& sel.tts is None && sel.tts_url is None ==> t.tts_url == v.tts_url
            &&& sel.tts is None && sel.voice is None ==> t.voice == v.voice
            &&& sel.tts is None && sel.tts_backend is None ==> t.tts == v.tts
            &&& sel.llm is None ==> t.llm_id == v.llm_id && t.llm_no_think == v.llm_no_think
            &&& sel.llm is None && sel.llm_base_url is None ==> t.llm_base_url == v.llm_base_url
            &&& sel.llm is None && sel.model_name is None ==> t.model_name == v.model_name
            &&& sel.language is None ==> t.language == v.language && t.tts_language
                == v.tts_language
        }),
{
}

/// Where a recognition backend is asked: Parakeet and whisper.cpp at their port,
/// Voxtral at its own, a model of the running server where the server is.
pub proof fn law_recognition_address(url: Seq<char>, id: Seq<char>)
    ensures
        whisper_model_of(id) is Some && url.len() > 0 ==> asr_setup(url, id).0 == url,
        whisper_model_of(id) is Some && url.len() == 0 ==> asr_setup(url, id).0
            == "http://127.0.0.1:8082"@,
        id == "parakeet"@ || id == "parakeet-tdt-0.6b-v3"@ || id == "wcpp-base"@ || id
            == "wcpp-small"@ ==> asr_setup(url, id).0 == "http://127.0.0.1:8082"@,
        id == "voxtral"@ || id == "voxtral-mini-4b-realtime"@ ==> asr_setup(url, id).0
            == "http://127.0.0.1:8087"@,
        id.len() == 0 ==> asr_setup(url, id).0 == url,
{
    reveal_strlit("parakeet");
    reveal_strlit("parakeet-tdt-0.6b-v3");
    reveal_strlit("wcpp-base");
    reveal_strlit("wcpp-small");
    reveal_strlit("voxtral");
    reveal_strlit("voxtral-mini-4b-realtime");
    reveal_strlit("fw-tiny");
    reveal_strlit("fw-base");
    reveal_strlit("fw-small");
    reveal_strlit("fw-medium");
    assert("parakeet"@[0] == 'p' && "parakeet-tdt-0.6b-v3"@[0] == 'p');
    assert("wcpp-base"@[0] == 'w' && "wcpp-small"@[0] == 'w');
    assert("voxtral"@[0] == 'v' && "voxtral-mini-4b-realtime"@[0] == 'v');
    assert("parakeet"@.len() == 8 && "voxtral"@.len() == 7 && "wcpp-base"@.len() == 9);
    assert("parakeet-tdt-0.6b-v3"@.len() == 20 && "voxtral-mini-4b-realtime"@.len() == 24
        && "wcpp-small"@.len() == 10);
    assert("fw-tiny"@.len() == 7 && "fw-base"@.len() == 7 && "fw-small"@.len() == 8
        && "fw-medium"@.len() == 9);
    assert("fw-tiny"@[0] == 'f' && "fw-base"@[0] == 'f' && "fw-small"@[0] == 'f' && "fw-medium"@[0]
        == 'f');
}

/// A synthesis server is asked over HTTP at the port of its kind, at 24000 samples a
/// second, and with a voice that it has: a voice of another kind gives way to its
/// first one, and any other is kept.
pub proof fn law_synthesis_settings(c: StackView)
    ensures
        ({
            let v = c.voice;
            let qwen = tts_setup(c, "qwen"@);
            let xtts = tts_setup(c, "xtts-v2"@);
            let kokoro = tts_setup(c, "kokoro"@);
            let vibe = tts_setup(c, "vibevoice-realtime-0.5b"@);
            let higgs = tts_setup(c, "higgs-tts-3-4b"@);
            let own = tts_setup(c, "supertonic"@);
            &&& qwen.tts == TtsBackend::Http && qwen.url == "http://127.0.0.1:8083/v1/audio/speech"@
                && qwen.rate == 24000
            &&& xtts.tts == TtsBackend::Http && xtts.url == "http://127.0.0.1:8091/v1/audio/speech"@
                && xtts.rate == 24000 && xtts.voice == "de_sample"@
            &&& kokoro.tts == TtsBackend::Http && kokoro.url
                == "http://127.0.0.1:8084/v1/audio/speech"@ && kokoro.rate == 24000
            &&& vibe.tts == TtsBackend::Http && vibe.url == "http://127.0.0.1:8089/v1/audio/speech"@
                && vibe.rate == 24000
            &&& higgs.tts == TtsBackend::Http && higgs.url
                == "http://127.0.0.1:8086/v1/audio/speech"@ && higgs.rate == 24000
            &&& own.tts == TtsBackend::Supertonic && own.url == c.tts_url && own.rate == c.tts_rate
            &&& supertonic_voice(v) ==> own.voice == v && qwen.voice == "Aiden"@ && kokoro.voice
                == "af_bella"@ && vibe.voice == "emma"@ && higgs.voice == "default"@
            &&& !supertonic_voice(v) ==> own.voice == "M1"@
            &&& kokoro_voice(v) && !supertonic_voice(v) ==> kokoro.voice == v && qwen.voice
                == "Aiden"@ && vibe.voice == "emma"@ && higgs.voice == "default"@
            &&& v.len() > 0 && !kokoro_voice(v) && !supertonic_voice(v) ==> qwen.voice == v
                && kokoro.voice == "af_bella"@
            &&& v.len() > 0 && !kokoro_voice(v) && !supertonic_voice(v) && text::lower(v)
                != text::lower("Aiden"@) ==> higgs.voice == v
            &&& v.len() > 0 && !kokoro_voice(v) && !supertonic_voice(v) && text::lower(v)
                != text::lower("Aiden"@) && text::lower(v) != text::lower("default"@) ==> vibe.voice
                == v
        }),
{
    reveal_strlit("qwen");
    reveal_strlit("supertonic");
    reveal_strlit("qwen-sycl");
    reveal_strlit("qwen-vulkan");
    reveal_strlit("http");
    reveal_strlit("xtts-v2");
    reveal_strlit("xtts");
    reveal_strlit("kokoro");
    reveal_strlit("vibevoice-realtime-0.5b");
    reveal_strlit("vibevoice");
    reveal_strlit("higgs-tts-3-4b");
    reveal_strlit("higgs");
    assert("qwen"@.len() == 4 && "supertonic"@.len() == 10 && "qwen-sycl"@.len() == 9);
    assert("qwen-vulkan"@.len() == 11 && "http"@.len() == 4 && "xtts-v2"@.len() == 7);
    assert("xtts"@.len() == 4 && "kokoro"@.len() == 6 && "vibevoice-realtime-0.5b"@.len() == 23);
    assert("vibevoice"@.len() == 9 && "higgs-tts-3-4b"@.len() == 14 && "higgs"@.len() == 5);
    assert("qwen"@[0] == 'q' && "http"@[0] == 'h' && "xtts"@[0] == 'x' && "qwen-sycl"@[0] == 'q'
        && "vibevoice"@[0] == 'v');
}

/// Where a language model is asked: a name with a tag at the local Ollama, which is
/// told that name, the two small models there without thinking, and an id that is not
/// known where it was asked before.
pub proof fn law_language_model_settings(c: StackView, id: Seq<char>)
    ensures
        ({
            let cloud = llm_setup(c, "qwen-cloud"@);
            let small = llm_setup(c, "llama-1b"@);
            let granite = llm_setup(c, "granite-2b"@);
            &&& cloud.url == "http://127.0.0.1:11434/v1"@ && cloud.model == "qwen3.5:cloud"@
                && cloud.no_think
            &&& small.url == "http://127.0.0.1:11434/v1"@ && small.model == "llama3.2:1b"@
                && small.no_think
            &&& granite.model == "granite-3.3-2b-instruct"@ && granite.no_think == c.llm_no_think
            &&& !text::has(c.llm_base_url, "11434"@) ==> granite.url == c.llm_base_url
            &&& text::has(c.llm_base_url, "11434"@) ==> granite.url == "http://127.0.0.1:8081/v1"@
            &&& id.contains(':') && id != "qwen3.5:cloud"@ && id != "llama3.2:1b"@ && id
                != "qwen-cloud"@ && id != "llama-1b"@ && id != "granite-2b"@ && id != "qwen-1.5b"@
                ==> llm_setup(c, id).url == "http://127.0.0.1:11434/v1"@ && llm_setup(c, id).model
                == id && llm_setup(c, id).no_think == c.llm_no_think
            &&& id.len() == 0 ==> llm_setup(c, id).url == c.llm_base_url && llm_setup(c, id).model
                == c.model_name
        }),
{
    reveal_strlit("qwen-cloud");
    reveal_strlit("qwen3.5:cloud");
    reveal_strlit("llama-1b");
    reveal_strlit("llama3.2:1b");
    reveal_strlit("granite-2b");
    reveal_strlit("qwen-1.5b");
    assert("qwen-cloud"@.len() == 10 && "qwen3.5:cloud"@.len() == 13 && "llama-1b"@.len() == 8);
    assert("llama3.2:1b"@.len() == 11 && "granite-2b"@.len() == 10 && "qwen-1.5b"@.len() == 9);
    assert("qwen-cloud"@[0] == 'q' && "granite-2b"@[0] == 'g');
}

/// A recognition backend is known by its address: by the name of its model, or else by
/// the port; the names come before the ports but for Voxtral, which has its own.
pub proof fn law_recognition_is_known_by_address(c: Config)
    ensures
        ({
            let u = text::lower(c.whisper_url@);
            let named = text::has(u, "confucius"@) || text::has(u, "voxtral"@) || text::has(
                u,
                ":8087"@,
            );
            &&& text::has(u, "confucius"@) ==> asr_id_of(c) == "confucius4-r2t2"@
            &&& text::has(u, "voxtral"@) && !text::has(u, "confucius"@) ==> asr_id_of(c)
                == "voxtral-mini-4b-realtime"@
            &&& text::has(u, ":8087"@) && !text::has(u, "confucius"@) ==> asr_id_of(c)
                == "voxtral-mini-4b-realtime"@
            &&& !named && text::has(u, "parakeet"@) ==> asr_id_of(c) == "parakeet-tdt-0.6b-v3"@
            &&& !named && !text::has(u, "parakeet"@) && text::has(u, "whisper-tiny"@) ==> asr_id_of(
                c,
            ) == "fw-tiny"@
            &&& !named && !text::has(u, "parakeet"@) && !text::has(u, "whisper-tiny"@) && text::has(
                u,
                "whisper-small"@,
            ) ==> asr_id_of(c) == "fw-small"@
            &&& !named && !text::has(u, "parakeet"@) && !text::has(u, "whisper-tiny"@) && !text::has(
                u,
                "whisper-small"@,
            ) && (text::has(u, "8082"@) || text::has(u, "whisper-base"@)) ==> asr_id_of(c)
                == "fw-base"@
            &&& !named && !text::has(u, "parakeet"@) && !text::has(u, "whisper-tiny"@) && !text::has(
                u,
                "whisper-small"@,
            ) && !text::has(u, "8082"@) && !text::has(u, "whisper-base"@) ==> asr_id_of(c)
                == "custom-asr"@
        }),
{
}

/// A synthesis backend that is not asked over HTTP is known by its kind; a server by
/// the port or the name in its address, or by its model.
pub proof fn law_synthesis_is_known_by_address(c: Config)
    ensures
        ({
            let u = text::lower(c.tts_url@);
            let m = text::lower(c.tts_model@);
            let either = |p: Seq<char>| text::has(u, p) || text::has(m, p);
            let xtts = either("xtts"@) || text::has(u, "8091"@);
            let kokoro = either("kokoro"@) || text::has(u, "8084"@);
            let vibe = either("vibevoice"@) || text::has(u, "8089"@) || text::has(
                u,
                "tts-vibevoice"@,
            );
            let higgs = either("higgs"@) || text::has(u, "8086"@) || text::has(u, "tts-higgs"@);
            &&& c.tts == TtsBackend::Supertonic || c.tts == TtsBackend::Auto ==> tts_id_of(c)
                == "supertonic"@
            &&& c.tts == TtsBackend::Piper ==> tts_id_of(c) == "piper"@
            &&& c.tts == TtsBackend::System ==> tts_id_of(c) == "system"@
            &&& c.tts == TtsBackend::Http && xtts ==> tts_id_of(c) == "xtts-v2"@
            &&& c.tts == TtsBackend::Http && !xtts && kokoro ==> tts_id_of(c) == "kokoro"@
            &&& c.tts == TtsBackend::Http && !xtts && !kokoro && vibe ==> tts_id_of(c)
                == "vibevoice-realtime-0.5b"@
            &&& c.tts == TtsBackend::Http && !xtts && !kokoro && !vibe && higgs ==> tts_id_of(c)
                == "higgs-tts-3-4b"@
            &&& c.tts == TtsBackend::Http && !xtts && !kokoro && !vibe && !higgs && either(
                "supertonic"@,
            ) ==> tts_id_of(c) == "supertonic"@
            &&& c.tts == TtsBackend::Http && !xtts && !kokoro && !vibe && !higgs && !either(
                "supertonic"@,
            ) && (either("qwen"@) || text::has(u, "8083"@)) ==> tts_id_of(c) == "qwen3-tts-0.6b"@
            &&& c.tts == TtsBackend::Http && !xtts && !kokoro && !vibe && !higgs && !either(
                "supertonic"@,
            ) && !either("qwen"@) && !text::has(u, "8083"@) ==> tts_id_of(c) == "http"@
        }),
{
}

/// A language model is known by its address where it is the local fallback, and else
/// by its name.
pub proof fn law_language_model_is_known(c: Config)
    ensures
        ({
            let m = text::lower(c.model_name@);
            let fallback = text::has(text::lower(c.llm_base_url@), "llama-fallback"@);
            &&& fallback ==> llm_id_of(c) == "local-fallback"@
            &&& !fallback && text::has(m, "qwen3.5"@) ==> llm_id_of(c) == "external-openai"@
            &&& !fallback && !text::has(m, "qwen3.5"@) && text::has(m, "llama3.2"@) ==> llm_id_of(c)
                == "llama-1b"@
            &&& !fallback && !text::has(m, "qwen3.5"@) && !text::has(m, "llama3.2"@) && text::has(
                m,
                "granite"@,
            ) ==> llm_id_of(c) == "granite-2b"@
            &&& !fallback && !text::has(m, "llama3.2"@) && !text::has(m, "granite"@) ==> llm_id_of(c)
                == "external-openai"@
        }),
{
}

/// The address that is probed is the part of a URL behind its scheme and before its
/// path.
pub proof fn law_probed_address(host: Seq<char>, path: Seq<char>)
    requires
        forall|i: int| 0 <= i < host.len() ==> #[trigger] host[i] != '/' && host[i] != 'h',
        host.len() > 0,
    ensures
        authority("http://"@ + host + seq!['/'] + path) == host,
        server_base(host + "/v1/"@ + path) == host,
{
    let p = "http://"@;
    let q = "https://"@;
    reveal_strlit("http://");
    reveal_strlit("https://");
    reveal_strlit("/v1/");
    let rest = host + seq!['/'] + path;
    let url = p + host + seq!['/'] + path;
    assert(url.take(7) =~= p);
    assert(url.skip(7) =~= rest);
    assert(rest[0] == host[0]);
    assert(!text::starts_with(rest, p)) by {
        if text::starts_with(rest, p) {
            assert(rest.take(7)[0] == 'h');
        }
    }
    assert(!text::starts_with(rest, q)) by {
        if text::starts_with(rest, q) {
            assert(rest.take(8)[0] == 'h');
        }
    }
    assert(text::trim_prefixes(url, p) == text::trim_prefixes(rest, p));
    assert(text::trim_prefixes(rest, p) == rest);
    assert(text::trim_prefixes(rest, q) == rest);
    text::lemma_first_char_is(rest, '/', host.len() as int);
    assert(text::split(rest, '/')[0] =~= host);
    let s = host + "/v1/"@ + path;
    assert(s.skip(host.len() as int).take(4) =~= "/v1/"@);
    assert forall|j: int| 0 <= j < host.len() implies !text::starts_with(
        #[trigger] s.skip(j),
        "/v1/"@,
    ) by {
        if text::starts_with(s.skip(j), "/v1/"@) {
            assert(s.skip(j).take(4)[0] == '/');
            assert(s.skip(j)[0] == host[j]);
        }
    }
    text::lemma_first_occurrence_is(s, "/v1/"@, host.len() as int);
    assert(s.take(host.len() as int) =~= host);
}

/// The short names of a synthesis backend set up what its full name does, and an id
/// that is not known leaves the settings as they are.
pub proof fn law_synthesis_aliases(c: StackView, id: Seq<char>)
    ensures
        ({
            let alike = |a: TtsSetup, b: TtsSetup|
                a.tts == b.tts && a.url == b.url && a.model == b.model && a.rate == b.rate
                    && a.voice == b.voice;
            &&& alike(tts_setup(c, "qwen-sycl"@), tts_setup(c, "qwen"@))
            &&& alike(tts_setup(c, "qwen-vulkan"@), tts_setup(c, "qwen"@))
            &&& alike(tts_setup(c, "http"@), tts_setup(c, "qwen"@))
            &&& alike(tts_setup(c, "xtts"@), tts_setup(c, "xtts-v2"@))
            &&& alike(tts_setup(c, "vibevoice"@), tts_setup(c, "vibevoice-realtime-0.5b"@))
            &&& alike(tts_setup(c, "higgs"@), tts_setup(c, "higgs-tts-3-4b"@))
            &&& tts_setup(c, "xtts"@).model == "coqui/XTTS-v2"@
            &&& tts_setup(c, "higgs"@).model == "bosonai/higgs-tts-3-4b"@
            &&& tts_setup(c, "system"@).tts == TtsBackend::System
            &&& tts_setup(c, "piper"@).tts == TtsBackend::Piper
            &&& id.len() == 0 ==> tts_setup(c, id).tts == c.tts && tts_setup(c, id).url == c.tts_url
                && tts_setup(c, id).model == c.tts_model && tts_setup(c, id).rate == c.tts_rate
                && tts_setup(c, id).voice == c.voice
        }),
{
    reveal_strlit("qwen");
    reveal_strlit("supertonic");
    reveal_strlit("qwen-sycl");
    reveal_strlit("qwen-vulkan");
    reveal_strlit("http");
    reveal_strlit("xtts-v2");
    reveal_strlit("xtts");
    reveal_strlit("kokoro");
    reveal_strlit("vibevoice-realtime-0.5b");
    reveal_strlit("vibevoice");
    reveal_strlit("higgs-tts-3-4b");
    reveal_strlit("higgs");
    reveal_strlit("system");
    reveal_strlit("piper");
    assert("qwen"@.len() == 4 && "supertonic"@.len() == 10 && "qwen-sycl"@.len() == 9);
    assert("qwen-vulkan"@.len() == 11 && "http"@.len() == 4 && "xtts-v2"@.len() == 7);
    assert("xtts"@.len() == 4 && "kokoro"@.len() == 6 && "vibevoice-realtime-0.5b"@.len() == 23);
    assert("vibevoice"@.len() == 9 && "higgs-tts-3-4b"@.len() == 14 && "higgs"@.len() == 5);
    assert("system"@.len() == 6 && "piper"@.len() == 5);
    assert("qwen"@[0] == 'q' && "http"@[0] == 'h' && "xtts"@[0] == 'x' && "qwen-sycl"@[0] == 'q'
        && "vibevoice"@[0] == 'v' && "higgs"@[0] == 'h' && "piper"@[0] == 'p' && "kokoro"@[0] == 'k'
        && "system"@[0] == 's');
}

/// What a selection tells: that nothing changed, a single note as it is, or the notes
/// set apart by semicolons.
pub proof fn law_notes_of_a_selection(notes: Seq<Seq<char>>, note: Seq<char>)
    ensures
        selection_message(Seq::empty()) == "no changes"@,
        selection_message(seq![note]) == note,
        notes.len() > 0 ==> selection_message(notes.push(note)) == selection_message(notes) + "; "@
            + note,
{
    text::law_joining(notes, "; "@, note);
    text::law_joining(Seq::empty(), "; "@, note);
    assert(Seq::<Seq<char>>::empty().push(note) =~= seq![note]);
}

/// What a selection gives is taken over as it is, and what it leaves out stays. A
/// language is that of recognition and of synthesis.
pub proof fn law_given_settings_are_taken(v: StackView, sel: StackSelection, x: String)
    ensures
        sel.voice == Some(x) ==> overridden(v, sel).voice == x@,
        sel.voice is None ==> overridden(v, sel).voice == v.voice,
        sel.language == Some(x) ==> overridden(v, sel).language == x@ && overridden(
            v,
            sel,
        ).tts_language == x@,
        sel.language is None ==> overridden(v, sel).language == v.language && overridden(
            v,
            sel,
        ).tts_language == v.tts_language,
        sel.whisper_url == Some(x) ==> overridden(v, sel).whisper_url == x@,
        sel.whisper_url is None ==> overridden(v, sel).whisper_url == v.whisper_url,
        sel.llm_base_url == Some(x) ==> overridden(v, sel).llm_base_url == x@,
        sel.llm_base_url is None ==> overridden(v, sel).llm_base_url == v.llm_base_url,
        sel.model_name == Some(x) ==> overridden(v, sel).model_name == x@,
        sel.model_name is None ==> overridden(v, sel).model_name == v.model_name,
        sel.tts_url == Some(x) ==> overridden(v, sel).tts_url == x@,
        sel.tts_url is None ==> overridden(v, sel).tts_url == v.tts_url,
        sel.tts_backend is None ==> overridden(v, sel).tts == v.tts,
{
}

} // verus!
