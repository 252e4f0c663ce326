//! The gateway to the active backends: recognition and synthesis under addresses
//! that stay while the stack changes.

use crate::config::{self, Config};
use crate::json::{self, object, push_member, Json, JsonView};
use crate::lab::{
    self, stage_is_ready, ActiveBackend, LabStackStatus, StageTransition, TransitionPhase,
};
use crate::registry::{self, wrap, wrap2};
use crate::text;
use crate::tts::{self, http_is_qwen};
use vstd::prelude::*;

verus! {

/// The largest JSON or error answer that is read of a backend.
pub const MAX_GATEWAY_JSON_BYTES: usize = 0x10_0000;

/// The largest audio answer that is read of a backend.
pub const MAX_GATEWAY_TTS_BYTES: usize = 0x200_0000;

// ---------------------------------------------------------------------------
// Bounded answers
// ---------------------------------------------------------------------------

/// An answer that is read up to a limit.
#[derive(Debug)]
pub struct BoundedBody {
    pub limit: usize,
    pub body: Vec<u8>,
}

impl BoundedBody {
    pub open spec fn wf(self) -> bool {
        self.body@.len() <= self.limit
    }

    /// Starts to read an answer. One that announces too much is not read at all.
    pub fn new(limit: usize, announced: Option<u64>) -> (r: Result<Self, String>)
        ensures
            ({
                let too_long = announced matches Some(n) && n > limit;
                match r {
                    Ok(b) => !too_long && b.wf() && b.limit == limit && b.body@ == Seq::<
                        u8,
                    >::empty(),
                    Err(m) => too_long && m@ == "upstream response exceeds "@ + text::decimal(
                        limit as nat,
                    ) + " byte limit (Content-Length "@ + text::decimal(announced->0 as nat)
                        + ")"@,
                }
            }),
    {
        match announced {
            Some(n) => {
                if n > limit as u64 {
                    let l: String = text::decimal_of(limit as u64);
                    let s: String = text::decimal_of(n);
                    return Err(
                        wrap2(
                            "upstream response exceeds ",
                            l.as_str(),
                            " byte limit (Content-Length ",
                            s.as_str(),
                            ")",
                        ),
                    );
                }
            },
            None => {},
        }
        Ok(BoundedBody { limit, body: Vec::new() })
    }

    /// Takes in more of the answer, unless it becomes too long.
    pub fn push(&mut self, chunk: &[u8]) -> (r: Result<(), String>)
        requires
            old(self).wf(),
        ensures
            final(self).wf(),
            final(self).limit == old(self).limit,
            match r {
                Ok(_) => final(self).body@ == old(self).body@ + chunk@,
                Err(m) => {
                    &&& old(self).body@.len() + chunk@.len() > old(self).limit
                    &&& final(self).body@ == old(self).body@
                    &&& m@ == "upstream response exceeds "@ + text::decimal(
                        old(self).limit as nat,
                    ) + " byte limit"@
                },
            },
    {
        if chunk.len() > self.limit - self.body.len() {
            let l: String = text::decimal_of(self.limit as u64);
            return Err(wrap("upstream response exceeds ", l.as_str(), " byte limit"));
        }
        let ghost start = self.body@;
        let mut i: usize = 0;
        assert(self.body@ =~= start + chunk@.take(0));
        while i < chunk.len()
            invariant
                i <= chunk.len(),
                start.len() + chunk@.len() <= self.limit,
                self.limit == old(self).limit,
                self.body@ == start + chunk@.take(i as int),
            decreases chunk.len() - i,
        {
            self.body.push(chunk[i]);
            assert(self.body@ =~= start + chunk@.take(i + 1));
            i += 1;
        }
        assert(chunk@.take(i as int) =~= chunk@);
        Ok(())
    }
}

// ---------------------------------------------------------------------------
// Readiness
// ---------------------------------------------------------------------------

/// Whether the active backends can serve.
#[derive(Debug)]
pub struct GatewayReady {
    pub ready: bool,
    pub asr_id: String,
    pub tts_id: String,
    pub asr_ok: bool,
    pub tts_ok: bool,
    pub message: String,
    pub language: String,
}

pub open spec fn phase_text(p: TransitionPhase) -> Seq<char> {
    match p {
        TransitionPhase::Idle => "Idle"@,
        TransitionPhase::Preparing => "Preparing"@,
        TransitionPhase::Draining => "Draining"@,
        TransitionPhase::Stopping => "Stopping"@,
        TransitionPhase::Starting => "Starting"@,
        TransitionPhase::Warming => "Warming"@,
        TransitionPhase::Ready => "Ready"@,
        TransitionPhase::Rollback => "Rollback"@,
        TransitionPhase::Failed => "Failed"@,
    }
}

pub fn phase_name(p: TransitionPhase) -> (r: &'static str)
    ensures
        r@ == phase_text(p),
{
    match p {
        TransitionPhase::Idle => "Idle",
        TransitionPhase::Preparing => "Preparing",
        TransitionPhase::Draining => "Draining",
        TransitionPhase::Stopping => "Stopping",
        TransitionPhase::Starting => "Starting",
        TransitionPhase::Warming => "Warming",
        TransitionPhase::Ready => "Ready",
        TransitionPhase::Rollback => "Rollback",
        TransitionPhase::Failed => "Failed",
    }
}

/// Why a stage is not ready.
pub open spec fn not_ready_text(
    name: Seq<char>,
    active: Option<ActiveBackend>,
    t: StageTransition,
    runtime_id: Seq<char>,
) -> Seq<char> {
    if runtime_id.len() == 0 || active is None {
        name + " not selected"@
    } else if active->0.backend_id@ != runtime_id {
        name + " backend drift (runtime="@ + runtime_id + ", active="@ + active->0.backend_id@
            + ")"@
    } else {
        name + " transition "@ + phase_text(t.phase) + ": "@ + t.message@ + ""@
    }
}

pub fn stage_not_ready_message(
    name: &str,
    active: &Option<ActiveBackend>,
    transition: &StageTransition,
    runtime_id: &str,
) -> (r: String)
    ensures
        r@ == not_ready_text(name@, *active, *transition, runtime_id@),
{
    match active {
        Some(a) => {
            if runtime_id.is_empty() {
                text::joined_pair(name, " not selected")
            } else if !text::same(a.backend_id.as_str(), runtime_id) {
                let head: String = text::joined_pair(name, " backend drift (runtime=");
                wrap2(head.as_str(), runtime_id, ", active=", a.backend_id.as_str(), ")")
            } else {
                let head: String = text::joined_pair(name, " transition ");
                wrap2(
                    head.as_str(),
                    phase_name(transition.phase),
                    ": ",
                    transition.message.as_str(),
                    "",
                )
            }
        },
        None => text::joined_pair(name, " not selected"),
    }
}

/// The address at which a stage is probed.
pub fn probe_endpoint(active: &Option<ActiveBackend>, fallback: &str) -> (r: String)
    ensures
        r@ == match *active {
            Some(a) => if a.endpoint@.len() > 0 {
                a.endpoint@
            } else {
                fallback@
            },
            None => fallback@,
        },
{
    match active {
        Some(a) => if a.endpoint.as_str().is_empty() {
            String::from_str(fallback)
        } else {
            a.endpoint.clone()
        },
        None => String::from_str(fallback),
    }
}

/// What is said of a stage that cannot serve.
pub open spec fn stage_complaint(
    name: Seq<char>,
    active: Option<ActiveBackend>,
    t: StageTransition,
    id: Seq<char>,
    reachable: bool,
) -> Seq<Seq<char>> {
    if !lab::ready(active, t, id) {
        seq![not_ready_text(name, active, t, id)]
    } else if !reachable {
        seq![name + " '"@ + id + "' unreachable"@]
    } else {
        Seq::empty()
    }
}

fn complain(
    parts: &mut Vec<String>,
    name: &str,
    active: &Option<ActiveBackend>,
    t: &StageTransition,
    id: &str,
    reachable: bool,
) -> (ok: bool)
    ensures
        ok == (lab::ready(*active, *t, id@) && reachable),
        text::views(final(parts)@) == text::views(old(parts)@) + stage_complaint(
            name@,
            *active,
            *t,
            id@,
            reachable,
        ),
{
    let ghost before = text::views(parts@);
    let stable: bool = stage_is_ready(active.as_ref(), t, id);
    if !stable {
        let m: String = stage_not_ready_message(name, active, t, id);
        let ghost x = m@;
        parts.push(m);
        assert(text::views(parts@) =~= before + seq![x]);
        false
    } else if !reachable {
        let head: String = text::joined_pair(name, " '");
        let m: String = wrap(head.as_str(), id, "' unreachable");
        let ghost x = m@;
        parts.push(m);
        assert(text::views(parts@) =~= before + seq![x]);
        false
    } else {
        assert(before + Seq::<Seq<char>>::empty() =~= before);
        true
    }
}

/// Judges the readiness of a stack. A stage is `reachable` where its backend has
/// answered a probe.
pub fn readiness(stack: &LabStackStatus, asr_reachable: bool, tts_reachable: bool) -> (r:
    GatewayReady)
    ensures
        ({
            let asr = stack.runtime.asr@;
            let tts = stack.runtime.tts@;
            &&& r.asr_ok == (lab::ready(stack.asr, stack.asr_transition, asr) && asr_reachable)
            &&& r.tts_ok == (lab::ready(stack.tts, stack.tts_transition, tts) && tts_reachable)
            &&& r.ready == (r.asr_ok && r.tts_ok)
            &&& r.asr_id@ == asr
            &&& r.tts_id@ == tts
            &&& r.language@ == stack.runtime.language@
            &&& r.message@ == if r.ready {
                "ready · asr="@ + asr + " tts="@ + tts + ""@
            } else {
                text::joined(
                    stage_complaint("asr"@, stack.asr, stack.asr_transition, asr, asr_reachable)
                        + stage_complaint(
                        "tts"@,
                        stack.tts,
                        stack.tts_transition,
                        tts,
                        tts_reachable,
                    ),
                    "; "@,
                )
            }
        }),
{
    let asr: &str = stack.runtime.asr.as_str();
    let tts: &str = stack.runtime.tts.as_str();
    let mut parts: Vec<String> = Vec::new();
    assert(text::views(parts@) =~= Seq::empty());
    let asr_ok: bool = complain(
        &mut parts,
        "asr",
        &stack.asr,
        &stack.asr_transition,
        asr,
        asr_reachable,
    );
    proof {
        let c = stage_complaint("asr"@, stack.asr, stack.asr_transition, asr@, asr_reachable);
        assert(Seq::<Seq<char>>::empty() + c =~= c);
    }
    let tts_ok: bool = complain(
        &mut parts,
        "tts",
        &stack.tts,
        &stack.tts_transition,
        tts,
        tts_reachable,
    );
    let ready: bool = asr_ok && tts_ok;
    let message: String = if ready {
        wrap2("ready · asr=", asr, " tts=", tts, "")
    } else {
        text::join(&parts, "; ")
    };
    GatewayReady {
        ready,
        asr_id: String::from_str(asr),
        tts_id: String::from_str(tts),
        asr_ok,
        tts_ok,
        message,
        language: stack.runtime.language.clone(),
    }
}

/// A gateway that is ready says so of backends that are selected, active, settled
/// and answering; one that is not gives a reason.
pub proof fn law_ready_means_serving(stack: LabStackStatus, asr: bool, tts: bool)
    ensures
        (lab::ready(stack.asr, stack.asr_transition, stack.runtime.asr@) && asr && lab::ready(
            stack.tts,
            stack.tts_transition,
            stack.runtime.tts@,
        ) && tts) <==> (stage_complaint(
            "asr"@,
            stack.asr,
            stack.asr_transition,
            stack.runtime.asr@,
            asr,
        ) + stage_complaint("tts"@, stack.tts, stack.tts_transition, stack.runtime.tts@, tts)).len()
            == 0,
{
}

/// Whether an answer to a probe is that of a backend: a success that is no web
/// page.
pub open spec fn is_healthy(status: u16, content_type: Option<Seq<char>>) -> bool {
    200 <= status < 300 && !text::has(
        text::lower(
            match content_type {
                Some(t) => t,
                None => ""@,
            },
        ),
        "text/html"@,
    )
}

pub fn probe_response_is_healthy(status: u16, content_type: &Option<String>) -> (r: bool)
    ensures
        r == is_healthy(status, registry::opt_view(*content_type)),
{
    if status < 200 || status >= 300 {
        return false;
    }
    let t: &str = match content_type {
        Some(t) => t.as_str(),
        None => "",
    };
    let l: String = text::to_lower(t);
    !text::contains(l.as_str(), "text/html")
}

/// A text without a pattern at its end, however often it stands there.
pub open spec fn trim_suffixes(s: Seq<char>, p: Seq<char>) -> Seq<char>
    decreases s.len(),
{
    if p.len() > 0 && text::ends_with(s, p) {
        trim_suffixes(s.take(s.len() - p.len()), p)
    } else {
        s
    }
}

fn without_suffixes(s: &str, p: &str) -> (r: String)
    ensures
        r@ == trim_suffixes(s@, p@),
{
    let w: Vec<char> = text::chars_of(p);
    let mut cur: String = String::from_str(s);
    while w.len() > 0 && text::finishes_with(cur.as_str(), p)
        invariant
            w@ == p@,
            trim_suffixes(s@, p@) == trim_suffixes(cur@, p@),
        decreases cur@.len(),
    {
        let v: Vec<char> = text::chars_of(cur.as_str());
        let shorter: String = text::piece(v.as_slice(), 0, v.len() - w.len());
        assert(v@.subrange(0, v@.len() - w@.len()) =~= v@.take(v@.len() - w@.len()));
        cur = shorter;
    }
    cur
}

/// The address of a server without the path of its interface.
pub open spec fn server_base(endpoint: Seq<char>) -> Seq<char> {
    let e = text::trim_end_of(endpoint, '/');
    text::trim_end_of(e.take(text::first_occurrence(e, "/v1/"@)), '/')
}

/// The addresses at which a backend is probed, in this order.
pub open spec fn health_urls(endpoint: Seq<char>, is_asr: bool) -> Seq<Seq<char>> {
    let e = text::trim_end_of(endpoint, '/');
    let base = server_base(endpoint);
    let last = if is_asr {
        seq![e + "/"@]
    } else if text::has(e, "/v1/"@) {
        seq![text::trim_end_of(trim_suffixes(e, "/audio/speech"@), '/') + "/health"@]
    } else {
        Seq::empty()
    };
    seq![base + "/health"@, base + "/"@, base] + last
}

pub fn candidate_health_urls(endpoint: &str, is_asr: bool) -> (r: Vec<String>)
    ensures
        text::views(r@) == health_urls(endpoint@, is_asr),
{
    let e: String = text::without_trailing(endpoint, '/');
    let v: Vec<char> = text::chars_of(e.as_str());
    let p: Vec<char> = text::chars_of("/v1/");
    let i: usize = text::find(v.as_slice(), p.as_slice());
    let front: String = text::piece(v.as_slice(), 0, i);
    assert(v@.subrange(0, i as int) =~= v@.take(i as int));
    let base: String = text::without_trailing(front.as_str(), '/');
    let mut out: Vec<String> = Vec::new();
    out.push(text::joined_pair(base.as_str(), "/health"));
    out.push(text::joined_pair(base.as_str(), "/"));
    out.push(base);
    if is_asr {
        out.push(text::joined_pair(e.as_str(), "/"));
    } else if text::contains(e.as_str(), "/v1/") {
        let t: String = without_suffixes(e.as_str(), "/audio/speech");
        let t: String = text::without_trailing(t.as_str(), '/');
        out.push(text::joined_pair(t.as_str(), "/health"));
    }
    assert(text::views(out@) =~= health_urls(endpoint@, is_asr));
    out
}

// ---------------------------------------------------------------------------
// Recognition
// ---------------------------------------------------------------------------

#[derive(Debug)]
pub struct GatewayTranscript {
    pub text: String,
    pub language: Option<String>,
    pub asr_id: String,
}

/// A value of a request, if it is not blank.
pub open spec fn given(value: Option<Seq<char>>) -> Option<Seq<char>> {
    match value {
        Some(v) => if text::trim(v).len() > 0 {
            Some(text::trim(v))
        } else {
            None
        },
        None => None,
    }
}

pub open spec fn given_or(value: Option<Seq<char>>, otherwise: Seq<char>) -> Seq<char> {
    match given(value) {
        Some(v) => v,
        None => otherwise,
    }
}

fn take_given(value: &Option<String>) -> (r: Option<String>)
    ensures
        registry::opt_view(r) == given(registry::opt_view(*value)),
{
    match value {
        Some(v) => {
            let t: String = text::trimmed(v.as_str());
            if t.as_str().is_empty() {
                None
            } else {
                Some(t)
            }
        },
        None => None,
    }
}

fn take_given_or(value: &Option<String>, otherwise: &str) -> (r: String)
    ensures
        r@ == given_or(registry::opt_view(*value), otherwise@),
{
    match take_given(value) {
        Some(v) => v,
        None => String::from_str(otherwise),
    }
}

/// The language of a recognition request, or why it is refused.
pub fn transcription_language(cfg: &Config, audio_len: usize, language: &Option<String>) -> (r:
    Result<String, String>)
    ensures
        match r {
            Ok(l) => audio_len > 0 && l@ == given_or(registry::opt_view(*language), cfg.language@),
            Err(m) => audio_len == 0 && m@ == "empty audio body"@,
        },
{
    if audio_len == 0 {
        return Err(String::from_str("empty audio body"));
    }
    Ok(take_given_or(language, cfg.language.as_str()))
}

/// The answer to a recognition request in a language.
pub fn transcript(text: String, language: &str, asr_id: &str) -> (r: GatewayTranscript)
    ensures
        r.text == text,
        r.asr_id@ == asr_id@,
        match r.language {
            Some(l) => language@ != "auto"@ && l@ == language@,
            None => language@ == "auto"@,
        },
{
    GatewayTranscript {
        text,
        language: if text::same(language, "auto") {
            None
        } else {
            Some(String::from_str(language))
        },
        asr_id: String::from_str(asr_id),
    }
}

// ---------------------------------------------------------------------------
// Synthesis
// ---------------------------------------------------------------------------

#[derive(Debug)]
pub struct GatewaySpeechRequest {
    pub input: Option<String>,
    /// Another name for the input.
    pub text: Option<String>,
    pub model: Option<String>,
    pub voice: Option<String>,
    pub language: Option<String>,
    pub response_format: Option<String>,
}

#[derive(Debug)]
pub struct GatewayAudio {
    pub bytes: Vec<u8>,
    pub content_type: String,
    pub tts_id: String,
}

/// The text of a request.
pub open spec fn speech_text(r: GatewaySpeechRequest) -> Option<Seq<char>> {
    given(
        if r.input is Some {
            registry::opt_view(r.input)
        } else {
            registry::opt_view(r.text)
        },
    )
}

/// Why a request is refused. The active stack alone decides on the model.
pub open spec fn speech_fault(r: GatewaySpeechRequest) -> Option<Seq<char>> {
    if given(registry::opt_view(r.model)) is Some {
        Some("'model' is not accepted; the active Speech Lab stack owns the TTS model"@)
    } else if speech_text(r) is None {
        Some("missing non-empty 'input' (or 'text') field"@)
    } else {
        None
    }
}

impl GatewaySpeechRequest {
    pub fn validate(&self) -> (r: Result<(), String>)
        ensures
            registry::reports(r, speech_fault(*self)),
    {
        match take_given(&self.model) {
            Some(_) => {
                return Err(
                    String::from_str(
                        "'model' is not accepted; the active Speech Lab stack owns the TTS model",
                    ),
                );
            },
            None => {},
        }
        match self.text() {
            Ok(_) => Ok(()),
            Err(m) => Err(m),
        }
    }

    pub fn text(&self) -> (r: Result<String, String>)
        ensures
            match r {
                Ok(t) => speech_text(*self) == Some(t@),
                Err(m) => speech_text(*self) is None && m@
                    == "missing non-empty 'input' (or 'text') field"@,
            },
    {
        let v: Option<String> = match &self.input {
            Some(_) => take_given(&self.input),
            None => take_given(&self.text),
        };
        match v {
            Some(t) => Ok(t),
            None => Err(String::from_str("missing non-empty 'input' (or 'text') field")),
        }
    }
}

/// The ISO code of a language that is given by its name. The names and codes are
/// those of [`Config::qwen_tts_language`], read the other way; any other stays as it
/// is, in small letters.
pub open spec fn iso_language(language: Seq<char>) -> Seq<char> {
    let l = text::lower(text::trim(language));
    if l == "german"@ || l == "deutsch"@ || l == "deu"@ || l == "ger"@ {
        "de"@
    } else if l == "english"@ || l == "eng"@ {
        "en"@
    } else if l == "chinese"@ || l == "cn"@ || l == "cmn"@ || l == "zh-cn"@ || l == "zh-tw"@ {
        "zh"@
    } else if l == "french"@ || l == "fra"@ || l == "fre"@ {
        "fr"@
    } else if l == "spanish"@ || l == "spa"@ {
        "es"@
    } else if l == "italian"@ || l == "ita"@ {
        "it"@
    } else if l == "portuguese"@ || l == "por"@ {
        "pt"@
    } else if l == "japanese"@ || l == "jpn"@ {
        "ja"@
    } else if l == "korean"@ || l == "kor"@ {
        "ko"@
    } else if l == "russian"@ || l == "rus"@ {
        "ru"@
    } else {
        l
    }
}

pub fn iso_tts_language(language: &str) -> (r: String)
    ensures
        r@ == iso_language(language@),
{
    let t: String = text::trimmed(language);
    let c: String = text::to_lower(t.as_str());
    let l: &str = c.as_str();
    if text::same(l, "german") || text::same(l, "deutsch") || text::same(l, "deu") || text::same(
        l,
        "ger",
    ) {
        String::from_str("de")
    } else if text::same(l, "english") || text::same(l, "eng") {
        String::from_str("en")
    } else if text::same(l, "chinese") || text::same(l, "cn") || text::same(l, "cmn")
        || text::same(l, "zh-cn") || text::same(l, "zh-tw") {
        String::from_str("zh")
    } else if text::same(l, "french") || text::same(l, "fra") || text::same(l, "fre") {
        String::from_str("fr")
    } else if text::same(l, "spanish") || text::same(l, "spa") {
        String::from_str("es")
    } else if text::same(l, "italian") || text::same(l, "ita") {
        String::from_str("it")
    } else if text::same(l, "portuguese") || text::same(l, "por") {
        String::from_str("pt")
    } else if text::same(l, "japanese") || text::same(l, "jpn") {
        String::from_str("ja")
    } else if text::same(l, "korean") || text::same(l, "kor") {
        String::from_str("ko")
    } else if text::same(l, "russian") || text::same(l, "rus") {
        String::from_str("ru")
    } else {
        c
    }
}

/// The language that a request names, before it is fitted to the backend.
pub open spec fn wanted_language(cfg: Config, language: Option<Seq<char>>) -> Seq<char> {
    let l = given_or(language, cfg.tts_language@);
    if text::alike(l, "auto"@) {
        config::tts_language_of(cfg, None)
    } else {
        l
    }
}

/// The language as the backend wants it.
pub open spec fn backend_language(cfg: Config, language: Option<Seq<char>>) -> Seq<char> {
    let l = wanted_language(cfg, language);
    if tts::is_qwen(cfg) {
        config::qwen_language(l)
    } else {
        iso_language(l)
    }
}

fn fit_language(cfg: &Config, language: &Option<String>) -> (r: String)
    ensures
        r@ == backend_language(*cfg, registry::opt_view(*language)),
{
    let l: String = take_given_or(language, cfg.tts_language.as_str());
    let wanted: String = if text::same_ignoring_case(l.as_str(), "auto") {
        cfg.resolve_tts_language(Some(cfg.language.as_str()))
    } else {
        l
    };
    if http_is_qwen(cfg) {
        Config::qwen_tts_language(wanted.as_str())
    } else {
        iso_tts_language(wanted.as_str())
    }
}

/// What is sent to the synthesis backend.
#[derive(Debug)]
pub struct SpeechPlan {
    pub url: String,
    pub body: Json,
    pub accept: &'static str,
    /// The type of the audio where the answer names none.
    pub content_type: &'static str,
}

/// The members of what is sent. The voice goes out as it was asked for or is set:
/// no policy for models that were started with a voice is applied to it.
pub open spec fn gateway_members(
    cfg: Config,
    r: GatewaySpeechRequest,
    input: Seq<char>,
) -> Seq<(Seq<char>, JsonView)> {
    seq![
        ("model"@, JsonView::Text(tts::request_model(cfg))),
        ("input"@, JsonView::Text(input)),
        (
            "language"@,
            JsonView::Text(backend_language(cfg, registry::opt_view(r.language))),
        ),
        (
            "voice"@,
            JsonView::Text(given_or(registry::opt_view(r.voice), cfg.supertonic_voice@)),
        ),
        (
            "response_format"@,
            JsonView::Text(given_or(registry::opt_view(r.response_format), "wav"@)),
        ),
    ]
}

/// Why a request cannot be passed on.
pub open spec fn plan_fault(cfg: Config, r: GatewaySpeechRequest) -> Option<Seq<char>> {
    match speech_fault(r) {
        Some(m) => Some(m),
        None => if text::trim(cfg.tts_url@).len() == 0 {
            Some("no active TTS endpoint configured"@)
        } else {
            None
        },
    }
}

fn speech_body_for(cfg: &Config, r: &GatewaySpeechRequest, input: &str, format: &str) -> (j: Json)
    requires
        format@ == given_or(registry::opt_view(r.response_format), "wav"@),
    ensures
        j@ == JsonView::Object(gateway_members(*cfg, *r, input@)),
{
    let trimmed: String = text::trimmed(cfg.tts_model.as_str());
    let model: &str = if trimmed.as_str().is_empty() {
        "tts"
    } else {
        cfg.tts_model.as_str()
    };
    let language: String = fit_language(cfg, &r.language);
    let voice: String = take_given_or(&r.voice, cfg.supertonic_voice.as_str());
    let mut m: Vec<(String, Json)> = Vec::new();
    assert(json::members_view(m@) =~= Seq::empty());
    push_member(&mut m, "model", Json::text(model));
    push_member(&mut m, "input", Json::text(input));
    push_member(&mut m, "language", Json::text(language.as_str()));
    push_member(&mut m, "voice", Json::text(voice.as_str()));
    push_member(&mut m, "response_format", Json::text(format));
    assert(json::members_view(m@) =~= gateway_members(*cfg, *r, input@));
    object(m)
}

/// Plans a synthesis request on the active stack, or says why it is refused.
pub fn speech_plan(cfg: &Config, r: &GatewaySpeechRequest) -> (p: Result<SpeechPlan, String>)
    ensures
        match p {
            Ok(p) => {
                let pcm = text::alike(
                    given_or(registry::opt_view(r.response_format), "wav"@),
                    "pcm"@,
                );
                &&& plan_fault(*cfg, *r) is None
                &&& p.url@ == cfg.tts_url@
                &&& p.body@ == JsonView::Object(gateway_members(*cfg, *r, speech_text(*r)->0))
                &&& p.accept@ == if pcm {
                    "audio/pcm, audio/wav, */*"@
                } else {
                    "audio/wav, audio/pcm, */*"@
                }
                &&& p.content_type@ == if pcm {
                    "audio/pcm"@
                } else {
                    "audio/wav"@
                }
            },
            Err(m) => plan_fault(*cfg, *r) == Some(m@),
        },
{
    match r.validate() {
        Ok(_) => {},
        Err(m) => {
            return Err(m);
        },
    }
    let input: String = match r.text() {
        Ok(t) => t,
        Err(m) => {
            return Err(m);
        },
    };
    let format: String = take_given_or(&r.response_format, "wav");
    let url: String = text::trimmed(cfg.tts_url.as_str());
    if url.as_str().is_empty() {
        return Err(String::from_str("no active TTS endpoint configured"));
    }
    let pcm: bool = text::same_ignoring_case(format.as_str(), "pcm");
    Ok(
        SpeechPlan {
            url: cfg.tts_url.clone(),
            body: speech_body_for(cfg, r, input.as_str(), format.as_str()),
            accept: if pcm {
                "audio/pcm, audio/wav, */*"
            } else {
                "audio/wav, audio/pcm, */*"
            },
            content_type: if pcm {
                "audio/pcm"
            } else {
                "audio/wav"
            },
        },
    )
}

/// The answer to a synthesis request, or why there is none.
pub fn gateway_audio(bytes: Vec<u8>, content_type: &str, tts_id: &str) -> (r: Result<
    GatewayAudio,
    String,
>)
    ensures
        match r {
            Ok(a) => bytes@.len() > 0 && a.bytes == bytes && a.content_type@ == content_type@
                && a.tts_id@ == tts_id@,
            Err(m) => bytes@.len() == 0 && m@ == "TTS returned empty body"@,
        },
{
    if bytes.len() == 0 {
        return Err(String::from_str("TTS returned empty body"));
    }
    Ok(
        GatewayAudio {
            bytes,
            content_type: String::from_str(content_type),
            tts_id: String::from_str(tts_id),
        },
    )
}

/// A model that a caller names never reaches a backend: such a request is refused,
/// and what is passed on names the model of the active stack.
pub proof fn law_callers_do_not_choose_the_model(
    cfg: Config,
    r: GatewaySpeechRequest,
    input: Seq<char>,
)
    ensures
        given(registry::opt_view(r.model)) is Some ==> plan_fault(cfg, r) is Some,
        json::first_member(gateway_members(cfg, r, input), "model"@) == Some(
            JsonView::Text(tts::request_model(cfg)),
        ),
{
}

/// What every liveness answer says.
pub fn health_ok() -> (r: Json)
    ensures
        r@ == JsonView::Object(
            seq![("status"@, JsonView::Text("ok"@)), ("service"@, JsonView::Text("s2s-vulkan"@))],
        ),
{
    let mut m: Vec<(String, Json)> = Vec::new();
    assert(json::members_view(m@) =~= Seq::empty());
    push_member(&mut m, "status", Json::text("ok"));
    push_member(&mut m, "service", Json::text("s2s-vulkan"));
    assert(json::members_view(m@) =~= seq![
        ("status"@, JsonView::Text("ok"@)),
        ("service"@, JsonView::Text("s2s-vulkan"@)),
    ]);
    object(m)
}

/// The names that one kind of server takes are their own trimmed lower case.
proof fn lemma_language_names()
    ensures
        text::lower(text::trim("german"@)) == "german"@,
        text::lower(text::trim("english"@)) == "english"@,
        text::lower(text::trim("chinese"@)) == "chinese"@,
        text::lower(text::trim("french"@)) == "french"@,
        text::lower(text::trim("spanish"@)) == "spanish"@,
        text::lower(text::trim("italian"@)) == "italian"@,
        text::lower(text::trim("portuguese"@)) == "portuguese"@,
        text::lower(text::trim("japanese"@)) == "japanese"@,
        text::lower(text::trim("korean"@)) == "korean"@,
        text::lower(text::trim("russian"@)) == "russian"@,
{
    reveal_strlit("german");
    assert forall|i: int| 0 <= i < "german"@.len() implies 'a' <= #[trigger] "german"@[i] <= 'z' by {}
    text::lemma_lower_trim("german"@);
    reveal_strlit("english");
    assert forall|i: int| 0 <= i < "english"@.len() implies 'a' <= #[trigger] "english"@[i] <= 'z' by {}
    text::lemma_lower_trim("english"@);
    reveal_strlit("chinese");
    assert forall|i: int| 0 <= i < "chinese"@.len() implies 'a' <= #[trigger] "chinese"@[i] <= 'z' by {}
    text::lemma_lower_trim("chinese"@);
    reveal_strlit("french");
    assert forall|i: int| 0 <= i < "french"@.len() implies 'a' <= #[trigger] "french"@[i] <= 'z' by {}
    text::lemma_lower_trim("french"@);
    reveal_strlit("spanish");
    assert forall|i: int| 0 <= i < "spanish"@.len() implies 'a' <= #[trigger] "spanish"@[i] <= 'z' by {}
    text::lemma_lower_trim("spanish"@);
    reveal_strlit("italian");
    assert forall|i: int| 0 <= i < "italian"@.len() implies 'a' <= #[trigger] "italian"@[i] <= 'z' by {}
    text::lemma_lower_trim("italian"@);
    reveal_strlit("portuguese");
    assert forall|i: int| 0 <= i < "portuguese"@.len() implies 'a' <= #[trigger] "portuguese"@[i] <= 'z' by {}
    text::lemma_lower_trim("portuguese"@);
    reveal_strlit("japanese");
    assert forall|i: int| 0 <= i < "japanese"@.len() implies 'a' <= #[trigger] "japanese"@[i] <= 'z' by {}
    text::lemma_lower_trim("japanese"@);
    reveal_strlit("korean");
    assert forall|i: int| 0 <= i < "korean"@.len() implies 'a' <= #[trigger] "korean"@[i] <= 'z' by {}
    text::lemma_lower_trim("korean"@);
    reveal_strlit("russian");
    assert forall|i: int| 0 <= i < "russian"@.len() implies 'a' <= #[trigger] "russian"@[i] <= 'z' by {}
    text::lemma_lower_trim("russian"@);
}

/// Whichever of the names is given, both mean the same language: the code of the
/// name that one kind of server takes is the code that the other takes.
pub proof fn law_language_names_agree(language: Seq<char>)
    requires
        text::trim(language).len() > 0,
    ensures
        iso_language(config::qwen_language(language)) == iso_language(language),
{
    text::lemma_lower_trim(language);
    lemma_language_names();
    reveal_strlit("german");
    reveal_strlit("english");
    reveal_strlit("chinese");
    reveal_strlit("french");
    reveal_strlit("spanish");
    reveal_strlit("italian");
    reveal_strlit("portuguese");
    reveal_strlit("japanese");
    reveal_strlit("korean");
    reveal_strlit("russian");
    reveal_strlit("deutsch");
    reveal_strlit("deu");
    reveal_strlit("ger");
    reveal_strlit("eng");
    reveal_strlit("cn");
    reveal_strlit("cmn");
    reveal_strlit("zh-cn");
    reveal_strlit("zh-tw");
    reveal_strlit("fra");
    reveal_strlit("fre");
    reveal_strlit("spa");
    reveal_strlit("ita");
    reveal_strlit("por");
    reveal_strlit("jpn");
    reveal_strlit("kor");
    reveal_strlit("rus");
    reveal_strlit("de");
    reveal_strlit("en");
    reveal_strlit("zh");
    reveal_strlit("fr");
    reveal_strlit("es");
    reveal_strlit("it");
    reveal_strlit("pt");
    reveal_strlit("ja");
    reveal_strlit("ko");
    reveal_strlit("ru");
    reveal_strlit("");
    assert("german"@.len() == 6 && "german"@[0] == 'g');
    assert("english"@.len() == 7 && "english"@[0] == 'e');
    assert("chinese"@.len() == 7 && "chinese"@[0] == 'c');
    assert("french"@.len() == 6 && "french"@[0] == 'f');
    assert("spanish"@.len() == 7 && "spanish"@[0] == 's');
    assert("italian"@.len() == 7 && "italian"@[0] == 'i');
    assert("portuguese"@.len() == 10 && "portuguese"@[0] == 'p');
    assert("japanese"@.len() == 8 && "japanese"@[0] == 'j');
    assert("korean"@.len() == 6 && "korean"@[0] == 'k');
    assert("russian"@.len() == 7 && "russian"@[0] == 'r');
    assert("deutsch"@.len() == 7 && "deutsch"@[0] == 'd');
    assert("deu"@.len() == 3 && "deu"@[0] == 'd');
    assert("ger"@.len() == 3 && "ger"@[0] == 'g');
    assert("eng"@.len() == 3 && "eng"@[0] == 'e');
    assert("cn"@.len() == 2 && "cn"@[0] == 'c');
    assert("cmn"@.len() == 3 && "cmn"@[0] == 'c');
    assert("zh-cn"@.len() == 5 && "zh-cn"@[0] == 'z');
    assert("zh-tw"@.len() == 5 && "zh-tw"@[0] == 'z');
    assert("fra"@.len() == 3 && "fra"@[0] == 'f');
    assert("fre"@.len() == 3 && "fre"@[0] == 'f');
    assert("spa"@.len() == 3 && "spa"@[0] == 's');
    assert("ita"@.len() == 3 && "ita"@[0] == 'i');
    assert("por"@.len() == 3 && "por"@[0] == 'p');
    assert("jpn"@.len() == 3 && "jpn"@[0] == 'j');
    assert("kor"@.len() == 3 && "kor"@[0] == 'k');
    assert("rus"@.len() == 3 && "rus"@[0] == 'r');
    assert("de"@.len() == 2 && "de"@[0] == 'd');
    assert("en"@.len() == 2 && "en"@[0] == 'e');
    assert("zh"@.len() == 2 && "zh"@[0] == 'z');
    assert("fr"@.len() == 2 && "fr"@[0] == 'f');
    assert("es"@.len() == 2 && "es"@[0] == 'e');
    assert("it"@.len() == 2 && "it"@[0] == 'i');
    assert("pt"@.len() == 2 && "pt"@[0] == 'p');
    assert("ja"@.len() == 2 && "ja"@[0] == 'j');
    assert("ko"@.len() == 2 && "ko"@[0] == 'k');
    assert("ru"@.len() == 2 && "ru"@[0] == 'r');
    assert(""@.len() == 0);
    assert(text::lower(text::trim(language)).len() > 0);
}

/// A server answers a probe well only with a status of success and with no page for
/// people to read.
pub proof fn law_pages_are_not_health(status: u16, content_type: Seq<char>)
    ensures
        is_healthy(status, Some(content_type)) ==> 200 <= status <= 299,
        text::has(text::lower(content_type), "text/html"@) ==> !is_healthy(
            status,
            Some(content_type),
        ),
        200 <= status <= 299 && !text::has(text::lower(content_type), "text/html"@) ==> is_healthy(
            status,
            Some(content_type),
        ),
        200 <= status <= 299 && !text::has(text::lower(""@), "text/html"@) <==> is_healthy(
            status,
            None,
        ),
{
}

/// What a caller gives wins over the default, without white space around it; what is
/// missing or blank does not.
pub proof fn law_given_value_wins(value: Option<Seq<char>>, otherwise: Seq<char>)
    ensures
        match value {
            Some(v) => {
                &&& v.len() > 0 && !text::is_space(v[0]) && !text::is_space(v.last()) ==> given_or(
                    value,
                    otherwise,
                ) == v
                &&& (exists|i: int| 0 <= i < v.len() && !text::is_space(#[trigger] v[i]))
                    ==> given_or(value, otherwise) == text::trim(v)
                &&& (forall|i: int| 0 <= i < v.len() ==> text::is_space(#[trigger] v[i]))
                    ==> given_or(value, otherwise) == otherwise
            },
            None => given_or(value, otherwise) == otherwise,
        },
{
    if value is Some {
        text::law_trim(value.unwrap());
    }
}

/// A request is spoken if it has a text, in `input` or else in `text`, and names no
/// model, and if there is a server to speak.
pub proof fn law_what_is_spoken(cfg: Config, r: GatewaySpeechRequest)
    ensures
        r.input is Some && text::trim(r.input.unwrap()@).len() > 0 ==> speech_text(r) == Some(
            text::trim(r.input.unwrap()@),
        ),
        r.input is None && r.text is Some && text::trim(r.text.unwrap()@).len() > 0 ==> speech_text(r)
            == Some(text::trim(r.text.unwrap()@)),
        r.input is None && r.text is None ==> speech_text(r) is None,
        r.input is Some && text::trim(r.input.unwrap()@).len() == 0 ==> speech_text(r) is None,
        plan_fault(cfg, r) is None <==> (r.model is None || text::trim(r.model.unwrap()@).len()
            == 0) && speech_text(r) is Some && text::trim(cfg.tts_url@).len() > 0,
{
}

/// What is sent to the server: the text as it is given, the voice and the format of
/// the caller where they are given, and else the voice of the stack and WAV.
pub proof fn law_speech_request(cfg: Config, r: GatewaySpeechRequest, input: Seq<char>)
    ensures
        ({
            let m = gateway_members(cfg, r, input);
            &&& m.contains(("input"@, JsonView::Text(input)))
            &&& r.voice is None ==> m.contains(("voice"@, JsonView::Text(cfg.supertonic_voice@)))
            &&& r.voice is Some && text::trim(r.voice.unwrap()@).len() > 0 ==> m.contains(
                ("voice"@, JsonView::Text(text::trim(r.voice.unwrap()@))),
            )
            &&& r.response_format is None ==> m.contains(
                ("response_format"@, JsonView::Text("wav"@)),
            )
            &&& r.response_format is Some && text::trim(r.response_format.unwrap()@).len() > 0
                ==> m.contains(
                ("response_format"@, JsonView::Text(text::trim(r.response_format.unwrap()@))),
            )
            &&& text::trim(cfg.tts_model@).len() > 0 ==> m.contains(
                ("model"@, JsonView::Text(cfg.tts_model@)),
            )
        }),
{
    let m = gateway_members(cfg, r, input);
    assert(m[0].0 == "model"@ && m[0].1 == JsonView::Text(tts::request_model(cfg)));
    assert(m[1] == ("input"@, JsonView::Text(input)));
    assert(m[3].0 == "voice"@);
    assert(m[4].0 == "response_format"@);
    assert(m.contains(m[0]) && m.contains(m[3]) && m.contains(m[4]));
}

/// A language that is named is the one that is asked for; `auto`, in any case, leaves
/// it to the settings.
pub proof fn law_wanted_language(cfg: Config, language: Seq<char>)
    ensures
        text::trim(language).len() > 0 && !text::alike(text::trim(language), "auto"@)
            ==> wanted_language(cfg, Some(language)) == text::trim(language),
        text::trim(language).len() > 0 && text::alike(text::trim(language), "auto"@)
            ==> wanted_language(cfg, Some(language)) == config::tts_language_of(cfg, None),
        !text::alike(cfg.tts_language@, "auto"@) ==> wanted_language(cfg, None)
            == cfg.tts_language@,
{
}

/// The base of a server is what stands before the first `/v1/` of its endpoint.
pub proof fn law_server_base(base: Seq<char>, rest: Seq<char>)
    requires
        rest.len() > 0,
        rest.last() != '/',
        base.len() > 0,
        base.last() != '/',
        forall|i: int|
            0 <= i < base.len() ==> !text::starts_with(
                #[trigger] (base + "/v1/"@ + rest).skip(i),
                "/v1/"@,
            ),
    ensures
        server_base(base + "/v1/"@ + rest) == base,
        health_urls(base + "/v1/"@ + rest, true)[0] == base + "/health"@,
{
    let p = "/v1/"@;
    let e = base + p + rest;
    reveal_strlit("/v1/");
    assert(e.last() == rest.last());
    assert(text::trim_end_of(e, '/') == e);
    assert(e.skip(base.len() as int).take(4) =~= p);
    text::lemma_first_occurrence_is(e, p, base.len() as int);
    assert(e.take(base.len() as int) =~= base);
    assert(text::trim_end_of(base, '/') == base);
}

/// Every address that is probed lies on the server: it begins with its base.
pub proof fn law_probes_stay_on_the_server(endpoint: Seq<char>)
    ensures
        health_urls(endpoint, true).len() == 4,
        health_urls(endpoint, true)[0] == server_base(endpoint) + "/health"@,
        health_urls(endpoint, true)[2] == server_base(endpoint),
        health_urls(endpoint, true)[3] == text::trim_end_of(endpoint, '/') + "/"@,
        health_urls(endpoint, false)[0] == server_base(endpoint) + "/health"@,
{
}

/// Why a stage is not ready is told by what is wrong: nothing selected, another
/// backend than the runtime asks, or a transition.
pub proof fn law_complaint_of_a_stage(
    name: Seq<char>,
    active: Option<ActiveBackend>,
    t: StageTransition,
    id: Seq<char>,
    reachable: bool,
)
    ensures
        stage_complaint(name, active, t, id, reachable).len() <= 1,
        stage_complaint(name, active, t, id, reachable).len() == 0 <==> active is Some
            && active.unwrap().backend_id@ == id && id.len() > 0 && (t.phase
            == TransitionPhase::Idle || t.phase == TransitionPhase::Ready) && reachable,
        active is None ==> stage_complaint(name, active, t, id, reachable) == seq![
            name + " not selected"@,
        ],
        !reachable && active is Some && active.unwrap().backend_id@ == id && id.len() > 0 && (t.phase
            == TransitionPhase::Idle || t.phase == TransitionPhase::Ready) ==> stage_complaint(
            name,
            active,
            t,
            id,
            reachable,
        ) == seq![name + " '"@ + id + "' unreachable"@],
{
}

/// A pattern is taken off the end of a text as often as it stands there, and nothing
/// else is.
pub proof fn law_pattern_is_taken_off(s: Seq<char>, p: Seq<char>)
    requires
        p.len() > 0,
    ensures
        trim_suffixes(s + p, p) == trim_suffixes(s, p),
        !text::ends_with(s, p) ==> trim_suffixes(s, p) == s,
        !text::ends_with(trim_suffixes(s, p), p),
        trim_suffixes(s, p).len() <= s.len() && s.take(trim_suffixes(s, p).len() as int)
            == trim_suffixes(s, p),
    decreases s.len(),
{
    assert((s + p).skip(s.len() as int) =~= p);
    assert((s + p).take(s.len() as int) =~= s);
    assert(s.take(s.len() as int) =~= s);
    if text::ends_with(s, p) {
        let t = s.take(s.len() - p.len());
        law_pattern_is_taken_off(t, p);
        let k = trim_suffixes(t, p).len() as int;
        assert(t.take(k) =~= s.take(k));
    }
}

/// Each phase of a transition has its own name.
pub proof fn law_names_of_phases()
    ensures
        phase_text(TransitionPhase::Idle) == "Idle"@,
        phase_text(TransitionPhase::Preparing) == "Preparing"@,
        phase_text(TransitionPhase::Draining) == "Draining"@,
        phase_text(TransitionPhase::Stopping) == "Stopping"@,
        phase_text(TransitionPhase::Starting) == "Starting"@,
        phase_text(TransitionPhase::Warming) == "Warming"@,
        phase_text(TransitionPhase::Ready) == "Ready"@,
        phase_text(TransitionPhase::Rollback) == "Rollback"@,
        phase_text(TransitionPhase::Failed) == "Failed"@,
{
}

/// A request is refused that names a model, or that has nothing to speak, and no
/// other.
pub proof fn law_refused_speech(r: GatewaySpeechRequest)
    ensures
        r.model is Some && text::trim(r.model.unwrap()@).len() > 0 ==> speech_fault(r) is Some,
        speech_text(r) is None ==> speech_fault(r) is Some,
        r.model is None && speech_text(r) is Some ==> speech_fault(r) is None,
{
}

} // verus!
