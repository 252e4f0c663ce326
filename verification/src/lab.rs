//! Types and small rules of the backend lifecycle controller.
//!
//! A client only selects catalog ids; container names, images and endpoints
//! come from the validated catalog.

use crate::config::{Config, SttApi, TtsBackend};
use crate::registry::{
    BackendCatalog, BackendDefinition, BackendStage, BackendVariant, HardwareProfile, VoiceMode,
};
use crate::registry::{backend_index, chosen, protocol_of, wrap, wrap2};
use crate::runtime::{status_of, RuntimeState, StackStatus};
use crate::text;
use vstd::prelude::*;

verus! {

#[derive(Debug, Clone, Copy, PartialEq, Eq, Structural)]
pub enum TransitionPhase {
    Idle,
    Preparing,
    Draining,
    Stopping,
    Starting,
    Warming,
    Ready,
    Rollback,
    Failed,
}

#[derive(Debug)]
pub struct StageTransition {
    pub stage: BackendStage,
    pub phase: TransitionPhase,
    pub backend_id: String,
    pub variant_id: String,
    pub message: String,
}

impl Clone for StageTransition {
    fn clone(&self) -> (r: Self)
        ensures
            r == *self,
    {
        StageTransition {
            stage: self.stage,
            phase: self.phase,
            backend_id: self.backend_id.clone(),
            variant_id: self.variant_id.clone(),
            message: self.message.clone(),
        }
    }
}

/// Whether a transition says what is given.
pub open spec fn says(
    t: StageTransition,
    stage: BackendStage,
    phase: TransitionPhase,
    backend_id: Seq<char>,
    variant_id: Seq<char>,
    message: Seq<char>,
) -> bool {
    &&& t.stage == stage
    &&& t.phase == phase
    &&& t.backend_id@ == backend_id
    &&& t.variant_id@ == variant_id
    &&& t.message@ == message
}

impl StageTransition {
    pub fn idle(stage: BackendStage) -> (r: Self)
        ensures
            says(r, stage, TransitionPhase::Idle, ""@, ""@, "idle"@),
    {
        StageTransition {
            stage,
            phase: TransitionPhase::Idle,
            backend_id: String::from_str(""),
            variant_id: String::from_str(""),
            message: String::from_str("idle"),
        }
    }
}

/// What the controller tells its clients.
#[derive(Debug, Clone)]
pub enum LabEvent {
    StackTransition {
        stage: BackendStage,
        phase: TransitionPhase,
        backend_id: String,
        variant_id: String,
        message: String,
    },
    BackendHealth { stage: BackendStage, backend_id: String, ok: bool, message: String },
    DownloadProgress { backend_id: String, artifact: String, downloaded: u64, total: u64 },
    IdleUnloadScheduled { delay_secs: u64, message: String },
    ModelsUnloaded { message: String },
    ModelsReloaded { message: String },
}

#[derive(Debug, Clone)]
pub struct ActivateStackRequest {
    pub asr_id: Option<String>,
    pub tts_id: Option<String>,
    pub llm_id: Option<String>,
    pub voice: Option<String>,
}

impl Default for ActivateStackRequest {
    fn default() -> (r: Self)
        ensures
            r.asr_id is None,
            r.tts_id is None,
            r.llm_id is None,
            r.voice is None,
    {
        ActivateStackRequest { asr_id: None, tts_id: None, llm_id: None, voice: None }
    }
}

#[derive(Debug)]
pub struct ActiveBackend {
    pub backend_id: String,
    pub variant_id: String,
    pub accelerator: String,
    pub endpoint: String,
    pub container: String,
}

impl Clone for ActiveBackend {
    fn clone(&self) -> (r: Self)
        ensures
            r == *self,
    {
        ActiveBackend {
            backend_id: self.backend_id.clone(),
            variant_id: self.variant_id.clone(),
            accelerator: self.accelerator.clone(),
            endpoint: self.endpoint.clone(),
            container: self.container.clone(),
        }
    }
}

#[derive(Debug)]
pub struct LabStackStatus {
    pub asr: Option<ActiveBackend>,
    pub tts: Option<ActiveBackend>,
    pub llm: Option<ActiveBackend>,
    pub runtime: StackStatus,
    pub asr_transition: StageTransition,
    pub tts_transition: StageTransition,
    pub llm_transition: StageTransition,
    pub ok: bool,
    pub error_code: String,
    pub message: String,
    pub last_transition_error: String,
}

#[derive(Debug)]
pub struct ModelActionResponse {
    pub backend_id: String,
    pub state: String,
    pub downloaded_bytes: u64,
    pub total_bytes: u64,
    pub message: String,
}

#[derive(Debug)]
pub struct RuntimeProvisionStatus {
    pub state: String,
    pub image: String,
    pub image_download_size_bytes: u64,
    pub image_downloaded_bytes: u64,
    pub error: String,
}

impl Default for RuntimeProvisionStatus {
    fn default() -> (r: Self)
        ensures
            r.state@ == ""@,
            r.image@ == ""@,
            r.image_download_size_bytes == 0,
            r.image_downloaded_bytes == 0,
            r.error@ == ""@,
    {
        RuntimeProvisionStatus {
            state: String::from_str(""),
            image: String::from_str(""),
            image_download_size_bytes: 0,
            image_downloaded_bytes: 0,
            error: String::from_str(""),
        }
    }
}

#[derive(Debug)]
pub struct ModuleStatusResponse {
    pub operation_id: String,
    pub backend_id: String,
    pub variant_id: String,
    pub state: String,
    pub model_state: String,
    pub runtime_state: String,
    pub model_downloaded_bytes: u64,
    pub model_total_bytes: u64,
    pub image_download_size_bytes: u64,
    pub image_downloaded_bytes: u64,
    pub error: String,
}

/// A request to download a model. A token is never handed out again.
#[derive(Debug, Clone)]
pub struct ModelDownloadRequest {
    pub hf_token: Option<String>,
    /// Keep a token in memory for later downloads.
    pub remember: bool,
}

impl Default for ModelDownloadRequest {
    fn default() -> (r: Self)
        ensures
            r.hf_token is None,
            !r.remember,
    {
        ModelDownloadRequest { hf_token: None, remember: false }
    }
}

#[derive(Debug, Clone)]
pub struct ModuleInstallRequest {
    pub catalog_revision: String,
    pub hf_token: Option<String>,
    pub remember: bool,
}

/// Whether a request that does not say so keeps its token.
pub fn default_remember_hf_token() -> (r: bool)
    ensures
        r,
{
    true
}

/// What is active in each stage, and how the last transition of it went.
#[derive(Debug)]
pub struct ControllerState {
    pub asr: Option<ActiveBackend>,
    pub tts: Option<ActiveBackend>,
    pub llm: Option<ActiveBackend>,
    pub asr_transition: StageTransition,
    pub tts_transition: StageTransition,
    pub llm_transition: StageTransition,
    pub last_transition_error: String,
}

fn clone_active(a: &Option<ActiveBackend>) -> (r: Option<ActiveBackend>)
    ensures
        r == *a,
{
    match a {
        Some(x) => Some(x.clone()),
        None => None,
    }
}

impl Clone for ControllerState {
    fn clone(&self) -> (r: Self)
        ensures
            r == *self,
    {
        ControllerState {
            asr: clone_active(&self.asr),
            tts: clone_active(&self.tts),
            llm: clone_active(&self.llm),
            asr_transition: self.asr_transition.clone(),
            tts_transition: self.tts_transition.clone(),
            llm_transition: self.llm_transition.clone(),
            last_transition_error: self.last_transition_error.clone(),
        }
    }
}

impl Default for ControllerState {
    fn default() -> (r: Self)
        ensures
            r.asr is None,
            r.tts is None,
            r.llm is None,
            says(r.asr_transition, BackendStage::Asr, TransitionPhase::Idle, ""@, ""@, "idle"@),
            says(r.tts_transition, BackendStage::Tts, TransitionPhase::Idle, ""@, ""@, "idle"@),
            says(r.llm_transition, BackendStage::Llm, TransitionPhase::Idle, ""@, ""@, "idle"@),
            r.last_transition_error@ == ""@,
    {
        ControllerState {
            asr: None,
            tts: None,
            llm: None,
            asr_transition: StageTransition::idle(BackendStage::Asr),
            tts_transition: StageTransition::idle(BackendStage::Tts),
            llm_transition: StageTransition::idle(BackendStage::Llm),
            last_transition_error: String::from_str(""),
        }
    }
}

pub open spec fn active_of(s: ControllerState, stage: BackendStage) -> Option<ActiveBackend> {
    match stage {
        BackendStage::Asr => s.asr,
        BackendStage::Tts => s.tts,
        BackendStage::Llm => s.llm,
    }
}

pub open spec fn transition_of(s: ControllerState, stage: BackendStage) -> StageTransition {
    match stage {
        BackendStage::Asr => s.asr_transition,
        BackendStage::Tts => s.tts_transition,
        BackendStage::Llm => s.llm_transition,
    }
}

impl ControllerState {
    /// What is active in a stage.
    pub fn active(&self, stage: BackendStage) -> (r: &Option<ActiveBackend>)
        ensures
            *r == active_of(*self, stage),
    {
        match stage {
            BackendStage::Asr => &self.asr,
            BackendStage::Tts => &self.tts,
            BackendStage::Llm => &self.llm,
        }
    }

    /// Records the last transition of a stage.
    pub fn record_transition(&mut self, t: StageTransition)
        ensures
            transition_of(*final(self), t.stage) == t,
            *final(self) == (match t.stage {
                BackendStage::Asr => ControllerState { asr_transition: t, ..*old(self) },
                BackendStage::Tts => ControllerState { tts_transition: t, ..*old(self) },
                BackendStage::Llm => ControllerState { llm_transition: t, ..*old(self) },
            }),
    {
        match t.stage {
            BackendStage::Asr => {
                self.asr_transition = t;
            },
            BackendStage::Tts => {
                self.tts_transition = t;
            },
            BackendStage::Llm => {
                self.llm_transition = t;
            },
        }
    }

    /// Records what is active in a stage.
    pub fn set_active(&mut self, stage: BackendStage, a: ActiveBackend)
        ensures
            active_of(*final(self), stage) == Some(a),
            *final(self) == (match stage {
                BackendStage::Asr => ControllerState { asr: Some(a), ..*old(self) },
                BackendStage::Tts => ControllerState { tts: Some(a), ..*old(self) },
                BackendStage::Llm => ControllerState { llm: Some(a), ..*old(self) },
            }),
    {
        match stage {
            BackendStage::Asr => {
                self.asr = Some(a);
            },
            BackendStage::Tts => {
                self.tts = Some(a);
            },
            BackendStage::Llm => {
                self.llm = Some(a);
            },
        }
    }

    /// Goes back to an earlier state, keeping only the error.
    pub fn restore(&mut self, snapshot: &ControllerState, message: &str)
        ensures
            final(self).last_transition_error@ == message@,
            *final(self) == (ControllerState {
                last_transition_error: final(self).last_transition_error,
                ..*snapshot
            }),
    {
        let mut s: ControllerState = snapshot.clone();
        s.last_transition_error = String::from_str(message);
        *self = s;
    }

    /// Keeps the state and records that a rollback failed.
    pub fn record_failed_rollback(&mut self, message: &str)
        ensures
            final(self).last_transition_error@ == message@,
            *final(self) == (ControllerState {
                last_transition_error: final(self).last_transition_error,
                ..*old(self)
            }),
    {
        self.last_transition_error = String::from_str(message);
    }

    /// The stages that are live but not shown as such are shown as ready; the
    /// error of the last transition is gone.
    pub fn settle(&mut self)
        ensures
            settled_transition(
                old(self).asr,
                old(self).asr_transition,
                final(self).asr_transition,
                BackendStage::Asr,
            ),
            settled_transition(
                old(self).tts,
                old(self).tts_transition,
                final(self).tts_transition,
                BackendStage::Tts,
            ),
            settled_transition(
                old(self).llm,
                old(self).llm_transition,
                final(self).llm_transition,
                BackendStage::Llm,
            ),
            final(self).asr == old(self).asr,
            final(self).tts == old(self).tts,
            final(self).llm == old(self).llm,
            final(self).last_transition_error@ == ""@,
    {
        settle_one(&self.asr, &mut self.asr_transition, BackendStage::Asr);
        settle_one(&self.tts, &mut self.tts_transition, BackendStage::Tts);
        settle_one(&self.llm, &mut self.llm_transition, BackendStage::Llm);
        self.last_transition_error = String::from_str("");
    }
}

pub open spec fn is_stable(phase: TransitionPhase) -> bool {
    phase == TransitionPhase::Idle || phase == TransitionPhase::Ready
}

/// Whether a stage that is live shows as ready.
pub open spec fn settled_transition(
    active: Option<ActiveBackend>,
    before: StageTransition,
    after: StageTransition,
    stage: BackendStage,
) -> bool {
    match active {
        Some(a) => if is_stable(before.phase) {
            after == before
        } else {
            says(after, stage, TransitionPhase::Ready, a.backend_id@, a.variant_id@, "backend ready"@)
        },
        None => after == before,
    }
}

fn settle_one(active: &Option<ActiveBackend>, t: &mut StageTransition, stage: BackendStage)
    ensures
        settled_transition(*active, *old(t), *final(t), stage),
{
    match active {
        Some(a) => {
            if t.phase != TransitionPhase::Idle && t.phase != TransitionPhase::Ready {
                *t =
                StageTransition {
                    stage,
                    phase: TransitionPhase::Ready,
                    backend_id: a.backend_id.clone(),
                    variant_id: a.variant_id.clone(),
                    message: String::from_str("backend ready"),
                };
            }
        },
        None => {},
    }
}

/// Whether a stage serves the selected backend and is not in transition.
pub open spec fn ready(
    active: Option<ActiveBackend>,
    t: StageTransition,
    runtime_id: Seq<char>,
) -> bool {
    active matches Some(a) && runtime_id.len() > 0 && a.backend_id@ == runtime_id && is_stable(
        t.phase,
    )
}

pub fn stage_is_ready(
    active: Option<&ActiveBackend>,
    transition: &StageTransition,
    runtime_id: &str,
) -> (r: bool)
    ensures
        r == ready(
            match active {
                Some(a) => Some(*a),
                None => None,
            },
            *transition,
            runtime_id@,
        ),
{
    match active {
        Some(a) => !runtime_id.is_empty() && text::same(a.backend_id.as_str(), runtime_id) && (
        transition.phase == TransitionPhase::Idle || transition.phase == TransitionPhase::Ready),
        None => false,
    }
}

pub open spec fn error_code_of(message: Seq<char>) -> Seq<char> {
    if text::has(message, "module_not_provisioned"@) {
        "module_not_provisioned"@
    } else if text::has(message, "host_module_delivery_pending"@) {
        "host_module_delivery_pending"@
    } else if text::has(message, "not installed"@) {
        "model_not_installed"@
    } else {
        "stack_activation_failed"@
    }
}

/// The code for an activation error.
pub fn activation_error_code(message: &str) -> (r: &'static str)
    ensures
        r@ == error_code_of(message@),
{
    if text::contains(message, "module_not_provisioned") {
        "module_not_provisioned"
    } else if text::contains(message, "host_module_delivery_pending") {
        "host_module_delivery_pending"
    } else if text::contains(message, "not installed") {
        "model_not_installed"
    } else {
        "stack_activation_failed"
    }
}

pub fn stage_label(stage: BackendStage) -> (r: &'static str)
    ensures
        r@ == crate::host_runtime::stage_text(stage),
{
    crate::host_runtime::stage_name(stage)
}

/// The name of a stage in messages.
pub open spec fn stage_title(stage: BackendStage) -> Seq<char> {
    match stage {
        BackendStage::Asr => "Asr"@,
        BackendStage::Tts => "Tts"@,
        BackendStage::Llm => "Llm"@,
    }
}

pub fn title_of_stage(stage: BackendStage) -> (r: &'static str)
    ensures
        r@ == stage_title(stage),
{
    match stage {
        BackendStage::Asr => "Asr",
        BackendStage::Tts => "Tts",
        BackendStage::Llm => "Llm",
    }
}

/// Whether a status shows the state of the controller and of the runtime.
pub open spec fn shows_state(st: LabStackStatus, s: ControllerState, rt: RuntimeState) -> bool {
    &&& st.asr == s.asr
    &&& st.tts == s.tts
    &&& st.llm == s.llm
    &&& crate::runtime::shows(st.runtime, rt)
    &&& st.asr_transition == s.asr_transition
    &&& st.tts_transition == s.tts_transition
    &&& st.llm_transition == s.llm_transition
    &&& st.last_transition_error == s.last_transition_error
}

/// The status of the stack when nothing is wrong.
pub fn stack_status(s: &ControllerState, rt: &RuntimeState) -> (r: LabStackStatus)
    ensures
        shows_state(r, *s, *rt),
        r.ok,
        r.error_code@ == ""@,
        r.message@ == "ready"@,
{
    let c: ControllerState = s.clone();
    LabStackStatus {
        asr: c.asr,
        tts: c.tts,
        llm: c.llm,
        runtime: status_of(rt),
        asr_transition: c.asr_transition,
        tts_transition: c.tts_transition,
        llm_transition: c.llm_transition,
        ok: true,
        error_code: String::from_str(""),
        message: String::from_str("ready"),
        last_transition_error: c.last_transition_error,
    }
}

/// The status of the stack after a failed activation.
pub fn failed_status(s: &ControllerState, rt: &RuntimeState, message: String) -> (r: LabStackStatus)
    ensures
        shows_state(r, *s, *rt),
        !r.ok,
        r.error_code@ == error_code_of(message@),
        r.message@ == message@,
{
    let mut st: LabStackStatus = stack_status(s, rt);
    st.ok = false;
    st.error_code = String::from_str(activation_error_code(message.as_str()));
    st.message = message;
    st
}

// ---------------------------------------------------------------------------
// Endpoints
// ---------------------------------------------------------------------------

/// The last occurrence of a character cuts a text in two.
pub open spec fn after_last(s: Seq<char>, c: char) -> Option<Seq<char>> {
    let i = crate::registry::last_char(s, c);
    if i >= 0 {
        Some(s.skip(i + 1))
    } else {
        None
    }
}

/// A text without one of two prefixes.
pub open spec fn without_scheme(url: Seq<char>) -> Seq<char> {
    if text::starts_with(url, "http://"@) {
        url.skip(7)
    } else if text::starts_with(url, "https://"@) {
        url.skip(8)
    } else {
        url
    }
}

pub open spec fn port_of(endpoint: Seq<char>) -> Option<nat> {
    match after_last(text::split(without_scheme(text::trim(endpoint)), '/')[0], ':') {
        Some(p) => text::parsed_unsigned(p, u16::MAX as nat),
        None => None,
    }
}

/// The port in an endpoint such as `http://host:8083/v1/...`.
pub fn endpoint_host_port(endpoint: &str) -> (r: Option<u16>)
    ensures
        match r {
            Some(p) => port_of(endpoint@) == Some(p as nat),
            None => port_of(endpoint@) is None,
        },
{
    let url: String = text::trimmed(endpoint);
    let v: Vec<char> = text::chars_of(url.as_str());
    let from: usize = if text::begins_with(url.as_str(), "http://") {
        proof {
            reveal_strlit("http://");
        }
        7
    } else if text::begins_with(url.as_str(), "https://") {
        proof {
            reveal_strlit("https://");
        }
        8
    } else {
        0
    };
    let rest: String = text::piece(v.as_slice(), from, v.len());
    assert(v@.subrange(from as int, v.len() as int) =~= v@.skip(from as int));
    assert(v@.skip(0) =~= v@);
    assert(rest@ == without_scheme(url@));
    let parts: Vec<String> = text::split_at_char(rest.as_str(), '/');
    proof {
        text::lemma_split_not_empty(rest@, '/');
        assert(parts@.len() == text::views(parts@).len());
        assert(text::views(parts@)[0] == parts@[0]@);
    }
    let w: Vec<char> = text::chars_of(parts[0].as_str());
    let mut i: usize = w.len();
    assert(w@.take(i as int) =~= w@);
    while i > 0 && w[i - 1] != ':'
        invariant
            i <= w.len(),
            crate::registry::last_char(w@.take(i as int), ':') == crate::registry::last_char(
                w@,
                ':',
            ),
        decreases i,
    {
        assert(w@.take(i as int).drop_last() =~= w@.take(i - 1));
        i -= 1;
    }
    if i == 0 {
        return None;
    }
    assert(w@.take(i as int).last() == ':');
    let port: String = text::piece(w.as_slice(), i, w.len());
    assert(w@.subrange(i as int, w.len() as int) =~= w@.skip(i as int));
    match text::parse_unsigned(port.as_str(), u16::MAX as u64) {
        Some(p) => Some(p as u16),
        None => None,
    }
}

pub open spec fn host_side(endpoint: Seq<char>) -> bool {
    let l = text::lower(endpoint);
    text::has(l, "host.docker.internal"@) || text::has(l, "127.0.0.1"@) || text::has(
        l,
        "localhost"@,
    )
}

/// Whether an endpoint is served on the host.
pub fn is_host_side_endpoint(endpoint: &str) -> (r: bool)
    ensures
        r == host_side(endpoint@),
{
    let l: String = text::to_lower(endpoint);
    text::contains(l.as_str(), "host.docker.internal") || text::contains(l.as_str(), "127.0.0.1")
        || text::contains(l.as_str(), "localhost")
}

/// The image of a provisioned runtime; the one of the catalog if none is known.
pub fn provisioned_image<'a>(runtime: &'a RuntimeProvisionStatus, catalog_image: &'a str) -> (r:
    &'a str)
    ensures
        r@ == if runtime.image@.len() == 0 {
            catalog_image@
        } else {
            runtime.image@
        },
{
    if runtime.image.as_str().is_empty() {
        catalog_image
    } else {
        runtime.image.as_str()
    }
}

// ---------------------------------------------------------------------------
// Voices
// ---------------------------------------------------------------------------

pub open spec fn is_voice_id_char(c: char) -> bool {
    text::is_ascii_alphanumeric(c) || c == '_' || c == '-'
}

pub open spec fn safe_voice_id(value: Seq<char>) -> bool {
    &&& 0 < value.len() <= 64
    &&& text::is_ascii_alphanumeric(value[0])
    &&& forall|i: int| 0 <= i < value.len() ==> is_voice_id_char(#[trigger] value[i])
}

/// Whether a voice id can name a file without leaving its directory.
pub fn is_safe_xtts_voice_id(value: &str) -> (r: bool)
    ensures
        r == safe_voice_id(value@),
{
    let v: Vec<char> = text::chars_of(value);
    if v.len() == 0 || v.len() > 64 {
        return false;
    }
    if !(text::char_is_ascii_letter(v[0]) || text::char_is_digit(v[0])) {
        return false;
    }
    let mut i: usize = 0;
    while i < v.len()
        invariant
            v@ == value@,
            i <= v.len(),
            forall|j: int| 0 <= j < i ==> is_voice_id_char(#[trigger] value@[j]),
        decreases v.len() - i,
    {
        let c: char = v[i];
        if !(text::char_is_ascii_letter(c) || text::char_is_digit(c) || c == '_' || c == '-') {
            assert(!is_voice_id_char(value@[i as int]));
            return false;
        }
        i += 1;
    }
    true
}

/// The first listed voice that is a given one, ASCII case aside.
pub open spec fn matching_voice(voices: Seq<String>, voice: Seq<char>) -> Option<Seq<char>>
    decreases voices.len(),
{
    if voices.len() == 0 {
        None
    } else if text::alike(voices[0]@, voice) {
        Some(voices[0]@)
    } else {
        matching_voice(voices.drop_first(), voice)
    }
}

fn find_voice(voices: &Vec<String>, voice: &str) -> (r: Option<String>)
    ensures
        crate::registry::opt_view(r) == matching_voice(voices@, voice@),
{
    let mut i: usize = 0;
    assert(voices@.skip(0) =~= voices@);
    while i < voices.len()
        invariant
            i <= voices.len(),
            matching_voice(voices@, voice@) == matching_voice(voices@.skip(i as int), voice@),
        decreases voices.len() - i,
    {
        assert(voices@.skip(i as int)[0] == voices@[i as int]);
        if text::same_ignoring_case(voices[i].as_str(), voice) {
            return Some(voices[i].clone());
        }
        assert(voices@.skip(i as int).drop_first() =~= voices@.skip(i + 1));
        i += 1;
    }
    None
}

/// A resolved voice, or why there is none.
pub enum VoiceView {
    Voice(Seq<char>),
    Fault(Seq<char>),
}

/// The catalog voice for a request. For the backend with user-supplied voices
/// `installed` tells whether the voice file exists.
pub open spec fn voice_for(
    c: BackendCatalog,
    tts_id: Seq<char>,
    requested: Seq<char>,
    installed: bool,
) -> VoiceView {
    let voice = text::trim(requested);
    match backend_index(c.backends@, tts_id) {
        None => VoiceView::Fault("unknown TTS backend id '"@ + tts_id + "'"@),
        Some(i) => {
            let b = c.backends@[i];
            if b.stage != BackendStage::Tts {
                VoiceView::Fault("backend '"@ + tts_id + "' is not a TTS backend"@)
            } else if voice.len() == 0 {
                VoiceView::Fault("voice must not be empty"@)
            } else if tts_id == "xtts-v2"@ {
                if !safe_voice_id(voice) {
                    VoiceView::Fault("voice '"@ + voice + "' is not a safe XTTS voice id"@)
                } else if installed {
                    VoiceView::Voice(voice)
                } else {
                    VoiceView::Fault("voice '"@ + voice + "' is not installed for 'xtts-v2'"@)
                }
            } else {
                match matching_voice(b.voices@, voice) {
                    Some(v) => VoiceView::Voice(v),
                    None => if b.default_voice@.len() > 0 && text::alike(b.default_voice@, voice) {
                        VoiceView::Voice(b.default_voice@)
                    } else {
                        VoiceView::Fault(
                            "voice '"@ + voice + "' is not available for '"@ + tts_id
                                + "' (available: "@ + (if b.voices@.len() == 0 {
                                b.default_voice@
                            } else {
                                text::joined(text::views(b.voices@), ", "@)
                            }) + ")"@,
                        )
                    },
                }
            }
        },
    }
}

pub open spec fn is_voice(r: Result<String, String>, v: VoiceView) -> bool {
    match r {
        Ok(s) => v == VoiceView::Voice(s@),
        Err(m) => v == VoiceView::Fault(m@),
    }
}

/// Resolves a requested voice against the catalog.
pub fn resolve_requested_voice(
    catalog: &BackendCatalog,
    tts_id: &str,
    requested_voice: &str,
    installed: bool,
) -> (r: Result<String, String>)
    ensures
        is_voice(r, voice_for(*catalog, tts_id@, requested_voice@, installed)),
{
    let b: &BackendDefinition = match catalog.find(tts_id) {
        Some(b) => b,
        None => {
            return Err(wrap("unknown TTS backend id '", tts_id, "'"));
        },
    };
    if b.stage != BackendStage::Tts {
        return Err(wrap("backend '", tts_id, "' is not a TTS backend"));
    }
    let voice: String = text::trimmed(requested_voice);
    if voice.as_str().is_empty() {
        return Err(String::from_str("voice must not be empty"));
    }
    if text::same(tts_id, "xtts-v2") {
        if !is_safe_xtts_voice_id(voice.as_str()) {
            return Err(wrap("voice '", voice.as_str(), "' is not a safe XTTS voice id"));
        }
        if installed {
            return Ok(voice);
        }
        return Err(wrap("voice '", voice.as_str(), "' is not installed for 'xtts-v2'"));
    }
    match find_voice(&b.voices, voice.as_str()) {
        Some(v) => {
            return Ok(v);
        },
        None => {},
    }
    if !b.default_voice.as_str().is_empty() && text::same_ignoring_case(
        b.default_voice.as_str(),
        voice.as_str(),
    ) {
        return Ok(b.default_voice.clone());
    }
    let available: String = if b.voices.is_empty() {
        b.default_voice.clone()
    } else {
        text::join(&b.voices, ", ")
    };
    let mut m: String = wrap2(
        "voice '",
        voice.as_str(),
        "' is not available for '",
        tts_id,
        "' (available: ",
    );
    m.append(available.as_str());
    m.append(")");
    Err(m)
}

// ---------------------------------------------------------------------------
// Runtime of an activated backend
// ---------------------------------------------------------------------------

/// The language model name for a backend; the external one may be overridden.
pub open spec fn llm_model(b: BackendDefinition, external_model: Option<String>) -> Seq<char> {
    if b.id@ == "external-openai"@ {
        match external_model {
            Some(m) => m@,
            None => b.model@,
        }
    } else {
        b.model@
    }
}

pub open spec fn opt_str(s: Option<&str>) -> Option<Seq<char>> {
    match s {
        Some(t) => Some(t@),
        None => None,
    }
}

/// The voice for an activated synthesis backend.
pub open spec fn voice_or_default(voice: Option<Seq<char>>, b: BackendDefinition) -> Seq<char> {
    match voice {
        Some(v) => if text::trim(v).len() > 0 {
            text::trim(v)
        } else {
            b.default_voice@
        },
        None => b.default_voice@,
    }
}

/// Whether a runtime state results from activating a backend.
pub open spec fn activated(
    before: RuntimeState,
    after: RuntimeState,
    b: BackendDefinition,
    v: BackendVariant,
    endpoint: Seq<char>,
    voice: Option<Seq<char>>,
    external_model: Option<String>,
) -> bool {
    match b.stage {
        BackendStage::Asr => {
            &&& after.asr_id@ == b.id@
            &&& after.cfg.whisper_url@ == endpoint
            &&& after.cfg.stt_api == if protocol_of(b, v) == "openai-asr"@ {
                SttApi::Openai
            } else {
                SttApi::Whisper
            }
            &&& after.cfg.stt_model@ == b.model@
            &&& after == (RuntimeState {
                asr_id: after.asr_id,
                cfg: Config {
                    whisper_url: after.cfg.whisper_url,
                    stt_api: after.cfg.stt_api,
                    stt_model: after.cfg.stt_model,
                    ..before.cfg
                },
                ..before
            })
        },
        BackendStage::Tts => {
            &&& after.tts_id@ == b.id@
            &&& after.cfg.tts == TtsBackend::Http
            &&& after.cfg.tts_url@ == endpoint
            &&& after.cfg.tts_model@ == b.model@
            &&& after.cfg.tts_native_sample_rate == if b.native_sample_rate > 0 {
                b.native_sample_rate
            } else {
                before.cfg.tts_native_sample_rate
            }
            &&& after.cfg.supertonic_voice@ == voice_or_default(voice, b)
            &&& after == (RuntimeState {
                tts_id: after.tts_id,
                cfg: Config {
                    tts: after.cfg.tts,
                    tts_url: after.cfg.tts_url,
                    tts_model: after.cfg.tts_model,
                    tts_native_sample_rate: after.cfg.tts_native_sample_rate,
                    supertonic_voice: after.cfg.supertonic_voice,
                    ..before.cfg
                },
                ..before
            })
        },
        BackendStage::Llm => {
            &&& after.llm_id@ == b.id@
            &&& after.cfg.llm_base_url@ == endpoint
            &&& after.cfg.model_name@ == llm_model(b, external_model)
            &&& after == (RuntimeState {
                llm_id: after.llm_id,
                cfg: Config {
                    llm_base_url: after.cfg.llm_base_url,
                    model_name: after.cfg.model_name,
                    ..before.cfg
                },
                ..before
            })
        },
    }
}

/// Points the runtime at an activated backend.
pub fn apply_runtime(
    rt: &mut RuntimeState,
    backend: &BackendDefinition,
    variant: &BackendVariant,
    endpoint: &str,
    voice_override: Option<&str>,
    external_model: &Option<String>,
)
    ensures
        activated(
            *old(rt),
            *final(rt),
            *backend,
            *variant,
            endpoint@,
            opt_str(voice_override),
            *external_model,
        ),
{
    match backend.stage {
        BackendStage::Asr => {
            apply_recognition(rt, backend, variant, endpoint);
        },
        BackendStage::Tts => {
            apply_synthesis(rt, backend, endpoint, voice_override);
        },
        BackendStage::Llm => {
            let model: String = chosen_model(backend, external_model);
            rt.llm_id = backend.id.clone();
            rt.cfg.llm_base_url = String::from_str(endpoint);
            rt.cfg.model_name = model;
        },
    }
}

fn apply_recognition(
    rt: &mut RuntimeState,
    backend: &BackendDefinition,
    variant: &BackendVariant,
    endpoint: &str,
)
    requires
        backend.stage == BackendStage::Asr,
    ensures
        activated(*old(rt), *final(rt), *backend, *variant, endpoint@, None, None),
{
    let openai: bool = text::same(
        crate::registry::variant_protocol(backend, variant),
        "openai-asr",
    );
    let api: SttApi = if openai {
        SttApi::Openai
    } else {
        SttApi::Whisper
    };
    rt.asr_id = backend.id.clone();
    rt.cfg.whisper_url = String::from_str(endpoint);
    rt.cfg.stt_api = api;
    rt.cfg.stt_model = backend.model.clone();
}

fn apply_synthesis(
    rt: &mut RuntimeState,
    backend: &BackendDefinition,
    endpoint: &str,
    voice_override: Option<&str>,
)
    requires
        backend.stage == BackendStage::Tts,
    ensures
        forall|variant: BackendVariant, external_model: Option<String>| #[trigger]
            activated(
                *old(rt),
                *final(rt),
                *backend,
                variant,
                endpoint@,
                opt_str(voice_override),
                external_model,
            ),
{
    let voice: String = chosen_voice(voice_override, backend);
    let rate: u32 = if backend.native_sample_rate > 0 {
        backend.native_sample_rate
    } else {
        rt.cfg.tts_native_sample_rate
    };
    rt.tts_id = backend.id.clone();
    rt.cfg.tts = TtsBackend::Http;
    rt.cfg.tts_url = String::from_str(endpoint);
    rt.cfg.tts_model = backend.model.clone();
    rt.cfg.tts_native_sample_rate = rate;
    rt.cfg.supertonic_voice = voice;
}

/// Whether a runtime differs from another by its voice only.
pub open spec fn revoiced(a: RuntimeState, b: RuntimeState, voice: Seq<char>) -> bool {
    &&& b.cfg.supertonic_voice@ == voice
    &&& b == (RuntimeState {
        cfg: Config { supertonic_voice: b.cfg.supertonic_voice, ..a.cfg },
        ..a
    })
}

/// Makes the runtime speak with a voice.
pub fn set_voice(rt: &mut RuntimeState, voice: String)
    ensures
        revoiced(*old(rt), *final(rt), voice@),
{
    rt.cfg.supertonic_voice = voice;
}

fn chosen_voice(voice: Option<&str>, b: &BackendDefinition) -> (r: String)
    ensures
        r@ == voice_or_default(opt_str(voice), *b),
{
    match voice {
        Some(v) => {
            let t: String = text::trimmed(v);
            if t.as_str().is_empty() {
                b.default_voice.clone()
            } else {
                t
            }
        },
        None => b.default_voice.clone(),
    }
}

fn chosen_model(b: &BackendDefinition, external_model: &Option<String>) -> (r: String)
    ensures
        r@ == llm_model(*b, *external_model),
{
    if text::same(b.id.as_str(), "external-openai") {
        match external_model {
            Some(m) => m.clone(),
            None => b.model.clone(),
        }
    } else {
        b.model.clone()
    }
}

/// The value of an environment entry.
pub open spec fn entry(env: Seq<(String, String)>, key: Seq<char>) -> Option<Seq<char>>
    decreases env.len(),
{
    if env.len() == 0 {
        None
    } else if env[0].0@ == key {
        Some(env[0].1@)
    } else {
        entry(env.drop_first(), key)
    }
}

fn find_entry(env: &Vec<(String, String)>, key: &str) -> (r: Option<String>)
    ensures
        crate::registry::opt_view(r) == entry(env@, key@),
{
    let mut i: usize = 0;
    assert(env@.skip(0) =~= env@);
    while i < env.len()
        invariant
            i <= env.len(),
            entry(env@, key@) == entry(env@.skip(i as int), key@),
        decreases env.len() - i,
    {
        assert(env@.skip(i as int)[0] == env@[i as int]);
        if text::same(env[i].0.as_str(), key) {
            return Some(env[i].1.clone());
        }
        assert(env@.skip(i as int).drop_first() =~= env@.skip(i + 1));
        i += 1;
    }
    None
}

/// The model that a recognition server is to load when its backend is
/// activated; only one protocol can load models.
pub fn whisper_model_to_load(backend: &BackendDefinition, variant: &BackendVariant) -> (r: Option<
    String,
>)
    ensures
        match r {
            Some(m) => {
                &&& backend.stage == BackendStage::Asr
                &&& protocol_of(*backend, *variant) == "faster-whisper"@
                &&& m@ == match entry(variant.environment@, "S2S_WHISPER_MODEL"@) {
                    Some(e) => e,
                    None => backend.model@,
                }
            },
            None => backend.stage != BackendStage::Asr || protocol_of(*backend, *variant)
                != "faster-whisper"@,
        },
{
    if backend.stage == BackendStage::Asr && text::same(
        crate::registry::variant_protocol(backend, variant),
        "faster-whisper",
    ) {
        match find_entry(&variant.environment, "S2S_WHISPER_MODEL") {
            Some(m) => Some(m),
            None => Some(backend.model.clone()),
        }
    } else {
        None
    }
}

/// The record of an activated backend.
pub fn active_record(variant: &BackendVariant, backend_id: &str, endpoint: &str, container: &str) -> (r:
    ActiveBackend)
    ensures
        r.backend_id@ == backend_id@,
        r.variant_id@ == variant.id@,
        r.accelerator@ == variant.accelerator@,
        r.endpoint@ == endpoint@,
        r.container@ == container@,
{
    ActiveBackend {
        backend_id: String::from_str(backend_id),
        variant_id: variant.id.clone(),
        accelerator: variant.accelerator.clone(),
        endpoint: String::from_str(endpoint),
        container: String::from_str(container),
    }
}

/// Whether two runtime states agree on a stage.
pub open spec fn same_part(a: RuntimeState, b: RuntimeState, stage: BackendStage) -> bool {
    match stage {
        BackendStage::Asr => {
            &&& a.asr_id == b.asr_id
            &&& a.cfg.whisper_url == b.cfg.whisper_url
            &&& a.cfg.stt_api == b.cfg.stt_api
            &&& a.cfg.stt_model == b.cfg.stt_model
        },
        BackendStage::Tts => {
            &&& a.tts_id == b.tts_id
            &&& a.cfg.tts == b.cfg.tts
            &&& a.cfg.tts_url == b.cfg.tts_url
            &&& a.cfg.tts_model == b.cfg.tts_model
            &&& a.cfg.tts_native_sample_rate == b.cfg.tts_native_sample_rate
            &&& a.cfg.supertonic_voice == b.cfg.supertonic_voice
        },
        BackendStage::Llm => {
            &&& a.llm_id == b.llm_id
            &&& a.cfg.llm_base_url == b.cfg.llm_base_url
            &&& a.cfg.model_name == b.cfg.model_name
        },
    }
}

/// Activating a backend of one stage leaves the other stages as they were.
pub proof fn law_activation_keeps_other_stages(
    before: RuntimeState,
    after: RuntimeState,
    b: BackendDefinition,
    v: BackendVariant,
    endpoint: Seq<char>,
    voice: Option<Seq<char>>,
    external_model: Option<String>,
    stage: BackendStage,
)
    requires
        activated(before, after, b, v, endpoint, voice, external_model),
        stage != b.stage,
    ensures
        same_part(before, after, stage),
{
}

/// A resolved voice is one that the backend offers: a listed one or its default
/// one, spelled as the catalog spells it.
pub proof fn law_resolved_voice_is_offered(
    c: BackendCatalog,
    tts_id: Seq<char>,
    requested: Seq<char>,
    installed: bool,
)
    requires
        tts_id != "xtts-v2"@,
    ensures
        voice_for(c, tts_id, requested, installed) matches VoiceView::Voice(v) ==> {
            &&& backend_index(c.backends@, tts_id) is Some
            &&& ({
                let b = c.backends@[backend_index(c.backends@, tts_id).unwrap()];
                (text::lists(b.voices@, v) || b.default_voice@ == v) && text::alike(
                    v,
                    text::trim(requested),
                )
            })
        },
{
    if backend_index(c.backends@, tts_id) is Some {
        let b = c.backends@[backend_index(c.backends@, tts_id).unwrap()];
        lemma_matching_voice(b.voices@, text::trim(requested));
    }
}

proof fn lemma_matching_voice(voices: Seq<String>, voice: Seq<char>)
    ensures
        matching_voice(voices, voice) matches Some(v) ==> text::lists(voices, v) && text::alike(
            v,
            voice,
        ),
    decreases voices.len(),
{
    if voices.len() > 0 && !text::alike(voices[0]@, voice) {
        let t = voices.drop_first();
        lemma_matching_voice(t, voice);
        if matching_voice(t, voice) is Some {
            let v = matching_voice(t, voice).unwrap();
            let i = choose|i: int| 0 <= i < t.len() && (#[trigger] t[i])@ == v;
            assert(voices[i + 1]@ == v);
        }
    } else if voices.len() > 0 {
        assert(voices[0]@ == voices[0]@);
    }
}

/// A synthesis backend that is activated speaks with the voice that is asked for;
/// only a missing or blank one leads to the default voice of the backend.
pub proof fn law_requested_voice_is_taken(
    before: RuntimeState,
    after: RuntimeState,
    b: BackendDefinition,
    v: BackendVariant,
    endpoint: Seq<char>,
    voice: Option<Seq<char>>,
    external_model: Option<String>,
)
    requires
        b.stage == BackendStage::Tts,
        activated(before, after, b, v, endpoint, voice, external_model),
    ensures
        match voice {
            Some(s) => {
                &&& s.len() > 0 && !text::is_space(s[0]) && !text::is_space(s.last())
                    ==> after.cfg.supertonic_voice@ == s
                &&& (exists|i: int| 0 <= i < s.len() && !text::is_space(#[trigger] s[i]))
                    ==> after.cfg.supertonic_voice@ == text::trim(s)
                &&& (forall|i: int| 0 <= i < s.len() ==> text::is_space(#[trigger] s[i]))
                    ==> after.cfg.supertonic_voice@ == b.default_voice@
            },
            None => after.cfg.supertonic_voice@ == b.default_voice@,
        },
{
    if voice is Some {
        text::law_trim(voice.unwrap());
    }
}

/// An activation changes its own stage and leaves the others as they are: the
/// runtime asks the backend by the id and the model of its definition at the
/// endpoint that is given.
pub proof fn law_activation_points_at_the_backend(
    before: RuntimeState,
    after: RuntimeState,
    b: BackendDefinition,
    v: BackendVariant,
    endpoint: Seq<char>,
    voice: Option<Seq<char>>,
    external_model: Option<String>,
)
    requires
        activated(before, after, b, v, endpoint, voice, external_model),
    ensures
        b.stage == BackendStage::Asr ==> after.asr_id@ == b.id@ && after.cfg.whisper_url@
            == endpoint && after.cfg.stt_model@ == b.model@ && after.tts_id == before.tts_id
            && after.llm_id == before.llm_id && after.cfg.tts_url == before.cfg.tts_url
            && after.cfg.llm_base_url == before.cfg.llm_base_url && after.cfg.supertonic_voice
            == before.cfg.supertonic_voice && (after.cfg.stt_api == SttApi::Openai <==> (
        v.protocol@ == "openai-asr"@ || (v.protocol@.len() == 0 && b.protocol@ == "openai-asr"@))),
        b.stage == BackendStage::Tts ==> after.tts_id@ == b.id@ && after.cfg.tts_url@ == endpoint
            && after.cfg.tts_model@ == b.model@ && after.cfg.tts == TtsBackend::Http
            && after.asr_id == before.asr_id && after.llm_id == before.llm_id
            && after.cfg.whisper_url == before.cfg.whisper_url && after.cfg.llm_base_url
            == before.cfg.llm_base_url && (b.native_sample_rate > 0
            ==> after.cfg.tts_native_sample_rate == b.native_sample_rate) && (b.native_sample_rate
            == 0 ==> after.cfg.tts_native_sample_rate == before.cfg.tts_native_sample_rate),
        b.stage == BackendStage::Llm ==> after.llm_id@ == b.id@ && after.cfg.llm_base_url@
            == endpoint && after.asr_id == before.asr_id && after.tts_id == before.tts_id
            && after.cfg.whisper_url == before.cfg.whisper_url && after.cfg.tts_url
            == before.cfg.tts_url && after.cfg.supertonic_voice == before.cfg.supertonic_voice
            && (b.id@ != "external-openai"@ ==> after.cfg.model_name@ == b.model@) && (b.id@
            == "external-openai"@ && external_model is Some ==> after.cfg.model_name@
            == external_model.unwrap()@),
{
    reveal_strlit("openai-asr");
    assert("openai-asr"@.len() == 10);
}

/// A stage is ready exactly if it serves the backend that the runtime asks and has
/// settled: its transition is idle or has come to its end.
pub proof fn law_ready_stage(active: Option<ActiveBackend>, t: StageTransition, runtime_id: Seq<char>)
    ensures
        ready(active, t, runtime_id) <==> active is Some && active.unwrap().backend_id@
            == runtime_id && runtime_id.len() > 0 && (t.phase == TransitionPhase::Idle || t.phase
            == TransitionPhase::Ready),
{
}

/// A voice that a backend offers is found whatever the case and the white space around
/// it, and is told as the catalog writes it; so is the default voice. A blank one is
/// refused, and so is one that is not offered.
pub proof fn law_offered_voice_is_found(
    c: BackendCatalog,
    tts_id: Seq<char>,
    requested: Seq<char>,
    installed: bool,
    j: int,
)
    requires
        backend_index(c.backends@, tts_id) is Some,
        c.backends@[backend_index(c.backends@, tts_id).unwrap()].stage == BackendStage::Tts,
        tts_id != "xtts-v2"@,
    ensures
        ({
            let b = c.backends@[backend_index(c.backends@, tts_id).unwrap()];
            let v = text::trim(requested);
            &&& v.len() == 0 ==> voice_for(c, tts_id, requested, installed) is Fault
            &&& v.len() > 0 && 0 <= j < b.voices@.len() && text::lower(b.voices@[j]@)
                == text::lower(v) && (forall|k: int|
                0 <= k < j ==> text::lower((#[trigger] b.voices@[k])@) != text::lower(v))
                ==> voice_for(c, tts_id, requested, installed) == VoiceView::Voice(b.voices@[j]@)
            &&& v.len() > 0 && (forall|k: int|
                0 <= k < b.voices@.len() ==> text::lower((#[trigger] b.voices@[k])@) != text::lower(v))
                && b.default_voice@.len() > 0 && text::lower(b.default_voice@) == text::lower(v)
                ==> voice_for(c, tts_id, requested, installed) == VoiceView::Voice(
                b.default_voice@,
            )
            &&& (forall|k: int|
                0 <= k < b.voices@.len() ==> text::lower((#[trigger] b.voices@[k])@) != text::lower(v))
                && text::lower(b.default_voice@) != text::lower(v) ==> voice_for(
                c,
                tts_id,
                requested,
                installed,
            ) is Fault
        }),
{
    let b = c.backends@[backend_index(c.backends@, tts_id).unwrap()];
    lemma_matching_voice_at(b.voices@, text::trim(requested), j);
}

proof fn lemma_matching_voice_at(voices: Seq<String>, v: Seq<char>, j: int)
    ensures
        0 <= j < voices.len() && text::lower(voices[j]@) == text::lower(v) && (forall|k: int|
            0 <= k < j ==> text::lower((#[trigger] voices[k])@) != text::lower(v))
            ==> matching_voice(voices, v) == Some(voices[j]@),
        (forall|k: int|
            0 <= k < voices.len() ==> text::lower((#[trigger] voices[k])@) != text::lower(v))
            ==> matching_voice(voices, v) is None,
    decreases voices.len(),
{
    if voices.len() > 0 {
        let t = voices.drop_first();
        lemma_matching_voice_at(t, v, j - 1);
        assert(forall|k: int| 0 <= k < t.len() ==> #[trigger] t[k] == voices[k + 1]);
        if text::lower(voices[0]@) != text::lower(v) && 0 <= j < voices.len() {
            if j > 0 {
                assert(t[j - 1] == voices[j]);
            }
        }
    }
}

/// A recording speaks as an XTTS voice if its name is safe and it is installed.
pub proof fn law_recorded_voice(c: BackendCatalog, requested: Seq<char>, installed: bool)
    requires
        backend_index(c.backends@, "xtts-v2"@) is Some,
        c.backends@[backend_index(c.backends@, "xtts-v2"@).unwrap()].stage == BackendStage::Tts,
    ensures
        ({
            let v = text::trim(requested);
            &&& !installed ==> voice_for(c, "xtts-v2"@, requested, installed) is Fault
            &&& installed && v.len() > 0 && safe_voice_id(v) ==> voice_for(
                c,
                "xtts-v2"@,
                requested,
                installed,
            ) == VoiceView::Voice(v)
            &&& !safe_voice_id(v) ==> voice_for(c, "xtts-v2"@, requested, installed) is Fault
        }),
{
}

/// The name of a recording is safe with one to 64 letters, digits, underscores and
/// hyphens of ASCII, the first a letter or a digit.
pub proof fn law_safe_voice_ids(s: Seq<char>, i: int)
    ensures
        safe_voice_id(s) ==> 1 <= s.len() <= 64 && s[0] != '-' && s[0] != '_',
        safe_voice_id(s) && 0 <= i < s.len() ==> ('a' <= s[i] <= 'z') || ('A' <= s[i] <= 'Z') || ('0'
            <= s[i] <= '9') || s[i] == '-' || s[i] == '_',
        1 <= s.len() <= 64 && (forall|k: int| 0 <= k < s.len() ==> 'a' <= #[trigger] s[k] <= 'z')
            ==> safe_voice_id(s),
{
    if safe_voice_id(s) && 0 <= i < s.len() {
        assert(is_voice_id_char(s[i]));
    }
    if 1 <= s.len() <= 64 && forall|k: int| 0 <= k < s.len() ==> 'a' <= #[trigger] s[k] <= 'z' {
        assert('a' <= s[0] <= 'z');
        assert forall|k: int| 0 <= k < s.len() implies is_voice_id_char(#[trigger] s[k]) by {
            assert('a' <= s[k] <= 'z');
        }
    }
}

/// A failed activation is told by what it lacks: a module, a host module, or a model;
/// anything else by a general code.
pub proof fn law_error_codes(m: Seq<char>)
    ensures
        text::has(m, "module_not_provisioned"@) ==> error_code_of(m) == "module_not_provisioned"@,
        !text::has(m, "module_not_provisioned"@) && text::has(m, "host_module_delivery_pending"@)
            ==> error_code_of(m) == "host_module_delivery_pending"@,
        !text::has(m, "module_not_provisioned"@) && !text::has(
            m,
            "host_module_delivery_pending"@,
        ) && text::has(m, "not installed"@) ==> error_code_of(m) == "model_not_installed"@,
        !text::has(m, "module_not_provisioned"@) && !text::has(
            m,
            "host_module_delivery_pending"@,
        ) && !text::has(m, "not installed"@) ==> error_code_of(m) == "stack_activation_failed"@,
{
}

/// An endpoint is on the host if it names the host or the machine itself.
pub proof fn law_host_side(endpoint: Seq<char>)
    ensures
        host_side(endpoint) <==> text::has(text::lower(endpoint), "host.docker.internal"@)
            || text::has(text::lower(endpoint), "127.0.0.1"@) || text::has(
            text::lower(endpoint),
            "localhost"@,
        ),
{
}

/// The port of an endpoint is the number behind the last colon of its host part.
pub proof fn law_port(host: Seq<char>, p: u16, path: Seq<char>)
    requires
        forall|i: int| 0 <= i < host.len() ==> #[trigger] host[i] != '/',
        path.len() > 0,
        !text::is_space(path.last()),
    ensures
        port_of("http://"@ + host.push(':') + text::decimal(p as nat) + seq!['/'] + path) == Some(
            p as nat,
        ),
{
    let d = text::decimal(p as nat);
    let e = "http://"@ + host.push(':') + d + seq!['/'] + path;
    reveal_strlit("http://");
    assert("http://"@.len() == 7 && "http://"@[0] == 'h');
    text::lemma_trimmed(e);
    assert(e[0] == 'h');
    assert(e.last() == path.last());
    assert(text::trim(e) == e);
    assert(e.take(7) =~= "http://"@);
    let rest = e.skip(7);
    let head = host.push(':') + d;
    assert(rest =~= head + seq!['/'] + path);
    text::law_written_number_reads_back(p as nat, u16::MAX as nat);
    text::lemma_decimal_digits(p as nat);
    assert(rest[head.len() as int] == '/');
    assert forall|k: int| 0 <= k < head.len() implies rest[k] != '/' by {
        assert(rest[k] == head[k]);
        if k < host.len() {
            assert(head[k] == host[k]);
        } else if k > host.len() {
            assert(head[k] == d[k - host.len() - 1]);
            assert(text::is_digit(d[k - host.len() - 1]));
        }
    }
    text::lemma_first_char_is(rest, '/', head.len() as int);
    assert(text::split(rest, '/')[0] =~= head);
    lemma_last_char_is(head, ':', host.len() as int);
    assert(head.skip((host.len() + 1) as int) =~= d);
}

proof fn lemma_last_char_is(s: Seq<char>, c: char, i: int)
    requires
        0 <= i < s.len(),
        s[i] == c,
        forall|k: int| i < k < s.len() ==> #[trigger] s[k] != c,
    ensures
        crate::registry::last_char(s, c) == i,
    decreases s.len(),
{
    if i < s.len() - 1 {
        assert(s[s.len() - 1] != c);
        lemma_last_char_is(s.drop_last(), c, i);
    }
}

/// When an activation is over every stage that serves shows as ready; one that was
/// settled stays as it is.
pub proof fn law_settled_stage(
    a: ActiveBackend,
    before: StageTransition,
    after: StageTransition,
    stage: BackendStage,
)
    requires
        settled_transition(Some(a), before, after, stage),
    ensures
        after.phase == TransitionPhase::Ready || after.phase == TransitionPhase::Idle,
        before.phase == TransitionPhase::Idle || before.phase == TransitionPhase::Ready ==> after
            == before,
        before.phase != TransitionPhase::Idle && before.phase != TransitionPhase::Ready
            ==> after.stage == stage && after.backend_id@ == a.backend_id@ && after.variant_id@
            == a.variant_id@ && after.phase == TransitionPhase::Ready,
{
}

/// The value of an entry is that of the first with its name.
pub proof fn law_environment_entry(env: Seq<(String, String)>, key: Seq<char>, i: int)
    ensures
        0 <= i < env.len() && env[i].0@ == key && (forall|j: int|
            0 <= j < i ==> (#[trigger] env[j]).0@ != key) ==> entry(env, key) == Some(env[i].1@),
        (forall|j: int| 0 <= j < env.len() ==> (#[trigger] env[j]).0@ != key) ==> entry(env, key)
            is None,
    decreases env.len(),
{
    if env.len() > 0 && env[0].0@ != key {
        let t = env.drop_first();
        law_environment_entry(t, key, i - 1);
        assert(forall|j: int| 0 <= j < t.len() ==> #[trigger] t[j] == env[j + 1]);
        if 0 < i < env.len() {
            assert(t[i - 1] == env[i]);
        }
    }
}

/// A change of the voice changes nothing else.
pub proof fn law_only_the_voice_changes(a: RuntimeState, b: RuntimeState, voice: Seq<char>)
    requires
        revoiced(a, b, voice),
    ensures
        b.cfg.supertonic_voice@ == voice,
        b.asr_id == a.asr_id,
        b.tts_id == a.tts_id,
        b.llm_id == a.llm_id,
        b.cfg.tts == a.cfg.tts,
        b.cfg.tts_url == a.cfg.tts_url,
        b.cfg.tts_model == a.cfg.tts_model,
        b.cfg.whisper_url == a.cfg.whisper_url,
        b.cfg.llm_base_url == a.cfg.llm_base_url,
        b.cfg.model_name == a.cfg.model_name,
{
}

/// What is active in a stage and its last transition are kept apart from those of the
/// other stages.
pub proof fn law_stages_are_kept_apart(s: ControllerState)
    ensures
        active_of(s, BackendStage::Asr) == s.asr,
        active_of(s, BackendStage::Tts) == s.tts,
        active_of(s, BackendStage::Llm) == s.llm,
        transition_of(s, BackendStage::Asr) == s.asr_transition,
        transition_of(s, BackendStage::Tts) == s.tts_transition,
        transition_of(s, BackendStage::Llm) == s.llm_transition,
{
}

} // verus!
