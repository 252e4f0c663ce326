//! Activating a stack: a transaction over the stages.
//!
//! The stages to switch are prepared, the speech turns are drained, every
//! replacement is brought up, and only then one stage after the other is cut
//! over. If anything fails the runtime and the state of the controller go back to
//! what they were.

use crate::bring_up::{find_variant, Reply, ReplyView, StagePlan};
use crate::host_runtime::{HostAgentStatus, HostProcessStatus};
use crate::lab::{
    active_record, apply_runtime, failed_status, resolve_requested_voice, set_voice, stack_status,
    stage_label, title_of_stage, whisper_model_to_load, ActivateStackRequest, ActiveBackend,
    ControllerState, LabStackStatus, StageTransition, TransitionPhase,
};
use crate::registry::{
    resolve_variant, wrap, BackendCatalog, BackendDefinition, BackendStage, BackendVariant,
    HardwareProfile, VoiceMode,
};
use crate::runtime::RuntimeState;
use crate::text;
use vstd::prelude::*;

verus! {

// ---------------------------------------------------------------------------
// What a request asks for
// ---------------------------------------------------------------------------

/// The backend that a requested voice is for.
pub open spec fn voice_backend(
    request: ActivateStackRequest,
    s: ControllerState,
    rt: RuntimeState,
) -> Seq<char> {
    match request.tts_id {
        Some(id) => id@,
        None => match s.tts {
            Some(a) => a.backend_id@,
            None => rt.tts_id@,
        },
    }
}

pub fn voice_backend_id(request: &ActivateStackRequest, s: &ControllerState, rt: &RuntimeState) -> (r:
    String)
    ensures
        r@ == voice_backend(*request, *s, *rt),
{
    match &request.tts_id {
        Some(id) => id.clone(),
        None => match &s.tts {
            Some(a) => a.backend_id.clone(),
            None => rt.tts_id.clone(),
        },
    }
}

/// The voice that a request asks for, if it asks for one; or why it cannot be had.
pub fn requested_voice(
    catalog: &BackendCatalog,
    request: &ActivateStackRequest,
    s: &ControllerState,
    rt: &RuntimeState,
    installed: bool,
) -> (r: Result<Option<String>, String>)
    ensures
        match request.voice {
            None => r matches Ok(v) && v is None,
            Some(voice) => match crate::lab::voice_for(
                *catalog,
                voice_backend(*request, *s, *rt),
                voice@,
                installed,
            ) {
                crate::lab::VoiceView::Voice(v) => r matches Ok(o) && crate::registry::opt_view(o)
                    == Some(v),
                crate::lab::VoiceView::Fault(m) => r matches Err(e) && e@ == "TTS voice: "@ + m,
            },
        },
{
    match &request.voice {
        None => Ok(None),
        Some(voice) => {
            let id: String = voice_backend_id(request, s, rt);
            match resolve_requested_voice(catalog, id.as_str(), voice.as_str(), installed) {
                Ok(v) => Ok(Some(v)),
                Err(m) => Err(text::joined_pair("TTS voice: ", m.as_str())),
            }
        },
    }
}

/// The synthesis backend that is to serve after the request.
pub open spec fn next_tts(request: ActivateStackRequest, rt: RuntimeState) -> Seq<char> {
    match request.tts_id {
        Some(id) if text::trim(id@).len() > 0 => text::trim(id@),
        _ => rt.tts_id@,
    }
}

pub fn requested_tts_id(request: &ActivateStackRequest, rt: &RuntimeState) -> (r: String)
    ensures
        r@ == next_tts(*request, *rt),
{
    match &request.tts_id {
        Some(id) => {
            let t: String = text::trimmed(id.as_str());
            if t.as_str().is_empty() {
                rt.tts_id.clone()
            } else {
                t
            }
        },
        None => rt.tts_id.clone(),
    }
}

/// Whether a voice can only be had by restarting the backend that speaks now.
pub open spec fn needs_restart(
    c: BackendCatalog,
    tts_id: Seq<char>,
    rt: RuntimeState,
    voice: Option<String>,
) -> bool {
    match voice {
        Some(v) => {
            &&& crate::registry::backend_index(c.backends@, tts_id) matches Some(i)
                && c.backends@[i].voice_mode == VoiceMode::Restart
            &&& rt.tts_id@ == tts_id
            &&& !text::alike(v@, rt.cfg.supertonic_voice@)
        },
        None => false,
    }
}

pub fn voice_requires_restart(
    catalog: &BackendCatalog,
    tts_id: &str,
    rt: &RuntimeState,
    voice: &Option<String>,
) -> (r: bool)
    ensures
        r == needs_restart(*catalog, tts_id@, *rt, *voice),
{
    match voice {
        Some(v) => {
            let restarts: bool = match catalog.find(tts_id) {
                Some(b) => b.voice_mode == VoiceMode::Restart,
                None => false,
            };
            restarts && text::same(rt.tts_id.as_str(), tts_id) && !text::same_ignoring_case(
                v.as_str(),
                rt.cfg.supertonic_voice.as_str(),
            )
        },
        None => false,
    }
}

/// Whether a process of the host agent serves a stage with a variant.
pub open spec fn is_serving(
    p: HostProcessStatus,
    stage: BackendStage,
    backend_id: Seq<char>,
    variant_id: Seq<char>,
) -> bool {
    &&& p.stage@ == crate::host_runtime::stage_text(stage)
    &&& p.backend_id@ == backend_id
    &&& p.variant_id@ == variant_id
    &&& p.state@ == "running"@
}

fn some_process_serves(
    ps: &Vec<HostProcessStatus>,
    stage: BackendStage,
    backend_id: &str,
    variant_id: &str,
) -> (r: bool)
    ensures
        r == exists|i: int|
            0 <= i < ps.len() && is_serving(#[trigger] ps@[i], stage, backend_id@, variant_id@),
{
    let mut i: usize = 0;
    while i < ps.len()
        invariant
            i <= ps.len(),
            forall|j: int|
                0 <= j < i ==> !is_serving(#[trigger] ps@[j], stage, backend_id@, variant_id@),
        decreases ps.len() - i,
    {
        let p: &HostProcessStatus = &ps[i];
        if text::same(p.stage.as_str(), stage_label(stage)) && text::same(
            p.backend_id.as_str(),
            backend_id,
        ) && text::same(p.variant_id.as_str(), variant_id) && text::same(
            p.state.as_str(),
            "running",
        ) {
            assert(is_serving(ps@[i as int], stage, backend_id@, variant_id@));
            return true;
        }
        i += 1;
    }
    false
}

/// Whether a backend serves its stage already, so that selecting it changes
/// nothing. `agent` is the state of the host agent if its heartbeat is fresh,
/// `running` tells whether the container of the active backend runs.
pub open spec fn already_active(
    c: BackendCatalog,
    active: Option<ActiveBackend>,
    stage: BackendStage,
    backend_id: Seq<char>,
    agent: Option<HostAgentStatus>,
    docker: bool,
    running: bool,
) -> bool {
    match active {
        None => false,
        Some(a) => a.backend_id@ == backend_id && match crate::registry::backend_index(
            c.backends@,
            backend_id,
        ) {
            None => false,
            Some(i) => match crate::bring_up::variant_index(
                c.backends@[i].variants@,
                a.variant_id@,
            ) {
                None => false,
                Some(k) => if c.backends@[i].variants@[k].host_profile@.len() > 0 {
                    agent matches Some(st) && exists|j: int|
                        0 <= j < st.processes@.len() && is_serving(
                            #[trigger] st.processes@[j],
                            stage,
                            backend_id,
                            a.variant_id@,
                        )
                } else {
                    !docker || a.container@.len() == 0 || running
                },
            },
        },
    }
}

pub fn stage_already_active(
    catalog: &BackendCatalog,
    active: &Option<ActiveBackend>,
    stage: BackendStage,
    backend_id: &str,
    agent: &Option<HostAgentStatus>,
    docker: bool,
    running: bool,
) -> (r: bool)
    ensures
        r == already_active(*catalog, *active, stage, backend_id@, *agent, docker, running),
{
    let a: &ActiveBackend = match active {
        Some(a) => a,
        None => {
            return false;
        },
    };
    if !text::same(a.backend_id.as_str(), backend_id) {
        return false;
    }
    let b: &BackendDefinition = match catalog.find(backend_id) {
        Some(b) => b,
        None => {
            return false;
        },
    };
    let k: usize = match find_variant(b, a.variant_id.as_str()) {
        Some(k) => k,
        None => {
            return false;
        },
    };
    if !b.variants[k].host_profile.as_str().is_empty() {
        return match agent {
            Some(st) => some_process_serves(
                &st.processes,
                stage,
                backend_id,
                a.variant_id.as_str(),
            ),
            None => false,
        };
    }
    !docker || a.container.as_str().is_empty() || running
}

/// A stage that is to be switched to a backend.
#[derive(Debug)]
pub struct Target {
    pub stage: BackendStage,
    pub id: String,
    /// The variant that fits the machine best, if there is one.
    pub variant_id: String,
}

pub open spec fn preferred_variant(
    c: BackendCatalog,
    hw: HardwareProfile,
    id: Seq<char>,
) -> Seq<char> {
    match crate::registry::backend_index(c.backends@, id) {
        Some(i) => match crate::registry::chosen(c.backends@[i].variants@, hw) {
            Some(k) => c.backends@[i].variants@[k].id@,
            None => Seq::empty(),
        },
        None => Seq::empty(),
    }
}

fn find_preferred_variant(catalog: &BackendCatalog, hw: &HardwareProfile, id: &str) -> (r: String)
    ensures
        r@ == preferred_variant(*catalog, *hw, id@),
{
    match catalog.find(id) {
        Some(b) => match resolve_variant(b, hw) {
            Some(v) => v.id.clone(),
            None => String::new(),
        },
        None => String::new(),
    }
}

/// The backend to switch a stage to, if its stage is to be switched at all.
pub open spec fn switch_to(id: Option<String>, active: bool) -> Option<Seq<char>> {
    match id {
        Some(x) if !active => Some(x@),
        _ => None,
    }
}

/// The synthesis backend to switch to; a voice may ask for a restart.
pub open spec fn switch_tts_to(
    id: Option<String>,
    active: bool,
    restart: bool,
    next: Seq<char>,
) -> Option<Seq<char>> {
    match id {
        Some(x) => if active && !restart {
            None
        } else {
            Some(x@)
        },
        None => if restart {
            Some(next)
        } else {
            None
        },
    }
}

pub open spec fn stage_rank(stage: BackendStage) -> int {
    match stage {
        BackendStage::Asr => 0,
        BackendStage::Tts => 1,
        BackendStage::Llm => 2,
    }
}

/// Whether targets are stages in order, each at most once.
pub open spec fn in_order(ts: Seq<Target>) -> bool {
    forall|i: int, j: int|
        0 <= i < j < ts.len() ==> stage_rank((#[trigger] ts[i]).stage) < stage_rank(
            (#[trigger] ts[j]).stage,
        )
}

/// Whether targets hold exactly the wanted backend for a stage.
pub open spec fn targets_stage(
    ts: Seq<Target>,
    stage: BackendStage,
    wanted: Option<Seq<char>>,
) -> bool {
    match wanted {
        Some(id) => exists|i: int|
            0 <= i < ts.len() && (#[trigger] ts[i]).stage == stage && ts[i].id@ == id,
        None => forall|i: int| 0 <= i < ts.len() ==> (#[trigger] ts[i]).stage != stage,
    }
}

/// The stages to switch: those whose requested backend does not serve them yet.
pub fn switch_targets(
    catalog: &BackendCatalog,
    hw: &HardwareProfile,
    request: &ActivateStackRequest,
    asr_active: bool,
    tts_active: bool,
    llm_active: bool,
    restart: bool,
    next_tts_id: &str,
) -> (r: Vec<Target>)
    ensures
        in_order(r@),
        targets_stage(r@, BackendStage::Asr, switch_to(request.asr_id, asr_active)),
        targets_stage(
            r@,
            BackendStage::Tts,
            switch_tts_to(request.tts_id, tts_active, restart, next_tts_id@),
        ),
        targets_stage(r@, BackendStage::Llm, switch_to(request.llm_id, llm_active)),
        forall|i: int|
            0 <= i < r.len() ==> (#[trigger] r@[i]).variant_id@ == preferred_variant(
                *catalog,
                *hw,
                r@[i].id@,
            ),
{
    let mut ts: Vec<Target> = Vec::new();
    match &request.asr_id {
        Some(id) => {
            if !asr_active {
                ts.push(
                    Target {
                        stage: BackendStage::Asr,
                        id: id.clone(),
                        variant_id: find_preferred_variant(catalog, hw, id.as_str()),
                    },
                );
                assert(ts@[0].stage == BackendStage::Asr);
            }
        },
        None => {},
    }
    let ghost a = ts@;
    let tts: Option<String> = match &request.tts_id {
        Some(id) => if tts_active && !restart {
            None
        } else {
            Some(id.clone())
        },
        None => if restart {
            Some(String::from_str(next_tts_id))
        } else {
            None
        },
    };
    match tts {
        Some(id) => {
            let variant_id: String = find_preferred_variant(catalog, hw, id.as_str());
            ts.push(Target { stage: BackendStage::Tts, id, variant_id });
            assert(ts@[a.len() as int].stage == BackendStage::Tts);
        },
        None => {},
    }
    let ghost b = ts@;
    assert(forall|i: int| 0 <= i < a.len() ==> ts@[i] == #[trigger] a[i]);
    match &request.llm_id {
        Some(id) => {
            if !llm_active {
                ts.push(
                    Target {
                        stage: BackendStage::Llm,
                        id: id.clone(),
                        variant_id: find_preferred_variant(catalog, hw, id.as_str()),
                    },
                );
                assert(ts@[b.len() as int].stage == BackendStage::Llm);
            }
        },
        None => {},
    }
    assert(forall|i: int| 0 <= i < b.len() ==> ts@[i] == #[trigger] b[i]);
    assert(forall|i: int| 0 <= i < a.len() ==> ts@[i] == #[trigger] a[i]);
    ts
}

// ---------------------------------------------------------------------------
// The transaction
// ---------------------------------------------------------------------------

/// What is to be done next.
#[derive(Debug, Clone, Copy, PartialEq, Eq, Structural)]
pub enum ActivationPhase {
    /// Check that the backend for the current target can be brought up.
    Preparing,
    /// Wait for the speech turns to end.
    Draining,
    /// Bring up the backend for the current target.
    BringingUp,
    /// Stop what was brought up and restore what ran.
    Restoring,
    /// Have the host agent stop what served the stage of the current plan.
    Releasing,
    /// Stop the other containers of that stage.
    Clearing,
    /// Have the recognition server load the model of the current plan.
    Reloading,
    /// Restore what ran.
    RollingBack,
    /// Everything is cut over.
    Finishing,
    Succeeded,
    Failed,
}

/// How far an activation has come.
pub struct Outline {
    pub phase: ActivationPhase,
    pub pos: int,
    pub errors: Seq<Seq<char>>,
    pub rollback_failed: bool,
}

pub open spec fn short_name(stage: BackendStage) -> Seq<char> {
    match stage {
        BackendStage::Asr => "ASR"@,
        BackendStage::Tts => "TTS"@,
        BackendStage::Llm => "LLM"@,
    }
}

fn short_name_of(stage: BackendStage) -> (r: &'static str)
    ensures
        r@ == short_name(stage),
{
    match stage {
        BackendStage::Asr => "ASR",
        BackendStage::Tts => "TTS",
        BackendStage::Llm => "LLM",
    }
}

/// Why a plan cannot be cut over.
pub open spec fn commit_fault(c: BackendCatalog, plan: StagePlan) -> Option<Seq<char>> {
    match crate::registry::backend_index(c.backends@, plan.backend_id@) {
        None => Some("unknown backend id '"@ + plan.backend_id@ + "'"@),
        Some(i) => match crate::bring_up::variant_index(
            c.backends@[i].variants@,
            plan.variant_id@,
        ) {
            None => Some("variant '"@ + plan.variant_id@ + "' missing after bring-up"@),
            Some(_) => None,
        },
    }
}

pub open spec fn plan_backend(c: BackendCatalog, plan: StagePlan) -> BackendDefinition {
    c.backends@[crate::registry::backend_index(c.backends@, plan.backend_id@).unwrap()]
}

pub open spec fn plan_variant(c: BackendCatalog, plan: StagePlan) -> BackendVariant {
    let vs = plan_backend(c, plan).variants@;
    vs[crate::bring_up::variant_index(vs, plan.variant_id@).unwrap()]
}

/// Whether the recognition server has to load a model for a plan.
pub open spec fn loads_model(c: BackendCatalog, plan: StagePlan) -> bool {
    plan_backend(c, plan).stage == BackendStage::Asr && crate::registry::protocol_of(
        plan_backend(c, plan),
        plan_variant(c, plan),
    ) == "faster-whisper"@
}

/// A plan could not be cut over.
pub open spec fn commit_failed(o: Outline, stage: BackendStage, m: Seq<char>) -> Outline {
    Outline {
        phase: ActivationPhase::RollingBack,
        errors: seq![crate::lab::stage_title(stage) + ": "@ + m],
        ..o
    }
}

/// Turning to the plan at a position.
pub open spec fn at_plan(c: BackendCatalog, plans: Seq<StagePlan>, o: Outline, pos: int) -> Outline {
    if pos >= plans.len() {
        Outline { phase: ActivationPhase::Finishing, pos, ..o }
    } else {
        match commit_fault(c, plans[pos]) {
            Some(m) => commit_failed(Outline { pos, ..o }, plans[pos].stage, m),
            None => Outline { phase: ActivationPhase::Releasing, pos, ..o },
        }
    }
}

/// The runtime points at the current plan.
pub open spec fn applied(c: BackendCatalog, plans: Seq<StagePlan>, o: Outline) -> Outline {
    if loads_model(c, plans[o.pos]) {
        Outline { phase: ActivationPhase::Reloading, ..o }
    } else {
        at_plan(c, plans, o, o.pos + 1)
    }
}

/// The target at the current position is brought up.
pub open spec fn target_up(
    c: BackendCatalog,
    targets: Seq<Target>,
    plans: Seq<StagePlan>,
    o: Outline,
) -> Outline {
    if o.pos + 1 < targets.len() {
        Outline { pos: o.pos + 1, ..o }
    } else {
        at_plan(c, plans, o, 0)
    }
}

/// How an activation goes on after a reply.
pub open spec fn advanced(
    c: BackendCatalog,
    docker: bool,
    targets: Seq<Target>,
    plans: Seq<StagePlan>,
    o: Outline,
    r: ReplyView,
) -> Outline {
    match (o.phase, r) {
        (ActivationPhase::Preparing, ReplyView::Done) => if o.pos + 1
            < targets.len() {
            Outline { pos: o.pos + 1, ..o }
        } else {
            Outline { phase: ActivationPhase::Draining, pos: 0, ..o }
        },
        (ActivationPhase::Preparing, ReplyView::Failed(m)) => Outline {
            phase: ActivationPhase::Failed,
            errors: seq![short_name(targets[o.pos].stage) + ": "@ + m],
            ..o
        },
        (ActivationPhase::Draining, _) => if targets.len() == 0 {
            Outline { phase: ActivationPhase::Finishing, ..o }
        } else {
            Outline { phase: ActivationPhase::BringingUp, pos: 0, ..o }
        },
        (ActivationPhase::BringingUp, ReplyView::Done) => target_up(
            c,
            targets,
            plans,
            o,
        ),
        (ActivationPhase::BringingUp, ReplyView::Failed(m)) => Outline {
            phase: ActivationPhase::Restoring,
            errors: seq![short_name(targets[o.pos].stage) + ": "@ + m],
            ..o
        },
        (
            ActivationPhase::Restoring | ActivationPhase::RollingBack,
            ReplyView::Done,
        ) => Outline { phase: ActivationPhase::Failed, ..o },
        (
            ActivationPhase::Restoring | ActivationPhase::RollingBack,
            ReplyView::Failed(m),
        ) => Outline {
            phase: ActivationPhase::Failed,
            errors: o.errors.push("rollback: "@ + m),
            rollback_failed: true,
            ..o
        },
        (ActivationPhase::Releasing, ReplyView::Done) => if docker {
            Outline { phase: ActivationPhase::Clearing, ..o }
        } else {
            applied(c, plans, o)
        },
        (ActivationPhase::Clearing, _) => applied(c, plans, o),
        (ActivationPhase::Releasing, ReplyView::Failed(m)) => commit_failed(
            o,
            plans[o.pos].stage,
            m,
        ),
        (ActivationPhase::Reloading, ReplyView::Done) => at_plan(
            c,
            plans,
            o,
            o.pos + 1,
        ),
        (ActivationPhase::Reloading, ReplyView::Failed(m)) => commit_failed(
            o,
            plans[o.pos].stage,
            "reload faster-whisper: "@ + m,
        ),
        (
            ActivationPhase::Finishing | ActivationPhase::Succeeded | ActivationPhase::Failed,
            _,
        ) => o,
    }
}

/// An activation in progress. The caller does what the phase says and hands the
/// reply to [`Activation::step`].
#[derive(Debug)]
pub struct Activation {
    pub targets: Vec<Target>,
    pub voice: Option<String>,
    /// Whether containers are managed.
    pub docker: bool,
    pub phase: ActivationPhase,
    pub pos: usize,
    pub plans: Vec<StagePlan>,
    pub errors: Vec<String>,
    pub rollback_failed: bool,
    pub runtime_before: RuntimeState,
    pub state_before: ControllerState,
    pub runtime: RuntimeState,
    pub state: ControllerState,
    /// What was announced to the clients so far.
    pub announced: Vec<StageTransition>,
}

/// Whether two states of the controller have the same backends active.
pub open spec fn same_actives(a: ControllerState, b: ControllerState) -> bool {
    a.asr == b.asr && a.tts == b.tts && a.llm == b.llm && a.last_transition_error
        == b.last_transition_error
}

/// Whether two states of the controller have the same backends active but for one
/// stage.
pub open spec fn same_actives_but(a: ControllerState, b: ControllerState, stage: BackendStage) -> bool {
    &&& stage != BackendStage::Asr ==> a.asr == b.asr
    &&& stage != BackendStage::Tts ==> a.tts == b.tts
    &&& stage != BackendStage::Llm ==> a.llm == b.llm
    &&& a.last_transition_error == b.last_transition_error
}

/// The last announcement for a stage.
pub open spec fn last_for(ts: Seq<StageTransition>, stage: BackendStage) -> Option<StageTransition>
    decreases ts.len(),
{
    if ts.len() == 0 {
        None
    } else if ts.last().stage == stage {
        Some(ts.last())
    } else {
        last_for(ts.drop_last(), stage)
    }
}

/// Whether the state shows the last announcement of a stage.
pub open spec fn shows_last(a: Activation, stage: BackendStage) -> bool {
    crate::lab::transition_of(a.state, stage) == match last_for(a.announced@, stage) {
        Some(t) => t,
        None => crate::lab::transition_of(a.state_before, stage),
    }
}

/// Whether a plan serves its stage.
pub open spec fn serves(plan: StagePlan, rt: RuntimeState, s: ControllerState) -> bool {
    &&& points_at(rt, plan)
    &&& crate::lab::active_of(s, plan.stage) matches Some(a) && a.backend_id@ == plan.backend_id@
        && a.variant_id@ == plan.variant_id@ && a.endpoint@ == plan.endpoint@ && a.container@
        == plan.container@
}

/// Whether plans are for stages in order, each at most once.
pub open spec fn plans_in_order(ps: Seq<StagePlan>) -> bool {
    forall|i: int, j: int|
        0 <= i < j < ps.len() ==> stage_rank((#[trigger] ps[i]).stage) < stage_rank(
            (#[trigger] ps[j]).stage,
        )
}

/// Whether the first plans serve their stages and all other stages are as they
/// were.
pub open spec fn cut_over(a: Activation, n: int) -> bool {
    &&& forall|i: int| 0 <= i < n ==> serves(#[trigger] a.plans@[i], a.runtime, a.state)
    &&& forall|stage: BackendStage| #[trigger]
        untouched(a.plans@, n, stage) ==> as_before(a, stage)
}

/// Whether none of the first plans is for a stage.
pub open spec fn untouched(plans: Seq<StagePlan>, n: int, stage: BackendStage) -> bool {
    forall|i: int| 0 <= i < n ==> (#[trigger] plans[i]).stage != stage
}

/// Whether a stage is served as it was before the activation.
pub open spec fn as_before(a: Activation, stage: BackendStage) -> bool {
    &&& crate::lab::same_part(a.runtime_before, a.runtime, stage)
    &&& crate::lab::active_of(a.state, stage) == crate::lab::active_of(a.state_before, stage)
}

pub open spec fn works_on_plan(phase: ActivationPhase) -> bool {
    phase == ActivationPhase::Releasing || phase == ActivationPhase::Clearing || phase
        == ActivationPhase::Reloading
}

pub open spec fn is_before_commit(phase: ActivationPhase) -> bool {
    phase == ActivationPhase::Preparing || phase == ActivationPhase::Draining || phase
        == ActivationPhase::BringingUp || phase == ActivationPhase::Restoring
}

/// The error of a failed activation.
pub open spec fn failure(errors: Seq<Seq<char>>) -> Seq<char> {
    text::joined(errors, "; "@)
}

impl Activation {
    pub open spec fn outline(self) -> Outline {
        Outline {
            phase: self.phase,
            pos: self.pos as int,
            errors: text::views(self.errors@),
            rollback_failed: self.rollback_failed,
        }
    }

    /// Whether another activation is the same transaction.
    pub open spec fn same_task(self, other: Activation) -> bool {
        &&& self.targets == other.targets
        &&& self.voice == other.voice
        &&& self.docker == other.docker
        &&& self.runtime_before == other.runtime_before
        &&& self.state_before == other.state_before
    }

    /// Whether the plans are for targets.
    pub open spec fn sound(self) -> bool {
        &&& in_order(self.targets@)
        &&& plans_in_order(self.plans@)
        &&& self.plans@.len() <= self.targets@.len() <= 3
        &&& forall|i: int|
            0 <= i < self.plans@.len() ==> targets_stage(
                self.targets@,
                (#[trigger] self.plans@[i]).stage,
                Some(self.plans@[i].backend_id@),
            )
    }

    /// Whether the state shows all announcements.
    pub open spec fn up_to_date(self) -> bool {
        &&& shows_last(self, BackendStage::Asr)
        &&& shows_last(self, BackendStage::Tts)
        &&& shows_last(self, BackendStage::Llm)
    }

    /// What holds of the parts of an activation, whatever is cut over.
    pub open spec fn structure(self) -> bool {
        &&& self.sound()
        &&& self.phase == ActivationPhase::Preparing || self.phase == ActivationPhase::BringingUp
            ==> self.pos < self.targets@.len()
        &&& self.phase == ActivationPhase::BringingUp ==> self.plans@.len() <= self.pos
            && forall|i: int|
            0 <= i < self.plans@.len() ==> stage_rank((#[trigger] self.plans@[i]).stage)
                < stage_rank(self.targets@[self.pos as int].stage)
        &&& self.phase == ActivationPhase::Preparing || self.phase == ActivationPhase::Draining
            ==> self.plans@.len() == 0
        &&& works_on_plan(self.phase) ==> self.pos < self.plans@.len()
        &&& self.phase == ActivationPhase::Finishing ==> self.pos >= self.plans@.len()
        &&& self.phase == ActivationPhase::Restoring || self.phase == ActivationPhase::RollingBack
            ==> self.errors@.len() == 1 && !self.rollback_failed
        &&& is_before_commit(self.phase) && self.phase != ActivationPhase::Restoring
            || works_on_plan(self.phase) || self.phase == ActivationPhase::Finishing
            ==> self.errors@.len() == 0 && !self.rollback_failed
        &&& self.phase != ActivationPhase::Failed && self.phase != ActivationPhase::Succeeded
            ==> self.up_to_date()
    }

    pub open spec fn wf(self) -> bool {
        &&& self.structure()
        &&& is_before_commit(self.phase) ==> self.runtime == self.runtime_before && same_actives(
            self.state,
            self.state_before,
        )
        &&& self.phase == ActivationPhase::Releasing || self.phase == ActivationPhase::Clearing
            ==> cut_over(self, self.pos as int)
        &&& self.phase == ActivationPhase::Reloading ==> pointed(self)
        &&& self.phase == ActivationPhase::Finishing ==> cut_over(self, self.plans@.len() as int)
        &&& self.phase == ActivationPhase::RollingBack ==> self.runtime == self.runtime_before
        &&& self.phase == ActivationPhase::Failed ==> {
            &&& self.runtime == self.runtime_before
            &&& self.errors@.len() > 0
            &&& self.state.last_transition_error@ == failure(text::views(self.errors@))
            &&& !self.rollback_failed ==> self.state == (ControllerState {
                last_transition_error: self.state.last_transition_error,
                ..self.state_before
            })
        }
    }
}

/// Whether the runtime points at a plan.
pub open spec fn points_at(rt: RuntimeState, plan: StagePlan) -> bool {
    match plan.stage {
        BackendStage::Asr => rt.asr_id@ == plan.backend_id@ && rt.cfg.whisper_url@
            == plan.endpoint@,
        BackendStage::Tts => rt.tts_id@ == plan.backend_id@ && rt.cfg.tts_url@ == plan.endpoint@,
        BackendStage::Llm => rt.llm_id@ == plan.backend_id@ && rt.cfg.llm_base_url@
            == plan.endpoint@,
    }
}

/// Whether the plans before the current one serve their stages, the runtime points
/// at the current one, and all other stages are as they were.
pub open spec fn pointed(a: Activation) -> bool {
    let plan = a.plans@[a.pos as int];
    &&& forall|i: int| 0 <= i < a.pos ==> serves(#[trigger] a.plans@[i], a.runtime, a.state)
    &&& points_at(a.runtime, plan)
    &&& forall|stage: BackendStage| #[trigger]
        untouched(a.plans@, a.pos as int, stage) && stage != plan.stage ==> as_before(a, stage)
}

/// How many of some plans the runtime points at in a phase.
pub open spec fn taken_at(phase: ActivationPhase, pos: int, plans: nat) -> int {
    match phase {
        ActivationPhase::Releasing | ActivationPhase::Clearing => pos,
        ActivationPhase::Reloading => pos + 1,
        ActivationPhase::Finishing => plans as int,
        _ => 0,
    }
}

/// How many plans the runtime points at.
pub open spec fn plans_taken(a: Activation) -> int {
    taken_at(a.phase, a.pos as int, a.plans@.len())
}

/// Whether the runtime speaks with the voice that is asked for, as soon as it points
/// at a plan for synthesis.
pub open spec fn speaks_as_asked(a: Activation) -> bool {
    match a.voice {
        Some(v) => forall|i: int|
            0 <= i < plans_taken(a) && (#[trigger] a.plans@[i]).stage == BackendStage::Tts && v@.len()
                > 0 && !text::is_space(v@[0]) && !text::is_space(v@.last())
                ==> a.runtime.cfg.supertonic_voice@ == v@,
        None => true,
    }
}

// ---------------------------------------------------------------------------
// Announcements
// ---------------------------------------------------------------------------

pub struct Notice {
    pub stage: BackendStage,
    pub phase: TransitionPhase,
    pub backend_id: Seq<char>,
    pub variant_id: Seq<char>,
    pub message: Seq<char>,
}

pub open spec fn notice(t: StageTransition) -> Notice {
    Notice {
        stage: t.stage,
        phase: t.phase,
        backend_id: t.backend_id@,
        variant_id: t.variant_id@,
        message: t.message@,
    }
}

pub open spec fn notices(ts: Seq<StageTransition>) -> Seq<Notice> {
    Seq::new(ts.len(), |i: int| notice(ts[i]))
}

/// What is announced of all targets while the turns are drained.
pub open spec fn draining_news(targets: Seq<Target>, message: Seq<char>) -> Seq<Notice> {
    Seq::new(
        targets.len(),
        |i: int|
            Notice {
                stage: targets[i].stage,
                phase: TransitionPhase::Draining,
                backend_id: targets[i].id@,
                variant_id: targets[i].variant_id@,
                message,
            },
    )
}

/// What is announced of a target that cannot be had.
pub open spec fn target_failed_news(t: Target, m: Seq<char>) -> Seq<Notice> {
    seq![
        Notice {
            stage: t.stage,
            phase: TransitionPhase::Failed,
            backend_id: t.id@,
            variant_id: Seq::empty(),
            message: m,
        },
    ]
}

pub open spec fn plan_notice(plan: StagePlan, phase: TransitionPhase, message: Seq<char>) -> Notice {
    Notice {
        stage: plan.stage,
        phase,
        backend_id: plan.backend_id@,
        variant_id: plan.variant_id@,
        message,
    }
}

/// What is announced when a plan cannot be cut over.
pub open spec fn rollback_news(plan: StagePlan, m: Seq<char>) -> Seq<Notice> {
    seq![
        plan_notice(plan, TransitionPhase::Failed, m),
        Notice {
            stage: plan.stage,
            phase: TransitionPhase::Rollback,
            backend_id: Seq::empty(),
            variant_id: Seq::empty(),
            message: "restoring previous stack"@,
        },
    ]
}

/// What is announced on turning to the plan at a position.
pub open spec fn at_plan_news(c: BackendCatalog, plans: Seq<StagePlan>, pos: int) -> Seq<Notice> {
    if pos >= plans.len() {
        Seq::empty()
    } else {
        match commit_fault(c, plans[pos]) {
            Some(m) => rollback_news(plans[pos], m),
            None => Seq::empty(),
        }
    }
}

/// What is announced when a plan is cut over.
pub open spec fn committed_news(c: BackendCatalog, plans: Seq<StagePlan>, pos: int) -> Seq<Notice> {
    seq![plan_notice(plans[pos], TransitionPhase::Ready, "backend ready"@)] + at_plan_news(
        c,
        plans,
        pos + 1,
    )
}

pub open spec fn applied_news(c: BackendCatalog, plans: Seq<StagePlan>, pos: int) -> Seq<Notice> {
    if loads_model(c, plans[pos]) {
        Seq::empty()
    } else {
        committed_news(c, plans, pos)
    }
}

/// What is announced after a reply.
pub open spec fn news(
    c: BackendCatalog,
    docker: bool,
    targets: Seq<Target>,
    plans: Seq<StagePlan>,
    o: Outline,
    r: ReplyView,
) -> Seq<Notice> {
    match (o.phase, r) {
        (ActivationPhase::Preparing, ReplyView::Done) => if o.pos + 1 < targets.len() {
            Seq::empty()
        } else {
            draining_news(targets, "draining active speech turn"@)
        },
        (
            ActivationPhase::Preparing | ActivationPhase::BringingUp,
            ReplyView::Failed(m),
        ) => target_failed_news(targets[o.pos], m),
        (ActivationPhase::Draining, ReplyView::Done) => draining_news(
            targets,
            "active speech turn drained"@,
        ),
        (ActivationPhase::Draining, ReplyView::Failed(_)) => draining_news(
            targets,
            "drain timeout reached after 10 seconds"@,
        ),
        (ActivationPhase::BringingUp, ReplyView::Done) => if o.pos + 1 < targets.len() {
            Seq::empty()
        } else {
            at_plan_news(c, plans, 0)
        },
        (ActivationPhase::Releasing, ReplyView::Done) => if docker {
            seq![
                plan_notice(
                    plans[o.pos],
                    TransitionPhase::Stopping,
                    "stopping previous stage container"@,
                ),
            ]
        } else {
            applied_news(c, plans, o.pos)
        },
        (ActivationPhase::Releasing, ReplyView::Failed(m)) => rollback_news(plans[o.pos], m),
        (ActivationPhase::Clearing, _) => applied_news(c, plans, o.pos),
        (ActivationPhase::Reloading, ReplyView::Done) => committed_news(c, plans, o.pos),
        (ActivationPhase::Reloading, ReplyView::Failed(m)) => rollback_news(
            plans[o.pos],
            "reload faster-whisper: "@ + m,
        ),
        _ => Seq::empty(),
    }
}

/// Whether an activation differs from another by announcements only.
pub open spec fn told(a: Activation, b: Activation) -> bool {
    &&& b == (Activation { state: b.state, announced: b.announced, ..a })
    &&& same_actives(a.state, b.state)
    &&& forall|stage: BackendStage| shows_last(a, stage) ==> #[trigger] shows_last(b, stage)
}

impl Activation {
    fn tell(
        &mut self,
        stage: BackendStage,
        phase: TransitionPhase,
        backend_id: &str,
        variant_id: &str,
        message: &str,
    )
        ensures
            told(*old(self), *final(self)),
            notices(final(self).announced@) == notices(old(self).announced@).push(
                Notice {
                    stage,
                    phase,
                    backend_id: backend_id@,
                    variant_id: variant_id@,
                    message: message@,
                },
            ),
    {
        let t: StageTransition = StageTransition {
            stage,
            phase,
            backend_id: String::from_str(backend_id),
            variant_id: String::from_str(variant_id),
            message: String::from_str(message),
        };
        let ghost before = self.announced@;
        self.announced.push(t.clone());
        self.state.record_transition(t);
        proof {
            assert(self.announced@.drop_last() =~= before);
            assert(notices(self.announced@) =~= notices(before).push(notice(t)));
        }
    }

    /// Announces a step of the work itself; it belongs to the history like all
    /// other announcements.
    pub fn announce(&mut self, t: StageTransition)
        requires
            old(self).wf(),
            old(self).phase != ActivationPhase::Failed,
            old(self).phase != ActivationPhase::Succeeded,
        ensures
            final(self).wf(),
            told(*old(self), *final(self)),
            notices(final(self).announced@) == notices(old(self).announced@).push(notice(t)),
    {
        self.tell(
            t.stage,
            t.phase,
            t.backend_id.as_str(),
            t.variant_id.as_str(),
            t.message.as_str(),
        );
        proof {
            lemma_told_keeps(*old(self), *self);
        }
    }

    fn tell_targets(&mut self, message: &str)
        ensures
            told(*old(self), *final(self)),
            notices(final(self).announced@) == notices(old(self).announced@) + draining_news(
                old(self).targets@,
                message@,
            ),
    {
        let ghost start = *self;
        let ghost all = draining_news(self.targets@, message@);
        let mut i: usize = 0;
        assert(notices(self.announced@) =~= notices(start.announced@) + all.take(0));
        while i < self.targets.len()
            invariant
                i <= self.targets.len(),
                told(start, *self),
                all == draining_news(start.targets@, message@),
                notices(self.announced@) == notices(start.announced@) + all.take(i as int),
            decreases self.targets.len() - i,
        {
            let stage: BackendStage = self.targets[i].stage;
            let id: String = self.targets[i].id.clone();
            let variant_id: String = self.targets[i].variant_id.clone();
            self.tell(stage, TransitionPhase::Draining, id.as_str(), variant_id.as_str(), message);
            proof {
                assert(all.take(i + 1) =~= all.take(i as int).push(all[i as int]));
                assert(notices(self.announced@) =~= notices(start.announced@) + all.take(i + 1));
            }
            i += 1;
        }
        assert(all.take(i as int) =~= all);
    }
}

proof fn lemma_told_keeps(a: Activation, b: Activation)
    requires
        a.wf(),
        told(a, b),
        a.phase != ActivationPhase::Failed,
        a.phase != ActivationPhase::Succeeded,
    ensures
        b.wf(),
{
    assert(shows_last(b, BackendStage::Asr));
    assert(shows_last(b, BackendStage::Tts));
    assert(shows_last(b, BackendStage::Llm));
    if a.phase == ActivationPhase::Releasing || a.phase == ActivationPhase::Clearing {
        lemma_told_keeps_cut_over(a, b, a.pos as int);
    }
    if a.phase == ActivationPhase::Finishing {
        lemma_told_keeps_cut_over(a, b, a.plans@.len() as int);
    }
    if a.phase == ActivationPhase::Reloading {
        assert forall|i: int| 0 <= i < b.pos implies serves(
            #[trigger] b.plans@[i],
            b.runtime,
            b.state,
        ) by {
            assert(serves(a.plans@[i], a.runtime, a.state));
        }
        assert forall|stage: BackendStage| #[trigger]
            untouched(b.plans@, b.pos as int, stage) && stage != b.plans@[b.pos as int].stage implies
            as_before(b, stage) by {
            assert(untouched(a.plans@, a.pos as int, stage));
            assert(as_before(a, stage));
        }
    }
}

proof fn lemma_told_keeps_cut_over(a: Activation, b: Activation, n: int)
    requires
        cut_over(a, n),
        a.plans == b.plans,
        a.runtime == b.runtime,
        a.runtime_before == b.runtime_before,
        same_actives(a.state, b.state),
        a.state_before == b.state_before,
    ensures
        cut_over(b, n),
{
    assert forall|i: int| 0 <= i < n implies serves(#[trigger] b.plans@[i], b.runtime, b.state) by {
        assert(serves(a.plans@[i], a.runtime, a.state));
    }
    assert forall|stage: BackendStage| #[trigger] untouched(b.plans@, n, stage) implies as_before(
        b,
        stage,
    ) by {
        assert(untouched(a.plans@, n, stage));
        assert(as_before(a, stage));
    }
}

// ---------------------------------------------------------------------------
// The steps
// ---------------------------------------------------------------------------

/// The voice for a plan.
pub open spec fn plan_voice(voice: Option<String>, plan: StagePlan) -> Option<Seq<char>> {
    if plan.stage == BackendStage::Tts {
        crate::registry::opt_view(voice)
    } else {
        None
    }
}

/// Whether a backend record is what a plan makes active.
pub open spec fn is_record(a: ActiveBackend, plan: StagePlan, v: BackendVariant) -> bool {
    &&& a.backend_id@ == plan.backend_id@
    &&& a.variant_id@ == plan.variant_id@
    &&& a.accelerator@ == v.accelerator@
    &&& a.endpoint@ == plan.endpoint@
    &&& a.container@ == plan.container@
}

/// Whether a reply makes the runtime point at the current plan.
pub open spec fn applies(docker: bool, phase: ActivationPhase, r: ReplyView) -> bool {
    phase == ActivationPhase::Clearing || (phase == ActivationPhase::Releasing && r is Done
        && !docker)
}

fn clone_voice(v: &Option<String>) -> (r: Option<String>)
    ensures
        r == *v,
{
    match v {
        Some(x) => Some(x.clone()),
        None => None,
    }
}

fn find_commit_fault(catalog: &BackendCatalog, plan: &StagePlan) -> (r: Option<String>)
    ensures
        crate::registry::opt_view(r) == commit_fault(*catalog, *plan),
{
    match catalog.find(plan.backend_id.as_str()) {
        None => Some(wrap("unknown backend id '", plan.backend_id.as_str(), "'")),
        Some(b) => match find_variant(b, plan.variant_id.as_str()) {
            None => Some(
                wrap("variant '", plan.variant_id.as_str(), "' missing after bring-up"),
            ),
            Some(_) => None,
        },
    }
}

proof fn lemma_variant_has_id(vs: Seq<BackendVariant>, id: Seq<char>)
    requires
        crate::bring_up::variant_index(vs, id) is Some,
    ensures
        ({
            let k = crate::bring_up::variant_index(vs, id).unwrap();
            0 <= k < vs.len() && vs[k].id@ == id
        }),
    decreases vs.len(),
{
    if vs.len() > 0 && crate::bring_up::variant_index(vs.drop_last(), id) is Some {
        lemma_variant_has_id(vs.drop_last(), id);
    }
}

impl Activation {
    /// Whether the plans belong to a catalog, and the current one can be cut over.
    pub open spec fn fits(self, c: BackendCatalog) -> bool {
        &&& forall|i: int|
            0 <= i < self.plans@.len() && commit_fault(c, #[trigger] self.plans@[i]) is None
                ==> plan_backend(c, self.plans@[i]).stage == self.plans@[i].stage
        &&& works_on_plan(self.phase) ==> commit_fault(
            c,
            self.plans@[self.pos as int],
        ) is None
    }

    /// Begins an activation.
    pub fn new(
        targets: Vec<Target>,
        voice: Option<String>,
        docker: bool,
        runtime: RuntimeState,
        state: ControllerState,
    ) -> (r: Activation)
        requires
            in_order(targets@),
        ensures
            r.wf(),
            forall|c: BackendCatalog| #[trigger] r.fits(c),
            r.targets == targets,
            r.voice == voice,
            r.docker == docker,
            r.runtime_before == runtime,
            r.state_before == state,
            r.plans@.len() == 0,
            r.announced@.len() == 0,
            speaks_as_asked(r),
            r.outline() == (Outline {
                phase: if targets@.len() > 0 {
                    ActivationPhase::Preparing
                } else if voice is Some {
                    ActivationPhase::Draining
                } else {
                    ActivationPhase::Finishing
                },
                pos: 0,
                errors: Seq::empty(),
                rollback_failed: false,
            }),
    {
        let phase: ActivationPhase = if targets.len() > 0 {
            ActivationPhase::Preparing
        } else if voice.is_some() {
            ActivationPhase::Draining
        } else {
            ActivationPhase::Finishing
        };
        proof {
            if targets@.len() > 3 {
                assert(stage_rank(targets@[0].stage) < stage_rank(targets@[1].stage));
                assert(stage_rank(targets@[1].stage) < stage_rank(targets@[2].stage));
                assert(stage_rank(targets@[2].stage) < stage_rank(targets@[3].stage));
            }
        }
        let a: Activation = Activation {
            targets,
            voice,
            docker,
            phase,
            pos: 0,
            plans: Vec::new(),
            errors: Vec::new(),
            rollback_failed: false,
            runtime: runtime.clone(),
            state: state.clone(),
            runtime_before: runtime,
            state_before: state,
            announced: Vec::new(),
        };
        assert(text::views(a.errors@) =~= Seq::empty());
        a
    }

    fn fail(&mut self)
        requires
            old(self).errors@.len() > 0,
            old(self).runtime == old(self).runtime_before,
            old(self).sound(),
        ensures
            final(self).wf(),
            final(self).same_task(*old(self)),
            final(self).plans == old(self).plans,
            final(self).announced == old(self).announced,
            final(self).outline() == (Outline {
                phase: ActivationPhase::Failed,
                ..old(self).outline()
            }),
            final(self).rollback_failed ==> final(self).state == (ControllerState {
                last_transition_error: final(self).state.last_transition_error,
                ..old(self).state
            }),
    {
        let message: String = text::join(&self.errors, "; ");
        if self.rollback_failed {
            self.state.record_failed_rollback(message.as_str());
        } else {
            let snapshot: ControllerState = self.state_before.clone();
            self.state.restore(&snapshot, message.as_str());
        }
        self.phase = ActivationPhase::Failed;
    }

    fn fail_target(&mut self, m: &str)
        requires
            old(self).wf(),
            old(self).phase == ActivationPhase::Preparing || old(self).phase
                == ActivationPhase::BringingUp,
        ensures
            final(self).same_task(*old(self)),
            final(self).plans == old(self).plans,
            told(
                *old(self),
                Activation { errors: old(self).errors, ..*final(self) },
            ),
            final(self).errors@.len() == 1,
            text::views(final(self).errors@) == seq![
                short_name(old(self).targets@[old(self).pos as int].stage) + ": "@ + m@,
            ],
            notices(final(self).announced@) == notices(old(self).announced@) + target_failed_news(
                old(self).targets@[old(self).pos as int],
                m@,
            ),
    {
        let stage: BackendStage = self.targets[self.pos].stage;
        let id: String = self.targets[self.pos].id.clone();
        let ghost before = notices(self.announced@);
        self.tell(stage, TransitionPhase::Failed, id.as_str(), "", m);
        proof {
            reveal_strlit("");
            assert(""@ =~= Seq::<char>::empty());
            assert(notices(self.announced@) =~= before + target_failed_news(
                old(self).targets@[old(self).pos as int],
                m@,
            ));
        }
        let e: String = wrap(short_name_of(stage), ": ", m);
        self.errors.push(e);
        assert(text::views(self.errors@) =~= seq![short_name(stage) + ": "@ + m@]);
    }

    fn fail_commit(&mut self, m: &str)
        requires
            old(self).structure(),
            works_on_plan(old(self).phase),
        ensures
            final(self).wf(),
            final(self).same_task(*old(self)),
            final(self).plans == old(self).plans,
            final(self).outline() == commit_failed(
                old(self).outline(),
                old(self).plans@[old(self).pos as int].stage,
                m@,
            ),
            notices(final(self).announced@) == notices(old(self).announced@) + rollback_news(
                old(self).plans@[old(self).pos as int],
                m@,
            ),
            same_actives(old(self).state, final(self).state),
    {
        let stage: BackendStage = self.plans[self.pos].stage;
        let id: String = self.plans[self.pos].backend_id.clone();
        let variant_id: String = self.plans[self.pos].variant_id.clone();
        let ghost before = notices(self.announced@);
        self.tell(stage, TransitionPhase::Failed, id.as_str(), variant_id.as_str(), m);
        let ghost mid = *self;
        self.tell(stage, TransitionPhase::Rollback, "", "", "restoring previous stack");
        proof {
            reveal_strlit("");
            assert(""@ =~= Seq::<char>::empty());
            assert(notices(self.announced@) =~= before + rollback_news(
                old(self).plans@[old(self).pos as int],
                m@,
            ));
            lemma_told_is_up_to_date(*old(self), mid);
            lemma_told_is_up_to_date(mid, *self);
        }
        let e: String = wrap(title_of_stage(stage), ": ", m);
        self.errors.push(e);
        assert(text::views(self.errors@) =~= seq![crate::lab::stage_title(stage) + ": "@ + m@]);
        self.runtime = self.runtime_before.clone();
        self.phase = ActivationPhase::RollingBack;
    }

    fn go_to_plan(&mut self, catalog: &BackendCatalog, pos: usize)
        requires
            old(self).sound(),
            old(self).up_to_date(),
            old(self).errors@.len() == 0,
            !old(self).rollback_failed,
            pos <= old(self).plans@.len(),
            cut_over(*old(self), pos as int),
            forall|i: int|
                0 <= i < old(self).plans@.len() && commit_fault(
                    *catalog,
                    #[trigger] old(self).plans@[i],
                ) is None ==> plan_backend(*catalog, old(self).plans@[i]).stage
                    == old(self).plans@[i].stage,
        ensures
            final(self).wf(),
            final(self).fits(*catalog),
            final(self).same_task(*old(self)),
            final(self).plans == old(self).plans,
            final(self).outline() == at_plan(
                *catalog,
                old(self).plans@,
                old(self).outline(),
                pos as int,
            ),
            final(self).phase != ActivationPhase::RollingBack ==> final(self).runtime
                == old(self).runtime && final(self).state == old(self).state,
            notices(final(self).announced@) == notices(old(self).announced@) + at_plan_news(
                *catalog,
                old(self).plans@,
                pos as int,
            ),
            same_actives(old(self).state, final(self).state),
    {
        let ghost before = notices(self.announced@);
        assert(before + Seq::<Notice>::empty() =~= before);
        self.pos = pos;
        if pos >= self.plans.len() {
            self.phase = ActivationPhase::Finishing;
            assert(cut_over(*self, pos as int)) by {
                lemma_told_keeps_cut_over(*old(self), *self, pos as int);
            }
            return ;
        }
        assert(cut_over(*self, pos as int)) by {
            lemma_told_keeps_cut_over(*old(self), *self, pos as int);
        }
        self.phase = ActivationPhase::Releasing;
        assert(cut_over(*self, pos as int)) by {
            lemma_told_keeps_cut_over(*old(self), *self, pos as int);
        }
        match find_commit_fault(catalog, &self.plans[pos]) {
            Some(m) => {
                self.fail_commit(m.as_str());
            },
            None => {},
        }
    }
}

impl Activation {
    /// Points the runtime at the current plan.
    fn apply_plan(&mut self, catalog: &BackendCatalog, external_model: &Option<String>)
        requires
            old(self).wf(),
            old(self).fits(*catalog),
            old(self).phase == ActivationPhase::Releasing || old(self).phase
                == ActivationPhase::Clearing,
        ensures
            final(self).structure(),
            final(self).fits(*catalog),
            pointed(*final(self)),
            *final(self) == (Activation { runtime: final(self).runtime, ..*old(self) }),
            ({
                let plan = old(self).plans@[old(self).pos as int];
                activated_by(
                    *catalog,
                    old(self).runtime,
                    final(self).runtime,
                    plan,
                    old(self).voice,
                    *external_model,
                )
            }),
    {
        let ghost plan = self.plans@[self.pos as int];
        let pos: usize = self.pos;
        let endpoint: String = self.plans[pos].endpoint.clone();
        let voice: Option<String> = if self.plans[pos].stage == BackendStage::Tts {
            clone_voice(&self.voice)
        } else {
            None
        };
        match catalog.find(self.plans[pos].backend_id.as_str()) {
            Some(b) => match find_variant(b, self.plans[pos].variant_id.as_str()) {
                Some(k) => {
                    let v: Option<&str> = match &voice {
                        Some(x) => Some(x.as_str()),
                        None => None,
                    };
                    apply_runtime(
                        &mut self.runtime,
                        b,
                        &b.variants[k],
                        endpoint.as_str(),
                        v,
                        external_model,
                    );
                    proof {
                        crate::registry::law_lookup_finds_the_first(
                            catalog.backends@,
                            plan.backend_id@,
                        );
                        lemma_applied(*old(self), *self, *b, b.variants@[k as int], *external_model);
                    }
                },
                None => {},
            },
            None => {},
        }
    }

    /// The backend of the current plan, at which the runtime points, takes over
    /// its stage.
    fn take_over(&mut self, catalog: &BackendCatalog)
        requires
            old(self).structure(),
            old(self).fits(*catalog),
            works_on_plan(old(self).phase),
            pointed(*old(self)),
        ensures
            final(self).wf(),
            final(self).fits(*catalog),
            final(self).same_task(*old(self)),
            final(self).plans == old(self).plans,
            final(self).outline() == at_plan(
                *catalog,
                old(self).plans@,
                old(self).outline(),
                old(self).pos + 1,
            ),
            final(self).phase != ActivationPhase::RollingBack ==> final(self).runtime
                == old(self).runtime,
            takes_stage(
                *catalog,
                old(self).plans@[old(self).pos as int],
                old(self).state,
                final(self).state,
            ),
            notices(final(self).announced@) == notices(old(self).announced@) + committed_news(
                *catalog,
                old(self).plans@,
                old(self).pos as int,
            ),
    {
        let ghost start = *self;
        let ghost plan = self.plans@[self.pos as int];
        let pos: usize = self.pos;
        let stage: BackendStage = self.plans[pos].stage;
        let id: String = self.plans[pos].backend_id.clone();
        let variant_id: String = self.plans[pos].variant_id.clone();
        match catalog.find(id.as_str()) {
            Some(b) => match find_variant(b, variant_id.as_str()) {
                Some(k) => {
                    let record: ActiveBackend = active_record(
                        &b.variants[k],
                        id.as_str(),
                        self.plans[pos].endpoint.as_str(),
                        self.plans[pos].container.as_str(),
                    );
                    proof {
                        lemma_variant_has_id(b.variants@, variant_id@);
                        assert(is_record(record, plan, plan_variant(*catalog, plan)));
                    }
                    self.state.set_active(stage, record);
                },
                None => {},
            },
            None => {},
        }
        let ghost placed = *self;
        proof {
            assert(placed.up_to_date());
        }
        self.tell(
            stage,
            TransitionPhase::Ready,
            id.as_str(),
            variant_id.as_str(),
            "backend ready",
        );
        proof {
            lemma_told_is_up_to_date(placed, *self);
            lemma_taken_over(start, *self);
        }
        let ghost mid = notices(self.announced@);
        let ghost rest = at_plan_news(*catalog, self.plans@, pos + 1);
        self.go_to_plan(catalog, pos + 1);
        assert(mid + rest =~= notices(start.announced@) + committed_news(
            *catalog,
            start.plans@,
            start.pos as int,
        ));
    }

    /// Takes note of how the step of the current phase went. A backend that needed
    /// no bringing up is reported as done.
    pub fn step(&mut self, catalog: &BackendCatalog, external_model: &Option<String>, reply: Reply)
        requires
            old(self).wf(),
            old(self).fits(*catalog),
        ensures
            final(self).wf(),
            final(self).fits(*catalog),
            follows(*old(self), *final(self), *catalog, *external_model, reply@),
            speaks_as_asked(*old(self)) ==> speaks_as_asked(*final(self)),
    {
        let ghost start = *self;
        match self.phase {
            ActivationPhase::Preparing => {
                self.step_preparing(catalog, external_model, reply);
            },
            ActivationPhase::Draining => {
                self.step_draining(catalog, external_model, reply);
            },
            ActivationPhase::BringingUp => {
                self.step_bringing_up(catalog, external_model, reply);
            },
            ActivationPhase::Restoring | ActivationPhase::RollingBack => {
                self.step_restoring(catalog, external_model, reply);
            },
            ActivationPhase::Releasing => {
                self.step_releasing(catalog, external_model, reply);
            },
            ActivationPhase::Clearing => {
                self.cut_over_plan(catalog, external_model);
            },
            ActivationPhase::Reloading => {
                match reply {
                    Reply::Done => {
                        self.take_over(catalog);
                    },
                    Reply::Failed(m) => {
                        let e: String = text::joined_pair("reload faster-whisper: ", m.as_str());
                        self.fail_commit(e.as_str());
                    },
                }
            },
            ActivationPhase::Finishing | ActivationPhase::Succeeded | ActivationPhase::Failed => {
                assert(notices(self.announced@) + Seq::<Notice>::empty() =~= notices(
                    self.announced@,
                ));
            },
        }
        proof {
            if speaks_as_asked(start) {
                law_step_keeps_the_voice(start, *self, *catalog, *external_model, reply@);
            }
        }
    }

    fn step_preparing(
        &mut self,
        catalog: &BackendCatalog,
        external_model: &Option<String>,
        reply: Reply,
    )
        requires
            old(self).wf(),
            old(self).phase == ActivationPhase::Preparing,
        ensures
            final(self).wf(),
            final(self).fits(*catalog),
            follows(*old(self), *final(self), *catalog, *external_model, reply@),
    {
        let ghost start = notices(self.announced@);
        assert(start + Seq::<Notice>::empty() =~= start);
        match reply {
            Reply::Done => {
                if self.pos + 1 < self.targets.len() {
                    self.pos = self.pos + 1;
                } else {
                    self.tell_targets("draining active speech turn");
                    proof {
                        lemma_told_keeps(*old(self), *self);
                    }
                    self.phase = ActivationPhase::Draining;
                    self.pos = 0;
                }
            },
            Reply::Failed(m) => {
                self.fail_target(m.as_str());
                self.fail();
            },
        }
    }

    fn step_draining(
        &mut self,
        catalog: &BackendCatalog,
        external_model: &Option<String>,
        reply: Reply,
    )
        requires
            old(self).wf(),
            old(self).phase == ActivationPhase::Draining,
        ensures
            final(self).wf(),
            final(self).fits(*catalog),
            follows(*old(self), *final(self), *catalog, *external_model, reply@),
    {
        match reply {
            Reply::Done => {
                self.tell_targets("active speech turn drained");
            },
            Reply::Failed(_) => {
                self.tell_targets("drain timeout reached after 10 seconds");
            },
        }
        proof {
            lemma_told_keeps(*old(self), *self);
        }
        if self.targets.len() == 0 {
            self.phase = ActivationPhase::Finishing;
            proof {
                lemma_nothing_cut_over(*self);
            }
        } else {
            self.phase = ActivationPhase::BringingUp;
            self.pos = 0;
        }
    }

    fn step_bringing_up(
        &mut self,
        catalog: &BackendCatalog,
        external_model: &Option<String>,
        reply: Reply,
    )
        requires
            old(self).wf(),
            old(self).fits(*catalog),
            old(self).phase == ActivationPhase::BringingUp,
        ensures
            final(self).wf(),
            final(self).fits(*catalog),
            follows(*old(self), *final(self), *catalog, *external_model, reply@),
    {
        match reply {
            Reply::Done => {
                self.next_target(catalog);
            },
            Reply::Failed(m) => {
                self.fail_target(m.as_str());
                proof {
                    let b = Activation { errors: old(self).errors, ..*self };
                    lemma_told_keeps(*old(self), b);
                    assert(b.up_to_date());
                }
                self.phase = ActivationPhase::Restoring;
                assert(self.up_to_date());
            },
        }
    }

    fn step_restoring(
        &mut self,
        catalog: &BackendCatalog,
        external_model: &Option<String>,
        reply: Reply,
    )
        requires
            old(self).wf(),
            old(self).fits(*catalog),
            old(self).phase == ActivationPhase::Restoring || old(self).phase
                == ActivationPhase::RollingBack,
        ensures
            final(self).wf(),
            final(self).fits(*catalog),
            follows(*old(self), *final(self), *catalog, *external_model, reply@),
    {
        let ghost start = notices(self.announced@);
        assert(start + Seq::<Notice>::empty() =~= start);
        match reply {
            Reply::Done => {},
            Reply::Failed(m) => {
                let ghost errors = text::views(self.errors@);
                let e: String = text::joined_pair("rollback: ", m.as_str());
                self.errors.push(e);
                assert(text::views(self.errors@) =~= errors.push("rollback: "@ + m@));
                self.rollback_failed = true;
            },
        }
        self.fail();
    }

    fn step_releasing(
        &mut self,
        catalog: &BackendCatalog,
        external_model: &Option<String>,
        reply: Reply,
    )
        requires
            old(self).wf(),
            old(self).fits(*catalog),
            old(self).phase == ActivationPhase::Releasing,
        ensures
            final(self).wf(),
            final(self).fits(*catalog),
            follows(*old(self), *final(self), *catalog, *external_model, reply@),
    {
        match reply {
            Reply::Done => {
                if self.docker {
                    let pos: usize = self.pos;
                    let stage: BackendStage = self.plans[pos].stage;
                    let id: String = self.plans[pos].backend_id.clone();
                    let variant_id: String = self.plans[pos].variant_id.clone();
                    self.tell(
                        stage,
                        TransitionPhase::Stopping,
                        id.as_str(),
                        variant_id.as_str(),
                        "stopping previous stage container",
                    );
                    let ghost here = *self;
                    proof {
                        lemma_told_keeps(*old(self), here);
                        assert(notices(here.announced@) =~= notices(old(self).announced@) + seq![
                            plan_notice(
                                old(self).plans@[pos as int],
                                TransitionPhase::Stopping,
                                "stopping previous stage container"@,
                            ),
                        ]);
                    }
                    self.phase = ActivationPhase::Clearing;
                    proof {
                        lemma_told_keeps_cut_over(here, *self, pos as int);
                        assert(self.up_to_date());
                    }
                } else {
                    self.cut_over_plan(catalog, external_model);
                }
            },
            Reply::Failed(m) => {
                self.fail_commit(m.as_str());
            },
        }
    }

    fn cut_over_plan(&mut self, catalog: &BackendCatalog, external_model: &Option<String>)
        requires
            old(self).wf(),
            old(self).fits(*catalog),
            old(self).phase == ActivationPhase::Releasing || old(self).phase
                == ActivationPhase::Clearing,
        ensures
            final(self).wf(),
            final(self).fits(*catalog),
            final(self).same_task(*old(self)),
            final(self).plans == old(self).plans,
            final(self).outline() == applied(*catalog, old(self).plans@, old(self).outline()),
            notices(final(self).announced@) == notices(old(self).announced@) + applied_news(
                *catalog,
                old(self).plans@,
                old(self).pos as int,
            ),
            final(self).phase != ActivationPhase::RollingBack ==> activated_by(
                *catalog,
                old(self).runtime,
                final(self).runtime,
                old(self).plans@[old(self).pos as int],
                old(self).voice,
                *external_model,
            ),
            ({
                let plan = old(self).plans@[old(self).pos as int];
                if loads_model(*catalog, plan) {
                    same_actives(old(self).state, final(self).state)
                } else {
                    takes_stage(*catalog, plan, old(self).state, final(self).state)
                }
            }),
    {
        self.apply_plan(catalog, external_model);
        let ghost mid = *self;
        let pos: usize = self.pos;
        let loads: bool = match catalog.find(self.plans[pos].backend_id.as_str()) {
            Some(b) => match find_variant(b, self.plans[pos].variant_id.as_str()) {
                Some(k) => whisper_model_to_load(b, &b.variants[k]).is_some(),
                None => false,
            },
            None => false,
        };
        assert(loads == loads_model(*catalog, self.plans@[pos as int]));
        if loads {
            self.phase = ActivationPhase::Reloading;
            proof {
                lemma_pointed_moves(mid, *self);
                assert(notices(self.announced@) + Seq::<Notice>::empty() =~= notices(
                    self.announced@,
                ));
            }
        } else {
            self.take_over(catalog);
        }
    }

    fn next_target(&mut self, catalog: &BackendCatalog)
        requires
            old(self).sound(),
            old(self).up_to_date(),
            old(self).phase == ActivationPhase::BringingUp,
            old(self).pos < old(self).targets@.len(),
            old(self).plans@.len() <= old(self).pos + 1,
            forall|i: int|
                0 <= i < old(self).plans@.len() ==> stage_rank(
                    (#[trigger] old(self).plans@[i]).stage,
                ) <= stage_rank(old(self).targets@[old(self).pos as int].stage),
            old(self).errors@.len() == 0,
            !old(self).rollback_failed,
            old(self).runtime == old(self).runtime_before,
            same_actives(old(self).state, old(self).state_before),
            forall|i: int|
                0 <= i < old(self).plans@.len() && commit_fault(
                    *catalog,
                    #[trigger] old(self).plans@[i],
                ) is None ==> plan_backend(*catalog, old(self).plans@[i]).stage
                    == old(self).plans@[i].stage,
        ensures
            final(self).wf(),
            final(self).fits(*catalog),
            final(self).same_task(*old(self)),
            final(self).plans == old(self).plans,
            final(self).outline() == target_up(
                *catalog,
                old(self).targets@,
                old(self).plans@,
                old(self).outline(),
            ),
            final(self).phase != ActivationPhase::RollingBack ==> final(self).runtime
                == old(self).runtime,
            same_actives(old(self).state, final(self).state),
            notices(final(self).announced@) == notices(old(self).announced@) + (if old(self).pos
                + 1 < old(self).targets@.len() {
                Seq::empty()
            } else {
                at_plan_news(*catalog, old(self).plans@, 0)
            }),
    {
        let ghost start = *self;
        if self.pos + 1 < self.targets.len() {
            self.pos = self.pos + 1;
            proof {
                let p = start.pos as int;
                assert(stage_rank(start.targets@[p].stage) < stage_rank(
                    start.targets@[p + 1].stage,
                ));
                assert(notices(self.announced@) + Seq::<Notice>::empty() =~= notices(
                    self.announced@,
                ));
            }
        } else {
            proof {
                lemma_nothing_cut_over(*self);
            }
            self.go_to_plan(catalog, 0);
        }
    }

    /// The backend for the current target is up.
    pub fn brought_up(&mut self, catalog: &BackendCatalog, plan: StagePlan)
        requires
            old(self).wf(),
            old(self).fits(*catalog),
            old(self).phase == ActivationPhase::BringingUp,
            plan.stage == old(self).targets@[old(self).pos as int].stage,
            plan.backend_id@ == old(self).targets@[old(self).pos as int].id@,
            commit_fault(*catalog, plan) is None ==> plan_backend(*catalog, plan).stage
                == plan.stage,
        ensures
            final(self).wf(),
            final(self).fits(*catalog),
            final(self).same_task(*old(self)),
            final(self).plans@ == old(self).plans@.push(plan),
            final(self).outline() == target_up(
                *catalog,
                old(self).targets@,
                final(self).plans@,
                old(self).outline(),
            ),
            final(self).runtime == old(self).runtime,
            same_actives(old(self).state, final(self).state),
            notices(final(self).announced@) == notices(old(self).announced@) + (if old(self).pos
                + 1 < old(self).targets@.len() {
                Seq::empty()
            } else {
                at_plan_news(*catalog, final(self).plans@, 0)
            }),
            speaks_as_asked(*final(self)),
    {
        let ghost start = *self;
        self.plans.push(plan);
        proof {
            assert forall|i: int| 0 <= i < self.plans@.len() implies targets_stage(
                self.targets@,
                (#[trigger] self.plans@[i]).stage,
                Some(self.plans@[i].backend_id@),
            ) by {
                if i < start.plans@.len() {
                    assert(self.plans@[i] == start.plans@[i]);
                } else {
                    assert(self.targets@[self.pos as int].stage == plan.stage);
                }
            }
            assert forall|i: int, j: int| 0 <= i < j < self.plans@.len() implies stage_rank(
                (#[trigger] self.plans@[i]).stage,
            ) < stage_rank((#[trigger] self.plans@[j]).stage) by {
                assert(self.plans@[i] == start.plans@[i]);
                if j < start.plans@.len() {
                    assert(self.plans@[j] == start.plans@[j]);
                }
            }
        }
        self.next_target(catalog);
    }

    /// Whether a plan is for synthesis.
    fn speaks(&self) -> (r: bool)
        ensures
            r == !untouched(self.plans@, self.plans@.len() as int, BackendStage::Tts),
    {
        let mut i: usize = 0;
        while i < self.plans.len()
            invariant
                i <= self.plans.len(),
                untouched(self.plans@, i as int, BackendStage::Tts),
            decreases self.plans.len() - i,
        {
            if self.plans[i].stage == BackendStage::Tts {
                return true;
            }
            i += 1;
        }
        false
    }

    /// Ends an activation of which everything is cut over, and tells what came of
    /// it.
    pub fn finish(&mut self) -> (r: LabStackStatus)
        requires
            old(self).wf(),
            old(self).phase == ActivationPhase::Finishing,
        ensures
            final(self).wf(),
            final(self).phase == ActivationPhase::Succeeded,
            final(self).same_task(*old(self)),
            final(self).plans == old(self).plans,
            match old(self).voice {
                Some(v) if untouched(
                    old(self).plans@,
                    old(self).plans@.len() as int,
                    BackendStage::Tts,
                ) => crate::lab::revoiced(old(self).runtime, final(self).runtime, v@),
                _ => final(self).runtime == old(self).runtime,
            },
            speaks_as_asked(*old(self)) ==> match old(self).voice {
                Some(v) => v@.len() > 0 && !text::is_space(v@[0]) && !text::is_space(v@.last())
                    ==> final(self).runtime.cfg.supertonic_voice@ == v@,
                None => final(self).runtime == old(self).runtime,
            },
            final(self).state.asr == old(self).state.asr,
            final(self).state.tts == old(self).state.tts,
            final(self).state.llm == old(self).state.llm,
            final(self).state.last_transition_error@ == ""@,
            crate::lab::settled_transition(
                old(self).state.asr,
                old(self).state.asr_transition,
                final(self).state.asr_transition,
                BackendStage::Asr,
            ),
            crate::lab::settled_transition(
                old(self).state.tts,
                old(self).state.tts_transition,
                final(self).state.tts_transition,
                BackendStage::Tts,
            ),
            crate::lab::settled_transition(
                old(self).state.llm,
                old(self).state.llm_transition,
                final(self).state.llm_transition,
                BackendStage::Llm,
            ),
            crate::lab::shows_state(r, final(self).state, final(self).runtime),
            r.ok,
            r.error_code@ == ""@,
            r.message@ == if old(self).plans@.len() > 0 {
                "stack activated"@
            } else if old(self).voice is Some {
                "voice activated"@
            } else {
                "no changes"@
            },
    {
        let speaks: bool = self.speaks();
        if !speaks {
            match clone_voice(&self.voice) {
                Some(v) => {
                    set_voice(&mut self.runtime, v);
                },
                None => {},
            }
        }
        self.state.settle();
        self.phase = ActivationPhase::Succeeded;
        let mut status: LabStackStatus = stack_status(&self.state, &self.runtime);
        status.message =
        String::from_str(
            if self.plans.len() > 0 {
                "stack activated"
            } else if self.voice.is_some() {
                "voice activated"
            } else {
                "no changes"
            },
        );
        status
    }

    /// How many seconds the turns that run are waited for; a change of the voice
    /// alone waits less.
    pub fn drain_secs(&self) -> (r: u64)
        ensures
            r == if self.targets@.len() == 0 {
                3u64
            } else {
                10u64
            },
    {
        if self.targets.len() == 0 {
            3
        } else {
            10
        }
    }

    /// What is told of an activation that failed.
    pub fn failed_report(&self) -> (r: LabStackStatus)
        requires
            self.wf(),
            self.phase == ActivationPhase::Failed,
        ensures
            crate::lab::shows_state(r, self.state, self.runtime),
            !r.ok,
            r.message@ == failure(text::views(self.errors@)),
            r.error_code@ == crate::lab::error_code_of(failure(text::views(self.errors@))),
    {
        let message: String = text::join(&self.errors, "; ");
        failed_status(&self.state, &self.runtime, message)
    }
}

/// Whether an activation is what another becomes after a reply.
pub open spec fn follows(
    a: Activation,
    b: Activation,
    c: BackendCatalog,
    external_model: Option<String>,
    r: ReplyView,
) -> bool {
    let plan = a.plans@[a.pos as int];
    &&& b.same_task(a)
    &&& b.plans == a.plans
    &&& b.outline() == advanced(c, a.docker, a.targets@, a.plans@, a.outline(), r)
    &&& notices(b.announced@) == notices(a.announced@) + news(
        c,
        a.docker,
        a.targets@,
        a.plans@,
        a.outline(),
        r,
    )
    &&& applies(a.docker, a.phase, r) || b.phase == ActivationPhase::RollingBack || b.phase
        == ActivationPhase::Failed || b.runtime == a.runtime
    &&& applies(a.docker, a.phase, r) && b.phase != ActivationPhase::RollingBack ==> activated_by(
        c,
        a.runtime,
        b.runtime,
        plan,
        a.voice,
        external_model,
    )
    &&& state_follows(a, b, c, r)
}

/// Whether the state of the controller is what becomes of it after a reply, but for
/// the transitions, which show the announcements: the backend of a plan that is cut
/// over takes its stage and no other changes, and a rollback that failed leaves all
/// as it is but for the error.
pub open spec fn state_follows(a: Activation, b: Activation, c: BackendCatalog, r: ReplyView) -> bool {
    if a.phase == ActivationPhase::Finishing || a.phase == ActivationPhase::Succeeded || a.phase
        == ActivationPhase::Failed {
        b.state == a.state
    } else if b.phase == ActivationPhase::Failed {
        &&& b.state.last_transition_error@ == failure(text::views(b.errors@))
        &&& b.state == (ControllerState {
            last_transition_error: b.state.last_transition_error,
            ..if b.rollback_failed {
                a.state
            } else {
                a.state_before
            }
        })
    } else if commits(a, c, r) {
        takes_stage(c, a.plans@[a.pos as int], a.state, b.state)
    } else {
        same_actives(a.state, b.state)
    }
}

/// Whether a backend has taken over the stage of its plan and no other.
pub open spec fn takes_stage(
    c: BackendCatalog,
    plan: StagePlan,
    before: ControllerState,
    after: ControllerState,
) -> bool {
    &&& same_actives_but(before, after, plan.stage)
    &&& crate::lab::active_of(after, plan.stage) matches Some(x) && is_record(
        x,
        plan,
        plan_variant(c, plan),
    )
}

/// Whether a reply makes the current plan take over its stage.
pub open spec fn commits(a: Activation, c: BackendCatalog, r: ReplyView) -> bool {
    (applies(a.docker, a.phase, r) && !loads_model(c, a.plans@[a.pos as int])) || (a.phase
        == ActivationPhase::Reloading && r is Done)
}

/// Whether a runtime results from pointing it at a plan.
pub open spec fn activated_by(
    c: BackendCatalog,
    before: RuntimeState,
    after: RuntimeState,
    plan: StagePlan,
    voice: Option<String>,
    external_model: Option<String>,
) -> bool {
    crate::lab::activated(
        before,
        after,
        plan_backend(c, plan),
        plan_variant(c, plan),
        plan.endpoint@,
        plan_voice(voice, plan),
        external_model,
    )
}

proof fn lemma_told_is_up_to_date(a: Activation, b: Activation)
    requires
        told(a, b),
        a.up_to_date(),
    ensures
        b.up_to_date(),
{
    assert(shows_last(b, BackendStage::Asr));
    assert(shows_last(b, BackendStage::Tts));
    assert(shows_last(b, BackendStage::Llm));
}

proof fn lemma_nothing_cut_over(a: Activation)
    requires
        a.runtime == a.runtime_before,
        same_actives(a.state, a.state_before),
    ensures
        cut_over(a, 0),
{
}

proof fn lemma_pointed_moves(a: Activation, b: Activation)
    requires
        pointed(a),
        b == (Activation { phase: b.phase, ..a }),
    ensures
        pointed(b),
{
    assert forall|i: int| 0 <= i < b.pos implies serves(
        #[trigger] b.plans@[i],
        b.runtime,
        b.state,
    ) by {
        assert(serves(a.plans@[i], a.runtime, a.state));
    }
    assert forall|stage: BackendStage| #[trigger]
        untouched(b.plans@, b.pos as int, stage) && stage != b.plans@[b.pos as int].stage implies
        as_before(b, stage) by {
        assert(untouched(a.plans@, a.pos as int, stage));
        assert(as_before(a, stage));
    }
}

proof fn lemma_applied(
    a: Activation,
    b: Activation,
    d: BackendDefinition,
    v: BackendVariant,
    external_model: Option<String>,
)
    requires
        a.wf(),
        a.phase == ActivationPhase::Releasing || a.phase == ActivationPhase::Clearing,
        b == (Activation { runtime: b.runtime, ..a }),
        d.id@ == a.plans@[a.pos as int].backend_id@,
        d.stage == a.plans@[a.pos as int].stage,
        crate::lab::activated(
            a.runtime,
            b.runtime,
            d,
            v,
            a.plans@[a.pos as int].endpoint@,
            plan_voice(a.voice, a.plans@[a.pos as int]),
            external_model,
        ),
    ensures
        pointed(b),
{
    let plan = a.plans@[a.pos as int];
    assert forall|i: int| 0 <= i < b.pos implies serves(
        #[trigger] b.plans@[i],
        b.runtime,
        b.state,
    ) by {
        assert(serves(a.plans@[i], a.runtime, a.state));
        assert(stage_rank(a.plans@[i].stage) < stage_rank(a.plans@[a.pos as int].stage));
    }
    assert forall|stage: BackendStage| #[trigger]
        untouched(b.plans@, b.pos as int, stage) && stage != plan.stage implies as_before(
        b,
        stage,
    ) by {
        assert(untouched(a.plans@, a.pos as int, stage));
        assert(as_before(a, stage));
    }
}

proof fn lemma_taken_over(a: Activation, b: Activation)
    requires
        pointed(a),
        a.sound(),
        a.pos < a.plans@.len(),
        b.plans == a.plans,
        b.pos == a.pos,
        b.runtime == a.runtime,
        b.runtime_before == a.runtime_before,
        b.state_before == a.state_before,
        forall|stage: BackendStage|
            stage != a.plans@[a.pos as int].stage ==> #[trigger] crate::lab::active_of(
                b.state,
                stage,
            ) == crate::lab::active_of(a.state, stage),
        serves(a.plans@[a.pos as int], b.runtime, b.state),
    ensures
        cut_over(b, a.pos + 1),
{
    let plan = a.plans@[a.pos as int];
    assert forall|i: int| 0 <= i < a.pos + 1 implies serves(
        #[trigger] b.plans@[i],
        b.runtime,
        b.state,
    ) by {
        if i < a.pos {
            assert(serves(a.plans@[i], a.runtime, a.state));
            assert(stage_rank(a.plans@[i].stage) < stage_rank(a.plans@[a.pos as int].stage));
        }
    }
    assert forall|stage: BackendStage| #[trigger]
        untouched(b.plans@, a.pos + 1, stage) implies as_before(b, stage) by {
        assert(b.plans@[a.pos as int].stage != stage);
        assert(untouched(a.plans@, a.pos as int, stage));
        assert(as_before(a, stage));
    }
}

/// A failed activation whose rollback worked leaves everything as it was but for
/// the error that the controller reports; the runtime is as it was in any case.
pub proof fn law_failed_activation_changes_nothing(a: Activation)
    requires
        a.wf(),
        a.phase == ActivationPhase::Failed,
    ensures
        a.runtime == a.runtime_before,
        a.state.last_transition_error@ == failure(text::views(a.errors@)),
        !a.rollback_failed ==> a.state.asr == a.state_before.asr && a.state.tts
            == a.state_before.tts && a.state.llm == a.state_before.llm && a.state.asr_transition
            == a.state_before.asr_transition && a.state.tts_transition
            == a.state_before.tts_transition && a.state.llm_transition
            == a.state_before.llm_transition,
{
}

/// Nothing is cut over before all replacements are up.
pub proof fn law_no_cut_over_before_all_are_up(a: Activation)
    requires
        a.wf(),
        is_before_commit(a.phase),
    ensures
        a.runtime == a.runtime_before,
        a.state.asr == a.state_before.asr,
        a.state.tts == a.state_before.tts,
        a.state.llm == a.state_before.llm,
{
}

/// When everything is cut over, every plan serves its stage, and a stage without a
/// plan, the language model of a recognition switch for one, is served as before.
pub proof fn law_cut_over_is_complete(a: Activation, stage: BackendStage)
    requires
        a.wf(),
        a.phase == ActivationPhase::Finishing,
    ensures
        forall|i: int| 0 <= i < a.plans@.len() ==> serves(#[trigger] a.plans@[i], a.runtime, a.state),
        targets_stage(a.targets@, stage, None) ==> as_before(a, stage),
{
    if targets_stage(a.targets@, stage, None) {
        assert forall|i: int| 0 <= i < a.plans@.len() implies (#[trigger] a.plans@[i]).stage
            != stage by {
            assert(targets_stage(
                a.targets@,
                a.plans@[i].stage,
                Some(a.plans@[i].backend_id@),
            ));
        }
        assert(untouched(a.plans@, a.plans@.len() as int, stage));
    }
}

// ---------------------------------------------------------------------------
// The work of the steps
// ---------------------------------------------------------------------------

/// Why a target cannot be prepared, as far as the catalog tells.
pub open spec fn prepare_fault(
    c: BackendCatalog,
    hw: HardwareProfile,
    docker: bool,
    stage: BackendStage,
    id: Seq<char>,
) -> Option<Seq<char>> {
    match crate::bring_up::stage_fault(c, hw, stage, id) {
        Some(m) => Some(m),
        None => {
            let b = c.backends@[crate::registry::backend_index(c.backends@, id).unwrap()];
            let v = b.variants@[crate::registry::chosen(b.variants@, hw).unwrap()];
            if v.container@.len() > 0 && !docker {
                Some("module_not_provisioned: managed Speech Lab controller is unavailable"@)
            } else {
                None
            }
        },
    }
}

/// The backend and the variant to prepare, by their indices.
pub fn prepare_target(
    catalog: &BackendCatalog,
    hw: &HardwareProfile,
    docker: bool,
    stage: BackendStage,
    id: &str,
) -> (r: Result<(usize, usize), String>)
    ensures
        match r {
            Ok((i, k)) => {
                &&& prepare_fault(*catalog, *hw, docker, stage, id@) is None
                &&& crate::registry::backend_index(catalog.backends@, id@) == Some(i as int)
                &&& i < catalog.backends@.len()
                &&& crate::registry::chosen(catalog.backends@[i as int].variants@, *hw) == Some(
                    k as int,
                )
                &&& k < catalog.backends@[i as int].variants@.len()
            },
            Err(m) => prepare_fault(*catalog, *hw, docker, stage, id@) == Some(m@),
        },
{
    let i: usize = match catalog.position(id) {
        Some(i) => i,
        None => {
            return Err(wrap("unknown backend id '", id, "'"));
        },
    };
    let b: &BackendDefinition = &catalog.backends[i];
    if b.stage != stage {
        return Err(crate::bring_up::wrong_stage(id, b.stage, stage));
    }
    let k: usize = match crate::registry::resolve_index(b, hw) {
        Some(k) => k,
        None => {
            return Err(
                wrap("backend '", id, "' has no compatible certified variant for this host"),
            );
        },
    };
    if !b.variants[k].container.as_str().is_empty() && !docker {
        return Err(
            String::from_str(
                "module_not_provisioned: managed Speech Lab controller is unavailable",
            ),
        );
    }
    Ok((i, k))
}

/// Whether the runtime of a container is provisioned.
pub fn check_provisioned(variant: &BackendVariant, runtime_state: &str) -> (r: Result<(), String>)
    ensures
        crate::registry::reports(
            r,
            if runtime_state@ == "ready"@ || runtime_state@ == "running"@ {
                None
            } else {
                Some(
                    "module_not_provisioned: runtime '"@ + variant.id@ + "' is "@ + runtime_state@,
                )
            },
        ),
{
    if text::same(runtime_state, "ready") || text::same(runtime_state, "running") {
        return Ok(());
    }
    let mut m: String = wrap(
        "module_not_provisioned: runtime '",
        variant.id.as_str(),
        "' is ",
    );
    m.append(runtime_state);
    Err(m)
}

/// Whether the host agent has to stop what serves the stage of a plan: a plan that
/// the host agent does not serve itself takes over from one that it does.
pub open spec fn releases_host(c: BackendCatalog, plan: StagePlan, s: ControllerState) -> bool {
    &&& commit_fault(c, plan) is None
    &&& plan_variant(c, plan).host_profile@.len() == 0
    &&& crate::lab::active_of(s, plan.stage) matches Some(a) && crate::containers::is_managed_host(
        c,
        a,
    )
}

pub fn must_release_host(catalog: &BackendCatalog, plan: &StagePlan, s: &ControllerState) -> (r: bool)
    ensures
        r == releases_host(*catalog, *plan, *s),
{
    match catalog.find(plan.backend_id.as_str()) {
        Some(b) => match find_variant(b, plan.variant_id.as_str()) {
            Some(k) => {
                if !b.variants[k].host_profile.as_str().is_empty() {
                    return false;
                }
                match s.active(plan.stage) {
                    Some(a) => crate::containers::managed_by_host(catalog, a),
                    None => false,
                }
            },
            None => false,
        },
        None => false,
    }
}

/// The error for a host process that could not be stopped.
pub fn release_failure(backend_id: &str, error: &str) -> (r: String)
    ensures
        r@ == "stop previous host backend "@ + backend_id@ + ": "@ + error@,
{
    let mut m: String = wrap("stop previous host backend ", backend_id, ": ");
    m.append(error);
    m
}

/// An unknown backend cannot be prepared, so selecting one fails the activation
/// before anything is touched.
pub proof fn law_unknown_backend_is_refused(
    c: BackendCatalog,
    hw: HardwareProfile,
    docker: bool,
    stage: BackendStage,
    id: Seq<char>,
    targets: Seq<Target>,
    o: Outline,
)
    requires
        crate::registry::backend_index(c.backends@, id) is None,
        o.phase == ActivationPhase::Preparing,
    ensures
        prepare_fault(c, hw, docker, stage, id) matches Some(m) && advanced(
            c,
            docker,
            targets,
            Seq::empty(),
            o,
            ReplyView::Failed(m),
        ).phase == ActivationPhase::Failed,
{
}

/// How many plans the runtime points at after a reply.
proof fn lemma_taken(
    c: BackendCatalog,
    docker: bool,
    targets: Seq<Target>,
    plans: Seq<StagePlan>,
    o: Outline,
    r: ReplyView,
)
    requires
        o.pos >= 0,
        o.phase == ActivationPhase::Preparing || o.phase == ActivationPhase::Draining
            ==> plans.len() == 0,
        works_on_plan(o.phase) ==> o.pos < plans.len(),
    ensures
        ({
            let p = advanced(c, docker, targets, plans, o, r);
            let before = taken_at(o.phase, o.pos, plans.len());
            let after = taken_at(p.phase, p.pos, plans.len());
            &&& after > 0 ==> p.phase != ActivationPhase::RollingBack && p.phase
                != ActivationPhase::Failed
            &&& applies(docker, o.phase, r) ==> works_on_plan(o.phase) && before == o.pos && after
                <= before + 1
            &&& !applies(docker, o.phase, r) ==> after <= before
        }),
{
}

/// Once the runtime points at a plan for synthesis it speaks with the voice that is
/// asked for, and no later step of the activation changes that.
pub proof fn law_step_keeps_the_voice(
    a: Activation,
    b: Activation,
    c: BackendCatalog,
    external_model: Option<String>,
    r: ReplyView,
)
    requires
        a.wf(),
        a.fits(c),
        follows(a, b, c, external_model, r),
        speaks_as_asked(a),
    ensures
        speaks_as_asked(b),
{
    assert(a.phase == ActivationPhase::Preparing || a.phase == ActivationPhase::Draining
        ==> a.plans@.len() == 0);
    assert(works_on_plan(a.phase) ==> a.pos < a.plans@.len());
    lemma_taken(c, a.docker, a.targets@, a.plans@, a.outline(), r);
    assert(b.outline().phase == b.phase && b.outline().pos == b.pos);
    if applies(a.docker, a.phase, r) && plans_taken(b) > 0 {
        let plan = a.plans@[a.pos as int];
        assert(commit_fault(c, plan) is None);
        assert(plan_backend(c, plan).stage == plan.stage);
        let d = plan_backend(c, plan);
        let voice = plan_voice(a.voice, plan);
        let v = plan_variant(c, plan);
        if d.stage == BackendStage::Tts {
            crate::lab::law_requested_voice_is_taken(
                a.runtime,
                b.runtime,
                d,
                v,
                plan.endpoint@,
                voice,
                external_model,
            );
        } else {
            crate::lab::law_activation_points_at_the_backend(
                a.runtime,
                b.runtime,
                d,
                v,
                plan.endpoint@,
                voice,
                external_model,
            );
        }
        lemma_applied_voice(a, b);
    } else if plans_taken(b) > 0 {
        assert(b.runtime == a.runtime);
        lemma_same_voice(a, b);
    }
}

proof fn lemma_same_voice(a: Activation, b: Activation)
    requires
        a.voice == b.voice,
        a.plans == b.plans,
        a.runtime == b.runtime,
        plans_taken(b) <= plans_taken(a),
        speaks_as_asked(a),
    ensures
        speaks_as_asked(b),
{
}

proof fn lemma_applied_voice(a: Activation, b: Activation)
    requires
        a.voice == b.voice,
        a.plans == b.plans,
        a.pos < a.plans@.len(),
        plans_taken(a) == a.pos,
        plans_taken(b) <= a.pos + 1,
        speaks_as_asked(a),
        match a.voice {
            Some(v) => if a.plans@[a.pos as int].stage == BackendStage::Tts {
                v@.len() > 0 && !text::is_space(v@[0]) && !text::is_space(v@.last())
                    ==> b.runtime.cfg.supertonic_voice@ == v@
            } else {
                b.runtime.cfg.supertonic_voice == a.runtime.cfg.supertonic_voice
            },
            None => true,
        },
    ensures
        speaks_as_asked(b),
{
    if a.voice is Some {
        let v = a.voice.unwrap()@;
        assert forall|i: int|
            0 <= i < plans_taken(b) && (#[trigger] b.plans@[i]).stage == BackendStage::Tts
                && v.len() > 0 && !text::is_space(v[0]) && !text::is_space(v.last()) implies
            b.runtime.cfg.supertonic_voice@ == v by {
            assert(a.plans@[i].stage == BackendStage::Tts);
        }
    }
}

/// A voice is asked of the backend that is to be activated, else of the one that
/// serves, else of the one that the runtime asks.
pub proof fn law_whose_voice(request: ActivateStackRequest, s: ControllerState, rt: RuntimeState)
    ensures
        request.tts_id is Some ==> voice_backend(request, s, rt) == request.tts_id.unwrap()@,
        request.tts_id is None && s.tts is Some ==> voice_backend(request, s, rt)
            == s.tts.unwrap().backend_id@,
        request.tts_id is None && s.tts is None ==> voice_backend(request, s, rt) == rt.tts_id@,
        request.tts_id is Some && text::trim(request.tts_id.unwrap()@).len() > 0 ==> next_tts(
            request,
            rt,
        ) == text::trim(request.tts_id.unwrap()@),
        request.tts_id is None ==> next_tts(request, rt) == rt.tts_id@,
{
}

/// A new voice restarts a backend only if it is the one that serves and cannot change
/// its voice otherwise; the voice that it has does not.
pub proof fn law_restart_for_a_voice(
    c: BackendCatalog,
    tts_id: Seq<char>,
    rt: RuntimeState,
    voice: String,
)
    ensures
        !needs_restart(c, tts_id, rt, None),
        text::lower(voice@) == text::lower(rt.cfg.supertonic_voice@) ==> !needs_restart(
            c,
            tts_id,
            rt,
            Some(voice),
        ),
        rt.tts_id@ != tts_id ==> !needs_restart(c, tts_id, rt, Some(voice)),
        match crate::registry::backend_index(c.backends@, tts_id) {
            Some(i) => {
                &&& c.backends@[i].voice_mode != VoiceMode::Restart ==> !needs_restart(
                    c,
                    tts_id,
                    rt,
                    Some(voice),
                )
                &&& c.backends@[i].voice_mode == VoiceMode::Restart && rt.tts_id@ == tts_id
                    && text::lower(voice@) != text::lower(rt.cfg.supertonic_voice@) ==> needs_restart(
                    c,
                    tts_id,
                    rt,
                    Some(voice),
                )
            },
            None => !needs_restart(c, tts_id, rt, Some(voice)),
        },
{
}

/// A backend that is asked for is switched to unless it serves already; where its voice
/// needs a restart it is switched to in any case, also if only the voice is asked for.
pub proof fn law_what_is_switched(id: String, next: Seq<char>)
    ensures
        switch_to(Some(id), false) == Some(id@),
        switch_to(Some(id), true) is None,
        switch_to(None, false) is None,
        switch_tts_to(Some(id), false, false, next) == Some(id@),
        switch_tts_to(Some(id), true, false, next) is None,
        switch_tts_to(Some(id), true, true, next) == Some(id@),
        switch_tts_to(None, true, true, next) == Some(next),
        switch_tts_to(None, true, false, next) is None,
{
}

/// A backend serves already if it is the active one, is still in the catalog, and
/// runs: on the host by a running process of its own, in a container by the container.
pub proof fn law_already_active(
    c: BackendCatalog,
    a: ActiveBackend,
    stage: BackendStage,
    id: Seq<char>,
    agent: Option<HostAgentStatus>,
    docker: bool,
    running: bool,
)
    ensures
        !already_active(c, None, stage, id, agent, docker, running),
        already_active(c, Some(a), stage, id, agent, docker, running) ==> a.backend_id@ == id
            && crate::registry::backend_index(c.backends@, id) is Some,
        a.backend_id@ == id ==> match crate::registry::backend_index(c.backends@, id) {
            Some(i) => match crate::bring_up::variant_index(
                c.backends@[i].variants@,
                a.variant_id@,
            ) {
                Some(k) => {
                    let v = c.backends@[i].variants@[k];
                    &&& v.host_profile@.len() > 0 && agent is None ==> !already_active(
                        c,
                        Some(a),
                        stage,
                        id,
                        agent,
                        docker,
                        running,
                    )
                    &&& v.host_profile@.len() == 0 && docker && a.container@.len() > 0 ==> (
                    already_active(c, Some(a), stage, id, agent, docker, running) <==> running)
                    &&& v.host_profile@.len() == 0 && (!docker || a.container@.len() == 0)
                        ==> already_active(c, Some(a), stage, id, agent, docker, running)
                },
                None => !already_active(c, Some(a), stage, id, agent, docker, running),
            },
            None => true,
        },
{
}

/// Stages are switched in the order recognition, synthesis, language model, and each
/// at most once.
pub proof fn law_order_of_stages(ts: Seq<Target>, i: int, j: int)
    requires
        in_order(ts),
        0 <= i < j < ts.len(),
    ensures
        ts[i].stage != ts[j].stage,
        ts[i].stage != BackendStage::Llm,
        ts[j].stage != BackendStage::Asr,
        ts.len() <= 3,
{
    assert(stage_rank(ts[i].stage) < stage_rank(ts[j].stage));
    if ts.len() > 3 {
        assert(stage_rank(ts[0].stage) < stage_rank(ts[1].stage));
        assert(stage_rank(ts[1].stage) < stage_rank(ts[2].stage));
        assert(stage_rank(ts[2].stage) < stage_rank(ts[3].stage));
    }
}

/// The order of an activation: all targets are prepared, the running turns end, all
/// replacements are brought up, and only then the first plan is worked on.
pub proof fn law_order_of_an_activation(
    c: BackendCatalog,
    docker: bool,
    targets: Seq<Target>,
    plans: Seq<StagePlan>,
    o: Outline,
    r: ReplyView,
)
    ensures
        ({
            let p = advanced(c, docker, targets, plans, o, r);
            &&& o.phase == ActivationPhase::Preparing && r is Done && o.pos + 1 < targets.len()
                ==> p.phase == ActivationPhase::Preparing && p.pos == o.pos + 1
            &&& o.phase == ActivationPhase::Preparing && r is Done && o.pos + 1 >= targets.len()
                ==> p.phase == ActivationPhase::Draining
            &&& o.phase == ActivationPhase::Draining && targets.len() > 0 ==> p.phase
                == ActivationPhase::BringingUp && p.pos == 0
            &&& o.phase == ActivationPhase::BringingUp && r is Done && o.pos + 1 < targets.len()
                ==> p.phase == ActivationPhase::BringingUp && p.pos == o.pos + 1
            &&& p.phase == ActivationPhase::Releasing && !works_on_plan(o.phase) ==> o.phase
                == ActivationPhase::BringingUp && r is Done && o.pos + 1 >= targets.len() && p.pos
                == 0
            &&& o.phase == ActivationPhase::Releasing && r is Done && docker ==> p.phase
                == ActivationPhase::Clearing && p.pos == o.pos
        }),
{
}

/// Whatever fails before the first stage is cut over fails the activation after what
/// was started is put back; whatever fails later rolls the stack back. Either way the
/// activation fails, with every error that came up.
pub proof fn law_failures_of_an_activation(
    c: BackendCatalog,
    docker: bool,
    targets: Seq<Target>,
    plans: Seq<StagePlan>,
    o: Outline,
    m: Seq<char>,
)
    ensures
        ({
            let p = advanced(c, docker, targets, plans, o, ReplyView::Failed(m));
            &&& o.phase == ActivationPhase::Preparing ==> p.phase == ActivationPhase::Failed
            &&& o.phase == ActivationPhase::BringingUp ==> p.phase == ActivationPhase::Restoring
            &&& o.phase == ActivationPhase::Releasing || o.phase == ActivationPhase::Reloading
                ==> p.phase == ActivationPhase::RollingBack
            &&& o.phase == ActivationPhase::Restoring || o.phase == ActivationPhase::RollingBack
                ==> p.phase == ActivationPhase::Failed && p.rollback_failed && p.errors
                == o.errors.push("rollback: "@ + m)
            &&& o.phase == ActivationPhase::Preparing || o.phase == ActivationPhase::BringingUp
                || o.phase == ActivationPhase::Releasing || o.phase == ActivationPhase::Reloading
                ==> p.errors.len() == 1
            &&& o.phase == ActivationPhase::BringingUp && targets[o.pos].stage == BackendStage::Tts
                ==> p.errors[0] == "TTS"@ + ": "@ + m
            &&& o.phase == ActivationPhase::BringingUp && targets[o.pos].stage == BackendStage::Asr
                ==> p.errors[0] == "ASR"@ + ": "@ + m
        }),
        o.phase == ActivationPhase::Restoring || o.phase == ActivationPhase::RollingBack
            ==> advanced(c, docker, targets, plans, o, ReplyView::Done).phase
            == ActivationPhase::Failed && advanced(
            c,
            docker,
            targets,
            plans,
            o,
            ReplyView::Done,
        ).errors == o.errors,
{
}

/// A stage that is cut over is served by the backend, the variant, the endpoint and the
/// container of its plan, and the other stages by what served them.
pub proof fn law_cut_over_stage(
    c: BackendCatalog,
    plan: StagePlan,
    before: ControllerState,
    after: ControllerState,
)
    requires
        takes_stage(c, plan, before, after),
    ensures
        plan.stage == BackendStage::Tts ==> after.tts is Some && after.tts.unwrap().backend_id@
            == plan.backend_id@ && after.tts.unwrap().variant_id@ == plan.variant_id@
            && after.tts.unwrap().endpoint@ == plan.endpoint@ && after.tts.unwrap().container@
            == plan.container@ && after.asr == before.asr && after.llm == before.llm,
        plan.stage == BackendStage::Asr ==> after.asr is Some && after.asr.unwrap().backend_id@
            == plan.backend_id@ && after.asr.unwrap().variant_id@ == plan.variant_id@
            && after.asr.unwrap().endpoint@ == plan.endpoint@ && after.asr.unwrap().container@
            == plan.container@ && after.tts == before.tts && after.llm == before.llm,
        plan.stage == BackendStage::Llm ==> after.llm is Some && after.llm.unwrap().backend_id@
            == plan.backend_id@ && after.llm.unwrap().endpoint@ == plan.endpoint@ && after.asr
            == before.asr && after.tts == before.tts,
{
}

/// A target can be prepared if its backend can be brought up and, where it runs in a
/// container, containers are managed.
pub proof fn law_prepared_target(
    c: BackendCatalog,
    hw: HardwareProfile,
    docker: bool,
    stage: BackendStage,
    id: Seq<char>,
)
    ensures
        match crate::registry::backend_index(c.backends@, id) {
            Some(i) => match crate::registry::chosen(c.backends@[i].variants@, hw) {
                Some(k) => prepare_fault(c, hw, docker, stage, id) is None <==> c.backends@[i].stage
                    == stage && (docker || c.backends@[i].variants@[k].container@.len() == 0),
                None => prepare_fault(c, hw, docker, stage, id) is Some,
            },
            None => prepare_fault(c, hw, docker, stage, id) is Some,
        },
{
}

/// The variant that is preferred is the chosen one of the first backend with the id;
/// for an unknown backend there is none.
pub proof fn law_preferred_variant(c: BackendCatalog, hw: HardwareProfile, id: Seq<char>, i: int)
    ensures
        0 <= i < c.backends@.len() && c.backends@[i].id@ == id && (forall|j: int|
            0 <= j < i ==> (#[trigger] c.backends@[j]).id@ != id) ==> match crate::registry::chosen(
            c.backends@[i].variants@,
            hw,
        ) {
            Some(k) => preferred_variant(c, hw, id) == c.backends@[i].variants@[k].id@,
            None => preferred_variant(c, hw, id).len() == 0,
        },
        (forall|j: int| 0 <= j < c.backends@.len() ==> (#[trigger] c.backends@[j]).id@ != id)
            ==> preferred_variant(c, hw, id).len() == 0,
{
    crate::registry::law_lookup_finds_the_first(c.backends@, id);
    if 0 <= i < c.backends@.len() && c.backends@[i].id@ == id && (forall|j: int|
        0 <= j < i ==> (#[trigger] c.backends@[j]).id@ != id) {
        assert(crate::registry::has_backend(c.backends@, c.backends@.len() as int, id));
        assert(crate::registry::backend_index(c.backends@, id) == Some(i));
    }
}

/// The host agent is asked to stop what serves a stage only where it runs it, and not
/// where it starts the next one too.
pub proof fn law_host_is_released(c: BackendCatalog, plan: StagePlan, s: ControllerState)
    ensures
        releases_host(c, plan, s) ==> crate::lab::active_of(s, plan.stage) is Some
            && crate::containers::is_managed_host(
            c,
            crate::lab::active_of(s, plan.stage).unwrap(),
        ) && plan_variant(c, plan).host_profile@.len() == 0,
        commit_fault(c, plan) is None && plan_variant(c, plan).host_profile@.len() == 0 && (
        crate::lab::active_of(s, plan.stage) matches Some(a) && crate::containers::is_managed_host(
            c,
            a,
        )) ==> releases_host(c, plan, s),
{
}

/// The stages go by their names in capitals, and in messages by their names as titles.
pub proof fn law_short_names_of_stages()
    ensures
        short_name(BackendStage::Asr) == "ASR"@,
        short_name(BackendStage::Tts) == "TTS"@,
        short_name(BackendStage::Llm) == "LLM"@,
        crate::lab::stage_title(BackendStage::Asr) == "Asr"@,
        crate::lab::stage_title(BackendStage::Tts) == "Tts"@,
        crate::lab::stage_title(BackendStage::Llm) == "Llm"@,
{
}

} // verus!
