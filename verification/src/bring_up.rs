//! Bringing up a backend for a stage: which of its variants are tried, in which
//! order, and what happens when one of them does not come up.
//!
//! The candidates are tried in turn. A candidate is started, probed and warmed;
//! one that fails after it was started is stopped before the next one is tried.
//! A host profile may need the port of the container that serves the stage now,
//! so that container is paused first; if in the end no candidate comes up it is
//! started again.

use crate::lab::{title_of_stage, ActiveBackend, StageTransition, TransitionPhase};
use crate::registry::{
    endpoint_for, variant_is_compatible, variant_rank, wrap, wrap2, BackendCatalog,
    BackendDefinition, BackendStage, BackendVariant, HardwareProfile,
};
use crate::runtime::RuntimeState;
use crate::text;
use vstd::prelude::*;

verus! {

// ---------------------------------------------------------------------------
// Lookup
// ---------------------------------------------------------------------------

/// The first variant with an id.
pub open spec fn variant_index(vs: Seq<BackendVariant>, id: Seq<char>) -> Option<int>
    decreases vs.len(),
{
    if vs.len() == 0 {
        None
    } else {
        match variant_index(vs.drop_last(), id) {
            Some(i) => Some(i),
            None => if vs.last().id@ == id {
                Some(vs.len() - 1)
            } else {
                None
            },
        }
    }
}

proof fn lemma_variant_index(vs: Seq<BackendVariant>, id: Seq<char>)
    ensures
        match variant_index(vs, id) {
            Some(i) => 0 <= i < vs.len() && vs[i].id@ == id && forall|j: int|
                0 <= j < i ==> (#[trigger] vs[j]).id@ != id,
            None => forall|j: int| 0 <= j < vs.len() ==> (#[trigger] vs[j]).id@ != id,
        },
    decreases vs.len(),
{
    if vs.len() > 0 {
        let t = vs.drop_last();
        lemma_variant_index(t, id);
        assert(forall|j: int| 0 <= j < t.len() ==> #[trigger] vs[j] == t[j]);
    }
}

/// The index of the first variant with an id.
pub fn find_variant(backend: &BackendDefinition, id: &str) -> (r: Option<usize>)
    ensures
        match r {
            Some(i) => variant_index(backend.variants@, id@) == Some(i as int) && i
                < backend.variants.len(),
            None => variant_index(backend.variants@, id@) is None,
        },
{
    let mut i: usize = 0;
    while i < backend.variants.len()
        invariant
            i <= backend.variants.len(),
            forall|j: int| 0 <= j < i ==> (#[trigger] backend.variants@[j]).id@ != id@,
        decreases backend.variants.len() - i,
    {
        if text::same(backend.variants[i].id.as_str(), id) {
            proof {
                lemma_variant_index(backend.variants@, id@);
            }
            return Some(i);
        }
        i += 1;
    }
    proof {
        lemma_variant_index(backend.variants@, id@);
    }
    None
}

/// Why a backend cannot serve a stage.
pub open spec fn stage_fault(
    c: BackendCatalog,
    hw: HardwareProfile,
    stage: BackendStage,
    id: Seq<char>,
) -> Option<Seq<char>> {
    match crate::registry::backend_index(c.backends@, id) {
        None => Some("unknown backend id '"@ + id + "'"@),
        Some(i) => if c.backends@[i].stage != stage {
            Some(
                "backend '"@ + id + "' belongs to "@ + crate::lab::stage_title(
                    c.backends@[i].stage,
                ) + ", not "@ + crate::lab::stage_title(stage),
            )
        } else if crate::registry::chosen(c.backends@[i].variants@, hw) is None {
            Some("backend '"@ + id + "' has no compatible certified variant for this host"@)
        } else {
            None
        },
    }
}

pub fn wrong_stage(id: &str, actual: BackendStage, stage: BackendStage) -> (r: String)
    ensures
        r@ == "backend '"@ + id@ + "' belongs to "@ + crate::lab::stage_title(actual) + ", not "@
            + crate::lab::stage_title(stage),
{
    let mut m: String = wrap2("backend '", id, "' belongs to ", title_of_stage(actual), ", not ");
    m.append(title_of_stage(stage));
    m
}

// ---------------------------------------------------------------------------
// Candidates
// ---------------------------------------------------------------------------

/// Whether one variant is tried before another.
pub open spec fn tried_before(
    vs: Seq<BackendVariant>,
    hw: HardwareProfile,
    i: usize,
    j: usize,
) -> bool {
    let ri = crate::registry::rank_of(vs[i as int], hw);
    let rj = crate::registry::rank_of(vs[j as int], hw);
    ri < rj || (ri == rj && i < j)
}

/// Whether a list holds exactly the variants that can run on a machine, best
/// rank first and in catalog order among equals.
pub open spec fn candidate_order(
    vs: Seq<BackendVariant>,
    hw: HardwareProfile,
    list: Seq<usize>,
) -> bool {
    &&& forall|k: int|
        0 <= k < list.len() ==> (#[trigger] list[k]) < vs.len()
            && crate::registry::matches_hardware(vs[list[k] as int], hw)
    &&& forall|i: int|
        0 <= i < vs.len() && crate::registry::matches_hardware(#[trigger] vs[i], hw)
            ==> list.contains(i as usize)
    &&& forall|a: int, b: int|
        0 <= a < b < list.len() ==> tried_before(vs, hw, #[trigger] list[a], #[trigger] list[b])
}

/// The variants to try on a machine, preferred first.
pub fn ranked_variants(backend: &BackendDefinition, hw: &HardwareProfile) -> (r: Vec<usize>)
    ensures
        candidate_order(backend.variants@, *hw, r@),
{
    let ghost vs = backend.variants@;
    let mut list: Vec<usize> = Vec::new();
    let mut i: usize = 0;
    while i < backend.variants.len()
        invariant
            vs == backend.variants@,
            i <= backend.variants.len(),
            forall|k: int|
                0 <= k < list.len() ==> (#[trigger] list@[k]) < i
                    && crate::registry::matches_hardware(vs[list@[k] as int], *hw),
            forall|j: int|
                0 <= j < i && crate::registry::matches_hardware(#[trigger] vs[j], *hw)
                    ==> list@.contains(j as usize),
            forall|a: int, b: int|
                0 <= a < b < list.len() ==> tried_before(
                    vs,
                    *hw,
                    #[trigger] list@[a],
                    #[trigger] list@[b],
                ),
        decreases backend.variants.len() - i,
    {
        if variant_is_compatible(&backend.variants[i], hw) {
            let rank: u8 = variant_rank(&backend.variants[i], hw);
            let mut p: usize = list.len();
            while p > 0 && variant_rank(&backend.variants[list[p - 1]], hw) > rank
                invariant
                    vs == backend.variants@,
                    i < backend.variants.len(),
                    p <= list.len(),
                    rank == crate::registry::rank_of(vs[i as int], *hw),
                    forall|k: int| 0 <= k < list.len() ==> (#[trigger] list@[k]) < i,
                    forall|k: int|
                        p <= k < list.len() ==> crate::registry::rank_of(
                            vs[(#[trigger] list@[k]) as int],
                            *hw,
                        ) > rank,
                decreases p,
            {
                p -= 1;
            }
            let ghost before = list@;
            list.insert(p, i);
            proof {
                assert forall|j: int|
                    0 <= j < i + 1 && crate::registry::matches_hardware(
                        #[trigger] vs[j],
                        *hw,
                    ) implies list@.contains(j as usize) by {
                    if j < i {
                        let k = choose|k: int| 0 <= k < before.len() && before[k] == j as usize;
                        if k < p {
                            assert(list@[k] == j as usize);
                        } else {
                            assert(list@[k + 1] == j as usize);
                        }
                    } else {
                        assert(list@[p as int] == i);
                    }
                }
                assert forall|a: int, b: int| 0 <= a < b < list.len() implies tried_before(
                    vs,
                    *hw,
                    #[trigger] list@[a],
                    #[trigger] list@[b],
                ) by {
                    let oa = if a < p {
                        a
                    } else {
                        a - 1
                    };
                    let ob = if b < p {
                        b
                    } else {
                        b - 1
                    };
                    if a != p && b != p {
                        assert(list@[a] == before[oa] && list@[b] == before[ob]);
                    } else if a == p {
                        assert(list@[b] == before[ob]);
                    } else {
                        assert(list@[a] == before[oa]);
                        if p > 0 && oa < p - 1 {
                            assert(tried_before(vs, *hw, before[oa], before[p - 1]));
                        }
                    }
                }
            }
        }
        i += 1;
    }
    list
}

/// The first candidate is the variant that resolution picks.
pub proof fn law_first_candidate_is_chosen(
    vs: Seq<BackendVariant>,
    hw: HardwareProfile,
    list: Seq<usize>,
)
    requires
        candidate_order(vs, hw, list),
        vs.len() <= usize::MAX,
    ensures
        list.len() == 0 <==> crate::registry::chosen(vs, hw) is None,
        list.len() > 0 ==> crate::registry::chosen(vs, hw) == Some(list[0] as int),
{
    crate::registry::law_chosen_variant(vs, hw);
    match crate::registry::chosen(vs, hw) {
        Some(c) => {
            assert(list.contains(c as usize));
            let k = choose|k: int| 0 <= k < list.len() && list[k] == c as usize;
            assert(list[k] == c as usize);
            if k > 0 {
                assert(tried_before(vs, hw, list[0], list[k]));
                assert(crate::registry::matches_hardware(vs[list[0] as int], hw));
                assert(false);
            }
        },
        None => {
            if list.len() > 0 {
                assert(list[0] < vs.len());
                assert(crate::registry::matches_hardware(vs[list[0] as int], hw));
            }
        },
    }
}

/// The endpoint of a variant. The one of an external model server is configured:
/// by the environment, or else by the runtime while that backend is selected.
pub open spec fn stage_endpoint_of(
    b: BackendDefinition,
    v: BackendVariant,
    in_container: bool,
    external_url: Option<String>,
    rt: Option<RuntimeState>,
) -> Seq<char> {
    if b.id@ == "external-openai"@ {
        match external_url {
            Some(u) if text::trim(u@).len() > 0 => u@,
            _ => match rt {
                Some(r) if r.llm_id@ == "external-openai"@ => r.cfg.llm_base_url@,
                _ => Seq::empty(),
            },
        }
    } else {
        crate::registry::endpoint_of(v, in_container)
    }
}

pub fn stage_endpoint(
    backend: &BackendDefinition,
    variant: &BackendVariant,
    in_container: bool,
    external_url: &Option<String>,
    rt: &Option<RuntimeState>,
) -> (r: String)
    ensures
        r@ == stage_endpoint_of(*backend, *variant, in_container, *external_url, *rt),
{
    if text::same(backend.id.as_str(), "external-openai") {
        match external_url {
            Some(u) => {
                let t: String = text::trimmed(u.as_str());
                if !t.as_str().is_empty() {
                    return u.clone();
                }
            },
            None => {},
        }
        match rt {
            Some(r) => {
                if text::same(r.llm_id.as_str(), "external-openai") {
                    return r.cfg.llm_base_url.clone();
                }
            },
            None => {},
        }
        return String::new();
    }
    endpoint_for(variant, in_container)
}

/// The endpoint that serves a stage now.
pub fn current_stage_endpoint(stage: BackendStage, rt: &RuntimeState) -> (r: String)
    ensures
        r@ == match stage {
            BackendStage::Asr => rt.cfg.whisper_url@,
            BackendStage::Tts => rt.cfg.tts_url@,
            BackendStage::Llm => rt.cfg.llm_base_url@,
        },
{
    match stage {
        BackendStage::Asr => rt.cfg.whisper_url.clone(),
        BackendStage::Tts => rt.cfg.tts_url.clone(),
        BackendStage::Llm => rt.cfg.llm_base_url.clone(),
    }
}

/// How a candidate is brought up: by the host agent, not at all because it runs
/// elsewhere, or as a container.
#[derive(Debug, Clone, Copy, PartialEq, Eq, Structural)]
pub enum CandidateKind {
    HostProfile,
    Remote,
    Container,
}

#[derive(Debug)]
pub struct Candidate {
    pub kind: CandidateKind,
    pub variant_id: String,
    pub profile: String,
    pub container: String,
    pub endpoint: String,
}

pub open spec fn kind_of(v: BackendVariant) -> CandidateKind {
    if v.container@.len() > 0 {
        CandidateKind::Container
    } else if v.host_profile@.len() > 0 {
        CandidateKind::HostProfile
    } else {
        CandidateKind::Remote
    }
}

pub open spec fn is_candidate(
    c: Candidate,
    b: BackendDefinition,
    v: BackendVariant,
    in_container: bool,
    external_url: Option<String>,
    rt: Option<RuntimeState>,
) -> bool {
    &&& c.kind == kind_of(v)
    &&& c.variant_id@ == v.id@
    &&& c.profile@ == v.host_profile@
    &&& c.container@ == v.container@
    &&& c.endpoint@ == stage_endpoint_of(b, v, in_container, external_url, rt)
}

/// The candidates for a stage, preferred first.
pub fn stage_candidates(
    catalog: &BackendCatalog,
    hw: &HardwareProfile,
    stage: BackendStage,
    backend_id: &str,
    external_url: &Option<String>,
    rt: &Option<RuntimeState>,
) -> (r: Result<Vec<Candidate>, String>)
    ensures
        match r {
            Ok(cs) => {
                &&& stage_fault(*catalog, *hw, stage, backend_id@) is None
                &&& cs.len() > 0
                &&& ({
                    let b = catalog.backends@[crate::registry::backend_index(
                        catalog.backends@,
                        backend_id@,
                    ).unwrap()];
                    exists|order: Seq<usize>|
                        {
                            &&& #[trigger] candidate_order(b.variants@, *hw, order)
                            &&& order.len() == cs.len()
                            &&& forall|k: int|
                                0 <= k < cs.len() ==> is_candidate(
                                    #[trigger] cs@[k],
                                    b,
                                    b.variants@[order[k] as int],
                                    hw.in_container,
                                    *external_url,
                                    *rt,
                                )
                        }
                })
            },
            Err(m) => stage_fault(*catalog, *hw, stage, backend_id@) == Some(m@),
        },
{
    let b: &BackendDefinition = match catalog.find(backend_id) {
        Some(b) => b,
        None => {
            return Err(wrap("unknown backend id '", backend_id, "'"));
        },
    };
    if b.stage != stage {
        return Err(wrong_stage(backend_id, b.stage, stage));
    }
    let order: Vec<usize> = ranked_variants(b, hw);
    proof {
        assert(b.variants@.len() == b.variants.len());
        law_first_candidate_is_chosen(b.variants@, *hw, order@);
    }
    if order.is_empty() {
        return Err(
            wrap(
                "backend '",
                backend_id,
                "' has no compatible certified variant for this host",
            ),
        );
    }
    let mut cs: Vec<Candidate> = Vec::new();
    let mut k: usize = 0;
    while k < order.len()
        invariant
            k <= order.len(),
            cs.len() == k,
            candidate_order(b.variants@, *hw, order@),
            forall|j: int|
                0 <= j < cs.len() ==> is_candidate(
                    #[trigger] cs@[j],
                    *b,
                    b.variants@[order@[j] as int],
                    hw.in_container,
                    *external_url,
                    *rt,
                ),
        decreases order.len() - k,
    {
        assert(order@[k as int] < b.variants@.len());
        let v: &BackendVariant = &b.variants[order[k]];
        let kind: CandidateKind = if !v.container.as_str().is_empty() {
            CandidateKind::Container
        } else if !v.host_profile.as_str().is_empty() {
            CandidateKind::HostProfile
        } else {
            CandidateKind::Remote
        };
        cs.push(
            Candidate {
                kind,
                variant_id: v.id.clone(),
                profile: v.host_profile.clone(),
                container: v.container.clone(),
                endpoint: stage_endpoint(b, v, hw.in_container, external_url, rt),
            },
        );
        k += 1;
    }
    Ok(cs)
}

/// What a backend that was brought up serves a stage with.
#[derive(Debug)]
pub struct StagePlan {
    pub stage: BackendStage,
    pub backend_id: String,
    pub variant_id: String,
    pub endpoint: String,
    pub container: String,
    pub started_container: Option<String>,
    pub started_host: bool,
    pub already_active: bool,
}

/// The first candidate with an endpoint.
pub open spec fn serving(cs: Seq<Candidate>, endpoint: Seq<char>) -> Option<int>
    decreases cs.len(),
{
    if cs.len() == 0 {
        None
    } else {
        match serving(cs.drop_last(), endpoint) {
            Some(i) => Some(i),
            None => if cs.last().endpoint@ == endpoint {
                Some(cs.len() - 1)
            } else {
                None
            },
        }
    }
}

proof fn lemma_serving(cs: Seq<Candidate>, endpoint: Seq<char>)
    ensures
        match serving(cs, endpoint) {
            Some(i) => 0 <= i < cs.len() && cs[i].endpoint@ == endpoint && forall|j: int|
                0 <= j < i ==> (#[trigger] cs[j]).endpoint@ != endpoint,
            None => forall|j: int| 0 <= j < cs.len() ==> (#[trigger] cs[j]).endpoint@ != endpoint,
        },
    decreases cs.len(),
{
    if cs.len() > 0 {
        let t = cs.drop_last();
        lemma_serving(t, endpoint);
        assert(forall|j: int| 0 <= j < t.len() ==> #[trigger] cs[j] == t[j]);
    }
}

/// The plan for a stage that the backend already serves at its endpoint: nothing
/// is to be started.
pub fn plan_for_active(
    stage: BackendStage,
    backend_id: &str,
    candidates: &Vec<Candidate>,
    endpoint: &str,
) -> (r: Option<StagePlan>)
    ensures
        match r {
            Some(p) => {
                &&& serving(candidates@, endpoint@) matches Some(i) && ({
                    &&& p.variant_id@ == candidates@[i].variant_id@
                    &&& p.container@ == candidates@[i].container@
                })
                &&& p.stage == stage
                &&& p.backend_id@ == backend_id@
                &&& p.endpoint@ == endpoint@
                &&& p.started_container is None
                &&& !p.started_host
                &&& p.already_active
            },
            None => serving(candidates@, endpoint@) is None,
        },
{
    proof {
        lemma_serving(candidates@, endpoint@);
    }
    let mut i: usize = 0;
    while i < candidates.len()
        invariant
            i <= candidates.len(),
            forall|j: int| 0 <= j < i ==> (#[trigger] candidates@[j]).endpoint@ != endpoint@,
        decreases candidates.len() - i,
    {
        if text::same(candidates[i].endpoint.as_str(), endpoint) {
            proof {
                lemma_serving(candidates@, endpoint@);
            }
            return Some(
                StagePlan {
                    stage,
                    backend_id: String::from_str(backend_id),
                    variant_id: candidates[i].variant_id.clone(),
                    endpoint: String::from_str(endpoint),
                    container: candidates[i].container.clone(),
                    started_container: None,
                    started_host: false,
                    already_active: true,
                },
            );
        }
        i += 1;
    }
    None
}

// ---------------------------------------------------------------------------
// The steps
// ---------------------------------------------------------------------------

/// What is to be done next.
#[derive(Debug, Clone, Copy, PartialEq, Eq, Structural)]
pub enum BringUpPhase {
    /// Ask whether the container that serves the stage runs.
    AskingPrevious,
    /// Stop that container.
    PausingPrevious,
    /// Have the host agent start the candidate.
    StartingHost,
    ProbingHost,
    WarmingHost,
    /// Have the host agent stop the candidate.
    StoppingHost,
    StartingContainer,
    ProbingContainer,
    WarmingContainer,
    StoppingContainer,
    /// Start the paused container again.
    RestoringPrevious,
    ProbingPrevious,
    WarmingPrevious,
    Succeeded,
    Failed,
}

/// How a step went.
#[derive(Debug)]
pub enum Reply {
    Done,
    Failed(String),
}

pub enum ReplyView {
    Done,
    Failed(Seq<char>),
}

impl View for Reply {
    type V = ReplyView;

    open spec fn view(&self) -> ReplyView {
        match self {
            Reply::Done => ReplyView::Done,
            Reply::Failed(m) => ReplyView::Failed(m@),
        }
    }
}

/// What stays the same while a backend is brought up.
pub struct Setting {
    pub kinds: Seq<CandidateKind>,
    pub containers: Seq<Seq<char>>,
    pub docker: bool,
    pub backend_id: Seq<char>,
    /// The container that may have to be paused, and the backend that it serves.
    pub previous: Option<(Seq<char>, Seq<char>)>,
    /// Why the paused backend could not be looked up again.
    pub previous_fault: Option<Seq<char>>,
}

/// How far bringing up has come.
pub struct Progress {
    pub phase: BringUpPhase,
    pub pos: int,
    pub started_host: bool,
    pub pause_attempted: bool,
    pub paused: bool,
    pub error: Option<Seq<char>>,
}

pub const NOTHING_REACHABLE: &'static str = "'. For host TTS start the server first (e.g. scripts/start_vibevoice.ps1 on :8089) or build the managed container image.";

pub open spec fn final_error(s: Setting, error: Option<Seq<char>>) -> Seq<char> {
    match error {
        Some(m) => m,
        None => "no reachable variant for '"@ + s.backend_id + NOTHING_REACHABLE@,
    }
}

/// No candidate is left.
pub open spec fn exhausted(s: Setting, p: Progress) -> Progress {
    Progress {
        phase: if p.paused {
            BringUpPhase::RestoringPrevious
        } else {
            BringUpPhase::Failed
        },
        pos: s.kinds.len() as int,
        started_host: false,
        error: Some(final_error(s, p.error)),
        ..p
    }
}

/// Turning to the candidate at a position.
pub open spec fn turned_to(s: Setting, p: Progress, pos: int) -> Progress
    decreases s.kinds.len() - pos,
{
    if pos < 0 || pos >= s.kinds.len() {
        exhausted(s, p)
    } else {
        let q = Progress { pos, started_host: false, ..p };
        match s.kinds[pos] {
            CandidateKind::HostProfile => if p.pause_attempted || !s.docker || s.previous is None {
                Progress { phase: BringUpPhase::StartingHost, pause_attempted: true, ..q }
            } else {
                Progress { phase: BringUpPhase::AskingPrevious, pause_attempted: true, ..q }
            },
            CandidateKind::Remote => Progress { phase: BringUpPhase::ProbingHost, ..q },
            CandidateKind::Container => if s.docker {
                Progress { phase: BringUpPhase::StartingContainer, ..q }
            } else {
                turned_to(
                    s,
                    Progress {
                        error: Some(
                            "managed container '"@ + s.containers[pos]
                                + "' requires Docker lab control"@,
                        ),
                        ..p
                    },
                    pos + 1,
                )
            },
        }
    }
}

pub open spec fn at_start(s: Setting) -> Progress {
    turned_to(
        s,
        Progress {
            phase: BringUpPhase::Failed,
            pos: 0,
            started_host: false,
            pause_attempted: false,
            paused: false,
            error: None,
        },
        0,
    )
}

/// The text for a paused backend that could not be restored.
pub open spec fn restore_error(s: Setting, error: Option<Seq<char>>, m: Seq<char>) -> Seq<char> {
    final_error(s, error) + "; failed to restore previous backend '"@ + s.previous.unwrap().1
        + "': "@ + m
}

/// The next state after a reply.
pub open spec fn stepped(s: Setting, p: Progress, r: ReplyView) -> Progress {
    match (p.phase, r) {
        (BringUpPhase::AskingPrevious, ReplyView::Done) => Progress {
            phase: BringUpPhase::PausingPrevious,
            ..p
        },
        (BringUpPhase::AskingPrevious, ReplyView::Failed(_)) => Progress {
            phase: BringUpPhase::StartingHost,
            ..p
        },
        (BringUpPhase::PausingPrevious, ReplyView::Done) => Progress {
            phase: BringUpPhase::StartingHost,
            paused: true,
            ..p
        },
        (BringUpPhase::PausingPrevious, ReplyView::Failed(m)) => turned_to(
            s,
            Progress { error: Some(m), ..p },
            p.pos + 1,
        ),
        (BringUpPhase::StartingHost, ReplyView::Done) => Progress {
            phase: BringUpPhase::ProbingHost,
            started_host: true,
            ..p
        },
        (BringUpPhase::StartingHost, ReplyView::Failed(m)) => turned_to(
            s,
            Progress { error: Some(m), ..p },
            p.pos + 1,
        ),
        (BringUpPhase::ProbingHost, ReplyView::Done) => Progress {
            phase: BringUpPhase::WarmingHost,
            ..p
        },
        (BringUpPhase::WarmingHost, ReplyView::Done) => Progress {
            phase: BringUpPhase::Succeeded,
            ..p
        },
        (
            BringUpPhase::ProbingHost | BringUpPhase::WarmingHost,
            ReplyView::Failed(m),
        ) => if p.started_host {
            Progress { phase: BringUpPhase::StoppingHost, error: Some(m), ..p }
        } else {
            turned_to(s, Progress { error: Some(m), ..p }, p.pos + 1)
        },
        (BringUpPhase::StoppingHost, _) => turned_to(s, p, p.pos + 1),
        (BringUpPhase::StartingContainer, ReplyView::Done) => Progress {
            phase: BringUpPhase::ProbingContainer,
            ..p
        },
        (BringUpPhase::StartingContainer, ReplyView::Failed(m)) => turned_to(
            s,
            Progress { error: Some(m), ..p },
            p.pos + 1,
        ),
        (BringUpPhase::ProbingContainer, ReplyView::Done) => Progress {
            phase: BringUpPhase::WarmingContainer,
            ..p
        },
        (BringUpPhase::WarmingContainer, ReplyView::Done) => Progress {
            phase: BringUpPhase::Succeeded,
            ..p
        },
        (
            BringUpPhase::ProbingContainer | BringUpPhase::WarmingContainer,
            ReplyView::Failed(m),
        ) => Progress { phase: BringUpPhase::StoppingContainer, error: Some(m), ..p },
        (BringUpPhase::StoppingContainer, _) => turned_to(s, p, p.pos + 1),
        (BringUpPhase::RestoringPrevious, ReplyView::Done) => match s.previous_fault {
            Some(m) => Progress {
                phase: BringUpPhase::Failed,
                paused: false,
                error: Some(restore_error(s, p.error, m)),
                ..p
            },
            None => Progress { phase: BringUpPhase::ProbingPrevious, paused: false, ..p },
        },
        (BringUpPhase::RestoringPrevious, ReplyView::Failed(m)) => Progress {
            phase: BringUpPhase::Failed,
            error: Some(
                restore_error(
                    s,
                    p.error,
                    "restart paused container '"@ + s.previous.unwrap().0 + "': "@ + m,
                ),
            ),
            ..p
        },
        (BringUpPhase::ProbingPrevious, ReplyView::Done) => Progress {
            phase: BringUpPhase::WarmingPrevious,
            ..p
        },
        (BringUpPhase::ProbingPrevious, ReplyView::Failed(m)) => Progress {
            phase: BringUpPhase::Failed,
            error: Some(
                restore_error(
                    s,
                    p.error,
                    "health check restored backend '"@ + s.previous.unwrap().1 + "': "@ + m,
                ),
            ),
            ..p
        },
        (BringUpPhase::WarmingPrevious, ReplyView::Done) => Progress {
            phase: BringUpPhase::Failed,
            ..p
        },
        (BringUpPhase::WarmingPrevious, ReplyView::Failed(m)) => Progress {
            phase: BringUpPhase::Failed,
            error: Some(
                restore_error(
                    s,
                    p.error,
                    "warm restored backend '"@ + s.previous.unwrap().1 + "': "@ + m,
                ),
            ),
            ..p
        },
        (BringUpPhase::Succeeded | BringUpPhase::Failed, _) => p,
    }
}

pub open spec fn is_over(phase: BringUpPhase) -> bool {
    phase == BringUpPhase::Succeeded || phase == BringUpPhase::Failed
}

pub open spec fn is_restoring(phase: BringUpPhase) -> bool {
    phase == BringUpPhase::RestoringPrevious || phase == BringUpPhase::ProbingPrevious || phase
        == BringUpPhase::WarmingPrevious
}

pub open spec fn is_host_phase(phase: BringUpPhase) -> bool {
    phase == BringUpPhase::StartingHost || phase == BringUpPhase::ProbingHost || phase
        == BringUpPhase::WarmingHost || phase == BringUpPhase::StoppingHost || phase
        == BringUpPhase::AskingPrevious || phase == BringUpPhase::PausingPrevious
}

pub open spec fn is_container_phase(phase: BringUpPhase) -> bool {
    phase == BringUpPhase::StartingContainer || phase == BringUpPhase::ProbingContainer || phase
        == BringUpPhase::WarmingContainer || phase == BringUpPhase::StoppingContainer
}

/// What holds of every state that bringing up can reach.
pub open spec fn progress_fits(s: Setting, p: Progress) -> bool {
    &&& s.containers.len() == s.kinds.len()
    &&& 0 <= p.pos
    &&& s.previous is None ==> !p.paused
    &&& p.phase == BringUpPhase::Failed || is_restoring(p.phase) || 0 <= p.pos < s.kinds.len()
    &&& p.phase == BringUpPhase::Failed || is_restoring(p.phase) ==> p.error is Some
        && !p.started_host
    &&& is_restoring(p.phase) ==> s.previous is Some
    &&& p.phase == BringUpPhase::RestoringPrevious ==> p.paused
    &&& p.phase == BringUpPhase::ProbingPrevious || p.phase == BringUpPhase::WarmingPrevious
        ==> !p.paused
    &&& p.phase == BringUpPhase::AskingPrevious || p.phase == BringUpPhase::PausingPrevious
        ==> !p.paused && p.pause_attempted && s.previous is Some
    &&& p.paused ==> p.pause_attempted
    &&& is_host_phase(p.phase) ==> s.kinds[p.pos] != CandidateKind::Container
    &&& is_container_phase(p.phase) ==> s.kinds[p.pos] == CandidateKind::Container && s.docker
        && !p.started_host
    &&& p.phase == BringUpPhase::StoppingHost ==> p.started_host
    &&& p.phase == BringUpPhase::AskingPrevious || p.phase == BringUpPhase::PausingPrevious
        || p.phase == BringUpPhase::StartingHost ==> !p.started_host && s.kinds[p.pos]
        == CandidateKind::HostProfile
    &&& p.started_host ==> s.kinds[p.pos] == CandidateKind::HostProfile
    &&& p.phase == BringUpPhase::Succeeded && s.kinds[p.pos] == CandidateKind::HostProfile
        ==> p.started_host
    &&& (p.phase == BringUpPhase::ProbingHost || p.phase == BringUpPhase::WarmingHost)
        && s.kinds[p.pos] == CandidateKind::HostProfile ==> p.started_host
}

proof fn lemma_turned_to_fits(s: Setting, p: Progress, pos: int)
    requires
        s.containers.len() == s.kinds.len(),
        s.previous is None ==> !p.paused,
        p.paused ==> p.pause_attempted,
        0 <= pos,
    ensures
        progress_fits(s, turned_to(s, p, pos)),
        turned_to(s, p, pos).paused == p.paused,
    decreases s.kinds.len() - pos,
{
    if pos < s.kinds.len() && s.kinds[pos] == CandidateKind::Container && !s.docker {
        lemma_turned_to_fits(
            s,
            Progress {
                error: Some(
                    "managed container '"@ + s.containers[pos] + "' requires Docker lab control"@,
                ),
                ..p
            },
            pos + 1,
        );
    }
}

/// The first state can be reached, and every step leads from a state that can be
/// reached to one that can be reached.
pub proof fn law_steps_fit(s: Setting, p: Progress, r: ReplyView)
    requires
        s.containers.len() == s.kinds.len(),
    ensures
        progress_fits(s, at_start(s)),
        progress_fits(s, p) ==> progress_fits(s, stepped(s, p, r)),
{
    if progress_fits(s, p) {
        lemma_turned_to_fits(s, p, p.pos + 1);
        if r is Failed {
            let q = Progress { error: Some(r->Failed_0), ..p };
            lemma_turned_to_fits(s, q, p.pos + 1);
        }
    }
    lemma_turned_to_fits(
        s,
        Progress {
            phase: BringUpPhase::Failed,
            pos: 0,
            started_host: false,
            pause_attempted: false,
            paused: false,
            error: None,
        },
        0,
    );
}

/// How many replies are still to come at most.
pub open spec fn replies_left(s: Setting, p: Progress) -> int {
    let here = 3 + 6 * (s.kinds.len() - p.pos);
    match p.phase {
        BringUpPhase::AskingPrevious => here,
        BringUpPhase::PausingPrevious => here - 1,
        BringUpPhase::StartingHost | BringUpPhase::StartingContainer => here - 2,
        BringUpPhase::ProbingHost | BringUpPhase::ProbingContainer => here - 3,
        BringUpPhase::WarmingHost | BringUpPhase::WarmingContainer => here - 4,
        BringUpPhase::StoppingHost | BringUpPhase::StoppingContainer => here - 5,
        BringUpPhase::RestoringPrevious => 3,
        BringUpPhase::ProbingPrevious => 2,
        BringUpPhase::WarmingPrevious => 1,
        BringUpPhase::Succeeded | BringUpPhase::Failed => 0,
    }
}

proof fn lemma_turned_to_is_nearer(s: Setting, p: Progress, pos: int)
    requires
        0 <= pos,
    ensures
        0 <= replies_left(s, turned_to(s, p, pos)) <= 3 + (if pos < s.kinds.len() {
            6 * (s.kinds.len() - pos)
        } else {
            0
        }),
    decreases s.kinds.len() - pos,
{
    if pos < s.kinds.len() && s.kinds[pos] == CandidateKind::Container && !s.docker {
        lemma_turned_to_is_nearer(
            s,
            Progress {
                error: Some(
                    "managed container '"@ + s.containers[pos] + "' requires Docker lab control"@,
                ),
                ..p
            },
            pos + 1,
        );
    }
}

/// Bringing up comes to an end: every reply brings it nearer, whatever it says.
pub proof fn law_bring_up_ends(s: Setting, p: Progress, r: ReplyView)
    requires
        progress_fits(s, p),
    ensures
        replies_left(s, p) >= 0,
        is_over(p.phase) <==> replies_left(s, p) == 0,
        !is_over(p.phase) ==> 0 <= replies_left(s, stepped(s, p, r)) < replies_left(s, p),
{
    lemma_turned_to_is_nearer(s, p, p.pos + 1);
    if r is Failed {
        lemma_turned_to_is_nearer(s, Progress { error: Some(r->Failed_0), ..p }, p.pos + 1);
    }
}

// ---------------------------------------------------------------------------
// What runs
// ---------------------------------------------------------------------------

/// Something that can run: the container that served the stage, or a candidate.
pub enum Server {
    Previous,
    Candidate(int),
}

/// What runs after a step that was done or was not.
pub open spec fn running_after(p: Progress, r: ReplyView, running: Set<Server>) -> Set<Server> {
    if r is Done {
        match p.phase {
            BringUpPhase::PausingPrevious => running.remove(Server::Previous),
            BringUpPhase::StartingHost | BringUpPhase::StartingContainer => running.insert(
                Server::Candidate(p.pos),
            ),
            BringUpPhase::StoppingHost | BringUpPhase::StoppingContainer => running.remove(
                Server::Candidate(p.pos),
            ),
            BringUpPhase::RestoringPrevious => running.insert(Server::Previous),
            _ => running,
        }
    } else {
        running
    }
}

/// Whether a reply is one that the law on what runs speaks of: a question about
/// the previous container is answered truly, and a stop is done.
pub open spec fn faithful(p: Progress, r: ReplyView, running: Set<Server>) -> bool {
    match p.phase {
        BringUpPhase::AskingPrevious => r is Done <==> running.contains(Server::Previous),
        BringUpPhase::StoppingHost | BringUpPhase::StoppingContainer => r is Done,
        _ => true,
    }
}

/// What runs at a state, if `before` ran at the start.
pub open spec fn runs_at(p: Progress, before: Set<Server>) -> Set<Server> {
    let base = if p.paused {
        before.remove(Server::Previous)
    } else {
        before
    };
    let up = match p.phase {
        BringUpPhase::ProbingHost
        | BringUpPhase::WarmingHost
        | BringUpPhase::StoppingHost => p.started_host,
        BringUpPhase::ProbingContainer
        | BringUpPhase::WarmingContainer
        | BringUpPhase::StoppingContainer => true,
        _ => false,
    };
    if up {
        base.insert(Server::Candidate(p.pos))
    } else {
        base
    }
}

pub open spec fn no_candidate_runs(before: Set<Server>) -> bool {
    forall|i: int| !#[trigger] before.contains(Server::Candidate(i))
}

/// The state and what runs after a series of replies.
pub open spec fn after_replies(
    s: Setting,
    p: Progress,
    running: Set<Server>,
    replies: Seq<ReplyView>,
) -> (Progress, Set<Server>)
    decreases replies.len(),
{
    if replies.len() == 0 {
        (p, running)
    } else {
        let (q, w) = after_replies(s, p, running, replies.drop_last());
        (stepped(s, q, replies.last()), running_after(q, replies.last(), w))
    }
}

/// Whether all replies of a series are faithful.
pub open spec fn all_faithful(
    s: Setting,
    p: Progress,
    running: Set<Server>,
    replies: Seq<ReplyView>,
) -> bool
    decreases replies.len(),
{
    if replies.len() == 0 {
        true
    } else {
        let (q, w) = after_replies(s, p, running, replies.drop_last());
        all_faithful(s, p, running, replies.drop_last()) && faithful(q, replies.last(), w)
    }
}

/// What runs in the end.
pub open spec fn runs_in_the_end(s: Setting, p: Progress, before: Set<Server>) -> Set<Server> {
    let base = if p.paused {
        before.remove(Server::Previous)
    } else {
        before
    };
    if p.phase == BringUpPhase::Succeeded && s.kinds[p.pos] != CandidateKind::Remote {
        base.insert(Server::Candidate(p.pos))
    } else {
        base
    }
}

proof fn lemma_turned_to_runs(s: Setting, p: Progress, pos: int, before: Set<Server>)
    requires
        0 <= pos,
    ensures
        runs_at(turned_to(s, p, pos), before) == (if p.paused {
            before.remove(Server::Previous)
        } else {
            before
        }),
        turned_to(s, p, pos).phase != BringUpPhase::Succeeded,
    decreases s.kinds.len() - pos,
{
    if pos < s.kinds.len() && s.kinds[pos] == CandidateKind::Container && !s.docker {
        lemma_turned_to_runs(
            s,
            Progress {
                error: Some(
                    "managed container '"@ + s.containers[pos] + "' requires Docker lab control"@,
                ),
                ..p
            },
            pos + 1,
            before,
        );
    }
}

proof fn lemma_step_runs(s: Setting, p: Progress, r: ReplyView, before: Set<Server>)
    requires
        progress_fits(s, p),
        no_candidate_runs(before),
        !is_over(p.phase),
        p.paused || p.phase == BringUpPhase::PausingPrevious ==> before.contains(
            Server::Previous,
        ),
        faithful(p, r, runs_at(p, before)),
    ensures
        running_after(p, r, runs_at(p, before)) == (if is_over(stepped(s, p, r).phase) {
            runs_in_the_end(s, stepped(s, p, r), before)
        } else {
            runs_at(stepped(s, p, r), before)
        }),
        stepped(s, p, r).paused || stepped(s, p, r).phase == BringUpPhase::PausingPrevious
            ==> before.contains(Server::Previous),
{
    let c = Server::Candidate(p.pos);
    assert(!before.contains(c));
    let base = if p.paused {
        before.remove(Server::Previous)
    } else {
        before
    };
    assert(base.insert(c).remove(c) =~= base);
    assert(before.contains(Server::Previous) ==> before.remove(Server::Previous).insert(
        Server::Previous,
    ) =~= before);
    lemma_turned_to_runs(s, p, p.pos + 1, before);
    lemma_turned_to_fits(s, p, p.pos + 1);
    lemma_not_pausing(s, p, p.pos + 1);
    if r is Failed {
        let q = Progress { error: Some(r->Failed_0), ..p };
        lemma_turned_to_runs(s, q, p.pos + 1, before);
        lemma_turned_to_fits(s, q, p.pos + 1);
        lemma_not_pausing(s, q, p.pos + 1);
    }
}

proof fn lemma_runs(s: Setting, before: Set<Server>, replies: Seq<ReplyView>)
    requires
        s.containers.len() == s.kinds.len(),
        no_candidate_runs(before),
        all_faithful(s, at_start(s), before, replies),
    ensures
        ({
            let (p, w) = after_replies(s, at_start(s), before, replies);
            &&& progress_fits(s, p)
            &&& p.paused || p.phase == BringUpPhase::PausingPrevious ==> before.contains(
                Server::Previous,
            )
            &&& w == if is_over(p.phase) {
                runs_in_the_end(s, p, before)
            } else {
                runs_at(p, before)
            }
        }),
    decreases replies.len(),
{
    if replies.len() == 0 {
        let p = Progress {
            phase: BringUpPhase::Failed,
            pos: 0,
            started_host: false,
            pause_attempted: false,
            paused: false,
            error: None,
        };
        lemma_turned_to_fits(s, p, 0);
        lemma_turned_to_runs(s, p, 0, before);
        assert(at_start(s).phase != BringUpPhase::PausingPrevious) by {
            lemma_not_pausing(s, p, 0);
        }
    } else {
        lemma_runs(s, before, replies.drop_last());
        let (p, w) = after_replies(s, at_start(s), before, replies.drop_last());
        law_steps_fit(s, p, replies.last());
        if !is_over(p.phase) {
            lemma_step_runs(s, p, replies.last(), before);
        }
    }
}

proof fn lemma_not_pausing(s: Setting, p: Progress, pos: int)
    ensures
        turned_to(s, p, pos).phase != BringUpPhase::PausingPrevious,
    decreases s.kinds.len() - pos,
{
    if 0 <= pos < s.kinds.len() && s.kinds[pos] == CandidateKind::Container && !s.docker {
        lemma_not_pausing(
            s,
            Progress {
                error: Some(
                    "managed container '"@ + s.containers[pos] + "' requires Docker lab control"@,
                ),
                ..p
            },
            pos + 1,
        );
    }
}

/// A backend that does not come up leaves everything running that ran before and
/// nothing else, unless the paused container could not be started again.
pub proof fn law_failed_bring_up_changes_nothing(
    s: Setting,
    before: Set<Server>,
    replies: Seq<ReplyView>,
)
    requires
        s.containers.len() == s.kinds.len(),
        no_candidate_runs(before),
        all_faithful(s, at_start(s), before, replies),
    ensures
        ({
            let (p, w) = after_replies(s, at_start(s), before, replies);
            p.phase == BringUpPhase::Failed && !p.paused ==> w == before
        }),
{
    lemma_runs(s, before, replies);
}

/// Of all candidates only the one that came up runs in the end.
pub proof fn law_brought_up_alone(s: Setting, before: Set<Server>, replies: Seq<ReplyView>)
    requires
        s.containers.len() == s.kinds.len(),
        no_candidate_runs(before),
        all_faithful(s, at_start(s), before, replies),
    ensures
        ({
            let (p, w) = after_replies(s, at_start(s), before, replies);
            p.phase == BringUpPhase::Succeeded ==> {
                &&& 0 <= p.pos < s.kinds.len()
                &&& forall|i: int| #[trigger]
                    w.contains(Server::Candidate(i)) <==> i == p.pos && s.kinds[i]
                        != CandidateKind::Remote
                &&& w.contains(Server::Previous) <==> before.contains(Server::Previous) && !p.paused
            }
        }),
{
    lemma_runs(s, before, replies);
    let (p, w) = after_replies(s, at_start(s), before, replies);
    assert(forall|i: int| !#[trigger] before.contains(Server::Candidate(i)));
}

// ---------------------------------------------------------------------------
// The machine
// ---------------------------------------------------------------------------

/// Why the backend that served a stage cannot be looked up again.
pub open spec fn lookup_fault(c: BackendCatalog, active: ActiveBackend) -> Option<Seq<char>> {
    match crate::registry::backend_index(c.backends@, active.backend_id@) {
        None => Some("rollback backend '"@ + active.backend_id@ + "' is missing"@),
        Some(i) => match variant_index(c.backends@[i].variants@, active.variant_id@) {
            None => Some("rollback variant '"@ + active.variant_id@ + "' is missing"@),
            Some(_) => None,
        },
    }
}

fn find_lookup_fault(catalog: &BackendCatalog, active: &ActiveBackend) -> (r: Option<String>)
    ensures
        crate::registry::opt_view(r) == lookup_fault(*catalog, *active),
{
    match catalog.find(active.backend_id.as_str()) {
        None => Some(wrap("rollback backend '", active.backend_id.as_str(), "' is missing")),
        Some(b) => match find_variant(b, active.variant_id.as_str()) {
            None => Some(wrap("rollback variant '", active.variant_id.as_str(), "' is missing")),
            Some(_) => None,
        },
    }
}

/// A backend that is being brought up. The caller does what the phase says and
/// hands the reply to [`BringUp::step`] until it succeeded or failed.
#[derive(Debug)]
pub struct BringUp {
    pub stage: BackendStage,
    pub backend_id: String,
    pub candidates: Vec<Candidate>,
    pub docker: bool,
    /// What serves the stage now, if it is a container.
    pub previous: Option<ActiveBackend>,
    pub previous_fault: Option<String>,
    pub phase: BringUpPhase,
    pub pos: usize,
    pub started_host: bool,
    pub pause_attempted: bool,
    pub paused: bool,
    pub error: Option<String>,
}

pub open spec fn kinds_of(cs: Seq<Candidate>) -> Seq<CandidateKind> {
    Seq::new(cs.len(), |i: int| cs[i].kind)
}

pub open spec fn containers_of(cs: Seq<Candidate>) -> Seq<Seq<char>> {
    Seq::new(cs.len(), |i: int| cs[i].container@)
}

/// What may have to be paused: the container that serves the stage.
pub open spec fn pausable(active: Option<ActiveBackend>) -> Option<ActiveBackend> {
    match active {
        Some(a) if a.container@.len() > 0 => Some(a),
        _ => None,
    }
}

impl BringUp {
    pub open spec fn setting(self) -> Setting {
        Setting {
            kinds: kinds_of(self.candidates@),
            containers: containers_of(self.candidates@),
            docker: self.docker,
            backend_id: self.backend_id@,
            previous: match self.previous {
                Some(a) => Some((a.container@, a.backend_id@)),
                None => None,
            },
            previous_fault: crate::registry::opt_view(self.previous_fault),
        }
    }

    pub open spec fn progress(self) -> Progress {
        Progress {
            phase: self.phase,
            pos: self.pos as int,
            started_host: self.started_host,
            pause_attempted: self.pause_attempted,
            paused: self.paused,
            error: crate::registry::opt_view(self.error),
        }
    }

    pub open spec fn wf(self) -> bool {
        progress_fits(self.setting(), self.progress())
    }

    /// Whether another machine brings up the same backend.
    pub open spec fn same_task(self, other: BringUp) -> bool {
        &&& self.stage == other.stage
        &&& self.backend_id == other.backend_id
        &&& self.candidates == other.candidates
        &&& self.docker == other.docker
        &&& self.previous == other.previous
        &&& self.previous_fault == other.previous_fault
    }

    pub fn new(
        stage: BackendStage,
        backend_id: &str,
        candidates: Vec<Candidate>,
        docker: bool,
        active: &Option<ActiveBackend>,
        catalog: &BackendCatalog,
    ) -> (r: BringUp)
        ensures
            r.wf(),
            r.stage == stage,
            r.backend_id@ == backend_id@,
            r.candidates == candidates,
            r.docker == docker,
            r.previous == pausable(*active),
            crate::registry::opt_view(r.previous_fault) == (match pausable(*active) {
                Some(a) => lookup_fault(*catalog, a),
                None => None,
            }),
            r.progress() == at_start(r.setting()),
    {
        let (previous, fault): (Option<ActiveBackend>, Option<String>) = match active {
            Some(a) => if a.container.as_str().is_empty() {
                (None, None)
            } else {
                (Some(a.clone()), find_lookup_fault(catalog, a))
            },
            None => (None, None),
        };
        let mut m: BringUp = BringUp {
            stage,
            backend_id: String::from_str(backend_id),
            candidates,
            docker,
            previous,
            previous_fault: fault,
            phase: BringUpPhase::Failed,
            pos: 0,
            started_host: false,
            pause_attempted: false,
            paused: false,
            error: None,
        };
        proof {
            law_steps_fit(m.setting(), m.progress(), ReplyView::Done);
        }
        m.turn_to(0);
        m
    }

    fn turn_to(&mut self, pos: usize)
        requires
            pos <= old(self).candidates.len(),
        ensures
            final(self).same_task(*old(self)),
            final(self).progress() == turned_to(
                old(self).setting(),
                old(self).progress(),
                pos as int,
            ),
        decreases old(self).candidates.len() - pos,
    {
        if pos >= self.candidates.len() {
            let error: String = match &self.error {
                Some(m) => m.clone(),
                None => wrap(
                    "no reachable variant for '",
                    self.backend_id.as_str(),
                    NOTHING_REACHABLE,
                ),
            };
            self.error = Some(error);
            self.pos = pos;
            self.started_host = false;
            self.phase = if self.paused {
                BringUpPhase::RestoringPrevious
            } else {
                BringUpPhase::Failed
            };
            return ;
        }
        match self.candidates[pos].kind {
            CandidateKind::HostProfile => {
                self.pos = pos;
                self.started_host = false;
                self.phase = if self.pause_attempted || !self.docker || self.previous.is_none() {
                    BringUpPhase::StartingHost
                } else {
                    BringUpPhase::AskingPrevious
                };
                self.pause_attempted = true;
            },
            CandidateKind::Remote => {
                self.pos = pos;
                self.started_host = false;
                self.phase = BringUpPhase::ProbingHost;
            },
            CandidateKind::Container => {
                if self.docker {
                    self.pos = pos;
                    self.started_host = false;
                    self.phase = BringUpPhase::StartingContainer;
                } else {
                    let error: String = wrap(
                        "managed container '",
                        self.candidates[pos].container.as_str(),
                        "' requires Docker lab control",
                    );
                    self.error = Some(error);
                    self.turn_to(pos + 1);
                }
            },
        }
    }

    fn fail_restore(&mut self, what: &str, which: &str, m: &str)
        requires
            old(self).previous is Some,
            old(self).error is Some,
        ensures
            final(self).same_task(*old(self)),
            final(self).progress() == (Progress {
                phase: BringUpPhase::Failed,
                error: Some(
                    restore_error(
                        old(self).setting(),
                        old(self).progress().error,
                        what@ + which@ + "': "@ + m@,
                    ),
                ),
                ..old(self).progress()
            }),
    {
        let mut detail: String = wrap(what, which, "': ");
        detail.append(m);
        self.fail_with(detail.as_str());
    }

    fn fail_with(&mut self, detail: &str)
        requires
            old(self).previous is Some,
            old(self).error is Some,
        ensures
            final(self).same_task(*old(self)),
            final(self).progress() == (Progress {
                phase: BringUpPhase::Failed,
                error: Some(
                    restore_error(old(self).setting(), old(self).progress().error, detail@),
                ),
                ..old(self).progress()
            }),
    {
        let mut text: String = String::new();
        match &self.error {
            Some(e) => {
                text.append(e.as_str());
            },
            None => {},
        }
        text.append("; failed to restore previous backend '");
        match &self.previous {
            Some(a) => {
                text.append(a.backend_id.as_str());
            },
            None => {},
        }
        text.append("': ");
        text.append(detail);
        assert(text@ == restore_error(old(self).setting(), old(self).progress().error, detail@));
        self.error = Some(text);
        self.phase = BringUpPhase::Failed;
    }

    /// Takes note of how the step of the current phase went.
    pub fn step(&mut self, reply: Reply)
        requires
            old(self).wf(),
        ensures
            final(self).wf(),
            final(self).same_task(*old(self)),
            final(self).progress() == stepped(old(self).setting(), old(self).progress(), reply@),
    {
        proof {
            law_steps_fit(self.setting(), self.progress(), reply@);
        }
        match reply {
            Reply::Done => {
                self.step_done();
            },
            Reply::Failed(m) => {
                self.step_failed(m);
            },
        }
    }

    fn step_done(&mut self)
        requires
            old(self).wf(),
        ensures
            final(self).same_task(*old(self)),
            final(self).progress() == stepped(
                old(self).setting(),
                old(self).progress(),
                ReplyView::Done,
            ),
    {
        assert(is_over(self.phase) || is_restoring(self.phase) || self.pos < self.candidates.len());
        match self.phase {
            BringUpPhase::AskingPrevious => {
                self.phase = BringUpPhase::PausingPrevious;
            },
            BringUpPhase::PausingPrevious => {
                self.paused = true;
                self.phase = BringUpPhase::StartingHost;
            },
            BringUpPhase::StartingHost => {
                self.started_host = true;
                self.phase = BringUpPhase::ProbingHost;
            },
            BringUpPhase::ProbingHost => {
                self.phase = BringUpPhase::WarmingHost;
            },
            BringUpPhase::StartingContainer => {
                self.phase = BringUpPhase::ProbingContainer;
            },
            BringUpPhase::ProbingContainer => {
                self.phase = BringUpPhase::WarmingContainer;
            },
            BringUpPhase::WarmingHost | BringUpPhase::WarmingContainer => {
                self.phase = BringUpPhase::Succeeded;
            },
            BringUpPhase::StoppingHost | BringUpPhase::StoppingContainer => {
                self.turn_to(self.pos + 1);
            },
            BringUpPhase::RestoringPrevious => {
                self.paused = false;
                let fault: Option<String> = match &self.previous_fault {
                    Some(m) => Some(m.clone()),
                    None => None,
                };
                match fault {
                    Some(m) => {
                        self.fail_with(m.as_str());
                    },
                    None => {
                        self.phase = BringUpPhase::ProbingPrevious;
                    },
                }
            },
            BringUpPhase::ProbingPrevious => {
                self.phase = BringUpPhase::WarmingPrevious;
            },
            BringUpPhase::WarmingPrevious => {
                self.phase = BringUpPhase::Failed;
            },
            BringUpPhase::Succeeded | BringUpPhase::Failed => {},
        }
    }

    fn step_failed(&mut self, m: String)
        requires
            old(self).wf(),
        ensures
            final(self).same_task(*old(self)),
            final(self).progress() == stepped(
                old(self).setting(),
                old(self).progress(),
                ReplyView::Failed(m@),
            ),
    {
        assert(is_over(self.phase) || is_restoring(self.phase) || self.pos < self.candidates.len());
        match self.phase {
            BringUpPhase::AskingPrevious => {
                self.phase = BringUpPhase::StartingHost;
            },
            BringUpPhase::PausingPrevious
            | BringUpPhase::StartingHost
            | BringUpPhase::StartingContainer => {
                self.error = Some(m);
                self.turn_to(self.pos + 1);
            },
            BringUpPhase::ProbingHost | BringUpPhase::WarmingHost => {
                self.error = Some(m);
                if self.started_host {
                    self.phase = BringUpPhase::StoppingHost;
                } else {
                    self.turn_to(self.pos + 1);
                }
            },
            BringUpPhase::ProbingContainer | BringUpPhase::WarmingContainer => {
                self.error = Some(m);
                self.phase = BringUpPhase::StoppingContainer;
            },
            BringUpPhase::StoppingHost | BringUpPhase::StoppingContainer => {
                self.turn_to(self.pos + 1);
            },
            BringUpPhase::RestoringPrevious => {
                let name: String = self.previous_container();
                self.fail_restore("restart paused container '", name.as_str(), m.as_str());
            },
            BringUpPhase::ProbingPrevious => {
                let name: String = self.previous_backend();
                self.fail_restore("health check restored backend '", name.as_str(), m.as_str());
            },
            BringUpPhase::WarmingPrevious => {
                let name: String = self.previous_backend();
                self.fail_restore("warm restored backend '", name.as_str(), m.as_str());
            },
            BringUpPhase::Succeeded | BringUpPhase::Failed => {},
        }
    }

    fn previous_container(&self) -> (r: String)
        ensures
            self.previous matches Some(a) ==> r@ == a.container@,
    {
        match &self.previous {
            Some(a) => a.container.clone(),
            None => String::new(),
        }
    }

    fn previous_backend(&self) -> (r: String)
        ensures
            self.previous matches Some(a) ==> r@ == a.backend_id@,
    {
        match &self.previous {
            Some(a) => a.backend_id.clone(),
            None => String::new(),
        }
    }

    /// The plan for the stage once a candidate came up.
    pub fn plan(&self) -> (r: Option<StagePlan>)
        requires
            self.wf(),
        ensures
            match r {
                Some(p) => {
                    let c = self.candidates@[self.pos as int];
                    &&& self.phase == BringUpPhase::Succeeded
                    &&& p.stage == self.stage
                    &&& p.backend_id@ == self.backend_id@
                    &&& p.variant_id@ == c.variant_id@
                    &&& p.endpoint@ == c.endpoint@
                    &&& !p.already_active
                    &&& c.kind == CandidateKind::Container ==> p.container@ == c.container@
                        && crate::registry::opt_view(p.started_container) == Some(c.container@)
                        && !p.started_host
                    &&& c.kind != CandidateKind::Container ==> p.container@ == Seq::<char>::empty()
                        && p.started_container is None && p.started_host == (c.kind
                        == CandidateKind::HostProfile)
                },
                None => self.phase != BringUpPhase::Succeeded,
            },
    {
        if self.phase != BringUpPhase::Succeeded {
            return None;
        }
        assert(self.setting().kinds[self.pos as int] == self.candidates@[self.pos as int].kind);
        let c: &Candidate = &self.candidates[self.pos];
        if c.kind == CandidateKind::Container {
            Some(
                StagePlan {
                    stage: self.stage,
                    backend_id: self.backend_id.clone(),
                    variant_id: c.variant_id.clone(),
                    endpoint: c.endpoint.clone(),
                    container: c.container.clone(),
                    started_container: Some(c.container.clone()),
                    started_host: false,
                    already_active: false,
                },
            )
        } else {
            Some(
                StagePlan {
                    stage: self.stage,
                    backend_id: self.backend_id.clone(),
                    variant_id: c.variant_id.clone(),
                    endpoint: c.endpoint.clone(),
                    container: String::new(),
                    started_container: None,
                    started_host: self.started_host,
                    already_active: false,
                },
            )
        }
    }

    /// What is announced when a phase begins.
    pub fn notice(&self) -> (r: Option<StageTransition>)
        requires
            self.wf(),
        ensures
            match notice_of(*self) {
                Some((phase, message)) => r matches Some(t) && crate::lab::says(
                    t,
                    self.stage,
                    phase,
                    noticed_ids(*self).0,
                    noticed_ids(*self).1,
                    message,
                ),
                None => r is None,
            },
    {
        match self.phase {
            BringUpPhase::PausingPrevious => match &self.previous {
                Some(a) => Some(
                    StageTransition {
                        stage: self.stage,
                        phase: TransitionPhase::Stopping,
                        backend_id: a.backend_id.clone(),
                        variant_id: a.variant_id.clone(),
                        message: String::from_str("pausing current container for native host port"),
                    },
                ),
                None => None,
            },
            BringUpPhase::StartingHost => {
                let m: String = text::joined_pair(
                    "starting Windows host profile ",
                    self.candidates[self.pos].profile.as_str(),
                );
                Some(self.announce(TransitionPhase::Starting, m))
            },
            BringUpPhase::ProbingHost => {
                let m: String = text::joined_pair(
                    "probing host endpoint ",
                    self.candidates[self.pos].endpoint.as_str(),
                );
                Some(self.announce(TransitionPhase::Starting, m))
            },
            BringUpPhase::StartingContainer => Some(
                self.announce(
                    TransitionPhase::Starting,
                    String::from_str("starting selected backend"),
                ),
            ),
            BringUpPhase::WarmingHost | BringUpPhase::WarmingContainer => Some(
                self.announce(
                    TransitionPhase::Warming,
                    String::from_str("warming inference path"),
                ),
            ),
            _ => None,
        }
    }

    fn announce(&self, phase: TransitionPhase, message: String) -> (r: StageTransition)
        requires
            self.pos < self.candidates.len(),
        ensures
            crate::lab::says(
                r,
                self.stage,
                phase,
                self.backend_id@,
                self.candidates@[self.pos as int].variant_id@,
                message@,
            ),
    {
        StageTransition {
            stage: self.stage,
            phase,
            backend_id: self.backend_id.clone(),
            variant_id: self.candidates[self.pos].variant_id.clone(),
            message,
        }
    }
}

/// The phase and the message that are announced.
pub open spec fn notice_of(m: BringUp) -> Option<(TransitionPhase, Seq<char>)> {
    match m.phase {
        BringUpPhase::PausingPrevious => Some(
            (TransitionPhase::Stopping, "pausing current container for native host port"@),
        ),
        BringUpPhase::StartingHost => Some(
            (
                TransitionPhase::Starting,
                "starting Windows host profile "@ + m.candidates@[m.pos as int].profile@,
            ),
        ),
        BringUpPhase::ProbingHost => Some(
            (
                TransitionPhase::Starting,
                "probing host endpoint "@ + m.candidates@[m.pos as int].endpoint@,
            ),
        ),
        BringUpPhase::StartingContainer => Some(
            (TransitionPhase::Starting, "starting selected backend"@),
        ),
        BringUpPhase::WarmingHost | BringUpPhase::WarmingContainer => Some(
            (TransitionPhase::Warming, "warming inference path"@),
        ),
        _ => None,
    }
}

/// The backend and variant that are announced.
pub open spec fn noticed_ids(m: BringUp) -> (Seq<char>, Seq<char>) {
    if m.phase == BringUpPhase::PausingPrevious {
        (m.previous.unwrap().backend_id@, m.previous.unwrap().variant_id@)
    } else {
        (m.backend_id@, m.candidates@[m.pos as int].variant_id@)
    }
}

/// The error for a container that could not be paused.
pub fn pause_failure(stage: BackendStage, container: &str, error: &str) -> (r: String)
    ensures
        r@ == "pause current "@ + crate::lab::stage_title(stage) + " container '"@ + container@
            + "': "@ + error@,
{
    let mut m: String = wrap2(
        "pause current ",
        title_of_stage(stage),
        " container '",
        container,
        "': ",
    );
    m.append(error);
    m
}

/// The error for a container that was not paused in time.
pub fn pause_timeout(stage: BackendStage, container: &str) -> (r: String)
    ensures
        r@ == "timed out pausing current "@ + crate::lab::stage_title(stage) + " container '"@
            + container@ + "'"@,
{
    wrap2("timed out pausing current ", title_of_stage(stage), " container '", container, "'")
}

pub open spec fn clamped(n: nat, low: nat, high: nat) -> nat {
    if n < low {
        low
    } else if n > high {
        high
    } else {
        n
    }
}

/// The seconds that a setting allows for a health check.
pub open spec fn health_seconds(setting: Option<String>) -> nat {
    match setting {
        Some(s) => match text::parsed_unsigned(s@, u64::MAX as nat) {
            Some(n) => clamped(n, 10, 900),
            None => 300,
        },
        None => 300,
    }
}

/// How long a managed backend may take to become healthy.
pub fn health_timeout_secs(setting: &Option<String>) -> (r: u64)
    ensures
        r == health_seconds(*setting),
{
    let n: u64 = match setting {
        Some(s) => match text::parse_unsigned(s.as_str(), u64::MAX) {
            Some(n) => n,
            None => 300,
        },
        None => 300,
    };
    if n < 10 {
        10
    } else if n > 900 {
        900
    } else {
        n
    }
}

/// How long a host endpoint is probed: as long as any managed backend if it was
/// just started, else briefly.
pub fn host_probe_secs(started_host: bool, setting: &Option<String>) -> (r: u64)
    ensures
        r == if started_host {
            health_seconds(*setting)
        } else {
            12
        },
{
    if started_host {
        health_timeout_secs(setting)
    } else {
        12
    }
}

/// The variant with an id is the first that has it.
pub proof fn law_variant_of_an_id(vs: Seq<BackendVariant>, id: Seq<char>)
    ensures
        match variant_index(vs, id) {
            Some(i) => 0 <= i < vs.len() && vs[i].id@ == id && forall|j: int|
                0 <= j < i ==> (#[trigger] vs[j]).id@ != id,
            None => forall|j: int| 0 <= j < vs.len() ==> (#[trigger] vs[j]).id@ != id,
        },
    decreases vs.len(),
{
    if vs.len() > 0 {
        let t = vs.drop_last();
        law_variant_of_an_id(t, id);
        assert(vs.last() == vs[vs.len() - 1]);
        assert forall|j: int| 0 <= j < t.len() implies vs[j] == #[trigger] t[j] by {}
        if variant_index(t, id) is None {
            assert forall|j: int| 0 <= j < t.len() implies (#[trigger] vs[j]).id@ != id by {
                assert(t[j] == vs[j]);
            }
        } else {
            let i = variant_index(t, id).unwrap();
            assert(t[i] == vs[i]);
            assert forall|j: int| 0 <= j < i implies (#[trigger] vs[j]).id@ != id by {
                assert(t[j] == vs[j]);
            }
        }
    }
}

/// The candidate that serves an endpoint is the first that has it.
pub proof fn law_serving_candidate(cs: Seq<Candidate>, endpoint: Seq<char>)
    ensures
        match serving(cs, endpoint) {
            Some(i) => 0 <= i < cs.len() && cs[i].endpoint@ == endpoint && forall|j: int|
                0 <= j < i ==> (#[trigger] cs[j]).endpoint@ != endpoint,
            None => forall|j: int| 0 <= j < cs.len() ==> (#[trigger] cs[j]).endpoint@ != endpoint,
        },
    decreases cs.len(),
{
    if cs.len() > 0 {
        let t = cs.drop_last();
        law_serving_candidate(t, endpoint);
        assert(cs.last() == cs[cs.len() - 1]);
        if serving(t, endpoint) is None {
            assert forall|j: int| 0 <= j < t.len() implies (#[trigger] cs[j]).endpoint@
                != endpoint by {
                assert(t[j] == cs[j]);
            }
        } else {
            let i = serving(t, endpoint).unwrap();
            assert(t[i] == cs[i]);
            assert forall|j: int| 0 <= j < i implies (#[trigger] cs[j]).endpoint@ != endpoint by {
                assert(t[j] == cs[j]);
            }
        }
    }
}

/// A backend can be brought up if the catalog has it for the stage and a variant of it
/// can run on the machine; else it is told which of these fails, in this order.
pub proof fn law_stage_of_a_backend(
    c: BackendCatalog,
    hw: HardwareProfile,
    stage: BackendStage,
    id: Seq<char>,
)
    ensures
        match crate::registry::backend_index(c.backends@, id) {
            None => stage_fault(c, hw, stage, id) == Some("unknown backend id '"@ + id + "'"@),
            Some(i) => {
                &&& stage_fault(c, hw, stage, id) is None <==> c.backends@[i].stage == stage
                    && crate::registry::chosen(c.backends@[i].variants@, hw) is Some
            },
        },
{
}

/// A server is asked at its endpoint. The external language model is asked where the
/// setting says, else where it is asked already, and nowhere else.
pub proof fn law_endpoint_of_a_stage(
    b: BackendDefinition,
    v: BackendVariant,
    in_container: bool,
    url: String,
    rt: RuntimeState,
)
    ensures
        b.id@ != "external-openai"@ && (in_container || v.native_endpoint@.len() == 0)
            ==> stage_endpoint_of(b, v, in_container, Some(url), Some(rt)) == v.endpoint@,
        b.id@ != "external-openai"@ && !in_container && v.native_endpoint@.len() > 0
            ==> stage_endpoint_of(b, v, in_container, Some(url), Some(rt)) == v.native_endpoint@,
        b.id@ == "external-openai"@ && text::trim(url@).len() > 0 ==> stage_endpoint_of(
            b,
            v,
            in_container,
            Some(url),
            Some(rt),
        ) == url@,
        b.id@ == "external-openai"@ && rt.llm_id@ == "external-openai"@ ==> stage_endpoint_of(
            b,
            v,
            in_container,
            None,
            Some(rt),
        ) == rt.cfg.llm_base_url@,
        b.id@ == "external-openai"@ && rt.llm_id@ != "external-openai"@ ==> stage_endpoint_of(
            b,
            v,
            in_container,
            None,
            Some(rt),
        ).len() == 0,
{
}

/// How a variant is brought up: a container where it has one, else by the host where
/// it has a profile, else it is only asked.
pub proof fn law_kind_of_a_variant(v: BackendVariant)
    ensures
        v.container@.len() > 0 ==> kind_of(v) == CandidateKind::Container,
        v.container@.len() == 0 && v.host_profile@.len() > 0 ==> kind_of(v)
            == CandidateKind::HostProfile,
        v.container@.len() == 0 && v.host_profile@.len() == 0 ==> kind_of(v)
            == CandidateKind::Remote,
{
}

/// A candidate counts as brought up only after it was warmed up, and it is warmed up
/// only after it answered.
pub proof fn law_only_a_warm_candidate_succeeds(s: Setting, p: Progress, r: ReplyView)
    requires
        !is_over(p.phase),
        stepped(s, p, r).phase == BringUpPhase::Succeeded,
    ensures
        r is Done,
        p.phase == BringUpPhase::WarmingHost || p.phase == BringUpPhase::WarmingContainer,
        stepped(s, p, r).pos == p.pos,
{
    lemma_turned_never_succeeds(s, p, p.pos + 1);
    if r is Failed {
        lemma_turned_never_succeeds(s, Progress { error: Some(r->Failed_0), ..p }, p.pos + 1);
    }
}

proof fn lemma_turned_never_succeeds(s: Setting, p: Progress, pos: int)
    ensures
        turned_to(s, p, pos).phase != BringUpPhase::Succeeded,
        turned_to(s, p, pos).phase != BringUpPhase::WarmingHost,
        turned_to(s, p, pos).phase != BringUpPhase::WarmingContainer,
    decreases s.kinds.len() - pos,
{
    if 0 <= pos < s.kinds.len() && s.kinds[pos] == CandidateKind::Container && !s.docker {
        lemma_turned_never_succeeds(
            s,
            Progress {
                error: Some(
                    "managed container '"@ + s.containers[pos]
                        + "' requires Docker lab control"@,
                ),
                ..p
            },
            pos + 1,
        );
    }
}

/// A candidate is started, probed and warmed up in this order.
pub proof fn law_order_of_a_bring_up(s: Setting, p: Progress)
    ensures
        p.phase == BringUpPhase::StartingHost ==> stepped(s, p, ReplyView::Done).phase
            == BringUpPhase::ProbingHost && stepped(s, p, ReplyView::Done).started_host,
        p.phase == BringUpPhase::ProbingHost ==> stepped(s, p, ReplyView::Done).phase
            == BringUpPhase::WarmingHost,
        p.phase == BringUpPhase::WarmingHost ==> stepped(s, p, ReplyView::Done).phase
            == BringUpPhase::Succeeded,
        p.phase == BringUpPhase::StartingContainer ==> stepped(s, p, ReplyView::Done).phase
            == BringUpPhase::ProbingContainer,
        p.phase == BringUpPhase::ProbingContainer ==> stepped(s, p, ReplyView::Done).phase
            == BringUpPhase::WarmingContainer,
        p.phase == BringUpPhase::WarmingContainer ==> stepped(s, p, ReplyView::Done).phase
            == BringUpPhase::Succeeded,
        !is_over(p.phase) && stepped(s, p, ReplyView::Done).phase == BringUpPhase::WarmingHost
            ==> p.phase == BringUpPhase::ProbingHost,
        !is_over(p.phase) && stepped(s, p, ReplyView::Done).phase == BringUpPhase::WarmingContainer
            ==> p.phase == BringUpPhase::ProbingContainer,
{
    lemma_turned_never_succeeds(s, p, p.pos + 1);
}

/// A candidate that was started and then fails is stopped before another is tried, and
/// what went wrong is remembered.
pub proof fn law_failed_candidate_is_stopped(s: Setting, p: Progress, m: Seq<char>)
    ensures
        (p.phase == BringUpPhase::ProbingContainer || p.phase == BringUpPhase::WarmingContainer)
            ==> stepped(s, p, ReplyView::Failed(m)).phase == BringUpPhase::StoppingContainer
            && stepped(s, p, ReplyView::Failed(m)).pos == p.pos && stepped(
            s,
            p,
            ReplyView::Failed(m),
        ).error == Some(m),
        (p.phase == BringUpPhase::ProbingHost || p.phase == BringUpPhase::WarmingHost)
            && p.started_host ==> stepped(s, p, ReplyView::Failed(m)).phase
            == BringUpPhase::StoppingHost && stepped(s, p, ReplyView::Failed(m)).pos == p.pos
            && stepped(s, p, ReplyView::Failed(m)).error == Some(m),
{
}

/// When a candidate is given up the next one is tried at once, in the way of its kind;
/// only a container is passed over where none is managed.
pub proof fn law_next_candidate_is_tried(s: Setting, p: Progress, pos: int)
    requires
        0 <= pos < s.kinds.len(),
    ensures
        s.kinds[pos] == CandidateKind::Remote ==> turned_to(s, p, pos).phase
            == BringUpPhase::ProbingHost && turned_to(s, p, pos).pos == pos && !turned_to(
            s,
            p,
            pos,
        ).started_host,
        s.kinds[pos] == CandidateKind::Container && s.docker ==> turned_to(s, p, pos).phase
            == BringUpPhase::StartingContainer && turned_to(s, p, pos).pos == pos,
        s.kinds[pos] == CandidateKind::HostProfile ==> turned_to(s, p, pos).pos == pos && (
        turned_to(s, p, pos).phase == BringUpPhase::StartingHost || turned_to(s, p, pos).phase
            == BringUpPhase::AskingPrevious),
        s.kinds[pos] == CandidateKind::HostProfile && s.docker && s.previous is Some
            && !p.pause_attempted ==> turned_to(s, p, pos).phase == BringUpPhase::AskingPrevious,
        s.kinds[pos] == CandidateKind::Container && !s.docker ==> turned_to(s, p, pos).pos > pos,
{
    if s.kinds[pos] == CandidateKind::Container && !s.docker {
        lemma_turned_goes_on(
            s,
            Progress {
                error: Some(
                    "managed container '"@ + s.containers[pos]
                        + "' requires Docker lab control"@,
                ),
                ..p
            },
            pos + 1,
        );
    }
}

proof fn lemma_turned_goes_on(s: Setting, p: Progress, pos: int)
    requires
        0 <= pos <= s.kinds.len(),
    ensures
        turned_to(s, p, pos).pos >= pos,
    decreases s.kinds.len() - pos,
{
    if pos < s.kinds.len() && s.kinds[pos] == CandidateKind::Container && !s.docker {
        lemma_turned_goes_on(
            s,
            Progress {
                error: Some(
                    "managed container '"@ + s.containers[pos]
                        + "' requires Docker lab control"@,
                ),
                ..p
            },
            pos + 1,
        );
    }
}

/// A container that was paused is brought back when no candidate is left, and its
/// return is probed and warmed up too.
pub proof fn law_paused_container_comes_back(s: Setting, p: Progress)
    ensures
        p.paused ==> turned_to(s, p, s.kinds.len() as int).phase == BringUpPhase::RestoringPrevious,
        !p.paused ==> turned_to(s, p, s.kinds.len() as int).phase == BringUpPhase::Failed,
        p.error is Some ==> turned_to(s, p, s.kinds.len() as int).error == p.error,
        p.phase == BringUpPhase::RestoringPrevious && s.previous_fault is None ==> stepped(
            s,
            p,
            ReplyView::Done,
        ).phase == BringUpPhase::ProbingPrevious,
        p.phase == BringUpPhase::ProbingPrevious ==> stepped(s, p, ReplyView::Done).phase
            == BringUpPhase::WarmingPrevious,
        p.phase == BringUpPhase::WarmingPrevious ==> stepped(s, p, ReplyView::Done).phase
            == BringUpPhase::Failed && stepped(s, p, ReplyView::Done).error == p.error,
{
}

/// A container is given five minutes to answer unless a number of seconds is set,
/// which counts between ten and 900.
pub proof fn law_patience(n: u64, s: String)
    requires
        s@ == text::decimal(n as nat),
    ensures
        health_seconds(None) == 300,
        10 <= n <= 900 ==> health_seconds(Some(s)) == n,
        n < 10 ==> health_seconds(Some(s)) == 10,
        n > 900 ==> health_seconds(Some(s)) == 900,
{
    text::law_written_number_reads_back(n as nat, u64::MAX as nat);
}

/// Only a container of the stack is paused for a host runtime.
pub proof fn law_only_containers_are_paused(a: ActiveBackend)
    ensures
        a.container@.len() > 0 ==> pausable(Some(a)) == Some(a),
        a.container@.len() == 0 ==> pausable(Some(a)) is None,
        pausable(None) is None,
{
}

/// What served a stage can be looked up again exactly if the catalog still has a
/// backend with its id and this a variant with its id.
pub proof fn law_lookup_of_the_last_one(c: BackendCatalog, active: ActiveBackend, i: int)
    ensures
        (forall|j: int|
            0 <= j < c.backends@.len() ==> (#[trigger] c.backends@[j]).id@ != active.backend_id@)
            ==> lookup_fault(c, active) == Some(
            "rollback backend '"@ + active.backend_id@ + "' is missing"@,
        ),
        0 <= i < c.backends@.len() && c.backends@[i].id@ == active.backend_id@ && (forall|j: int|
            0 <= j < i ==> (#[trigger] c.backends@[j]).id@ != active.backend_id@) ==> (lookup_fault(
            c,
            active,
        ) is None <==> exists|k: int|
            0 <= k < c.backends@[i].variants@.len() && (
            #[trigger] c.backends@[i].variants@[k]).id@ == active.variant_id@),
{
    crate::registry::law_lookup_finds_the_first(c.backends@, active.backend_id@);
    if 0 <= i < c.backends@.len() && c.backends@[i].id@ == active.backend_id@ && (forall|j: int|
        0 <= j < i ==> (#[trigger] c.backends@[j]).id@ != active.backend_id@) {
        assert(crate::registry::has_backend(
            c.backends@,
            c.backends@.len() as int,
            active.backend_id@,
        ));
        assert(crate::registry::backend_index(c.backends@, active.backend_id@) == Some(i));
        law_variant_of_an_id(c.backends@[i].variants@, active.variant_id@);
    }
}

/// A stage is announced as stopping while a container is paused, as starting until
/// its backend answers, and as warming after that.
pub proof fn law_what_is_announced(m: BringUp)
    ensures
        m.phase is PausingPrevious ==> notice_of(m) is Some && notice_of(m).unwrap().0
            == TransitionPhase::Stopping,
        m.phase is StartingHost || m.phase is ProbingHost || m.phase is StartingContainer
            ==> notice_of(m) is Some && notice_of(m).unwrap().0 == TransitionPhase::Starting,
        m.phase is WarmingHost || m.phase is WarmingContainer ==> notice_of(m) is Some && notice_of(
            m,
        ).unwrap().0 == TransitionPhase::Warming,
{
}

} // verus!
