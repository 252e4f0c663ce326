//! Suggestions of backends that go together on a machine.
//!
//! Scores are predictions from the catalog and the capability profile. Sizes are
//! the bits of single-precision numbers that are not negative, whose order is that
//! of the numbers; scores are whole hundredths.

use crate::registry::{
    variant_rank, wrap, wrap2, BackendStage, CatalogBackendStatus, HardwareProfile,
    StackPreset,
};
use crate::text;
use vstd::prelude::*;

verus! {

/// The name of the rules by which suggestions are scored.
pub const SCORING_VERSION: &'static str = "heuristic_v1";

/// What every answer says of its scores.
pub fn scoring_note() -> (r: &'static str)
    ensures
        r@
            == "Scores are heuristic predictions from catalog metadata and system capacity — not runtime benchmarks. User selection remains manual."@,
{
    "Scores are heuristic predictions from catalog metadata and system capacity — not runtime benchmarks. User selection remains manual."
}

// ---------------------------------------------------------------------------
// The query
// ---------------------------------------------------------------------------

#[derive(Debug)]
pub struct SuggestionQuery {
    /// Language code; none for any language.
    pub language: Option<String>,
    /// Only stable runtimes are suggested.
    pub stable_only: bool,
    /// The memory that recognition and synthesis may take together.
    pub max_vram_gb: Option<u32>,
    /// How many pairs and presets are given at most.
    pub limit: usize,
}

pub struct QueryView {
    pub language: Option<Seq<char>>,
    pub stable_only: bool,
    pub max_vram_gb: Option<u32>,
    pub limit: int,
}

impl View for SuggestionQuery {
    type V = QueryView;

    open spec fn view(&self) -> QueryView {
        QueryView {
            language: crate::registry::opt_view(self.language),
            stable_only: self.stable_only,
            max_vram_gb: self.max_vram_gb,
            limit: self.limit as int,
        }
    }
}

pub open spec fn says_yes(v: Seq<char>) -> bool {
    v == "1"@ || v == "true"@ || v == "yes"@ || v == "on"@ || v == ""@
}

pub open spec fn says_no(v: Seq<char>) -> bool {
    v == "0"@ || v == "false"@ || v == "no"@ || v == "off"@
}

pub open spec fn is_stable_key(key: Seq<char>) -> bool {
    key == "stable_only"@ || key == "stable"@
}

/// A query once one more parameter was read. `size` is the positive number that
/// its value denotes.
pub open spec fn read_parameter(
    q: QueryView,
    key: Seq<char>,
    value: Seq<char>,
    size: Option<u32>,
) -> QueryView {
    let v = text::lower(text::trim(value));
    if key == "language"@ || key == "lang"@ {
        if v.len() > 0 && v != "auto"@ {
            QueryView { language: Some(v), ..q }
        } else {
            q
        }
    } else if is_stable_key(key) {
        QueryView { stable_only: says_yes(v), ..q }
    } else if key == "max_vram_gb"@ || key == "max_vram"@ {
        if size is Some {
            QueryView { max_vram_gb: size, ..q }
        } else {
            q
        }
    } else if key == "limit"@ {
        match text::parsed_unsigned(text::trim(value), usize::MAX as nat) {
            Some(n) => QueryView {
                limit: if n < 1 {
                    1
                } else if n > 32 {
                    32
                } else {
                    n as int
                },
                ..q
            },
            None => q,
        }
    } else {
        q
    }
}

/// A query once the first `n` parameters were read.
pub open spec fn read_parameters(
    pairs: Seq<(String, String)>,
    sizes: Seq<Option<u32>>,
    n: int,
) -> QueryView
    decreases n,
{
    if n <= 0 {
        QueryView { language: None, stable_only: true, max_vram_gb: None, limit: 8 }
    } else {
        read_parameter(
            read_parameters(pairs, sizes, n - 1),
            pairs[n - 1].0@,
            pairs[n - 1].1@,
            sizes[n - 1],
        )
    }
}

/// Whether one of the first `n` parameters switches stable runtimes off.
pub open spec fn declines_stable(pairs: Seq<(String, String)>, n: int) -> bool {
    exists|i: int|
        0 <= i < n && is_stable_key((#[trigger] pairs[i]).0@) && says_no(
            text::lower(text::trim(pairs[i].1@)),
        )
}

fn value_says_yes(v: &str) -> (r: bool)
    ensures
        r == says_yes(v@),
{
    text::same(v, "1") || text::same(v, "true") || text::same(v, "yes") || text::same(v, "on")
        || text::same(v, "")
}

fn value_says_no(v: &str) -> (r: bool)
    ensures
        r == says_no(v@),
{
    text::same(v, "0") || text::same(v, "false") || text::same(v, "no") || text::same(v, "off")
}

impl SuggestionQuery {
    fn read(&mut self, key: &str, value: &str, size: Option<u32>)
        ensures
            final(self)@ == read_parameter(old(self)@, key@, value@, size),
    {
        let t: String = text::trimmed(value);
        let v: String = text::to_lower(t.as_str());
        if text::same(key, "language") || text::same(key, "lang") {
            if !v.as_str().is_empty() && !text::same(v.as_str(), "auto") {
                self.language = Some(v);
            }
        } else if text::same(key, "stable_only") || text::same(key, "stable") {
            self.stable_only = value_says_yes(v.as_str());
        } else if text::same(key, "max_vram_gb") || text::same(key, "max_vram") {
            if size.is_some() {
                self.max_vram_gb = size;
            }
        } else if text::same(key, "limit") {
            match text::parse_unsigned(t.as_str(), usize::MAX as u64) {
                Some(n) => {
                    self.limit = if n < 1 {
                        1
                    } else if n > 32 {
                        32
                    } else {
                        n as usize
                    };
                },
                None => {},
            }
        }
    }

    /// Reads the parameters of a request. `sizes` holds for each parameter the
    /// positive number that its value denotes, if it denotes one.
    pub fn from_query_pairs(pairs: &Vec<(String, String)>, sizes: &Vec<Option<u32>>) -> (r: Self)
        requires
            sizes@.len() == pairs@.len(),
        ensures
            r@ == (QueryView {
                stable_only: read_parameters(pairs@, sizes@, pairs@.len() as int).stable_only
                    && !declines_stable(pairs@, pairs@.len() as int),
                ..read_parameters(pairs@, sizes@, pairs@.len() as int)
            }),
    {
        let mut q: SuggestionQuery = SuggestionQuery {
            language: None,
            stable_only: true,
            max_vram_gb: None,
            limit: 8,
        };
        let mut declined: bool = false;
        let mut i: usize = 0;
        while i < pairs.len()
            invariant
                i <= pairs.len(),
                sizes@.len() == pairs@.len(),
                q@ == read_parameters(pairs@, sizes@, i as int),
                declined == declines_stable(pairs@, i as int),
            decreases pairs.len() - i,
        {
            let key: &str = pairs[i].0.as_str();
            let value: &str = pairs[i].1.as_str();
            q.read(key, value, sizes[i]);
            if text::same(key, "stable_only") || text::same(key, "stable") {
                let t: String = text::trimmed(value);
                let v: String = text::to_lower(t.as_str());
                if value_says_no(v.as_str()) {
                    declined = true;
                    assert(is_stable_key(pairs@[i as int].0@));
                }
            }
            i += 1;
        }
        if declined {
            q.stable_only = false;
        }
        q
    }
}

// ---------------------------------------------------------------------------
// Which backends are suggested
// ---------------------------------------------------------------------------

/// Whether a language of a backend is the wanted one, given in small letters.
pub open spec fn speaks(lang: Seq<char>, wanted: Seq<char>) -> bool {
    let l = text::lower(lang);
    ||| l == "auto"@
    ||| l == wanted
    ||| text::starts_with(l, wanted + "-"@)
    ||| wanted == "de"@ && (l == "german"@ || l == "deu"@ || l == "ger"@)
    ||| wanted == "en"@ && (l == "english"@ || l == "eng"@)
}

/// Whether a wanted language is among those of a backend; no languages means any.
pub open spec fn matches_language(langs: Seq<String>, wanted: Seq<char>) -> bool {
    ||| wanted.len() == 0
    ||| wanted == "auto"@
    ||| langs.len() == 0
    ||| exists|i: int| 0 <= i < langs.len() && speaks((#[trigger] langs[i])@, text::lower(wanted))
}

fn language_speaks(lang: &str, wanted: &str) -> (r: bool)
    ensures
        r == speaks(lang@, wanted@),
{
    let l: String = text::to_lower(lang);
    let p: String = text::joined_pair(wanted, "-");
    let l: &str = l.as_str();
    text::same(l, "auto") || text::same(l, wanted) || text::begins_with(l, p.as_str()) || (
    text::same(wanted, "de") && (text::same(l, "german") || text::same(l, "deu") || text::same(
        l,
        "ger",
    ))) || (text::same(wanted, "en") && (text::same(l, "english") || text::same(l, "eng")))
}

pub fn language_matches(langs: &Vec<String>, wanted: &str) -> (r: bool)
    ensures
        r == matches_language(langs@, wanted@),
{
    if wanted.is_empty() || text::same(wanted, "auto") || langs.len() == 0 {
        return true;
    }
    let w: String = text::to_lower(wanted);
    let mut i: usize = 0;
    while i < langs.len()
        invariant
            i <= langs.len(),
            w@ == text::lower(wanted@),
            forall|j: int| 0 <= j < i ==> !speaks((#[trigger] langs@[j])@, w@),
        decreases langs.len() - i,
    {
        if language_speaks(langs[i].as_str(), w.as_str()) {
            assert(speaks(langs@[i as int]@, text::lower(wanted@)));
            return true;
        }
        i += 1;
    }
    false
}

/// Whether a backend is suggested for a stage.
pub open spec fn eligible(s: CatalogBackendStatus, q: QueryView, stage: BackendStage) -> bool {
    &&& s.backend.stage == stage
    &&& s.available
    &&& s.selected_variant matches Some(v) && (q.stable_only ==> v.stable)
    &&& q.language matches Some(l) ==> matches_language(s.backend.languages@, l)
}

pub fn is_eligible(
    status: &CatalogBackendStatus,
    query: &SuggestionQuery,
    stage: BackendStage,
) -> (r: bool)
    ensures
        r == eligible(*status, query@, stage),
{
    if status.backend.stage != stage || !status.available {
        return false;
    }
    match &status.selected_variant {
        Some(v) => {
            if query.stable_only && !v.stable {
                return false;
            }
        },
        None => {
            return false;
        },
    }
    match &query.language {
        Some(l) => language_matches(&status.backend.languages, l.as_str()),
        None => true,
    }
}

/// The suggested backends of a stage among the first `n`.
pub open spec fn eligible_among(
    backends: Seq<CatalogBackendStatus>,
    q: QueryView,
    stage: BackendStage,
    n: int,
) -> Seq<usize>
    decreases n,
{
    if n <= 0 {
        Seq::empty()
    } else if eligible(backends[n - 1], q, stage) {
        eligible_among(backends, q, stage, n - 1).push((n - 1) as usize)
    } else {
        eligible_among(backends, q, stage, n - 1)
    }
}

fn eligible_indices(
    backends: &Vec<CatalogBackendStatus>,
    query: &SuggestionQuery,
    stage: BackendStage,
) -> (r: Vec<usize>)
    ensures
        r@ == eligible_among(backends@, query@, stage, backends@.len() as int),
        forall|i: int| 0 <= i < r@.len() ==> #[trigger] r@[i] < backends@.len(),
{
    let mut out: Vec<usize> = Vec::new();
    let mut i: usize = 0;
    while i < backends.len()
        invariant
            i <= backends.len(),
            out@ == eligible_among(backends@, query@, stage, i as int),
            forall|k: int| 0 <= k < out@.len() ==> #[trigger] out@[k] < i,
        decreases backends.len() - i,
    {
        if is_eligible(&backends[i], query, stage) {
            out.push(i);
        }
        i += 1;
    }
    out
}

/// Every pair of an element of one list and one of another.
pub open spec fn product(a: Seq<usize>, b: Seq<usize>) -> Seq<(usize, usize)>
    decreases a.len(),
{
    if a.len() == 0 {
        Seq::empty()
    } else {
        product(a.drop_last(), b) + with_each(a.last(), b)
    }
}

pub open spec fn with_each(x: usize, b: Seq<usize>) -> Seq<(usize, usize)> {
    Seq::new(b.len(), |i: int| (x, b[i]))
}

/// The pairs that are considered: recognition with synthesis.
pub open spec fn pairs_considered(backends: Seq<CatalogBackendStatus>, q: QueryView) -> Seq<
    (usize, usize),
> {
    let n = backends.len() as int;
    product(
        eligible_among(backends, q, BackendStage::Asr, n),
        eligible_among(backends, q, BackendStage::Tts, n),
    )
}

pub fn eligible_pairs(backends: &Vec<CatalogBackendStatus>, query: &SuggestionQuery) -> (r: Vec<
    (usize, usize),
>)
    ensures
        r@ == pairs_considered(backends@, query@),
        forall|i: int|
            0 <= i < r@.len() ==> (#[trigger] r@[i]).0 < backends@.len() && r@[i].1
                < backends@.len(),
{
    let asr: Vec<usize> = eligible_indices(backends, query, BackendStage::Asr);
    let tts: Vec<usize> = eligible_indices(backends, query, BackendStage::Tts);
    all_pairs(&asr, &tts, backends.len())
}

/// Every pair of an index of one list and one of another.
pub fn all_pairs(asr: &Vec<usize>, tts: &Vec<usize>, n: usize) -> (r: Vec<(usize, usize)>)
    requires
        forall|k: int| 0 <= k < asr@.len() ==> #[trigger] asr@[k] < n,
        forall|k: int| 0 <= k < tts@.len() ==> #[trigger] tts@[k] < n,
    ensures
        r@ == product(asr@, tts@),
        forall|i: int| 0 <= i < r@.len() ==> (#[trigger] r@[i]).0 < n && r@[i].1 < n,
{
    let mut out: Vec<(usize, usize)> = Vec::new();
    let mut i: usize = 0;
    assert(asr@.take(0) =~= Seq::empty());
    while i < asr.len()
        invariant
            i <= asr.len(),
            out@ == product(asr@.take(i as int), tts@),
            forall|k: int| 0 <= k < asr@.len() ==> #[trigger] asr@[k] < n,
            forall|k: int| 0 <= k < tts@.len() ==> #[trigger] tts@[k] < n,
            forall|k: int|
                0 <= k < out@.len() ==> (#[trigger] out@[k]).0 < n && out@[k].1
                    < n,
        decreases asr.len() - i,
    {
        let ghost before = out@;
        let ghost x = asr@[i as int];
        let mut j: usize = 0;
        assert(before + with_each(x, tts@).take(0) =~= before);
        while j < tts.len()
            invariant
                i < asr.len(),
                j <= tts.len(),
                x == asr@[i as int],
                out@ == before + with_each(x, tts@).take(j as int),
                forall|k: int| 0 <= k < asr@.len() ==> #[trigger] asr@[k] < n,
                forall|k: int| 0 <= k < tts@.len() ==> #[trigger] tts@[k] < n,
                forall|k: int|
                    0 <= k < out@.len() ==> (#[trigger] out@[k]).0 < n && out@[k].1
                        < n,
            decreases tts.len() - j,
        {
            out.push((asr[i], tts[j]));
            assert(out@ =~= before + with_each(x, tts@).take(j + 1));
            j += 1;
        }
        assert(with_each(x, tts@).take(j as int) =~= with_each(x, tts@));
        assert(asr@.take(i + 1).drop_last() =~= asr@.take(i as int));
        i += 1;
    }
    assert(asr@.take(i as int) =~= asr@);
    out
}

// ---------------------------------------------------------------------------
// What a pair is worth
// ---------------------------------------------------------------------------

/// Where the memory budget comes from.
#[derive(Debug, Clone, Copy, PartialEq, Eq, Structural)]
pub enum Budget {
    /// This much.
    Exactly(u32),
    /// Four fifths of this, and half a gigabyte at least.
    Share(u32),
}

/// The budgets of the capacity classes: 14, 7 and 1.5 gigabytes.
pub const LARGE_BUDGET: u32 = 0x4160_0000;

pub const MEDIUM_BUDGET: u32 = 0x40e0_0000;

pub const SMALL_BUDGET: u32 = 0x3fc0_0000;

pub open spec fn budget_for(hw: HardwareProfile, q: QueryView) -> Budget {
    match q.max_vram_gb {
        Some(v) => Budget::Exactly(v),
        None => match hw.vram_free_gb {
            Some(v) => Budget::Share(v),
            None => match hw.vram_total_gb {
                Some(v) => Budget::Share(v),
                None => if hw.tier@ == "gpu-16gb+"@ {
                    Budget::Exactly(LARGE_BUDGET)
                } else if hw.tier@ == "gpu-8gb"@ || hw.tier@ == "host-vulkan"@ {
                    Budget::Exactly(MEDIUM_BUDGET)
                } else {
                    Budget::Exactly(SMALL_BUDGET)
                },
            },
        },
    }
}

pub fn effective_budget(hw: &HardwareProfile, query: &SuggestionQuery) -> (r: Budget)
    ensures
        r == budget_for(*hw, query@),
{
    match query.max_vram_gb {
        Some(v) => {
            return Budget::Exactly(v);
        },
        None => {},
    }
    match hw.vram_free_gb {
        Some(v) => {
            return Budget::Share(v);
        },
        None => {},
    }
    match hw.vram_total_gb {
        Some(v) => {
            return Budget::Share(v);
        },
        None => {},
    }
    let tier: &str = hw.tier.as_str();
    if text::same(tier, "gpu-16gb+") {
        Budget::Exactly(LARGE_BUDGET)
    } else if text::same(tier, "gpu-8gb") || text::same(tier, "host-vulkan") {
        Budget::Exactly(MEDIUM_BUDGET)
    } else {
        Budget::Exactly(SMALL_BUDGET)
    }
}

/// How a pair fits into the budget.
#[derive(Debug, Clone, Copy, PartialEq, Eq, Structural)]
pub enum Fit {
    /// It takes no more than half of it.
    Easily,
    Within,
    Over,
}

pub open spec fn fit_for(vram: u32, budget: u32, half: u32) -> Fit {
    if vram > budget {
        Fit::Over
    } else if vram <= half {
        Fit::Easily
    } else {
        Fit::Within
    }
}

/// Tells how memory fits into a budget, of which `half` is the half.
pub fn fit_of(vram: u32, budget: u32, half: u32) -> (r: Fit)
    ensures
        r == fit_for(vram, budget, half),
{
    if vram > budget {
        Fit::Over
    } else if vram <= half {
        Fit::Easily
    } else {
        Fit::Within
    }
}

pub open spec fn is_installed(s: CatalogBackendStatus) -> bool {
    s.installed || s.backend.bundled || s.download_state@ == "bundled"@
}

/// What the state of a backend adds to a score, in ten-thousandths.
pub open spec fn readiness_terms(s: CatalogBackendStatus) -> Seq<i32> {
    let first: Seq<i32> = if is_installed(s) {
        seq![1200i32]
    } else {
        Seq::empty()
    };
    let state = s.runtime_state@;
    first.push(
        if !s.host_managed {
            800i32
        } else if state == "running"@ || state == "stopped"@ || state == "not_managed"@ {
            500i32
        } else if state == "unavailable"@ {
            -3500i32
        } else {
            -1000i32
        },
    )
}

fn readiness_bonus(s: &CatalogBackendStatus) -> (r: Vec<i32>)
    ensures
        r@ == readiness_terms(*s),
{
    let mut v: Vec<i32> = Vec::new();
    if s.installed || s.backend.bundled || text::same(s.download_state.as_str(), "bundled") {
        v.push(1200);
    }
    let state: &str = s.runtime_state.as_str();
    if !s.host_managed {
        v.push(800);
    } else if text::same(state, "running") || text::same(state, "stopped") || text::same(
        state,
        "not_managed",
    ) {
        v.push(500);
    } else if text::same(state, "unavailable") {
        v.push(-3500);
    } else {
        v.push(-1000);
    }
    assert(v@ =~= readiness_terms(*s));
    v
}

/// Half of what the accelerator of a backend adds.
pub open spec fn accelerator_term(s: CatalogBackendStatus, hw: HardwareProfile) -> i32 {
    match s.selected_variant {
        None => 0,
        Some(v) => {
            let rank = crate::registry::rank_of(v, hw);
            if rank == 0 {
                1250
            } else if rank == 1 {
                1100
            } else if rank == 2 {
                900
            } else if rank == 3 {
                600
            } else if rank == 4 {
                400
            } else {
                200
            }
        },
    }
}

fn accelerator_score(s: &CatalogBackendStatus, hw: &HardwareProfile) -> (r: i32)
    ensures
        r == accelerator_term(*s, *hw),
{
    match &s.selected_variant {
        None => 0,
        Some(v) => {
            let rank: u8 = variant_rank(v, hw);
            if rank == 0 {
                1250
            } else if rank == 1 {
                1100
            } else if rank == 2 {
                900
            } else if rank == 3 {
                600
            } else if rank == 4 {
                400
            } else {
                200
            }
        },
    }
}

pub open spec fn stars_of(s: CatalogBackendStatus) -> u8 {
    if s.backend.resources.stars.gpu >= s.backend.resources.stars.vram {
        s.backend.resources.stars.gpu
    } else {
        s.backend.resources.stars.vram
    }
}

/// Half of what the size of a model adds: somewhat larger ones speak better.
pub open spec fn quality_term(s: CatalogBackendStatus) -> i32 {
    let stars = stars_of(s);
    if stars <= 1 {
        100
    } else if stars == 2 {
        250
    } else if stars == 3 {
        400
    } else if stars == 4 {
        200
    } else {
        0
    }
}

fn quality_hint_score(s: &CatalogBackendStatus) -> (r: i32)
    ensures
        r == quality_term(*s),
{
    let gpu: u8 = s.backend.resources.stars.gpu;
    let vram: u8 = s.backend.resources.stars.vram;
    let stars: u8 = if gpu >= vram {
        gpu
    } else {
        vram
    };
    if stars <= 1 {
        100
    } else if stars == 2 {
        250
    } else if stars == 3 {
        400
    } else if stars == 4 {
        200
    } else {
        0
    }
}

pub open spec fn is_default_stack(a: CatalogBackendStatus, t: CatalogBackendStatus) -> bool {
    a.backend.id@ == "fw-tiny"@ && t.backend.id@ == "supertonic"@
}

pub open spec fn in_containers(a: CatalogBackendStatus, t: CatalogBackendStatus) -> bool {
    !a.host_managed && !t.host_managed
}

/// What the memory of a pair adds.
pub open spec fn fit_terms(fit: Fit) -> Seq<Seq<i32>> {
    match fit {
        Fit::Easily => seq![seq![1500i32], seq![500i32]],
        Fit::Within => seq![seq![1500i32]],
        Fit::Over => seq![seq![-4500i32]],
    }
}

/// The terms of the score of a pair, in ten-thousandths and in the order in which
/// they are added. Each group is summed before it is added.
pub open spec fn pair_terms_of(
    a: CatalogBackendStatus,
    t: CatalogBackendStatus,
    hw: HardwareProfile,
    fit: Fit,
) -> Seq<Seq<i32>> {
    let head = seq![
        seq![5500i32],
        seq![accelerator_term(a, hw)],
        seq![accelerator_term(t, hw)],
        readiness_terms(a),
        readiness_terms(t),
        seq![quality_term(a)],
        seq![quality_term(t)],
    ];
    let containers = if in_containers(a, t) {
        seq![seq![500i32]]
    } else {
        Seq::empty()
    };
    let known = if is_default_stack(a, t) {
        seq![seq![800i32]]
    } else {
        Seq::empty()
    };
    head + fit_terms(fit) + containers + known
}

pub open spec fn group_views(v: Seq<Vec<i32>>) -> Seq<Seq<i32>> {
    Seq::new(v.len(), |i: int| v[i]@)
}

fn push_term(v: &mut Vec<Vec<i32>>, term: i32)
    ensures
        group_views(final(v)@) == group_views(old(v)@).push(seq![term]),
{
    let ghost before = group_views(v@);
    let mut g: Vec<i32> = Vec::new();
    g.push(term);
    assert(g@ =~= seq![term]);
    push_group(v, g);
}

fn push_group(v: &mut Vec<Vec<i32>>, g: Vec<i32>)
    ensures
        group_views(final(v)@) == group_views(old(v)@).push(g@),
{
    let ghost before = group_views(v@);
    let ghost x = g@;
    v.push(g);
    assert(group_views(v@) =~= before.push(x));
}

/// The terms of the score of a pair.
pub fn pair_terms(
    asr: &CatalogBackendStatus,
    tts: &CatalogBackendStatus,
    hw: &HardwareProfile,
    fit: Fit,
) -> (r: Vec<Vec<i32>>)
    ensures
        group_views(r@) == pair_terms_of(*asr, *tts, *hw, fit),
{
    let mut v: Vec<Vec<i32>> = Vec::new();
    assert(group_views(v@) =~= Seq::empty());
    push_term(&mut v, 5500);
    push_term(&mut v, accelerator_score(asr, hw));
    push_term(&mut v, accelerator_score(tts, hw));
    push_group(&mut v, readiness_bonus(asr));
    push_group(&mut v, readiness_bonus(tts));
    push_term(&mut v, quality_hint_score(asr));
    push_term(&mut v, quality_hint_score(tts));
    match fit {
        Fit::Easily => {
            push_term(&mut v, 1500);
            push_term(&mut v, 500);
        },
        Fit::Within => {
            push_term(&mut v, 1500);
        },
        Fit::Over => {
            push_term(&mut v, -4500);
        },
    }
    if !asr.host_managed && !tts.host_managed {
        push_term(&mut v, 500);
    }
    if text::same(asr.backend.id.as_str(), "fw-tiny") && text::same(
        tts.backend.id.as_str(),
        "supertonic",
    ) {
        push_term(&mut v, 800);
    }
    assert(group_views(v@) =~= pair_terms_of(*asr, *tts, *hw, fit));
    v
}

/// Why a pair is suggested.
pub open spec fn reasons_of(a: CatalogBackendStatus, t: CatalogBackendStatus, fit: Fit) -> Seq<
    Seq<char>,
> {
    let memory = match fit {
        Fit::Easily => seq!["leicht im VRAM-Budget"@],
        Fit::Within => seq!["passt ins VRAM-Budget"@],
        Fit::Over => seq!["über VRAM-Budget"@],
    };
    let installed = if a.installed && t.installed {
        seq!["beide installiert"@]
    } else if a.installed || t.installed {
        seq!["teilweise installiert"@]
    } else {
        Seq::empty()
    };
    let runtime = if in_containers(a, t) {
        seq!["Docker-fähig"@]
    } else if a.runtime_state@ == "unavailable"@ || t.runtime_state@ == "unavailable"@ {
        seq!["Host-Runtime fehlt"@]
    } else {
        Seq::empty()
    };
    let known = if is_default_stack(a, t) {
        seq!["schneller Default-Stack"@]
    } else {
        Seq::empty()
    };
    memory + installed + runtime + known
}

fn push_reason(v: &mut Vec<String>, s: &str)
    ensures
        text::views(final(v)@) == text::views(old(v)@).push(s@),
{
    let ghost before = text::views(v@);
    v.push(String::from_str(s));
    assert(text::views(v@) =~= before.push(s@));
}

/// The reason for a pair, with the capacity class of the machine.
pub fn pair_reason(
    asr: &CatalogBackendStatus,
    tts: &CatalogBackendStatus,
    hw: &HardwareProfile,
    fit: Fit,
) -> (r: String)
    ensures
        r@ == text::joined(reasons_of(*asr, *tts, fit), ", "@) + " · tier="@ + hw.tier@,
{
    let mut v: Vec<String> = Vec::new();
    assert(text::views(v@) =~= Seq::empty());
    match fit {
        Fit::Easily => push_reason(&mut v, "leicht im VRAM-Budget"),
        Fit::Within => push_reason(&mut v, "passt ins VRAM-Budget"),
        Fit::Over => push_reason(&mut v, "über VRAM-Budget"),
    }
    if asr.installed && tts.installed {
        push_reason(&mut v, "beide installiert");
    } else if asr.installed || tts.installed {
        push_reason(&mut v, "teilweise installiert");
    }
    if !asr.host_managed && !tts.host_managed {
        push_reason(&mut v, "Docker-fähig");
    } else if text::same(asr.runtime_state.as_str(), "unavailable") || text::same(
        tts.runtime_state.as_str(),
        "unavailable",
    ) {
        push_reason(&mut v, "Host-Runtime fehlt");
    }
    if text::same(asr.backend.id.as_str(), "fw-tiny") && text::same(
        tts.backend.id.as_str(),
        "supertonic",
    ) {
        push_reason(&mut v, "schneller Default-Stack");
    }
    assert(text::views(v@) =~= reasons_of(*asr, *tts, fit));
    let joined: String = text::join(&v, ", ");
    wrap(joined.as_str(), " · tier=", hw.tier.as_str())
}

// ---------------------------------------------------------------------------
// Ranking
// ---------------------------------------------------------------------------

/// By what suggestions are ranked: a higher score, less memory, then the names.
#[derive(Debug)]
pub struct RankKey {
    pub score: u32,
    pub vram: u32,
    pub first: String,
    pub second: String,
}

pub struct KeyView {
    pub score: int,
    pub vram: int,
    pub first: Seq<char>,
    pub second: Seq<char>,
}

impl View for RankKey {
    type V = KeyView;

    open spec fn view(&self) -> KeyView {
        KeyView {
            score: self.score as int,
            vram: self.vram as int,
            first: self.first@,
            second: self.second@,
        }
    }
}

pub open spec fn key_before(a: KeyView, b: KeyView) -> bool {
    if a.score != b.score {
        a.score > b.score
    } else if a.vram != b.vram {
        a.vram < b.vram
    } else if a.first != b.first {
        text::before(a.first, b.first)
    } else {
        text::before(a.second, b.second)
    }
}

/// Whether one of several suggestions comes before another; of equal ones the
/// earlier does.
pub open spec fn ranks_before(keys: Seq<KeyView>, i: int, j: int) -> bool {
    key_before(keys[i], keys[j]) || (keys[i] == keys[j] && i < j)
}

pub open spec fn key_views(keys: Seq<RankKey>) -> Seq<KeyView> {
    Seq::new(keys.len(), |i: int| keys[i]@)
}

/// Whether a list has exactly the kept ones among the first `n`, in their order.
pub open spec fn is_ranking(
    order: Seq<usize>,
    keys: Seq<KeyView>,
    kept: Seq<bool>,
    n: int,
) -> bool {
    &&& forall|p: int, q: int|
        0 <= p < q < order.len() ==> ranks_before(keys, #[trigger] order[p] as int, #[trigger] order[q] as int)
    &&& forall|p: int| 0 <= p < order.len() ==> 0 <= #[trigger] order[p] < n && kept[order[p] as int]
    &&& forall|i: usize| 0 <= i < n && kept[i as int] ==> #[trigger] order.contains(i)
}

proof fn lemma_key_order(a: KeyView, b: KeyView)
    ensures
        !key_before(a, a),
        key_before(a, b) || key_before(b, a) || a == b,
        !(key_before(a, b) && key_before(b, a)),
{
    text::lemma_before_total(a.first, b.first);
    text::lemma_before_total(a.second, b.second);
    text::lemma_before_total(a.first, a.first);
    text::lemma_before_total(a.second, a.second);
}

proof fn lemma_key_transitive(a: KeyView, b: KeyView, c: KeyView)
    requires
        key_before(a, b),
        key_before(b, c),
    ensures
        key_before(a, c),
{
    if a.score == b.score && b.score == c.score && a.vram == b.vram && b.vram == c.vram {
        if a.first != b.first && b.first != c.first {
            text::lemma_before_transitive(a.first, b.first, c.first);
            text::lemma_before_total(a.first, c.first);
        } else if a.first == b.first && b.first == c.first {
            text::lemma_before_transitive(a.second, b.second, c.second);
        }
    }
}

fn stands_key_before(a: &RankKey, b: &RankKey) -> (r: bool)
    ensures
        r == key_before(a@, b@),
{
    if a.score != b.score {
        a.score > b.score
    } else if a.vram != b.vram {
        a.vram < b.vram
    } else if !text::same(a.first.as_str(), b.first.as_str()) {
        text::stands_before(a.first.as_str(), b.first.as_str())
    } else {
        text::stands_before(a.second.as_str(), b.second.as_str())
    }
}

/// Where the suggestion `i` goes among those that are ranked.
fn place_for(keys: &Vec<RankKey>, order: &Vec<usize>, i: usize) -> (p: usize)
    requires
        i < keys@.len(),
        forall|k: int| 0 <= k < order@.len() ==> #[trigger] order@[k] < i,
    ensures
        p <= order@.len(),
        forall|k: int|
            0 <= k < p ==> !key_before(keys@[i as int]@, keys@[#[trigger] order@[k] as int]@),
        p < order@.len() ==> key_before(keys@[i as int]@, keys@[order@[p as int] as int]@),
{
    let mut p: usize = 0;
    while p < order.len()
        invariant
            p <= order.len(),
            i < keys@.len(),
            forall|k: int| 0 <= k < order@.len() ==> #[trigger] order@[k] < i,
            forall|k: int|
                0 <= k < p ==> !key_before(keys@[i as int]@, keys@[#[trigger] order@[k] as int]@),
        decreases order.len() - p,
    {
        if stands_key_before(&keys[i], &keys[order[p]]) {
            return p;
        }
        p += 1;
    }
    p
}

proof fn lemma_inserted(
    order: Seq<usize>,
    keys: Seq<KeyView>,
    kept: Seq<bool>,
    i: usize,
    p: int,
)
    requires
        is_ranking(order, keys, kept, i as int),
        kept[i as int],
        0 <= p <= order.len(),
        forall|k: int|
            0 <= k < p ==> !key_before(keys[i as int], keys[#[trigger] order[k] as int]),
        p < order.len() ==> key_before(keys[i as int], keys[order[p] as int]),
    ensures
        is_ranking(order.insert(p, i), keys, kept, i + 1),
{
    let r = order.insert(p, i);
    assert forall|a: int, b: int| 0 <= a < b < r.len() implies ranks_before(
        keys,
        #[trigger] r[a] as int,
        #[trigger] r[b] as int,
    ) by {
        let x = if a < p {
            a
        } else {
            a - 1
        };
        let y = if b < p {
            b
        } else {
            b - 1
        };
        if a == p {
            // The new one stands before all from the place on.
            assert(r[b] == order[y]);
            if y > p {
                assert(ranks_before(keys, order[p] as int, order[y] as int));
                if key_before(keys[order[p] as int], keys[order[y] as int]) {
                    lemma_key_transitive(
                        keys[i as int],
                        keys[order[p] as int],
                        keys[order[y] as int],
                    );
                }
            }
        } else if b == p {
            assert(r[a] == order[x]);
            lemma_key_order(keys[order[x] as int], keys[i as int]);
            assert(order[x] < i);
        } else {
            assert(r[a] == order[x]);
            assert(r[b] == order[y]);
        }
    }
    assert forall|a: int| 0 <= a < r.len() implies 0 <= #[trigger] r[a] < i + 1
        && kept[r[a] as int] by {
        if a < p {
            assert(r[a] == order[a]);
        } else if a > p {
            assert(r[a] == order[a - 1]);
        }
    }
    assert forall|j: usize| 0 <= j < i + 1 && kept[j as int] implies #[trigger] r.contains(j) by {
        if j == i {
            assert(r[p] == i);
        } else {
            assert(order.contains(j));
            let k = choose|k: int| 0 <= k < order.len() && order[k] == j;
            if k < p {
                assert(r[k] == j);
            } else {
                assert(r[k + 1] == j);
            }
        }
    }
}

/// Ranks the suggestions that are kept.
pub fn rank(keys: &Vec<RankKey>, kept: &Vec<bool>) -> (r: Vec<usize>)
    requires
        kept@.len() == keys@.len(),
    ensures
        is_ranking(r@, key_views(keys@), kept@, keys@.len() as int),
{
    let ghost ks = key_views(keys@);
    let mut order: Vec<usize> = Vec::new();
    let mut i: usize = 0;
    while i < keys.len()
        invariant
            i <= keys.len(),
            kept@.len() == keys@.len(),
            ks == key_views(keys@),
            is_ranking(order@, ks, kept@, i as int),
        decreases keys.len() - i,
    {
        if kept[i] {
            let p: usize = place_for(keys, &order, i);
            proof {
                lemma_inserted(order@, ks, kept@, i, p as int);
            }
            order.insert(p, i);
        }
        i += 1;
    }
    order
}

/// A ranking is the only one: two lists with the same contents in the same order
/// are the same.
pub proof fn law_ranking_is_unique(
    a: Seq<usize>,
    b: Seq<usize>,
    keys: Seq<KeyView>,
    kept: Seq<bool>,
    n: int,
)
    requires
        is_ranking(a, keys, kept, n),
        is_ranking(b, keys, kept, n),
        n <= usize::MAX,
    ensures
        a == b,
{
    lemma_same_prefix(a, b, keys, kept, n, a.len() as int);
    lemma_same_prefix(b, a, keys, kept, n, b.len() as int);
    assert(a =~= b);
}

/// One ranking agrees with another as far as it goes.
proof fn lemma_same_prefix(
    a: Seq<usize>,
    b: Seq<usize>,
    keys: Seq<KeyView>,
    kept: Seq<bool>,
    n: int,
    m: int,
)
    requires
        is_ranking(a, keys, kept, n),
        is_ranking(b, keys, kept, n),
        0 <= m <= a.len(),
    ensures
        m <= b.len(),
        forall|k: int| 0 <= k < m ==> #[trigger] a[k] == b[k],
    decreases m,
{
    if m > 0 {
        let k = m - 1;
        lemma_same_prefix(a, b, keys, kept, n, k);
        assert(b.contains(a[k]));
        let y = choose|y: int| 0 <= y < b.len() && b[y] == a[k];
        if y < k {
            assert(a[y] == b[y]);
            lemma_not_before_itself(keys, a[k] as int);
            assert(ranks_before(keys, a[y] as int, a[k] as int));
        }
        assert(k < b.len());
        assert(a.contains(b[k]));
        let x = choose|x: int| 0 <= x < a.len() && a[x] == b[k];
        if x < k {
            assert(a[x] == b[x]);
            lemma_not_before_itself(keys, b[k] as int);
            assert(ranks_before(keys, b[x] as int, b[k] as int));
        } else if x > k && y > k {
            assert(ranks_before(keys, a[k] as int, a[x] as int));
            assert(ranks_before(keys, b[k] as int, b[y] as int));
            lemma_key_order(keys[a[k] as int], keys[a[x] as int]);
        }
    }
}

proof fn lemma_not_before_itself(keys: Seq<KeyView>, i: int)
    ensures
        !ranks_before(keys, i, i),
{
    lemma_key_order(keys[i], keys[i]);
}

// ---------------------------------------------------------------------------
// The answer
// ---------------------------------------------------------------------------

/// A pair is suggested from this score on: a quarter.
pub const MIN_SCORE: u32 = 0x3e80_0000;

/// A backend is heavy from this much memory on: eight gigabytes.
pub const HEAVY_GB: u32 = 0x4100_0000;

/// How many cautions are given at most.
pub const MAX_CAUTIONS: usize = 12;

/// What was computed for a pair.
#[derive(Debug, Clone, Copy)]
pub struct PairNumbers {
    /// The score.
    pub raw: u32,
    /// The score in hundredths.
    pub score: u32,
    /// The memory in hundredths of a gigabyte.
    pub vram: u32,
    pub fit: Fit,
}

/// What was computed for a preset.
#[derive(Debug, Clone, Copy)]
pub struct PresetNumbers {
    /// The score in hundredths.
    pub score: u32,
    /// The memory.
    pub vram: u32,
    pub fit: Fit,
}

/// What was computed for a backend.
#[derive(Debug)]
pub struct BackendSize {
    /// The memory.
    pub vram: u32,
    /// The memory as it is written.
    pub shown: String,
}

/// All that was computed for an answer.
#[derive(Debug)]
pub struct SuggestionNumbers {
    pub pairs: Vec<PairNumbers>,
    pub presets: Vec<PresetNumbers>,
    pub backends: Vec<BackendSize>,
    /// Six fifths of the budget.
    pub too_heavy: u32,
    /// The budget as it is written.
    pub budget_shown: String,
    /// The budget in hundredths of a gigabyte.
    pub budget: u32,
}

#[derive(Debug)]
pub struct SuggestedPreset {
    pub id: String,
    pub name: String,
    pub asr_id: String,
    pub tts_id: String,
    /// In hundredths.
    pub score: u32,
    pub reason: String,
}

#[derive(Debug)]
pub struct SuggestedPair {
    pub asr_id: String,
    pub tts_id: String,
    pub asr_name: String,
    pub tts_name: String,
    /// In hundredths.
    pub score: u32,
    pub reason: String,
    /// In hundredths of a gigabyte.
    pub vram_gb: u32,
}

#[derive(Debug)]
pub struct SuggestionCaution {
    pub backend_id: String,
    pub reason: String,
}

#[derive(Debug)]
pub struct SuggestionsResponse {
    pub capability: HardwareProfile,
    pub suggested_presets: Vec<SuggestedPreset>,
    pub suggested_pairs: Vec<SuggestedPair>,
    pub caution: Vec<SuggestionCaution>,
    pub scoring: String,
    /// In hundredths of a gigabyte.
    pub budget_vram_gb: Option<u32>,
    pub note: String,
}

/// The reason for a pair, as it is written.
pub open spec fn reason_text(
    a: CatalogBackendStatus,
    t: CatalogBackendStatus,
    hw: HardwareProfile,
    fit: Fit,
) -> Seq<char> {
    text::joined(reasons_of(a, t, fit), ", "@) + " · tier="@ + hw.tier@
}

pub open spec fn pair_key(
    bs: Seq<CatalogBackendStatus>,
    pair: (usize, usize),
    n: PairNumbers,
) -> KeyView {
    KeyView {
        score: n.score as int,
        vram: n.vram as int,
        first: bs[pair.0 as int].backend.id@,
        second: bs[pair.1 as int].backend.id@,
    }
}

pub open spec fn pair_keys(
    bs: Seq<CatalogBackendStatus>,
    pairs: Seq<(usize, usize)>,
    ns: Seq<PairNumbers>,
) -> Seq<KeyView> {
    Seq::new(pairs.len(), |i: int| pair_key(bs, pairs[i], ns[i]))
}

pub open spec fn good_enough(ns: Seq<PairNumbers>) -> Seq<bool> {
    Seq::new(ns.len(), |i: int| ns[i].raw >= MIN_SCORE)
}

/// Whether a suggestion is for a pair.
pub open spec fn suggests_pair(
    s: SuggestedPair,
    bs: Seq<CatalogBackendStatus>,
    hw: HardwareProfile,
    pair: (usize, usize),
    n: PairNumbers,
) -> bool {
    let a = bs[pair.0 as int];
    let t = bs[pair.1 as int];
    &&& s.asr_id@ == a.backend.id@
    &&& s.tts_id@ == t.backend.id@
    &&& s.asr_name@ == a.backend.name@
    &&& s.tts_name@ == t.backend.name@
    &&& s.score == n.score
    &&& s.reason@ == reason_text(a, t, hw, n.fit)
    &&& s.vram_gb == n.vram
}

pub open spec fn at_most(n: int, limit: usize) -> int {
    if n <= limit {
        n
    } else {
        limit as int
    }
}

/// Whether a list has the best pairs in their order.
pub open spec fn best_pairs(
    r: Seq<SuggestedPair>,
    bs: Seq<CatalogBackendStatus>,
    hw: HardwareProfile,
    pairs: Seq<(usize, usize)>,
    ns: Seq<PairNumbers>,
    limit: usize,
) -> bool {
    exists|order: Seq<usize>|
        {
            &&& #[trigger] is_ranking(
                order,
                pair_keys(bs, pairs, ns),
                good_enough(ns),
                pairs.len() as int,
            )
            &&& r.len() == at_most(order.len() as int, limit)
            &&& forall|i: int|
                0 <= i < r.len() ==> suggests_pair(
                    #[trigger] r[i],
                    bs,
                    hw,
                    pairs[order[i] as int],
                    ns[order[i] as int],
                )
        }
}

fn suggest_pair(
    bs: &Vec<CatalogBackendStatus>,
    hw: &HardwareProfile,
    pair: (usize, usize),
    n: PairNumbers,
) -> (r: SuggestedPair)
    requires
        pair.0 < bs@.len(),
        pair.1 < bs@.len(),
    ensures
        suggests_pair(r, bs@, *hw, pair, n),
{
    let a: &CatalogBackendStatus = &bs[pair.0];
    let t: &CatalogBackendStatus = &bs[pair.1];
    SuggestedPair {
        asr_id: a.backend.id.clone(),
        tts_id: t.backend.id.clone(),
        asr_name: a.backend.name.clone(),
        tts_name: t.backend.name.clone(),
        score: n.score,
        reason: pair_reason(a, t, hw, n.fit),
        vram_gb: n.vram,
    }
}

fn rank_pairs(
    bs: &Vec<CatalogBackendStatus>,
    pairs: &Vec<(usize, usize)>,
    ns: &Vec<PairNumbers>,
) -> (r: Vec<usize>)
    requires
        ns@.len() == pairs@.len(),
        forall|i: int|
            0 <= i < pairs@.len() ==> (#[trigger] pairs@[i]).0 < bs@.len() && pairs@[i].1 < bs@.len(),
    ensures
        is_ranking(r@, pair_keys(bs@, pairs@, ns@), good_enough(ns@), pairs@.len() as int),
{
    let mut keys: Vec<RankKey> = Vec::new();
    let mut kept: Vec<bool> = Vec::new();
    let mut i: usize = 0;
    while i < pairs.len()
        invariant
            i <= pairs.len(),
            ns@.len() == pairs@.len(),
            forall|k: int|
                0 <= k < pairs@.len() ==> (#[trigger] pairs@[k]).0 < bs@.len() && pairs@[k].1
                    < bs@.len(),
            keys@.len() == i,
            kept@.len() == i,
            forall|k: int| 0 <= k < i ==> (#[trigger] keys@[k])@ == pair_key(bs@, pairs@[k], ns@[k]),
            forall|k: int| 0 <= k < i ==> #[trigger] kept@[k] == (ns@[k].raw >= MIN_SCORE),
        decreases pairs.len() - i,
    {
        let a: &CatalogBackendStatus = &bs[pairs[i].0];
        let t: &CatalogBackendStatus = &bs[pairs[i].1];
        keys.push(
            RankKey {
                score: ns[i].score,
                vram: ns[i].vram,
                first: a.backend.id.clone(),
                second: t.backend.id.clone(),
            },
        );
        kept.push(ns[i].raw >= MIN_SCORE);
        i += 1;
    }
    assert(key_views(keys@) =~= pair_keys(bs@, pairs@, ns@));
    assert(kept@ =~= good_enough(ns@));
    rank(&keys, &kept)
}

/// The best pairs in their order.
pub fn suggest_pairs(
    bs: &Vec<CatalogBackendStatus>,
    hw: &HardwareProfile,
    pairs: &Vec<(usize, usize)>,
    ns: &Vec<PairNumbers>,
    limit: usize,
) -> (r: Vec<SuggestedPair>)
    requires
        ns@.len() == pairs@.len(),
        forall|i: int|
            0 <= i < pairs@.len() ==> (#[trigger] pairs@[i]).0 < bs@.len() && pairs@[i].1 < bs@.len(),
    ensures
        best_pairs(r@, bs@, *hw, pairs@, ns@, limit),
{
    let order: Vec<usize> = rank_pairs(bs, pairs, ns);
    let mut out: Vec<SuggestedPair> = Vec::new();
    while out.len() < order.len() && out.len() < limit
        invariant
            out@.len() <= order@.len(),
            out@.len() <= limit,
            ns@.len() == pairs@.len(),
            forall|k: int|
                0 <= k < pairs@.len() ==> (#[trigger] pairs@[k]).0 < bs@.len() && pairs@[k].1
                    < bs@.len(),
            forall|k: int| 0 <= k < order@.len() ==> #[trigger] order@[k] < pairs@.len(),
            forall|k: int|
                0 <= k < out@.len() ==> suggests_pair(
                    #[trigger] out@[k],
                    bs@,
                    *hw,
                    pairs@[order@[k] as int],
                    ns@[order@[k] as int],
                ),
        decreases order.len() - out.len(),
    {
        let k: usize = order[out.len()];
        out.push(suggest_pair(bs, hw, pairs[k], ns[k]));
    }
    out
}

// ---------------------------------------------------------------------------
// Presets
// ---------------------------------------------------------------------------

/// The first backend with a name.
pub open spec fn status_index(bs: Seq<CatalogBackendStatus>, id: Seq<char>, from: int) -> Option<usize>
    decreases bs.len() - from,
{
    if from >= bs.len() {
        None
    } else if bs[from].backend.id@ == id {
        Some(from as usize)
    } else {
        status_index(bs, id, from + 1)
    }
}

fn find_status(bs: &Vec<CatalogBackendStatus>, id: &str) -> (r: Option<usize>)
    ensures
        r == status_index(bs@, id@, 0),
        r matches Some(i) ==> i < bs@.len(),
{
    let mut i: usize = 0;
    while i < bs.len()
        invariant
            i <= bs.len(),
            status_index(bs@, id@, 0) == status_index(bs@, id@, i as int),
        decreases bs.len() - i,
    {
        if text::same(bs[i].backend.id.as_str(), id) {
            return Some(i);
        }
        i += 1;
    }
    None
}

/// A preset and the backends that it names.
#[derive(Debug, Clone, Copy, PartialEq, Eq, Structural)]
pub struct PresetCandidate {
    pub preset: usize,
    pub asr: usize,
    pub tts: usize,
}

/// The backends of a preset, if it is considered.
pub open spec fn preset_members(
    bs: Seq<CatalogBackendStatus>,
    p: StackPreset,
    q: QueryView,
) -> Option<(usize, usize)> {
    let fits_language = match q.language {
        Some(l) => p.languages@.len() == 0 || matches_language(p.languages@, l),
        None => true,
    };
    match (status_index(bs, p.asr_id@, 0), status_index(bs, p.tts_id@, 0)) {
        (Some(a), Some(t)) => if fits_language && eligible(bs[a as int], q, BackendStage::Asr)
            && eligible(bs[t as int], q, BackendStage::Tts) {
            Some((a, t))
        } else {
            None
        },
        _ => None,
    }
}

/// The presets that are considered among the first `n`.
pub open spec fn presets_considered(
    bs: Seq<CatalogBackendStatus>,
    ps: Seq<StackPreset>,
    q: QueryView,
    n: int,
) -> Seq<PresetCandidate>
    decreases n,
{
    if n <= 0 {
        Seq::empty()
    } else {
        let before = presets_considered(bs, ps, q, n - 1);
        match preset_members(bs, ps[n - 1], q) {
            Some((asr, tts)) => before.push(
                PresetCandidate { preset: (n - 1) as usize, asr, tts },
            ),
            None => before,
        }
    }
}

fn members_of_preset(
    bs: &Vec<CatalogBackendStatus>,
    p: &StackPreset,
    query: &SuggestionQuery,
) -> (r: Option<(usize, usize)>)
    ensures
        r == preset_members(bs@, *p, query@),
        r matches Some(m) ==> m.0 < bs@.len() && m.1 < bs@.len(),
{
    match &query.language {
        Some(l) => {
            if p.languages.len() > 0 && !language_matches(&p.languages, l.as_str()) {
                return None;
            }
        },
        None => {},
    }
    match (find_status(bs, p.asr_id.as_str()), find_status(bs, p.tts_id.as_str())) {
        (Some(a), Some(t)) => if is_eligible(&bs[a], query, BackendStage::Asr) && is_eligible(
            &bs[t],
            query,
            BackendStage::Tts,
        ) {
            Some((a, t))
        } else {
            None
        },
        _ => None,
    }
}

pub open spec fn candidates_fit(
    v: Seq<PresetCandidate>,
    bs: Seq<CatalogBackendStatus>,
    ps: Seq<StackPreset>,
) -> bool {
    forall|k: int|
        0 <= k < v.len() ==> (#[trigger] v[k]).asr < bs.len() && v[k].tts < bs.len() && v[k].preset
            < ps.len()
}

pub fn eligible_presets(
    bs: &Vec<CatalogBackendStatus>,
    presets: &Vec<StackPreset>,
    query: &SuggestionQuery,
) -> (r: Vec<PresetCandidate>)
    ensures
        r@ == presets_considered(bs@, presets@, query@, presets@.len() as int),
        candidates_fit(r@, bs@, presets@),
{
    let mut out: Vec<PresetCandidate> = Vec::new();
    let mut i: usize = 0;
    while i < presets.len()
        invariant
            i <= presets.len(),
            out@ == presets_considered(bs@, presets@, query@, i as int),
            candidates_fit(out@, bs@, presets@),
        decreases presets.len() - i,
    {
        match members_of_preset(bs, &presets[i], query) {
            Some((asr, tts)) => {
                out.push(PresetCandidate { preset: i, asr, tts });
            },
            None => {},
        }
        i += 1;
    }
    out
}

/// Whether a number that is not negative is greater than another.
pub open spec fn exceeds(a: u32, b: u32) -> bool {
    if b < 0x8000_0000 {
        b <= 0x7f80_0000 && a > b
    } else if b == 0x8000_0000 {
        a > 0
    } else {
        b <= 0xff80_0000
    }
}

fn is_greater(a: u32, b: u32) -> (r: bool)
    ensures
        r == exceeds(a, b),
{
    if b < 0x8000_0000 {
        b <= 0x7f80_0000 && a > b
    } else if b == 0x8000_0000 {
        a > 0
    } else {
        b <= 0xff80_0000
    }
}

pub open spec fn small_enough(
    ps: Seq<StackPreset>,
    cs: Seq<PresetCandidate>,
    ns: Seq<PresetNumbers>,
) -> Seq<bool> {
    Seq::new(
        cs.len(),
        |i: int|
            match ps[cs[i].preset as int].max_vram_gb {
                Some(max) => !exceeds(ns[i].vram, max),
                None => true,
            },
    )
}

pub open spec fn preset_key(ps: Seq<StackPreset>, c: PresetCandidate, n: PresetNumbers) -> KeyView {
    KeyView {
        score: n.score as int,
        vram: 0,
        first: ps[c.preset as int].id@,
        second: ""@,
    }
}

pub open spec fn preset_keys(
    ps: Seq<StackPreset>,
    cs: Seq<PresetCandidate>,
    ns: Seq<PresetNumbers>,
) -> Seq<KeyView> {
    Seq::new(cs.len(), |i: int| preset_key(ps, cs[i], ns[i]))
}

pub open spec fn suggests_preset(
    s: SuggestedPreset,
    bs: Seq<CatalogBackendStatus>,
    ps: Seq<StackPreset>,
    hw: HardwareProfile,
    c: PresetCandidate,
    n: PresetNumbers,
) -> bool {
    let p = ps[c.preset as int];
    &&& s.id@ == p.id@
    &&& s.name@ == p.name@
    &&& s.asr_id@ == p.asr_id@
    &&& s.tts_id@ == p.tts_id@
    &&& s.score == n.score
    &&& s.reason@ == "Preset · "@ + reason_text(bs[c.asr as int], bs[c.tts as int], hw, n.fit)
}

/// Whether a list has the best presets in their order.
pub open spec fn best_presets(
    r: Seq<SuggestedPreset>,
    bs: Seq<CatalogBackendStatus>,
    ps: Seq<StackPreset>,
    hw: HardwareProfile,
    cs: Seq<PresetCandidate>,
    ns: Seq<PresetNumbers>,
    limit: usize,
) -> bool {
    exists|order: Seq<usize>|
        {
            &&& #[trigger] is_ranking(
                order,
                preset_keys(ps, cs, ns),
                small_enough(ps, cs, ns),
                cs.len() as int,
            )
            &&& r.len() == at_most(order.len() as int, limit)
            &&& forall|i: int|
                0 <= i < r.len() ==> suggests_preset(
                    #[trigger] r[i],
                    bs,
                    ps,
                    hw,
                    cs[order[i] as int],
                    ns[order[i] as int],
                )
        }
}

fn rank_presets(
    ps: &Vec<StackPreset>,
    cs: &Vec<PresetCandidate>,
    ns: &Vec<PresetNumbers>,
) -> (r: Vec<usize>)
    requires
        ns@.len() == cs@.len(),
        forall|k: int| 0 <= k < cs@.len() ==> (#[trigger] cs@[k]).preset < ps@.len(),
    ensures
        is_ranking(
            r@,
            preset_keys(ps@, cs@, ns@),
            small_enough(ps@, cs@, ns@),
            cs@.len() as int,
        ),
{
    let mut keys: Vec<RankKey> = Vec::new();
    let mut kept: Vec<bool> = Vec::new();
    let mut i: usize = 0;
    while i < cs.len()
        invariant
            i <= cs.len(),
            ns@.len() == cs@.len(),
            forall|k: int| 0 <= k < cs@.len() ==> (#[trigger] cs@[k]).preset < ps@.len(),
            keys@.len() == i,
            kept@.len() == i,
            forall|k: int| 0 <= k < i ==> (#[trigger] keys@[k])@ == preset_key(ps@, cs@[k], ns@[k]),
            forall|k: int|
                0 <= k < i ==> #[trigger] kept@[k] == small_enough(ps@, cs@, ns@)[k],
        decreases cs.len() - i,
    {
        let p: &StackPreset = &ps[cs[i].preset];
        keys.push(
            RankKey {
                score: ns[i].score,
                vram: 0,
                first: p.id.clone(),
                second: String::from_str(""),
            },
        );
        kept.push(
            match p.max_vram_gb {
                Some(max) => !is_greater(ns[i].vram, max),
                None => true,
            },
        );
        i += 1;
    }
    assert(key_views(keys@) =~= preset_keys(ps@, cs@, ns@));
    assert(kept@ =~= small_enough(ps@, cs@, ns@));
    rank(&keys, &kept)
}

/// The best presets in their order.
pub fn suggest_presets(
    bs: &Vec<CatalogBackendStatus>,
    ps: &Vec<StackPreset>,
    hw: &HardwareProfile,
    cs: &Vec<PresetCandidate>,
    ns: &Vec<PresetNumbers>,
    limit: usize,
) -> (r: Vec<SuggestedPreset>)
    requires
        ns@.len() == cs@.len(),
        candidates_fit(cs@, bs@, ps@),
    ensures
        best_presets(r@, bs@, ps@, *hw, cs@, ns@, limit),
{
    let order: Vec<usize> = rank_presets(ps, cs, ns);
    let mut out: Vec<SuggestedPreset> = Vec::new();
    while out.len() < order.len() && out.len() < limit
        invariant
            out@.len() <= order@.len(),
            out@.len() <= limit,
            ns@.len() == cs@.len(),
            candidates_fit(cs@, bs@, ps@),
            forall|k: int| 0 <= k < order@.len() ==> #[trigger] order@[k] < cs@.len(),
            forall|k: int|
                0 <= k < out@.len() ==> suggests_preset(
                    #[trigger] out@[k],
                    bs@,
                    ps@,
                    *hw,
                    cs@[order@[k] as int],
                    ns@[order@[k] as int],
                ),
        decreases order.len() - out.len(),
    {
        let k: usize = order[out.len()];
        let c: PresetCandidate = cs[k];
        let p: &StackPreset = &ps[c.preset];
        let reason: String = pair_reason(&bs[c.asr], &bs[c.tts], hw, ns[k].fit);
        out.push(
            SuggestedPreset {
                id: p.id.clone(),
                name: p.name.clone(),
                asr_id: p.asr_id.clone(),
                tts_id: p.tts_id.clone(),
                score: ns[k].score,
                reason: text::joined_pair("Preset · ", reason.as_str()),
            },
        );
    }
    out
}

// ---------------------------------------------------------------------------
// Cautions
// ---------------------------------------------------------------------------

/// Why one is cautioned against a backend.
pub open spec fn caution_text(
    s: CatalogBackendStatus,
    size: BackendSize,
    too_heavy: u32,
    budget: Seq<char>,
) -> Option<Seq<char>> {
    if !s.available {
        None
    } else if size.vram > too_heavy && size.vram >= HEAVY_GB {
        Some(
            "~"@ + size.shown@
                + " GB VRAM laut Katalog — auf diesem System voraussichtlich zu schwer (Budget ~"@
                + budget + " GB)"@,
        )
    } else if s.host_managed && s.runtime_state@ == "unavailable"@ {
        Some(
            if s.runtime_reason@.len() == 0 {
                "Host-Profil nicht verfügbar"@
            } else {
                s.runtime_reason@
            },
        )
    } else {
        None
    }
}

pub fn caution_for(
    status: &CatalogBackendStatus,
    size: &BackendSize,
    too_heavy: u32,
    budget: &str,
) -> (r: Option<String>)
    ensures
        crate::registry::opt_view(r) == caution_text(*status, *size, too_heavy, budget@),
{
    if !status.available {
        return None;
    }
    if size.vram > too_heavy && size.vram >= HEAVY_GB {
        return Some(
            wrap2(
                "~",
                size.shown.as_str(),
                " GB VRAM laut Katalog — auf diesem System voraussichtlich zu schwer (Budget ~",
                budget,
                " GB)",
            ),
        );
    }
    if status.host_managed && text::same(status.runtime_state.as_str(), "unavailable") {
        return Some(
            if status.runtime_reason.as_str().is_empty() {
                String::from_str("Host-Profil nicht verfügbar")
            } else {
                status.runtime_reason.clone()
            },
        );
    }
    None
}

/// The caution against the backend at an index; the language model is not judged.
pub open spec fn caution_at(
    bs: Seq<CatalogBackendStatus>,
    sizes: Seq<BackendSize>,
    too_heavy: u32,
    budget: Seq<char>,
    i: int,
) -> Option<Seq<char>> {
    if bs[i].backend.stage == BackendStage::Llm {
        None
    } else {
        caution_text(bs[i], sizes[i], too_heavy, budget)
    }
}

pub open spec fn caution_keys(bs: Seq<CatalogBackendStatus>) -> Seq<KeyView> {
    Seq::new(
        bs.len(),
        |i: int| KeyView { score: 0, vram: 0, first: bs[i].backend.id@, second: ""@ },
    )
}

pub open spec fn cautioned(
    bs: Seq<CatalogBackendStatus>,
    sizes: Seq<BackendSize>,
    too_heavy: u32,
    budget: Seq<char>,
) -> Seq<bool> {
    Seq::new(bs.len(), |i: int| caution_at(bs, sizes, too_heavy, budget, i) is Some)
}

/// Whether a list has the cautions in the order of the names.
pub open spec fn all_cautions(
    r: Seq<SuggestionCaution>,
    bs: Seq<CatalogBackendStatus>,
    sizes: Seq<BackendSize>,
    too_heavy: u32,
    budget: Seq<char>,
) -> bool {
    exists|order: Seq<usize>|
        {
            &&& #[trigger] is_ranking(
                order,
                caution_keys(bs),
                cautioned(bs, sizes, too_heavy, budget),
                bs.len() as int,
            )
            &&& r.len() == at_most(order.len() as int, MAX_CAUTIONS)
            &&& forall|i: int|
                0 <= i < r.len() ==> (#[trigger] r[i]).backend_id@ == bs[order[i] as int].backend.id@
                    && Some(r[i].reason@) == caution_at(
                    bs,
                    sizes,
                    too_heavy,
                    budget,
                    order[i] as int,
                )
        }
}

fn caution_of(
    bs: &Vec<CatalogBackendStatus>,
    sizes: &Vec<BackendSize>,
    too_heavy: u32,
    budget: &str,
    i: usize,
) -> (r: Option<String>)
    requires
        i < bs@.len(),
        sizes@.len() == bs@.len(),
    ensures
        crate::registry::opt_view(r) == caution_at(bs@, sizes@, too_heavy, budget@, i as int),
{
    if bs[i].backend.stage == BackendStage::Llm {
        None
    } else {
        caution_for(&bs[i], &sizes[i], too_heavy, budget)
    }
}

fn rank_cautions(
    bs: &Vec<CatalogBackendStatus>,
    sizes: &Vec<BackendSize>,
    too_heavy: u32,
    budget: &str,
) -> (r: Vec<usize>)
    requires
        sizes@.len() == bs@.len(),
    ensures
        is_ranking(
            r@,
            caution_keys(bs@),
            cautioned(bs@, sizes@, too_heavy, budget@),
            bs@.len() as int,
        ),
{
    let mut keys: Vec<RankKey> = Vec::new();
    let mut kept: Vec<bool> = Vec::new();
    let mut i: usize = 0;
    while i < bs.len()
        invariant
            i <= bs.len(),
            sizes@.len() == bs@.len(),
            keys@.len() == i,
            kept@.len() == i,
            forall|k: int| 0 <= k < i ==> (#[trigger] keys@[k])@ == caution_keys(bs@)[k],
            forall|k: int|
                0 <= k < i ==> #[trigger] kept@[k] == cautioned(
                    bs@,
                    sizes@,
                    too_heavy,
                    budget@,
                )[k],
        decreases bs.len() - i,
    {
        let c: Option<String> = caution_of(bs, sizes, too_heavy, budget, i);
        keys.push(
            RankKey {
                score: 0,
                vram: 0,
                first: bs[i].backend.id.clone(),
                second: String::from_str(""),
            },
        );
        kept.push(c.is_some());
        i += 1;
    }
    assert(key_views(keys@) =~= caution_keys(bs@));
    assert(kept@ =~= cautioned(bs@, sizes@, too_heavy, budget@));
    rank(&keys, &kept)
}

/// The cautions in the order of the names.
pub fn cautions(
    bs: &Vec<CatalogBackendStatus>,
    sizes: &Vec<BackendSize>,
    too_heavy: u32,
    budget: &str,
) -> (r: Vec<SuggestionCaution>)
    requires
        sizes@.len() == bs@.len(),
    ensures
        all_cautions(r@, bs@, sizes@, too_heavy, budget@),
{
    let order: Vec<usize> = rank_cautions(bs, sizes, too_heavy, budget);
    let ghost kept = cautioned(bs@, sizes@, too_heavy, budget@);
    let mut out: Vec<SuggestionCaution> = Vec::new();
    while out.len() < order.len() && out.len() < MAX_CAUTIONS
        invariant
            out@.len() <= order@.len(),
            out@.len() <= MAX_CAUTIONS,
            sizes@.len() == bs@.len(),
            kept == cautioned(bs@, sizes@, too_heavy, budget@),
            forall|k: int|
                0 <= k < order@.len() ==> #[trigger] order@[k] < bs@.len()
                    && kept[order@[k] as int],
            forall|k: int|
                0 <= k < out@.len() ==> (#[trigger] out@[k]).backend_id@
                    == bs@[order@[k] as int].backend.id@ && Some(out@[k].reason@) == caution_at(
                    bs@,
                    sizes@,
                    too_heavy,
                    budget@,
                    order@[k] as int,
                ),
        decreases order.len() - out.len(),
    {
        let k: usize = order[out.len()];
        assert(kept[k as int]);
        match caution_of(bs, sizes, too_heavy, budget, k) {
            Some(reason) => {
                out.push(SuggestionCaution { backend_id: bs[k].backend.id.clone(), reason });
            },
            None => {
                return out;
            },
        }
    }
    out
}

/// Builds ranked suggestions from a resolved catalog and the numbers that were
/// computed for it.
pub fn build_suggestions(
    capability: HardwareProfile,
    backends: &Vec<CatalogBackendStatus>,
    presets: &Vec<StackPreset>,
    query: &SuggestionQuery,
    numbers: &SuggestionNumbers,
) -> (r: SuggestionsResponse)
    requires
        numbers.pairs@.len() == pairs_considered(backends@, query@).len(),
        numbers.presets@.len() == presets_considered(
            backends@,
            presets@,
            query@,
            presets@.len() as int,
        ).len(),
        numbers.backends@.len() == backends@.len(),
    ensures
        r.capability == capability,
        best_pairs(
            r.suggested_pairs@,
            backends@,
            capability,
            pairs_considered(backends@, query@),
            numbers.pairs@,
            query.limit,
        ),
        best_presets(
            r.suggested_presets@,
            backends@,
            presets@,
            capability,
            presets_considered(backends@, presets@, query@, presets@.len() as int),
            numbers.presets@,
            query.limit,
        ),
        all_cautions(
            r.caution@,
            backends@,
            numbers.backends@,
            numbers.too_heavy,
            numbers.budget_shown@,
        ),
        r.scoring@ == "heuristic_v1"@,
        r.budget_vram_gb == Some(numbers.budget),
        r.note@
            == "Scores are heuristic predictions from catalog metadata and system capacity — not runtime benchmarks. User selection remains manual."@,
{
    let pairs: Vec<(usize, usize)> = eligible_pairs(backends, query);
    let suggested_pairs: Vec<SuggestedPair> = suggest_pairs(
        backends,
        &capability,
        &pairs,
        &numbers.pairs,
        query.limit,
    );
    let candidates: Vec<PresetCandidate> = eligible_presets(backends, presets, query);
    let suggested_presets: Vec<SuggestedPreset> = suggest_presets(
        backends,
        presets,
        &capability,
        &candidates,
        &numbers.presets,
        query.limit,
    );
    let caution: Vec<SuggestionCaution> = cautions(
        backends,
        &numbers.backends,
        numbers.too_heavy,
        numbers.budget_shown.as_str(),
    );
    SuggestionsResponse {
        capability,
        suggested_presets,
        suggested_pairs,
        caution,
        scoring: String::from_str(SCORING_VERSION),
        budget_vram_gb: Some(numbers.budget),
        note: String::from_str(scoring_note()),
    }
}

/// Every pair that is considered is of a recogniser and a synthesizer that are
/// eligible.
pub proof fn law_considered_pairs_are_eligible(
    bs: Seq<CatalogBackendStatus>,
    q: QueryView,
    i: int,
)
    requires
        bs.len() <= usize::MAX,
        0 <= i < pairs_considered(bs, q).len(),
    ensures
        ({
            let (a, t) = pairs_considered(bs, q)[i];
            &&& 0 <= a < bs.len() && eligible(bs[a as int], q, BackendStage::Asr)
            &&& 0 <= t < bs.len() && eligible(bs[t as int], q, BackendStage::Tts)
        }),
{
    let n = bs.len() as int;
    let a = eligible_among(bs, q, BackendStage::Asr, n);
    let t = eligible_among(bs, q, BackendStage::Tts, n);
    lemma_product(a, t, i);
    let (x, y) = choose|x: int, y: int|
        0 <= x < a.len() && 0 <= y < t.len() && product(a, t)[i] == (#[trigger] a[x], #[trigger] t[y]);
    lemma_eligible_among(bs, q, BackendStage::Asr, n, x);
    lemma_eligible_among(bs, q, BackendStage::Tts, n, y);
}

pub proof fn lemma_product(a: Seq<usize>, b: Seq<usize>, i: int)
    requires
        0 <= i < product(a, b).len(),
    ensures
        exists|x: int, y: int|
            0 <= x < a.len() && 0 <= y < b.len() && product(a, b)[i] == (#[trigger] a[x], #[trigger] b[y]),
    decreases a.len(),
{
    let front = product(a.drop_last(), b);
    if i < front.len() {
        lemma_product(a.drop_last(), b, i);
        let (x, y) = choose|x: int, y: int|
            0 <= x < a.drop_last().len() && 0 <= y < b.len() && front[i] == (
                #[trigger] a.drop_last()[x],
                #[trigger] b[y],
            );
        assert(product(a, b)[i] == (a[x], b[y]));
    } else {
        let y = i - front.len();
        assert(product(a, b)[i] == (a[a.len() - 1], b[y]));
    }
}

proof fn lemma_eligible_among(
    bs: Seq<CatalogBackendStatus>,
    q: QueryView,
    stage: BackendStage,
    n: int,
    k: int,
)
    requires
        0 <= n <= bs.len(),
        bs.len() <= usize::MAX,
        0 <= k < eligible_among(bs, q, stage, n).len(),
    ensures
        ({
            let x = eligible_among(bs, q, stage, n)[k];
            0 <= x < n && eligible(bs[x as int], q, stage)
        }),
    decreases n,
{
    if n > 0 && k < eligible_among(bs, q, stage, n - 1).len() {
        lemma_eligible_among(bs, q, stage, n - 1, k);
    }
}

/// Suggested pairs come best first: by score, of equal scores by the memory that they
/// take, the least first; each reaches a quarter; and there are no more than asked
/// for.
pub proof fn law_best_pairs_come_first(
    r: Seq<SuggestedPair>,
    bs: Seq<CatalogBackendStatus>,
    hw: HardwareProfile,
    pairs: Seq<(usize, usize)>,
    ns: Seq<PairNumbers>,
    limit: usize,
    i: int,
    j: int,
)
    requires
        best_pairs(r, bs, hw, pairs, ns, limit),
        ns.len() == pairs.len(),
        0 <= i < j < r.len(),
    ensures
        r.len() <= limit,
        r[i].score > r[j].score || (r[i].score == r[j].score && r[i].vram_gb <= r[j].vram_gb),
        exists|k: int|
            0 <= k < pairs.len() && #[trigger] ns[k].raw >= 0x3e80_0000 && r[i].asr_id@
                == bs[pairs[k].0 as int].backend.id@ && r[i].tts_id@
                == bs[pairs[k].1 as int].backend.id@ && r[i].score == ns[k].score && r[i].vram_gb
                == ns[k].vram,
{
    let keys = pair_keys(bs, pairs, ns);
    let order = choose|order: Seq<usize>|
        {
            &&& #[trigger] is_ranking(order, keys, good_enough(ns), pairs.len() as int)
            &&& r.len() == at_most(order.len() as int, limit)
            &&& forall|i: int|
                0 <= i < r.len() ==> suggests_pair(
                    #[trigger] r[i],
                    bs,
                    hw,
                    pairs[order[i] as int],
                    ns[order[i] as int],
                )
        };
    assert(ranks_before(keys, order[i] as int, order[j] as int));
    assert(suggests_pair(r[i], bs, hw, pairs[order[i] as int], ns[order[i] as int]));
    assert(suggests_pair(r[j], bs, hw, pairs[order[j] as int], ns[order[j] as int]));
    assert(good_enough(ns)[order[i] as int]);
    assert(good_enough(ns)[order[j] as int]);
    let k = order[i] as int;
    assert(ns[k].raw >= 0x3e80_0000);
}

/// No pair that reaches a quarter is left out while there is room for more.
pub proof fn law_no_good_pair_is_left_out(
    r: Seq<SuggestedPair>,
    bs: Seq<CatalogBackendStatus>,
    hw: HardwareProfile,
    pairs: Seq<(usize, usize)>,
    ns: Seq<PairNumbers>,
    limit: usize,
    k: int,
)
    requires
        best_pairs(r, bs, hw, pairs, ns, limit),
        ns.len() == pairs.len(),
        pairs.len() <= usize::MAX,
        0 <= k < pairs.len(),
        ns[k].raw >= 0x3e80_0000,
        r.len() < limit,
    ensures
        exists|i: int|
            0 <= i < r.len() && (#[trigger] r[i]).asr_id@ == bs[pairs[k].0 as int].backend.id@
                && r[i].tts_id@ == bs[pairs[k].1 as int].backend.id@ && r[i].score == ns[k].score,
{
    let keys = pair_keys(bs, pairs, ns);
    let order = choose|order: Seq<usize>|
        {
            &&& #[trigger] is_ranking(order, keys, good_enough(ns), pairs.len() as int)
            &&& r.len() == at_most(order.len() as int, limit)
            &&& forall|i: int|
                0 <= i < r.len() ==> suggests_pair(
                    #[trigger] r[i],
                    bs,
                    hw,
                    pairs[order[i] as int],
                    ns[order[i] as int],
                )
        };
    let u = k as usize;
    assert(good_enough(ns)[k]);
    assert(order.contains(u));
    let i = choose|i: int| 0 <= i < order.len() && order[i] == u;
    assert(suggests_pair(r[i], bs, hw, pairs[order[i] as int], ns[order[i] as int]));
}

/// Every recognition backend that may be suggested is considered with every such
/// synthesis backend.
pub proof fn law_all_eligible_pairs_are_considered(
    bs: Seq<CatalogBackendStatus>,
    q: QueryView,
    a: usize,
    t: usize,
)
    requires
        bs.len() <= usize::MAX,
        a < bs.len(),
        t < bs.len(),
        eligible(bs[a as int], q, BackendStage::Asr),
        eligible(bs[t as int], q, BackendStage::Tts),
    ensures
        pairs_considered(bs, q).contains((a, t)),
{
    let n = bs.len() as int;
    lemma_eligible_is_among(bs, q, BackendStage::Asr, n, a);
    lemma_eligible_is_among(bs, q, BackendStage::Tts, n, t);
    lemma_product_has(
        eligible_among(bs, q, BackendStage::Asr, n),
        eligible_among(bs, q, BackendStage::Tts, n),
        a,
        t,
    );
}

proof fn lemma_eligible_is_among(
    bs: Seq<CatalogBackendStatus>,
    q: QueryView,
    stage: BackendStage,
    n: int,
    x: usize,
)
    requires
        0 <= x < n <= bs.len(),
        bs.len() <= usize::MAX,
        eligible(bs[x as int], q, stage),
    ensures
        eligible_among(bs, q, stage, n).contains(x),
    decreases n,
{
    let e = eligible_among(bs, q, stage, n);
    if x == n - 1 {
        assert(e[e.len() - 1] == x);
    } else {
        lemma_eligible_is_among(bs, q, stage, n - 1, x);
        let t = eligible_among(bs, q, stage, n - 1);
        let k = choose|k: int| 0 <= k < t.len() && t[k] == x;
        assert(e[k] == x);
    }
}

pub proof fn lemma_product_has(a: Seq<usize>, b: Seq<usize>, x: usize, y: usize)
    requires
        a.contains(x),
        b.contains(y),
    ensures
        product(a, b).contains((x, y)),
    decreases a.len(),
{
    let p = product(a, b);
    let front = product(a.drop_last(), b);
    if a.last() == x {
        let k = choose|k: int| 0 <= k < b.len() && b[k] == y;
        assert(p[front.len() + k] == (x, y));
    } else {
        let k = choose|k: int| 0 <= k < a.len() && a[k] == x;
        assert(a.drop_last()[k] == x);
        lemma_product_has(a.drop_last(), b, x, y);
        let m = choose|m: int| 0 <= m < front.len() && front[m] == (x, y);
        assert(p[m] == (x, y));
    }
}

/// A backend may be suggested if it is of the stage, can be used on the machine, is
/// stable where only stable ones are wanted, and knows the language.
pub proof fn law_what_may_be_suggested(s: CatalogBackendStatus, q: QueryView, stage: BackendStage)
    ensures
        eligible(s, q, stage) ==> s.backend.stage == stage && s.available && s.selected_variant
            is Some,
        eligible(s, q, stage) && q.stable_only ==> s.selected_variant.unwrap().stable,
        s.backend.stage == stage && s.available && s.selected_variant is Some && (
        s.selected_variant.unwrap().stable || !q.stable_only) && (q.language is None
            || s.backend.languages@.len() == 0) ==> eligible(s, q, stage),
{
}

/// A language is known if it is listed, in any case, with a region or under its long
/// names, or if the list is empty or finds languages out by itself; a list of others
/// does not know it.
pub proof fn law_languages(langs: Seq<String>, wanted: Seq<char>, i: int)
    requires
        0 <= i < langs.len(),
        wanted.len() > 0,
        wanted != "auto"@,
    ensures
        text::lower(langs[i]@) == text::lower(wanted) ==> matches_language(langs, wanted),
        text::lower(langs[i]@) == "auto"@ ==> matches_language(langs, wanted),
        text::starts_with(text::lower(langs[i]@), text::lower(wanted) + "-"@) ==> matches_language(
            langs,
            wanted,
        ),
        text::lower(wanted) == "de"@ && text::lower(langs[i]@) == "german"@ ==> matches_language(
            langs,
            wanted,
        ),
        text::lower(wanted) == "en"@ && text::lower(langs[i]@) == "english"@ ==> matches_language(
            langs,
            wanted,
        ),
        matches_language(Seq::empty(), wanted),
        langs.len() == 1 && text::lower(langs[0]@) != text::lower(wanted) && text::lower(langs[0]@)
            != "auto"@ && !text::starts_with(text::lower(langs[0]@), text::lower(wanted) + "-"@)
            && text::lower(wanted) != "de"@ && text::lower(wanted) != "en"@ ==> !matches_language(
            langs,
            wanted,
        ),
{
    assert(speaks(langs[i]@, text::lower(wanted)) ==> matches_language(langs, wanted));
}

/// What a query asks: stable backends unless it says otherwise, eight suggestions
/// unless it gives a number, and never fewer than one nor more than 32.
pub proof fn law_limits_of_a_query(q: QueryView, n: u64, size: Option<u32>)
    requires
        n <= usize::MAX,
    ensures
        read_parameters(Seq::empty(), Seq::empty(), 0).limit == 8,
        read_parameters(Seq::empty(), Seq::empty(), 0).stable_only,
        read_parameters(Seq::empty(), Seq::empty(), 0).language is None,
        1 <= n <= 32 ==> read_parameter(q, "limit"@, text::decimal(n as nat), size).limit == n,
        n == 0 ==> read_parameter(q, "limit"@, text::decimal(n as nat), size).limit == 1,
        n > 32 ==> read_parameter(q, "limit"@, text::decimal(n as nat), size).limit == 32,
{
    text::law_written_number_reads_back(n as nat, usize::MAX as nat);
    text::law_written_number_is_trimmed(n as nat);
    reveal_strlit("limit");
    reveal_strlit("language");
    reveal_strlit("lang");
    reveal_strlit("stable_only");
    reveal_strlit("stable");
    reveal_strlit("max_vram_gb");
    reveal_strlit("max_vram");
    assert("limit"@.len() == 5);
    assert("language"@.len() == 8 && "lang"@.len() == 4 && "stable_only"@.len() == 11);
    assert("stable"@.len() == 6 && "max_vram_gb"@.len() == 11 && "max_vram"@.len() == 8);
}

/// The memory that counts is what the query allows, else what is free, else what the
/// card has, else what the class of the machine promises.
pub proof fn law_budget(hw: HardwareProfile, q: QueryView)
    ensures
        q.max_vram_gb is Some ==> budget_for(hw, q) == Budget::Exactly(q.max_vram_gb.unwrap()),
        q.max_vram_gb is None && hw.vram_free_gb is Some ==> budget_for(hw, q) == Budget::Share(
            hw.vram_free_gb.unwrap(),
        ),
        q.max_vram_gb is None && hw.vram_free_gb is None && hw.vram_total_gb is Some
            ==> budget_for(hw, q) == Budget::Share(hw.vram_total_gb.unwrap()),
        q.max_vram_gb is None && hw.vram_free_gb is None && hw.vram_total_gb is None && hw.tier@
            == "gpu-16gb+"@ ==> budget_for(hw, q) == Budget::Exactly(0x4160_0000),
        q.max_vram_gb is None && hw.vram_free_gb is None && hw.vram_total_gb is None && hw.tier@
            == "gpu-8gb"@ ==> budget_for(hw, q) == Budget::Exactly(0x40e0_0000),
{
    reveal_strlit("gpu-16gb+");
    reveal_strlit("gpu-8gb");
    assert("gpu-16gb+"@.len() == 9 && "gpu-8gb"@.len() == 7);
}

/// A pair fits if it takes no more than the budget, and easily if it takes no more
/// than half of it.
pub proof fn law_fit(vram: u32, budget: u32, half: u32)
    ensures
        vram > budget ==> fit_for(vram, budget, half) == Fit::Over,
        vram <= budget && vram <= half ==> fit_for(vram, budget, half) == Fit::Easily,
        vram <= budget && vram > half ==> fit_for(vram, budget, half) == Fit::Within,
{
}

/// What speaks for a backend by its accelerator follows the order in which variants
/// are chosen: Vulkan most, then CUDA on an NVIDIA machine, SYCL on an Intel one, the
/// CPU, a remote endpoint, anything else.
pub proof fn law_accelerator_scores(s: CatalogBackendStatus, hw: HardwareProfile)
    requires
        s.selected_variant is Some,
    ensures
        ({
            let a = s.selected_variant.unwrap().accelerator@;
            let v = hw.vendor@;
            let term = accelerator_term(s, hw);
            &&& a == "vulkan"@ ==> term == 1250
            &&& a == "cuda"@ && v == "nvidia"@ ==> term == 1100
            &&& a == "sycl"@ && v == "intel"@ ==> term == 900
            &&& a == "cpu"@ ==> term == 600
            &&& a == "remote"@ ==> term == 400
            &&& (a == "cuda"@ && v != "nvidia"@) || (a == "sycl"@ && v != "intel"@) ==> term == 200
        }),
{
    reveal_strlit("vulkan");
    reveal_strlit("cuda");
    reveal_strlit("sycl");
    reveal_strlit("cpu");
    reveal_strlit("remote");
    assert("vulkan"@.len() == 6 && "cuda"@.len() == 4 && "sycl"@.len() == 4 && "cpu"@.len() == 3
        && "remote"@.len() == 6);
    assert("vulkan"@[0] == 'v' && "remote"@[0] == 'r' && "cuda"@[0] == 'c' && "sycl"@[0] == 's');
}

/// What is at hand speaks for a backend: an installed model by 1200, a container by
/// 800, a host runtime that is there by 500; one that is missing speaks against it.
pub proof fn law_readiness_scores(s: CatalogBackendStatus)
    ensures
        ({
            let terms = readiness_terms(s);
            &&& s.installed || s.backend.bundled || s.download_state@ == "bundled"@ ==> terms.len()
                == 2 && terms[0] == 1200
            &&& !s.installed && !s.backend.bundled && s.download_state@ != "bundled"@ ==> terms.len()
                == 1
            &&& !s.host_managed ==> terms.last() == 800
            &&& s.host_managed && (s.runtime_state@ == "running"@ || s.runtime_state@ == "stopped"@
                || s.runtime_state@ == "not_managed"@) ==> terms.last() == 500
            &&& s.host_managed && s.runtime_state@ == "unavailable"@ ==> terms.last() == -3500
        }),
{
    reveal_strlit("running");
    reveal_strlit("stopped");
    reveal_strlit("not_managed");
    reveal_strlit("unavailable");
    assert("running"@.len() == 7 && "stopped"@.len() == 7 && "not_managed"@.len() == 11
        && "unavailable"@.len() == 11);
    assert("not_managed"@[0] == 'n' && "unavailable"@[0] == 'u');
}

/// The resources that the catalog gives speak for a backend most in the middle.
pub proof fn law_quality_scores(s: CatalogBackendStatus)
    ensures
        ({
            let g = s.backend.resources.stars.gpu;
            let v = s.backend.resources.stars.vram;
            let more = if g >= v {
                g
            } else {
                v
            };
            let term = quality_term(s);
            &&& more <= 1 ==> term == 100
            &&& more == 2 ==> term == 250
            &&& more == 3 ==> term == 400
            &&& more == 4 ==> term == 200
            &&& more > 4 ==> term == 0
        }),
{
}

/// What a pair is scored by: both backends alike, the memory, whether it needs no
/// host runtime, and whether it is the default stack.
pub proof fn law_terms_of_a_pair(
    a: CatalogBackendStatus,
    t: CatalogBackendStatus,
    hw: HardwareProfile,
    fit: Fit,
)
    ensures
        ({
            let terms = pair_terms_of(a, t, hw, fit);
            &&& terms[0] == seq![5500i32]
            &&& terms[1] == seq![accelerator_term(a, hw)]
            &&& terms[2] == seq![accelerator_term(t, hw)]
            &&& terms[3] == readiness_terms(a)
            &&& terms[4] == readiness_terms(t)
            &&& terms[5] == seq![quality_term(a)]
            &&& terms[6] == seq![quality_term(t)]
            &&& fit == Fit::Over ==> terms[7] == seq![-4500i32]
            &&& fit != Fit::Over ==> terms[7] == seq![1500i32]
            &&& fit == Fit::Easily ==> terms[8] == seq![500i32]
            &&& terms.len() == 8 + (if fit == Fit::Easily {
                1int
            } else {
                0
            }) + (if !a.host_managed && !t.host_managed {
                1int
            } else {
                0
            }) + (if a.backend.id@ == "fw-tiny"@ && t.backend.id@ == "supertonic"@ {
                1int
            } else {
                0
            })
            &&& a.backend.id@ == "fw-tiny"@ && t.backend.id@ == "supertonic"@ ==> terms.last()
                == seq![800i32]
            &&& !(a.backend.id@ == "fw-tiny"@ && t.backend.id@ == "supertonic"@)
                && !a.host_managed && !t.host_managed ==> terms.last() == seq![500i32]
        }),
{
}

/// Suggested presets come best first, each as it is in the catalog, and none that takes
/// more memory than it allows.
pub proof fn law_best_presets_come_first(
    r: Seq<SuggestedPreset>,
    bs: Seq<CatalogBackendStatus>,
    ps: Seq<StackPreset>,
    hw: HardwareProfile,
    cs: Seq<PresetCandidate>,
    ns: Seq<PresetNumbers>,
    limit: usize,
    i: int,
    j: int,
)
    requires
        best_presets(r, bs, ps, hw, cs, ns, limit),
        ns.len() == cs.len(),
        0 <= i < j < r.len(),
    ensures
        r.len() <= limit,
        r[i].score >= r[j].score,
        exists|k: int|
            0 <= k < cs.len() && r[i].id@ == ps[(#[trigger] cs[k]).preset as int].id@ && r[i].asr_id@ == ps[cs[k].preset as int].asr_id@
                && r[i].tts_id@ == ps[cs[k].preset as int].tts_id@ && r[i].score == ns[k].score && (
            ps[cs[k].preset as int].max_vram_gb matches Some(max) ==> max >= 0x7f80_0001
                || ns[k].vram <= max),
{
    let keys = preset_keys(ps, cs, ns);
    let order = choose|order: Seq<usize>|
        {
            &&& #[trigger] is_ranking(order, keys, small_enough(ps, cs, ns), cs.len() as int)
            &&& r.len() == at_most(order.len() as int, limit)
            &&& forall|i: int|
                0 <= i < r.len() ==> suggests_preset(
                    #[trigger] r[i],
                    bs,
                    ps,
                    hw,
                    cs[order[i] as int],
                    ns[order[i] as int],
                )
        };
    assert(ranks_before(keys, order[i] as int, order[j] as int));
    assert(suggests_preset(r[i], bs, ps, hw, cs[order[i] as int], ns[order[i] as int]));
    assert(suggests_preset(r[j], bs, ps, hw, cs[order[j] as int], ns[order[j] as int]));
    assert(small_enough(ps, cs, ns)[order[i] as int]);
    assert(small_enough(ps, cs, ns)[order[j] as int]);
    assert(r[i].id@ == ps[cs[order[i] as int].preset as int].id@);
}

/// A preset that takes no more memory than it allows is suggested while there is room.
pub proof fn law_small_preset_is_suggested(
    r: Seq<SuggestedPreset>,
    bs: Seq<CatalogBackendStatus>,
    ps: Seq<StackPreset>,
    hw: HardwareProfile,
    cs: Seq<PresetCandidate>,
    ns: Seq<PresetNumbers>,
    limit: usize,
    k: int,
)
    requires
        best_presets(r, bs, ps, hw, cs, ns, limit),
        ns.len() == cs.len(),
        0 <= k < cs.len() <= usize::MAX,
        r.len() < limit,
        ps[cs[k].preset as int].max_vram_gb matches Some(max) ==> max < 0x8000_0000 && ns[k].vram
            <= max,
    ensures
        exists|i: int|
            0 <= i < r.len() && (#[trigger] r[i]).id@ == ps[cs[k].preset as int].id@ && r[i].score
                == ns[k].score,
{
    let keys = preset_keys(ps, cs, ns);
    let kept = small_enough(ps, cs, ns);
    let order = choose|order: Seq<usize>|
        {
            &&& #[trigger] is_ranking(order, keys, kept, cs.len() as int)
            &&& r.len() == at_most(order.len() as int, limit)
            &&& forall|i: int|
                0 <= i < r.len() ==> suggests_preset(
                    #[trigger] r[i],
                    bs,
                    ps,
                    hw,
                    cs[order[i] as int],
                    ns[order[i] as int],
                )
        };
    let u = k as usize;
    assert(kept[u as int]);
    assert(order.contains(u));
    let i = choose|i: int| 0 <= i < order.len() && order[i] == u;
    assert(suggests_preset(r[i], bs, ps, hw, cs[order[i] as int], ns[order[i] as int]));
}

/// A preset is considered with the backends that it names, both of which may be
/// suggested, and only in its languages.
pub proof fn law_preset_members(bs: Seq<CatalogBackendStatus>, p: StackPreset, q: QueryView)
    requires
        bs.len() <= usize::MAX,
        preset_members(bs, p, q) is Some,
    ensures
        ({
            let (a, t) = preset_members(bs, p, q).unwrap();
            &&& 0 <= a < bs.len() && bs[a as int].backend.id@ == p.asr_id@ && eligible(
                bs[a as int],
                q,
                BackendStage::Asr,
            )
            &&& 0 <= t < bs.len() && bs[t as int].backend.id@ == p.tts_id@ && eligible(
                bs[t as int],
                q,
                BackendStage::Tts,
            )
            &&& q.language is Some && p.languages@.len() > 0 ==> matches_language(
                p.languages@,
                q.language.unwrap(),
            )
        }),
{
    lemma_status_index(bs, p.asr_id@, 0);
    lemma_status_index(bs, p.tts_id@, 0);
}

proof fn lemma_status_index(bs: Seq<CatalogBackendStatus>, id: Seq<char>, from: int)
    requires
        0 <= from <= bs.len() <= usize::MAX,
    ensures
        status_index(bs, id, from) matches Some(k) ==> from <= k < bs.len() && bs[k as int].backend.id@
            == id,
    decreases bs.len() - from,
{
    if from < bs.len() && bs[from].backend.id@ != id {
        lemma_status_index(bs, id, from + 1);
    }
}

/// A caution is given for a backend that is too heavy for the machine and takes eight
/// gigabytes or more, or whose host runtime is missing; never for one that cannot be
/// used anyway, nor for a language model.
pub proof fn law_cautions(
    bs: Seq<CatalogBackendStatus>,
    sizes: Seq<BackendSize>,
    too_heavy: u32,
    budget: Seq<char>,
    i: int,
)
    requires
        0 <= i < bs.len(),
        sizes.len() == bs.len(),
    ensures
        bs[i].backend.stage == BackendStage::Llm ==> caution_at(bs, sizes, too_heavy, budget, i)
            is None,
        !bs[i].available ==> caution_at(bs, sizes, too_heavy, budget, i) is None,
        bs[i].available && bs[i].backend.stage != BackendStage::Llm ==> (caution_at(
            bs,
            sizes,
            too_heavy,
            budget,
            i,
        ) is Some <==> (sizes[i].vram > too_heavy && sizes[i].vram >= 0x4100_0000) || (
        bs[i].host_managed && bs[i].runtime_state@ == "unavailable"@)),
        MAX_CAUTIONS == 12,
{
}

/// Exactly the presets whose backends may both be suggested are considered, each with
/// these backends and in the order in which they are given.
pub proof fn law_presets_are_considered(
    bs: Seq<CatalogBackendStatus>,
    ps: Seq<StackPreset>,
    q: QueryView,
    n: int,
    k: int,
)
    requires
        0 <= n <= ps.len() <= usize::MAX,
        0 <= k < n,
    ensures
        ({
            let all = presets_considered(bs, ps, q, n);
            &&& preset_members(bs, ps[k], q) is Some <==> exists|i: int|
                0 <= i < all.len() && (#[trigger] all[i]).preset == k
            &&& forall|i: int|
                0 <= i < all.len() ==> (#[trigger] all[i]).preset < n && preset_members(
                    bs,
                    ps[all[i].preset as int],
                    q,
                ) == Some((all[i].asr, all[i].tts))
            &&& forall|i: int, j: int|
                0 <= i < j < all.len() ==> (#[trigger] all[i]).preset < (#[trigger] all[j]).preset
        }),
    decreases n,
{
    let all = presets_considered(bs, ps, q, n);
    let prev = presets_considered(bs, ps, q, n - 1);
    if n > 1 {
        law_presets_are_considered(bs, ps, q, n - 1, if k < n - 1 {
            k
        } else {
            0
        });
    } else {
        assert(prev == Seq::<PresetCandidate>::empty());
    }
    assert forall|i: int| 0 <= i < prev.len() implies #[trigger] all[i] == prev[i] by {}
    if preset_members(bs, ps[k], q) is Some {
        if k < n - 1 {
            let i = choose|i: int| 0 <= i < prev.len() && (#[trigger] prev[i]).preset == k;
            assert(all[i].preset == k);
        } else {
            assert(all[all.len() - 1].preset == k);
        }
    }
    if exists|i: int| 0 <= i < all.len() && (#[trigger] all[i]).preset == k {
        let i = choose|i: int| 0 <= i < all.len() && (#[trigger] all[i]).preset == k;
        if i < prev.len() {
            assert(prev[i].preset == k);
        }
    }
}

/// A preset whose backends may both be suggested in a language that it has is
/// considered with the first backends of these names.
pub proof fn law_good_preset_is_considered(
    bs: Seq<CatalogBackendStatus>,
    p: StackPreset,
    q: QueryView,
    a: int,
    t: int,
)
    requires
        bs.len() <= usize::MAX,
        0 <= a < bs.len(),
        0 <= t < bs.len(),
        bs[a].backend.id@ == p.asr_id@,
        bs[t].backend.id@ == p.tts_id@,
        forall|i: int| 0 <= i < a ==> (#[trigger] bs[i]).backend.id@ != p.asr_id@,
        forall|i: int| 0 <= i < t ==> (#[trigger] bs[i]).backend.id@ != p.tts_id@,
        eligible(bs[a], q, BackendStage::Asr),
        eligible(bs[t], q, BackendStage::Tts),
        q.language is None || p.languages@.len() == 0 || matches_language(
            p.languages@,
            q.language.unwrap(),
        ),
    ensures
        preset_members(bs, p, q) == Some((a as usize, t as usize)),
{
    lemma_status_index_is(bs, p.asr_id@, 0, a);
    lemma_status_index_is(bs, p.tts_id@, 0, t);
}

proof fn lemma_status_index_is(bs: Seq<CatalogBackendStatus>, id: Seq<char>, from: int, k: int)
    requires
        0 <= from <= k < bs.len() <= usize::MAX,
        bs[k].backend.id@ == id,
        forall|i: int| from <= i < k ==> (#[trigger] bs[i]).backend.id@ != id,
    ensures
        status_index(bs, id, from) == Some(k as usize),
    decreases k - from,
{
    if from < k {
        assert(bs[from].backend.id@ != id);
        lemma_status_index_is(bs, id, from + 1, k);
    }
}

/// Twelve cautions are given at most, each for a backend for which there is one, and
/// none is left out while there is room.
pub proof fn law_list_of_cautions(
    r: Seq<SuggestionCaution>,
    bs: Seq<CatalogBackendStatus>,
    sizes: Seq<BackendSize>,
    too_heavy: u32,
    budget: Seq<char>,
    k: int,
)
    requires
        all_cautions(r, bs, sizes, too_heavy, budget),
        0 <= k < bs.len() <= usize::MAX,
    ensures
        r.len() <= 12,
        forall|i: int|
            0 <= i < r.len() ==> exists|b: int|
                0 <= b < bs.len() && (#[trigger] bs[b]).backend.id@ == (#[trigger] r[i]).backend_id@
                    && caution_at(bs, sizes, too_heavy, budget, b) == Some(r[i].reason@),
        caution_at(bs, sizes, too_heavy, budget, k) is Some && r.len() < 12 ==> exists|i: int|
            0 <= i < r.len() && (#[trigger] r[i]).backend_id@ == bs[k].backend.id@ && Some(
                r[i].reason@,
            ) == caution_at(bs, sizes, too_heavy, budget, k),
{
    let kept = cautioned(bs, sizes, too_heavy, budget);
    let order = choose|order: Seq<usize>|
        {
            &&& #[trigger] is_ranking(order, caution_keys(bs), kept, bs.len() as int)
            &&& r.len() == at_most(order.len() as int, MAX_CAUTIONS)
            &&& forall|i: int|
                0 <= i < r.len() ==> (#[trigger] r[i]).backend_id@ == bs[order[i] as int].backend.id@
                    && Some(r[i].reason@) == caution_at(
                    bs,
                    sizes,
                    too_heavy,
                    budget,
                    order[i] as int,
                )
        };
    assert forall|i: int| 0 <= i < r.len() implies exists|b: int|
        0 <= b < bs.len() && (#[trigger] bs[b]).backend.id@ == (#[trigger] r[i]).backend_id@
            && caution_at(bs, sizes, too_heavy, budget, b) == Some(r[i].reason@) by {
        let b = order[i] as int;
        assert(bs[b].backend.id@ == r[i].backend_id@);
    }
    if caution_at(bs, sizes, too_heavy, budget, k) is Some && r.len() < 12 {
        let u = k as usize;
        assert(kept[u as int]);
        assert(order.contains(u));
        let i = choose|i: int| 0 <= i < order.len() && order[i] == u;
        assert(r[i].backend_id@ == bs[k].backend.id@);
    }
}

/// A switch is on by one of five texts, the empty one among them, and by no other.
pub proof fn law_switches(v: Seq<char>)
    ensures
        says_yes("1"@),
        says_yes("true"@),
        says_yes("yes"@),
        says_yes("on"@),
        says_yes(Seq::empty()),
        v.len() > 4 ==> !says_yes(v),
        v.len() > 0 && v[0] != '1' && v[0] != 't' && v[0] != 'y' && v[0] != 'o' ==> !says_yes(v),
{
    reveal_strlit("");
    reveal_strlit("1");
    reveal_strlit("true");
    reveal_strlit("yes");
    reveal_strlit("on");
    assert(""@ =~= Seq::<char>::empty());
    assert("1"@[0] == '1' && "true"@[0] == 't' && "yes"@[0] == 'y' && "on"@[0] == 'o');
    assert("1"@.len() == 1 && "true"@.len() == 4 && "yes"@.len() == 3 && "on"@.len() == 2);
}

} // verus!
