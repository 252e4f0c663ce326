//! Which containers a change of the stack concerns.

use crate::bring_up::{find_variant, StagePlan};
use crate::lab::{ActiveBackend, ControllerState};
use crate::registry::{
    push_new, BackendCatalog, BackendDefinition, BackendStage, BackendVariant,
};
use crate::text;
use vstd::prelude::*;

verus! {

/// The containers of some variants, each once, behind those in `found`; without
/// the skipped ones.
pub open spec fn variant_containers(
    vs: Seq<BackendVariant>,
    found: Seq<Seq<char>>,
    skip: Seq<Seq<char>>,
) -> Seq<Seq<char>>
    decreases vs.len(),
{
    if vs.len() == 0 {
        found
    } else {
        let before = variant_containers(vs.drop_last(), found, skip);
        let c = vs.last().container@;
        if c.len() == 0 || skip.contains(c) {
            before
        } else {
            crate::registry::with_new(before, c)
        }
    }
}

/// The containers of the backends of a stage, or of all of them.
pub open spec fn backend_containers(
    bs: Seq<BackendDefinition>,
    stage: Option<BackendStage>,
    skip: Seq<Seq<char>>,
) -> Seq<Seq<char>>
    decreases bs.len(),
{
    if bs.len() == 0 {
        Seq::empty()
    } else {
        let before = backend_containers(bs.drop_last(), stage, skip);
        if stage is None || stage == Some(bs.last().stage) {
            variant_containers(bs.last().variants@, before, skip)
        } else {
            before
        }
    }
}

fn add_variant_containers(b: &BackendDefinition, found: &mut Vec<String>, skip: &Vec<String>)
    ensures
        text::views(final(found)@) == variant_containers(
            b.variants@,
            text::views(old(found)@),
            text::views(skip@),
        ),
{
    let ghost start = text::views(found@);
    let mut i: usize = 0;
    assert(b.variants@.take(0) =~= Seq::empty());
    while i < b.variants.len()
        invariant
            i <= b.variants.len(),
            text::views(found@) == variant_containers(
                b.variants@.take(i as int),
                start,
                text::views(skip@),
            ),
        decreases b.variants.len() - i,
    {
        let ghost t = b.variants@.take(i + 1);
        assert(t.drop_last() =~= b.variants@.take(i as int));
        let c: &str = b.variants[i].container.as_str();
        proof {
            crate::registry::lemma_lists_is_contains(skip@, c@);
        }
        if !c.is_empty() && !text::listed(skip, c) {
            push_new(found, c);
        }
        i += 1;
    }
    assert(b.variants@.take(i as int) =~= b.variants@);
}

/// The containers of the backends of a stage, or of all of them, each once,
/// without the skipped ones.
pub fn catalog_containers(
    catalog: &BackendCatalog,
    stage: Option<BackendStage>,
    skip: &Vec<String>,
) -> (r: Vec<String>)
    ensures
        text::views(r@) == backend_containers(catalog.backends@, stage, text::views(skip@)),
{
    let mut found: Vec<String> = Vec::new();
    let mut i: usize = 0;
    assert(catalog.backends@.take(0) =~= Seq::empty());
    assert(text::views(found@) =~= Seq::empty());
    while i < catalog.backends.len()
        invariant
            i <= catalog.backends.len(),
            text::views(found@) == backend_containers(
                catalog.backends@.take(i as int),
                stage,
                text::views(skip@),
            ),
        decreases catalog.backends.len() - i,
    {
        let ghost t = catalog.backends@.take(i + 1);
        assert(t.drop_last() =~= catalog.backends@.take(i as int));
        let b: &BackendDefinition = &catalog.backends[i];
        let wanted: bool = match stage {
            Some(s) => s == b.stage,
            None => true,
        };
        if wanted {
            add_variant_containers(b, &mut found, skip);
        }
        i += 1;
    }
    assert(catalog.backends@.take(i as int) =~= catalog.backends@);
    found
}

/// The containers of a backend, each once.
pub open spec fn containers_of_backend(c: BackendCatalog, id: Seq<char>) -> Seq<Seq<char>> {
    match crate::registry::backend_index(c.backends@, id) {
        Some(i) => variant_containers(c.backends@[i].variants@, Seq::empty(), Seq::empty()),
        None => Seq::empty(),
    }
}

pub fn containers_for_backend(catalog: &BackendCatalog, backend_id: &str) -> (r: Vec<String>)
    ensures
        text::views(r@) == containers_of_backend(*catalog, backend_id@),
{
    let mut found: Vec<String> = Vec::new();
    let none: Vec<String> = Vec::new();
    assert(text::views(found@) =~= Seq::empty());
    match catalog.find(backend_id) {
        Some(b) => {
            add_variant_containers(b, &mut found, &none);
        },
        None => {},
    }
    found
}

/// The containers of all backends with an id.
pub open spec fn kept_containers(bs: Seq<BackendDefinition>, id: Seq<char>) -> Seq<Seq<char>>
    decreases bs.len(),
{
    if bs.len() == 0 {
        Seq::empty()
    } else if bs.last().id@ == id {
        variant_containers(bs.last().variants@, kept_containers(bs.drop_last(), id), Seq::empty())
    } else {
        kept_containers(bs.drop_last(), id)
    }
}

fn find_kept_containers(catalog: &BackendCatalog, id: &str) -> (r: Vec<String>)
    ensures
        text::views(r@) == kept_containers(catalog.backends@, id@),
{
    let mut found: Vec<String> = Vec::new();
    let none: Vec<String> = Vec::new();
    let mut i: usize = 0;
    assert(catalog.backends@.take(0) =~= Seq::empty());
    assert(text::views(found@) =~= Seq::empty());
    while i < catalog.backends.len()
        invariant
            i <= catalog.backends.len(),
            none@.len() == 0,
            text::views(found@) == kept_containers(catalog.backends@.take(i as int), id@),
        decreases catalog.backends.len() - i,
    {
        let ghost t = catalog.backends@.take(i + 1);
        assert(t.drop_last() =~= catalog.backends@.take(i as int));
        assert(text::views(none@) =~= Seq::empty());
        if text::same(catalog.backends[i].id.as_str(), id) {
            add_variant_containers(&catalog.backends[i], &mut found, &none);
        }
        i += 1;
    }
    assert(catalog.backends@.take(i as int) =~= catalog.backends@);
    found
}

/// The containers to stop when a backend takes over a stage: those of the stage,
/// but for the selected one and all that belong to the backend.
pub fn other_stage_containers(
    catalog: &BackendCatalog,
    stage: BackendStage,
    selected: &str,
    keep_backend_id: &str,
) -> (r: Vec<String>)
    ensures
        text::views(r@) == backend_containers(
            catalog.backends@,
            Some(stage),
            kept_containers(catalog.backends@, keep_backend_id@).push(selected@),
        ),
{
    let mut skip: Vec<String> = find_kept_containers(catalog, keep_backend_id);
    let ghost kept = text::views(skip@);
    skip.push(String::from_str(selected));
    assert(text::views(skip@) =~= kept.push(selected@));
    catalog_containers(catalog, Some(stage), &skip)
}

/// The backends that are active, stage by stage.
pub open spec fn actives_of(s: ControllerState) -> Seq<ActiveBackend> {
    let a = match s.asr {
        Some(x) => seq![x],
        None => Seq::empty(),
    };
    let t = match s.tts {
        Some(x) => seq![x],
        None => Seq::empty(),
    };
    let l = match s.llm {
        Some(x) => seq![x],
        None => Seq::empty(),
    };
    a + t + l
}

pub fn active_backends(s: &ControllerState) -> (r: Vec<ActiveBackend>)
    ensures
        r@ == actives_of(*s),
{
    let mut v: Vec<ActiveBackend> = Vec::new();
    match &s.asr {
        Some(x) => {
            v.push(x.clone());
        },
        None => {},
    }
    match &s.tts {
        Some(x) => {
            v.push(x.clone());
        },
        None => {},
    }
    match &s.llm {
        Some(x) => {
            v.push(x.clone());
        },
        None => {},
    }
    assert(v@ =~= actives_of(*s));
    v
}

/// The containers among some active backends.
pub open spec fn active_containers(v: Seq<ActiveBackend>) -> Seq<Seq<char>>
    decreases v.len(),
{
    if v.len() == 0 {
        Seq::empty()
    } else if v.last().container@.len() == 0 {
        active_containers(v.drop_last())
    } else {
        crate::registry::with_new(active_containers(v.drop_last()), v.last().container@)
    }
}

/// The containers among active backends are those that one of them names.
pub proof fn lemma_active_containers(v: Seq<ActiveBackend>, x: Seq<char>)
    ensures
        active_containers(v).contains(x) <==> (x.len() > 0 && exists|i: int|
            0 <= i < v.len() && (#[trigger] v[i]).container@ == x),
    decreases v.len(),
{
    if v.len() > 0 {
        let t = v.drop_last();
        lemma_active_containers(t, x);
        if exists|i: int| 0 <= i < t.len() && (#[trigger] t[i]).container@ == x {
            let i = choose|i: int| 0 <= i < t.len() && (#[trigger] t[i]).container@ == x;
            assert(v[i] == t[i]);
        }
        if exists|i: int| 0 <= i < v.len() && (#[trigger] v[i]).container@ == x {
            let i = choose|i: int| 0 <= i < v.len() && (#[trigger] v[i]).container@ == x;
            if i < t.len() {
                assert(t[i] == v[i]);
            }
        }
        let c = v.last().container@;
        assert(v[v.len() - 1].container@ == c);
        lemma_with_new(active_containers(t), c, x);
    }
}

/// The containers that a state of the controller stands on.
pub fn state_containers(s: &ControllerState) -> (r: Vec<String>)
    ensures
        text::views(r@) == active_containers(actives_of(*s)),
{
    let v: Vec<ActiveBackend> = active_backends(s);
    let mut found: Vec<String> = Vec::new();
    let mut i: usize = 0;
    assert(v@.take(0) =~= Seq::empty());
    assert(text::views(found@) =~= Seq::empty());
    while i < v.len()
        invariant
            i <= v.len(),
            text::views(found@) == active_containers(v@.take(i as int)),
        decreases v.len() - i,
    {
        let ghost t = v@.take(i + 1);
        assert(t.drop_last() =~= v@.take(i as int));
        if !v[i].container.as_str().is_empty() {
            push_new(&mut found, v[i].container.as_str());
        }
        i += 1;
    }
    assert(v@.take(i as int) =~= v@);
    found
}

/// The containers that a rollback stops: all of the catalog that the state to go
/// back to does not stand on.
pub fn rollback_containers(catalog: &BackendCatalog, snapshot: &ControllerState) -> (r: Vec<
    String,
>)
    ensures
        text::views(r@) == backend_containers(
            catalog.backends@,
            None,
            active_containers(actives_of(*snapshot)),
        ),
{
    let keep: Vec<String> = state_containers(snapshot);
    catalog_containers(catalog, None, &keep)
}

/// The containers of plans that were started for nothing.
pub open spec fn aborted(plans: Seq<StagePlan>, keep: Seq<Seq<char>>) -> Seq<Seq<char>>
    decreases plans.len(),
{
    if plans.len() == 0 {
        Seq::empty()
    } else {
        let before = aborted(plans.drop_last(), keep);
        match plans.last().started_container {
            Some(c) if c@.len() > 0 && !keep.contains(c@) => before.push(c@),
            _ => before,
        }
    }
}

/// The containers to stop when plans are given up: those that were started for
/// them and that the stack does not stand on.
pub fn abort_containers(plans: &Vec<StagePlan>, s: &ControllerState) -> (r: Vec<String>)
    ensures
        text::views(r@) == aborted(plans@, active_containers(actives_of(*s))),
{
    let keep: Vec<String> = state_containers(s);
    let mut found: Vec<String> = Vec::new();
    let mut i: usize = 0;
    assert(plans@.take(0) =~= Seq::empty());
    assert(text::views(found@) =~= Seq::empty());
    while i < plans.len()
        invariant
            i <= plans.len(),
            text::views(found@) == aborted(plans@.take(i as int), text::views(keep@)),
        decreases plans.len() - i,
    {
        let ghost t = plans@.take(i + 1);
        assert(t.drop_last() =~= plans@.take(i as int));
        match &plans[i].started_container {
            Some(c) => {
                proof {
                    crate::registry::lemma_lists_is_contains(keep@, c@);
                }
                if !c.as_str().is_empty() && !text::listed(&keep, c.as_str()) {
                    let ghost before = text::views(found@);
                    found.push(c.clone());
                    assert(text::views(found@) =~= before.push(c@));
                }
            },
            None => {},
        }
        i += 1;
    }
    assert(plans@.take(i as int) =~= plans@);
    found
}

/// Whether a variant has a container.
pub open spec fn has_container(vs: Seq<BackendVariant>, c: Seq<char>) -> bool {
    exists|i: int| 0 <= i < vs.len() && (#[trigger] vs[i]).container@ == c
}

proof fn lemma_variant_containers(
    vs: Seq<BackendVariant>,
    found: Seq<Seq<char>>,
    skip: Seq<Seq<char>>,
    c: Seq<char>,
)
    ensures
        variant_containers(vs, found, skip).contains(c) <==> (found.contains(c) || (c.len() > 0
            && !skip.contains(c) && has_container(vs, c))),
        found.no_duplicates() ==> variant_containers(vs, found, skip).no_duplicates(),
    decreases vs.len(),
{
    if vs.len() > 0 {
        let t = vs.drop_last();
        let x = vs.last().container@;
        lemma_variant_containers(t, found, skip, c);
        lemma_variant_containers(t, found, skip, x);
        let before = variant_containers(t, found, skip);
        assert(has_container(vs, c) <==> has_container(t, c) || x == c) by {
            if has_container(t, c) {
                let i = choose|i: int| 0 <= i < t.len() && (#[trigger] t[i]).container@ == c;
                assert(vs[i].container@ == c);
            }
            if x == c {
                assert(vs[vs.len() - 1].container@ == c);
            }
            if has_container(vs, c) && x != c {
                let i = choose|i: int| 0 <= i < vs.len() && (#[trigger] vs[i]).container@ == c;
                assert(t[i].container@ == c);
            }
        }
        lemma_with_new(before, x, c);
    }
}

proof fn lemma_with_new(v: Seq<Seq<char>>, x: Seq<char>, c: Seq<char>)
    ensures
        crate::registry::with_new(v, x).contains(c) <==> v.contains(c) || c == x,
        v.no_duplicates() ==> crate::registry::with_new(v, x).no_duplicates(),
{
    if !v.contains(x) {
        let w = v.push(x);
        assert(w.last() == x);
        assert(w.contains(x)) by {
            assert(w[v.len() as int] == x);
        }
        if v.contains(c) {
            let i = choose|i: int| 0 <= i < v.len() && v[i] == c;
            assert(w[i] == c);
        }
        if w.contains(c) && c != x {
            let i = choose|i: int| 0 <= i < w.len() && w[i] == c;
            assert(v[i] == c);
        }
    }
}

/// The containers that are found are exactly those that some backend of the stage
/// has and that are not skipped, each once.
pub proof fn law_catalog_containers(
    bs: Seq<BackendDefinition>,
    stage: Option<BackendStage>,
    skip: Seq<Seq<char>>,
    c: Seq<char>,
)
    ensures
        backend_containers(bs, stage, skip).contains(c) <==> (c.len() > 0 && !skip.contains(c)
            && exists|i: int|
            0 <= i < bs.len() && (stage is None || stage == Some(bs[i].stage))
                && #[trigger] has_container(bs[i].variants@, c)),
        backend_containers(bs, stage, skip).no_duplicates(),
    decreases bs.len(),
{
    if bs.len() > 0 {
        let t = bs.drop_last();
        law_catalog_containers(t, stage, skip, c);
        let before = backend_containers(t, stage, skip);
        lemma_variant_containers(bs.last().variants@, before, skip, c);
        let last = bs.len() - 1;
        if exists|i: int|
            0 <= i < t.len() && (stage is None || stage == Some(t[i].stage))
                && #[trigger] has_container(t[i].variants@, c) {
            let i = choose|i: int|
                0 <= i < t.len() && (stage is None || stage == Some(t[i].stage))
                    && #[trigger] has_container(t[i].variants@, c);
            assert(has_container(bs[i].variants@, c));
        }
        if (stage is None || stage == Some(bs.last().stage)) && has_container(
            bs.last().variants@,
            c,
        ) {
            assert(has_container(bs[last].variants@, c));
        }
        if exists|i: int|
            0 <= i < bs.len() && (stage is None || stage == Some(bs[i].stage))
                && #[trigger] has_container(bs[i].variants@, c) {
            let i = choose|i: int|
                0 <= i < bs.len() && (stage is None || stage == Some(bs[i].stage))
                    && #[trigger] has_container(bs[i].variants@, c);
            if i < last {
                assert(has_container(t[i].variants@, c));
            }
        }
    }
}

/// When a backend has taken over a stage with a container, no other container of
/// the stage is left running but one that belongs to the backend too.
pub proof fn law_one_backend_per_stage(
    bs: Seq<BackendDefinition>,
    stage: BackendStage,
    selected: Seq<char>,
    keep_backend_id: Seq<char>,
    running: Set<Seq<char>>,
    c: Seq<char>,
)
    requires
        running.contains(c),
        !backend_containers(
            bs,
            Some(stage),
            kept_containers(bs, keep_backend_id).push(selected),
        ).contains(c),
        c.len() > 0,
        exists|i: int|
            0 <= i < bs.len() && bs[i].stage == stage && #[trigger] has_container(
                bs[i].variants@,
                c,
            ),
    ensures
        c == selected || kept_containers(bs, keep_backend_id).contains(c),
{
    let kept = kept_containers(bs, keep_backend_id);
    law_catalog_containers(bs, Some(stage), kept.push(selected), c);
    assert(kept.push(selected).contains(c));
    let i = choose|i: int| 0 <= i < kept.push(selected).len() && kept.push(selected)[i] == c;
    if i < kept.len() {
        assert(kept[i] == c);
    }
}

// ---------------------------------------------------------------------------
// Parking
// ---------------------------------------------------------------------------

fn add_all(found: &mut Vec<String>, more: &Vec<String>)
    ensures
        text::views(final(found)@) == with_all_new(text::views(old(found)@), text::views(more@)),
{
    let ghost start = text::views(found@);
    let mut i: usize = 0;
    assert(text::views(more@).take(0) =~= Seq::empty());
    while i < more.len()
        invariant
            i <= more.len(),
            text::views(found@) == with_all_new(start, text::views(more@).take(i as int)),
        decreases more.len() - i,
    {
        let ghost t = text::views(more@).take(i + 1);
        assert(t.drop_last() =~= text::views(more@).take(i as int));
        push_new(found, more[i].as_str());
        i += 1;
    }
    assert(text::views(more@).take(i as int) =~= text::views(more@));
}

pub open spec fn with_all_new(v: Seq<Seq<char>>, more: Seq<Seq<char>>) -> Seq<Seq<char>>
    decreases more.len(),
{
    if more.len() == 0 {
        v
    } else {
        crate::registry::with_new(with_all_new(v, more.drop_last()), more.last())
    }
}

proof fn lemma_with_all_new(v: Seq<Seq<char>>, more: Seq<Seq<char>>, c: Seq<char>)
    ensures
        with_all_new(v, more).contains(c) <==> v.contains(c) || more.contains(c),
        v.no_duplicates() ==> with_all_new(v, more).no_duplicates(),
    decreases more.len(),
{
    if more.len() > 0 {
        let t = more.drop_last();
        lemma_with_all_new(v, t, c);
        lemma_with_new(with_all_new(v, t), more.last(), c);
        if t.contains(c) {
            let i = choose|i: int| 0 <= i < t.len() && t[i] == c;
            assert(more[i] == c);
        }
        if more.contains(c) && c != more.last() {
            let i = choose|i: int| 0 <= i < more.len() && more[i] == c;
            assert(t[i] == c);
        }
    }
}

/// The containers of some active backends, their siblings among them.
pub open spec fn stack_containers(c: BackendCatalog, v: Seq<ActiveBackend>) -> Seq<Seq<char>>
    decreases v.len(),
{
    if v.len() == 0 {
        Seq::empty()
    } else {
        let all = with_all_new(
            stack_containers(c, v.drop_last()),
            containers_of_backend(c, v.last().backend_id@),
        );
        if v.last().container@.len() == 0 {
            all
        } else {
            crate::registry::with_new(all, v.last().container@)
        }
    }
}

/// What to stop when the models are parked: the containers of the active stack,
/// those of the catalog, and every managed one that runs.
pub open spec fn parked_containers(
    c: BackendCatalog,
    s: ControllerState,
    running: Seq<Seq<char>>,
) -> Seq<Seq<char>> {
    with_all_new(
        with_all_new(
            stack_containers(c, actives_of(s)),
            backend_containers(c.backends@, None, Seq::empty()),
        ),
        running,
    )
}

pub fn unload_containers(catalog: &BackendCatalog, s: &ControllerState, running: &Vec<String>) -> (r:
    Vec<String>)
    ensures
        text::views(r@) == parked_containers(*catalog, *s, text::views(running@)),
{
    let v: Vec<ActiveBackend> = active_backends(s);
    let mut found: Vec<String> = Vec::new();
    let mut i: usize = 0;
    assert(v@.take(0) =~= Seq::empty());
    assert(text::views(found@) =~= Seq::empty());
    while i < v.len()
        invariant
            i <= v.len(),
            text::views(found@) == stack_containers(*catalog, v@.take(i as int)),
        decreases v.len() - i,
    {
        let ghost t = v@.take(i + 1);
        assert(t.drop_last() =~= v@.take(i as int));
        let own: Vec<String> = containers_for_backend(catalog, v[i].backend_id.as_str());
        add_all(&mut found, &own);
        if !v[i].container.as_str().is_empty() {
            push_new(&mut found, v[i].container.as_str());
        }
        i += 1;
    }
    assert(v@.take(i as int) =~= v@);
    let none: Vec<String> = Vec::new();
    assert(text::views(none@) =~= Seq::empty());
    let all: Vec<String> = catalog_containers(catalog, None, &none);
    add_all(&mut found, &all);
    add_all(&mut found, running);
    found
}

/// Parking stops every managed container that runs and every one of the catalog.
pub proof fn law_parking_is_complete(
    c: BackendCatalog,
    s: ControllerState,
    running: Seq<Seq<char>>,
    x: Seq<char>,
)
    requires
        running.contains(x) || (x.len() > 0 && exists|i: int|
            0 <= i < c.backends@.len() && #[trigger] has_container(c.backends@[i].variants@, x)),
    ensures
        parked_containers(c, s, running).contains(x),
{
    let none = Seq::<Seq<char>>::empty();
    law_catalog_containers(c.backends@, None, none, x);
    let first = stack_containers(c, actives_of(s));
    let all = backend_containers(c.backends@, None, none);
    lemma_with_all_new(first, all, x);
    lemma_with_all_new(with_all_new(first, all), running, x);
}

/// The first backend that has a container.
pub open spec fn owner(bs: Seq<BackendDefinition>, c: Seq<char>) -> Seq<char>
    decreases bs.len(),
{
    if bs.len() == 0 {
        "-"@
    } else if has_container(bs[0].variants@, c) {
        bs[0].id@
    } else {
        owner(bs.drop_first(), c)
    }
}

fn backend_has_container(b: &BackendDefinition, c: &str) -> (r: bool)
    ensures
        r == has_container(b.variants@, c@),
{
    let mut i: usize = 0;
    while i < b.variants.len()
        invariant
            i <= b.variants.len(),
            forall|j: int| 0 <= j < i ==> (#[trigger] b.variants@[j]).container@ != c@,
        decreases b.variants.len() - i,
    {
        if text::same(b.variants[i].container.as_str(), c) {
            return true;
        }
        i += 1;
    }
    false
}

/// The backend that a container belongs to, or a dash.
pub fn container_owner(catalog: &BackendCatalog, container: &str) -> (r: String)
    ensures
        r@ == owner(catalog.backends@, container@),
{
    let mut i: usize = 0;
    assert(catalog.backends@.skip(0) =~= catalog.backends@);
    while i < catalog.backends.len()
        invariant
            i <= catalog.backends.len(),
            owner(catalog.backends@, container@) == owner(
                catalog.backends@.skip(i as int),
                container@,
            ),
        decreases catalog.backends.len() - i,
    {
        assert(catalog.backends@.skip(i as int)[0] == catalog.backends@[i as int]);
        if backend_has_container(&catalog.backends[i], container) {
            return catalog.backends[i].id.clone();
        }
        assert(catalog.backends@.skip(i as int).drop_first() =~= catalog.backends@.skip(i + 1));
        i += 1;
    }
    String::from_str("-")
}

/// Whether an active backend is a process that the host agent starts.
pub open spec fn is_managed_host(c: BackendCatalog, a: ActiveBackend) -> bool {
    match crate::registry::backend_index(c.backends@, a.backend_id@) {
        Some(i) => match crate::bring_up::variant_index(
            c.backends@[i].variants@,
            a.variant_id@,
        ) {
            Some(k) => c.backends@[i].variants@[k].host_profile@.len() > 0,
            None => false,
        },
        None => false,
    }
}

pub fn managed_by_host(catalog: &BackendCatalog, a: &ActiveBackend) -> (r: bool)
    ensures
        r == is_managed_host(*catalog, *a),
{
    match catalog.find(a.backend_id.as_str()) {
        Some(b) => match find_variant(b, a.variant_id.as_str()) {
            Some(k) => !b.variants[k].host_profile.as_str().is_empty(),
            None => false,
        },
        None => false,
    }
}

/// The containers of which one is to be started when a parked backend is loaded
/// again: its own, or else those of its siblings unless the host agent runs it.
pub fn reload_candidates(catalog: &BackendCatalog, a: &ActiveBackend) -> (r: Vec<String>)
    ensures
        text::views(r@) == if a.container@.len() > 0 {
            seq![a.container@]
        } else if is_managed_host(*catalog, *a) {
            Seq::empty()
        } else {
            containers_of_backend(*catalog, a.backend_id@)
        },
{
    if !a.container.as_str().is_empty() {
        let mut v: Vec<String> = Vec::new();
        v.push(a.container.clone());
        assert(text::views(v@) =~= seq![a.container@]);
        return v;
    }
    if managed_by_host(catalog, a) {
        let v: Vec<String> = Vec::new();
        assert(text::views(v@) =~= Seq::empty());
        return v;
    }
    containers_for_backend(catalog, a.backend_id.as_str())
}

/// What is active is what the stages have, recognition first.
pub proof fn law_actives(s: ControllerState, a: ActiveBackend)
    ensures
        actives_of(s).contains(a) <==> s.asr == Some(a) || s.tts == Some(a) || s.llm == Some(a),
        s.asr is Some ==> actives_of(s)[0] == s.asr.unwrap(),
        s.asr is Some && s.tts is Some ==> actives_of(s)[1] == s.tts.unwrap(),
{
    let v = actives_of(s);
    if s.asr is Some {
        assert(v[0] == s.asr.unwrap());
        if s.tts is Some {
            assert(v[1] == s.tts.unwrap());
            if s.llm is Some {
                assert(v[2] == s.llm.unwrap());
            }
        } else if s.llm is Some {
            assert(v[1] == s.llm.unwrap());
        }
    } else if s.tts is Some {
        assert(v[0] == s.tts.unwrap());
        if s.llm is Some {
            assert(v[1] == s.llm.unwrap());
        }
    } else if s.llm is Some {
        assert(v[0] == s.llm.unwrap());
    }
}

/// An activation that is given up stops the containers that it started, and none that
/// the stack still uses.
pub proof fn law_given_up_containers(plans: Seq<StagePlan>, keep: Seq<Seq<char>>, x: Seq<char>)
    ensures
        aborted(plans, keep).contains(x) <==> x.len() > 0 && !keep.contains(x) && exists|i: int|
            0 <= i < plans.len() && (#[trigger] plans[i]).started_container is Some
                && plans[i].started_container.unwrap()@ == x,
    decreases plans.len(),
{
    if plans.len() > 0 {
        let t = plans.drop_last();
        law_given_up_containers(t, keep, x);
        let all = aborted(plans, keep);
        let before = aborted(t, keep);
        assert(plans[plans.len() - 1] == plans.last());
        if all.contains(x) {
            let k = choose|k: int| 0 <= k < all.len() && all[k] == x;
            if k < before.len() {
                assert(before[k] == x);
                let i = choose|i: int|
                    0 <= i < t.len() && (#[trigger] t[i]).started_container is Some
                        && t[i].started_container.unwrap()@ == x;
                assert(plans[i] == t[i]);
            }
        }
        if x.len() > 0 && !keep.contains(x) && exists|i: int|
            0 <= i < plans.len() && (#[trigger] plans[i]).started_container is Some
                && plans[i].started_container.unwrap()@ == x {
            let i = choose|i: int|
                0 <= i < plans.len() && (#[trigger] plans[i]).started_container is Some
                    && plans[i].started_container.unwrap()@ == x;
            if i < t.len() {
                assert(t[i] == plans[i]);
                let k = choose|k: int| 0 <= k < before.len() && before[k] == x;
                assert(all[k] == x);
            } else {
                assert(all[all.len() - 1] == x);
            }
        }
    }
}

/// The containers that the stack uses are those of its active backends.
pub proof fn law_used_containers(v: Seq<ActiveBackend>, x: Seq<char>)
    ensures
        active_containers(v).contains(x) <==> x.len() > 0 && exists|i: int|
            0 <= i < v.len() && (#[trigger] v[i]).container@ == x,
    decreases v.len(),
{
    if v.len() > 0 {
        let t = v.drop_last();
        law_used_containers(t, x);
        let all = active_containers(v);
        let before = active_containers(t);
        let last = v.last().container@;
        assert(v[v.len() - 1] == v.last());
        if all.contains(x) {
            let k = choose|k: int| 0 <= k < all.len() && all[k] == x;
            if k < before.len() {
                assert(before[k] == x);
                let i = choose|i: int| 0 <= i < t.len() && (#[trigger] t[i]).container@ == x;
                assert(v[i] == t[i]);
            }
        }
        if x.len() > 0 && exists|i: int| 0 <= i < v.len() && (#[trigger] v[i]).container@ == x {
            let i = choose|i: int| 0 <= i < v.len() && (#[trigger] v[i]).container@ == x;
            if i < t.len() {
                assert(t[i] == v[i]);
            }
            if before.contains(x) {
                let k = choose|k: int| 0 <= k < before.len() && before[k] == x;
                assert(all[k] == x);
            } else {
                assert(last == x);
                assert(all[all.len() - 1] == x);
            }
        }
    }
}

/// A container belongs to the first backend that has it, and one that none has is
/// shown without an owner.
pub proof fn law_owner(bs: Seq<BackendDefinition>, c: Seq<char>, k: int)
    ensures
        0 <= k < bs.len() && has_container(bs[k].variants@, c) && (forall|i: int|
            0 <= i < k ==> !has_container((#[trigger] bs[i]).variants@, c)) ==> owner(bs, c)
            == bs[k].id@,
        (forall|i: int| 0 <= i < bs.len() ==> !has_container((#[trigger] bs[i]).variants@, c))
            ==> owner(bs, c) == "-"@,
    decreases bs.len(),
{
    if bs.len() > 0 && !has_container(bs[0].variants@, c) {
        let t = bs.drop_first();
        law_owner(t, c, k - 1);
        assert(forall|i: int| 0 <= i < t.len() ==> #[trigger] t[i] == bs[i + 1]);
        if 0 < k < bs.len() {
            assert(t[k - 1] == bs[k]);
        }
    }
}

/// The containers of a stack are those that its backends run in and all those of these
/// backends, each once.
pub proof fn law_containers_of_a_stack(c: BackendCatalog, v: Seq<ActiveBackend>, x: Seq<char>)
    ensures
        stack_containers(c, v).contains(x) <==> exists|i: int|
            0 <= i < v.len() && ((x.len() > 0 && (#[trigger] v[i]).container@ == x)
                || containers_of_backend(c, v[i].backend_id@).contains(x)),
        stack_containers(c, v).no_duplicates(),
    decreases v.len(),
{
    if v.len() > 0 {
        let t = v.drop_last();
        law_containers_of_a_stack(c, t, x);
        let more = containers_of_backend(c, v.last().backend_id@);
        let all = with_all_new(stack_containers(c, t), more);
        lemma_with_all_new(stack_containers(c, t), more, x);
        lemma_with_new(all, v.last().container@, x);
        assert(forall|i: int| 0 <= i < t.len() ==> #[trigger] t[i] == v[i]);
        if stack_containers(c, t).contains(x) {
            let i = choose|i: int|
                0 <= i < t.len() && ((x.len() > 0 && (#[trigger] t[i]).container@ == x)
                    || containers_of_backend(c, t[i].backend_id@).contains(x));
            assert(v[i] == t[i]);
        }
        assert(v[v.len() - 1] == v.last());
        if exists|i: int|
            0 <= i < v.len() && ((x.len() > 0 && (#[trigger] v[i]).container@ == x)
                || containers_of_backend(c, v[i].backend_id@).contains(x)) {
            let i = choose|i: int|
                0 <= i < v.len() && ((x.len() > 0 && (#[trigger] v[i]).container@ == x)
                    || containers_of_backend(c, v[i].backend_id@).contains(x));
            if i < t.len() {
                assert(t[i] == v[i]);
            }
        }
    }
}

/// The containers that are kept for a backend are those of all backends with its id.
pub proof fn law_kept_containers(bs: Seq<BackendDefinition>, id: Seq<char>, x: Seq<char>)
    ensures
        kept_containers(bs, id).contains(x) <==> x.len() > 0 && exists|i: int|
            0 <= i < bs.len() && (#[trigger] bs[i]).id@ == id && has_container(bs[i].variants@, x),
    decreases bs.len(),
{
    if bs.len() > 0 {
        let t = bs.drop_last();
        law_kept_containers(t, id, x);
        lemma_variant_containers(
            bs.last().variants@,
            kept_containers(t, id),
            Seq::empty(),
            x,
        );
        assert(forall|i: int| 0 <= i < t.len() ==> #[trigger] t[i] == bs[i]);
        assert(bs[bs.len() - 1] == bs.last());
        if kept_containers(t, id).contains(x) {
            let i = choose|i: int|
                0 <= i < t.len() && (#[trigger] t[i]).id@ == id && has_container(t[i].variants@, x);
            assert(bs[i] == t[i]);
        }
        if exists|i: int|
            0 <= i < bs.len() && (#[trigger] bs[i]).id@ == id && has_container(bs[i].variants@, x) {
            let i = choose|i: int|
                0 <= i < bs.len() && (#[trigger] bs[i]).id@ == id && has_container(
                    bs[i].variants@,
                    x,
                );
            if i < t.len() {
                assert(t[i] == bs[i]);
            }
        }
    }
}

} // verus!
