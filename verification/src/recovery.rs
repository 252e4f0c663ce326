//! Bringing back what ran: restoring the stack after a failed activation, and
//! loading parked models again.

use crate::bring_up::{find_variant, Reply, ReplyView};
use crate::containers::{active_backends, managed_by_host, reload_candidates};
use crate::lab::{ActiveBackend, ControllerState};
use crate::registry::{push_new, wrap, BackendCatalog, BackendDefinition, BackendVariant};
use crate::text;
use vstd::prelude::*;

verus! {

// ---------------------------------------------------------------------------
// Restoring
// ---------------------------------------------------------------------------

/// How a backend of the previous stack is restored.
#[derive(Debug, Clone, Copy, PartialEq, Eq, Structural)]
pub enum RestoreKind {
    /// It cannot be looked up.
    Missing,
    /// Nothing is to be done for it.
    Untouched,
    /// The host agent starts it.
    Host,
    Container,
}

#[derive(Debug)]
pub struct RestoreItem {
    pub kind: RestoreKind,
    pub active: ActiveBackend,
    /// Why it cannot be looked up.
    pub fault: String,
}

pub open spec fn missing(c: BackendCatalog, a: ActiveBackend) -> Option<Seq<char>> {
    match crate::registry::backend_index(c.backends@, a.backend_id@) {
        None => Some("rollback backend '"@ + a.backend_id@ + "' missing"@),
        Some(i) => match crate::bring_up::variant_index(
            c.backends@[i].variants@,
            a.variant_id@,
        ) {
            None => Some("rollback variant '"@ + a.variant_id@ + "' missing"@),
            Some(_) => None,
        },
    }
}

pub open spec fn restore_kind(c: BackendCatalog, a: ActiveBackend, docker: bool) -> RestoreKind {
    if missing(c, a) is Some {
        RestoreKind::Missing
    } else if a.container@.len() == 0 {
        if crate::containers::is_managed_host(c, a) {
            RestoreKind::Host
        } else {
            RestoreKind::Untouched
        }
    } else if docker {
        RestoreKind::Container
    } else {
        RestoreKind::Untouched
    }
}

pub open spec fn is_restore_item(
    item: RestoreItem,
    c: BackendCatalog,
    a: ActiveBackend,
    docker: bool,
) -> bool {
    &&& item.active == a
    &&& item.kind == restore_kind(c, a, docker)
    &&& missing(c, a) matches Some(m) ==> item.fault@ == m
}

/// What is to be done to restore a state of the controller.
pub fn restore_items(catalog: &BackendCatalog, snapshot: &ControllerState, docker: bool) -> (r: Vec<
    RestoreItem,
>)
    ensures
        r.len() == crate::containers::actives_of(*snapshot).len(),
        forall|i: int|
            0 <= i < r.len() ==> is_restore_item(
                #[trigger] r@[i],
                *catalog,
                crate::containers::actives_of(*snapshot)[i],
                docker,
            ),
{
    let v: Vec<ActiveBackend> = active_backends(snapshot);
    let mut items: Vec<RestoreItem> = Vec::new();
    let mut i: usize = 0;
    while i < v.len()
        invariant
            i <= v.len(),
            items.len() == i,
            forall|j: int|
                0 <= j < i ==> is_restore_item(#[trigger] items@[j], *catalog, v@[j], docker),
        decreases v.len() - i,
    {
        let a: &ActiveBackend = &v[i];
        let fault: Option<String> = match catalog.find(a.backend_id.as_str()) {
            None => Some(wrap("rollback backend '", a.backend_id.as_str(), "' missing")),
            Some(b) => match find_variant(b, a.variant_id.as_str()) {
                None => Some(wrap("rollback variant '", a.variant_id.as_str(), "' missing")),
                Some(_) => None,
            },
        };
        let (kind, fault): (RestoreKind, String) = match fault {
            Some(m) => (RestoreKind::Missing, m),
            None => {
                let kind: RestoreKind = if a.container.as_str().is_empty() {
                    if managed_by_host(catalog, a) {
                        RestoreKind::Host
                    } else {
                        RestoreKind::Untouched
                    }
                } else if docker {
                    RestoreKind::Container
                } else {
                    RestoreKind::Untouched
                };
                (kind, String::new())
            },
        };
        items.push(RestoreItem { kind, active: a.clone(), fault });
        i += 1;
    }
    items
}

/// What is to be done next.
#[derive(Debug, Clone, Copy, PartialEq, Eq, Structural)]
pub enum RestorePhase {
    StartingHost,
    ProbingHost,
    WarmingHost,
    /// Check the container against the catalog.
    Checking,
    StartingContainer,
    ProbingContainer,
    WarmingContainer,
    Done,
    Failed,
}

pub struct RestoreProgress {
    pub phase: RestorePhase,
    pub pos: int,
    pub error: Option<Seq<char>>,
}

pub open spec fn restore_turned(items: Seq<RestoreItem>, pos: int) -> RestoreProgress
    decreases items.len() - pos,
{
    if pos < 0 || pos >= items.len() {
        RestoreProgress { phase: RestorePhase::Done, pos, error: None }
    } else {
        match items[pos].kind {
            RestoreKind::Missing => RestoreProgress {
                phase: RestorePhase::Failed,
                pos,
                error: Some(items[pos].fault@),
            },
            RestoreKind::Untouched => restore_turned(items, pos + 1),
            RestoreKind::Host => RestoreProgress {
                phase: RestorePhase::StartingHost,
                pos,
                error: None,
            },
            RestoreKind::Container => RestoreProgress {
                phase: RestorePhase::Checking,
                pos,
                error: None,
            },
        }
    }
}

/// What a failing step is called in the error, and for which thing.
pub open spec fn restore_context(phase: RestorePhase, a: ActiveBackend) -> Seq<char> {
    match phase {
        RestorePhase::StartingHost => "restore host backend "@ + a.backend_id@ + ": "@,
        RestorePhase::ProbingHost => "rollback host health for "@ + a.backend_id@ + ": "@,
        RestorePhase::WarmingHost => "rollback host warmup for "@ + a.backend_id@ + ": "@,
        RestorePhase::StartingContainer => "restore managed container "@ + a.container@ + ": "@,
        RestorePhase::ProbingContainer => "rollback health for "@ + a.backend_id@ + ": "@,
        RestorePhase::WarmingContainer => "rollback warmup for "@ + a.backend_id@ + ": "@,
        _ => Seq::empty(),
    }
}

pub open spec fn restore_stepped(
    items: Seq<RestoreItem>,
    p: RestoreProgress,
    r: ReplyView,
) -> RestoreProgress {
    if p.phase == RestorePhase::Done || p.phase == RestorePhase::Failed {
        p
    } else {
        match r {
            ReplyView::Failed(m) => RestoreProgress {
                phase: RestorePhase::Failed,
                error: Some(restore_context(p.phase, items[p.pos].active) + m),
                ..p
            },
            ReplyView::Done => match p.phase {
                RestorePhase::StartingHost => RestoreProgress {
                    phase: RestorePhase::ProbingHost,
                    ..p
                },
                RestorePhase::ProbingHost => RestoreProgress {
                    phase: RestorePhase::WarmingHost,
                    ..p
                },
                RestorePhase::Checking => RestoreProgress {
                    phase: RestorePhase::StartingContainer,
                    ..p
                },
                RestorePhase::StartingContainer => RestoreProgress {
                    phase: RestorePhase::ProbingContainer,
                    ..p
                },
                RestorePhase::ProbingContainer => RestoreProgress {
                    phase: RestorePhase::WarmingContainer,
                    ..p
                },
                _ => restore_turned(items, p.pos + 1),
            },
        }
    }
}

/// Restoring in progress. The caller does what the phase says for the current item
/// and hands the reply to [`Restore::step`].
#[derive(Debug)]
pub struct Restore {
    pub items: Vec<RestoreItem>,
    pub phase: RestorePhase,
    pub pos: usize,
    pub error: Option<String>,
}

impl Restore {
    pub open spec fn progress(self) -> RestoreProgress {
        RestoreProgress {
            phase: self.phase,
            pos: self.pos as int,
            error: crate::registry::opt_view(self.error),
        }
    }

    pub open spec fn wf(self) -> bool {
        &&& self.phase == RestorePhase::Done || self.phase == RestorePhase::Failed || self.pos
            < self.items@.len()
        &&& self.phase != RestorePhase::Failed ==> self.error is None
    }

    pub fn new(items: Vec<RestoreItem>) -> (r: Restore)
        ensures
            r.wf(),
            r.items == items,
            r.progress() == restore_turned(items@, 0),
    {
        let mut m: Restore = Restore { items, phase: RestorePhase::Done, pos: 0, error: None };
        m.turn_to(0);
        m
    }

    fn turn_to(&mut self, from: usize)
        requires
            from <= old(self).items@.len(),
            old(self).error is None,
        ensures
            final(self).wf(),
            final(self).items == old(self).items,
            final(self).progress() == restore_turned(old(self).items@, from as int),
    {
        let mut pos: usize = from;
        while pos < self.items.len() && self.items[pos].kind == RestoreKind::Untouched
            invariant
                from <= pos <= self.items@.len(),
                self.error is None,
                self.items == old(self).items,
                restore_turned(self.items@, from as int) == restore_turned(
                    self.items@,
                    pos as int,
                ),
            decreases self.items@.len() - pos,
        {
            pos += 1;
        }
        self.pos = pos;
        if pos >= self.items.len() {
            self.phase = RestorePhase::Done;
            return ;
        }
        match self.items[pos].kind {
            RestoreKind::Missing => {
                self.error = Some(self.items[pos].fault.clone());
                self.phase = RestorePhase::Failed;
            },
            RestoreKind::Host => {
                self.phase = RestorePhase::StartingHost;
            },
            RestoreKind::Container => {
                self.phase = RestorePhase::Checking;
            },
            RestoreKind::Untouched => {},
        }
    }

    fn context(&self) -> (r: String)
        requires
            self.pos < self.items@.len(),
        ensures
            r@ == restore_context(self.phase, self.items@[self.pos as int].active),
    {
        let a: &ActiveBackend = &self.items[self.pos].active;
        match self.phase {
            RestorePhase::StartingHost => wrap("restore host backend ", a.backend_id.as_str(), ": "),
            RestorePhase::ProbingHost => wrap(
                "rollback host health for ",
                a.backend_id.as_str(),
                ": ",
            ),
            RestorePhase::WarmingHost => wrap(
                "rollback host warmup for ",
                a.backend_id.as_str(),
                ": ",
            ),
            RestorePhase::StartingContainer => wrap(
                "restore managed container ",
                a.container.as_str(),
                ": ",
            ),
            RestorePhase::ProbingContainer => wrap(
                "rollback health for ",
                a.backend_id.as_str(),
                ": ",
            ),
            RestorePhase::WarmingContainer => wrap(
                "rollback warmup for ",
                a.backend_id.as_str(),
                ": ",
            ),
            _ => String::new(),
        }
    }

    pub fn step(&mut self, reply: Reply)
        requires
            old(self).wf(),
        ensures
            final(self).wf(),
            final(self).items == old(self).items,
            final(self).progress() == restore_stepped(
                old(self).items@,
                old(self).progress(),
                reply@,
            ),
    {
        if self.phase == RestorePhase::Done || self.phase == RestorePhase::Failed {
            return ;
        }
        match reply {
            Reply::Failed(m) => {
                let mut e: String = self.context();
                e.append(m.as_str());
                self.error = Some(e);
                self.phase = RestorePhase::Failed;
            },
            Reply::Done => match self.phase {
                RestorePhase::StartingHost => {
                    self.phase = RestorePhase::ProbingHost;
                },
                RestorePhase::ProbingHost => {
                    self.phase = RestorePhase::WarmingHost;
                },
                RestorePhase::Checking => {
                    self.phase = RestorePhase::StartingContainer;
                },
                RestorePhase::StartingContainer => {
                    self.phase = RestorePhase::ProbingContainer;
                },
                RestorePhase::ProbingContainer => {
                    self.phase = RestorePhase::WarmingContainer;
                },
                _ => {
                    assert(self.pos < self.items.len());
                    self.turn_to(self.pos + 1);
                },
            },
        }
    }
}

proof fn lemma_restore_turned(items: Seq<RestoreItem>, pos: int)
    requires
        0 <= pos <= items.len(),
    ensures
        ({
            let p = restore_turned(items, pos);
            &&& pos <= p.pos <= items.len()
            &&& p.phase == RestorePhase::Done ==> p.pos == items.len()
            &&& p.phase == RestorePhase::Done || p.phase == RestorePhase::Failed || p.phase
                == RestorePhase::StartingHost || p.phase == RestorePhase::Checking
            &&& p.phase == RestorePhase::StartingHost ==> p.pos < items.len() && items[p.pos].kind
                == RestoreKind::Host
            &&& p.phase == RestorePhase::Checking ==> p.pos < items.len() && items[p.pos].kind
                == RestoreKind::Container
            &&& forall|i: int|
                pos <= i < p.pos ==> (#[trigger] items[i]).kind == RestoreKind::Untouched
        }),
    decreases items.len() - pos,
{
    if pos < items.len() && items[pos].kind == RestoreKind::Untouched {
        lemma_restore_turned(items, pos + 1);
    }
}

/// The progress after a series of replies, and which items were warmed by then.
pub open spec fn restore_after(items: Seq<RestoreItem>, replies: Seq<ReplyView>) -> (
    RestoreProgress,
    Set<int>,
)
    decreases replies.len(),
{
    if replies.len() == 0 {
        (restore_turned(items, 0), Set::empty())
    } else {
        let (p, w) = restore_after(items, replies.drop_last());
        (
            restore_stepped(items, p, replies.last()),
            if replies.last() is Done && (p.phase == RestorePhase::WarmingHost || p.phase
                == RestorePhase::WarmingContainer) {
                w.insert(p.pos)
            } else {
                w
            },
        )
    }
}

pub open spec fn restore_sound(items: Seq<RestoreItem>, p: RestoreProgress, w: Set<int>) -> bool {
    &&& 0 <= p.pos <= items.len()
    &&& p.phase == RestorePhase::Done ==> p.pos == items.len()
    &&& p.phase != RestorePhase::Done ==> p.pos < items.len()
    &&& p.phase != RestorePhase::Done && p.phase != RestorePhase::Failed ==> items[p.pos].kind
        == RestoreKind::Host || items[p.pos].kind == RestoreKind::Container
    &&& p.phase != RestorePhase::Failed ==> forall|i: int|
        0 <= i < p.pos ==> (#[trigger] items[i]).kind != RestoreKind::Missing && (items[i].kind
            != RestoreKind::Untouched ==> w.contains(i))
}

proof fn lemma_restore_after(items: Seq<RestoreItem>, replies: Seq<ReplyView>)
    ensures
        ({
            let (p, w) = restore_after(items, replies);
            restore_sound(items, p, w)
        }),
    decreases replies.len(),
{
    if replies.len() == 0 {
        lemma_restore_turned(items, 0);
        lemma_restore_stops_inside(items, 0);
    } else {
        lemma_restore_after(items, replies.drop_last());
        let (p, w) = restore_after(items, replies.drop_last());
        if p.phase != RestorePhase::Done && p.phase != RestorePhase::Failed {
            lemma_restore_turned(items, p.pos + 1);
            lemma_restore_stops_inside(items, p.pos + 1);
        }
    }
}

proof fn lemma_restore_stops_inside(items: Seq<RestoreItem>, pos: int)
    requires
        0 <= pos <= items.len(),
    ensures
        restore_turned(items, pos).phase != RestorePhase::Done ==> restore_turned(items, pos).pos
            < items.len(),
    decreases items.len() - pos,
{
    if pos < items.len() && items[pos].kind == RestoreKind::Untouched {
        lemma_restore_stops_inside(items, pos + 1);
    }
}

/// A stack counts as restored only when each of its backends that had to be
/// started was started, probed and warmed.
pub proof fn law_restored_is_warm(items: Seq<RestoreItem>, replies: Seq<ReplyView>)
    ensures
        ({
            let (p, w) = restore_after(items, replies);
            p.phase == RestorePhase::Done ==> forall|i: int|
                0 <= i < items.len() ==> (#[trigger] items[i]).kind != RestoreKind::Missing && (
                items[i].kind != RestoreKind::Untouched ==> w.contains(i))
        }),
{
    lemma_restore_after(items, replies);
}

/// Which containers run once a rollback has stopped all that it stops and the items
/// that were warmed have been started.
pub open spec fn running_after_rollback(
    c: BackendCatalog,
    s: ControllerState,
    items: Seq<RestoreItem>,
    warmed: Set<int>,
    running: Set<Seq<char>>,
    x: Seq<char>,
) -> bool {
    let keep = crate::containers::active_containers(crate::containers::actives_of(s));
    ||| running.contains(x) && !crate::containers::backend_containers(
        c.backends@,
        None,
        keep,
    ).contains(x)
    ||| exists|i: int|
        0 <= i < items.len() && (#[trigger] items[i]).kind == RestoreKind::Container
            && warmed.contains(i) && items[i].active.container@ == x
}

/// A rollback that is done, and whose stops all worked, leaves exactly the
/// containers of the previous stack running among those of the catalog, and touches
/// no other.
pub proof fn law_rollback_leaves_the_stack(
    c: BackendCatalog,
    s: ControllerState,
    items: Seq<RestoreItem>,
    replies: Seq<ReplyView>,
    running: Set<Seq<char>>,
    x: Seq<char>,
)
    requires
        items.len() == crate::containers::actives_of(s).len(),
        forall|i: int|
            0 <= i < items.len() ==> is_restore_item(
                #[trigger] items[i],
                c,
                crate::containers::actives_of(s)[i],
                true,
            ),
        restore_after(items, replies).0.phase == RestorePhase::Done,
    ensures
        ({
            let actives = crate::containers::actives_of(s);
            let in_stack = x.len() > 0 && exists|i: int|
                0 <= i < actives.len() && (#[trigger] actives[i]).container@ == x;
            let in_catalog = x.len() > 0 && exists|i: int|
                0 <= i < c.backends@.len() && #[trigger] crate::containers::has_container(
                    c.backends@[i].variants@,
                    x,
                );
            running_after_rollback(c, s, items, restore_after(items, replies).1, running, x)
                == if in_stack {
                true
            } else if in_catalog {
                false
            } else {
                running.contains(x)
            }
        }),
{
    let actives = crate::containers::actives_of(s);
    let keep = crate::containers::active_containers(actives);
    law_restored_is_warm(items, replies);
    crate::containers::lemma_active_containers(actives, x);
    crate::containers::law_catalog_containers(c.backends@, None, keep, x);
    let warmed = restore_after(items, replies).1;
    if x.len() > 0 && exists|i: int|
        0 <= i < actives.len() && (#[trigger] actives[i]).container@ == x {
        let i = choose|i: int| 0 <= i < actives.len() && (#[trigger] actives[i]).container@ == x;
        assert(is_restore_item(items[i], c, actives[i], true));
        assert(items[i].kind == RestoreKind::Container && warmed.contains(i));
    } else {
        assert forall|i: int|
            0 <= i < items.len() && (#[trigger] items[i]).kind
                == RestoreKind::Container implies items[i].active.container@ != x by {
            assert(is_restore_item(items[i], c, actives[i], true));
            assert(actives[i].container@ == items[i].active.container@);
        }
    }
}

// ---------------------------------------------------------------------------
// Loading parked models
// ---------------------------------------------------------------------------

/// A container that may be started for a parked backend.
#[derive(Debug)]
pub struct ReloadContainer {
    pub name: String,
    /// Whether the catalog tells how to probe it.
    pub known: bool,
}

/// A parked backend.
#[derive(Debug)]
pub struct ReloadItem {
    pub active: ActiveBackend,
    pub containers: Vec<ReloadContainer>,
    /// Whether the host agent starts it.
    pub managed_host: bool,
}

/// The first variant that is the active one or has a container.
pub open spec fn reload_variant_of(
    vs: Seq<BackendVariant>,
    variant_id: Seq<char>,
    container: Seq<char>,
) -> Option<int>
    decreases vs.len(),
{
    if vs.len() == 0 {
        None
    } else {
        match reload_variant_of(vs.drop_last(), variant_id, container) {
            Some(i) => Some(i),
            None => if vs.last().id@ == variant_id || vs.last().container@ == container {
                Some(vs.len() - 1)
            } else {
                None
            },
        }
    }
}

proof fn lemma_reload_variant(
    vs: Seq<BackendVariant>,
    variant_id: Seq<char>,
    container: Seq<char>,
    n: int,
)
    requires
        0 <= n <= vs.len(),
        forall|j: int|
            0 <= j < n ==> (#[trigger] vs[j]).id@ != variant_id && vs[j].container@ != container,
    ensures
        n == vs.len() ==> reload_variant_of(vs, variant_id, container) is None,
        n < vs.len() && (vs[n].id@ == variant_id || vs[n].container@ == container)
            ==> reload_variant_of(vs, variant_id, container) == Some(n),
    decreases vs.len(),
{
    if vs.len() > 0 {
        let t = vs.drop_last();
        if n == vs.len() {
            lemma_reload_variant(t, variant_id, container, n - 1);
        } else if n < t.len() {
            lemma_reload_variant(t, variant_id, container, n);
        } else {
            lemma_reload_variant(t, variant_id, container, n);
        }
    }
}

/// The variant by which a container of a parked backend is probed.
pub fn reload_variant(backend: &BackendDefinition, variant_id: &str, container: &str) -> (r: Option<
    usize,
>)
    ensures
        match r {
            Some(i) => reload_variant_of(backend.variants@, variant_id@, container@) == Some(
                i as int,
            ) && i < backend.variants.len(),
            None => reload_variant_of(backend.variants@, variant_id@, container@) is None,
        },
{
    let mut i: usize = 0;
    while i < backend.variants.len()
        invariant
            i <= backend.variants.len(),
            forall|j: int|
                0 <= j < i ==> (#[trigger] backend.variants@[j]).id@ != variant_id@
                    && backend.variants@[j].container@ != container@,
        decreases backend.variants.len() - i,
    {
        if text::same(backend.variants[i].id.as_str(), variant_id) || text::same(
            backend.variants[i].container.as_str(),
            container,
        ) {
            proof {
                lemma_reload_variant(backend.variants@, variant_id@, container@, i as int);
            }
            return Some(i);
        }
        i += 1;
    }
    proof {
        lemma_reload_variant(backend.variants@, variant_id@, container@, i as int);
    }
    None
}

pub open spec fn is_known(c: BackendCatalog, a: ActiveBackend, container: Seq<char>) -> bool {
    crate::registry::backend_index(c.backends@, a.backend_id@) matches Some(i)
        && reload_variant_of(c.backends@[i].variants@, a.variant_id@, container) is Some
}

/// The containers of which one is started for a parked backend.
pub open spec fn to_start(c: BackendCatalog, a: ActiveBackend) -> Seq<Seq<char>> {
    if a.container@.len() > 0 {
        seq![a.container@]
    } else if crate::containers::is_managed_host(c, a) {
        Seq::empty()
    } else {
        crate::containers::containers_of_backend(c, a.backend_id@)
    }
}

pub open spec fn is_reload_item(item: ReloadItem, c: BackendCatalog, a: ActiveBackend) -> bool {
    &&& item.active == a
    &&& item.managed_host == crate::containers::is_managed_host(c, a)
    &&& item.containers@.len() == to_start(c, a).len()
    &&& forall|k: int|
        0 <= k < item.containers@.len() ==> (#[trigger] item.containers@[k]).name@ == to_start(
            c,
            a,
        )[k] && item.containers@[k].known == is_known(c, a, to_start(c, a)[k])
}

/// A parked backend and what can be started for it.
pub fn reload_item(catalog: &BackendCatalog, a: &ActiveBackend) -> (r: ReloadItem)
    ensures
        is_reload_item(r, *catalog, *a),
{
    let names: Vec<String> = reload_candidates(catalog, a);
    let mut containers: Vec<ReloadContainer> = Vec::new();
    let mut k: usize = 0;
    while k < names.len()
        invariant
            k <= names.len(),
            containers.len() == k,
            text::views(names@) == to_start(*catalog, *a),
            forall|j: int|
                0 <= j < k ==> (#[trigger] containers@[j]).name@ == names@[j]@
                    && containers@[j].known == is_known(*catalog, *a, names@[j]@),
        decreases names.len() - k,
    {
        let known: bool = match catalog.find(a.backend_id.as_str()) {
            Some(b) => reload_variant(b, a.variant_id.as_str(), names[k].as_str()).is_some(),
            None => false,
        };
        containers.push(ReloadContainer { name: names[k].clone(), known });
        k += 1;
    }
    let managed_host: bool = managed_by_host(catalog, a);
    proof {
        assert forall|j: int| 0 <= j < containers@.len() implies (#[trigger] containers@[j]).name@
            == to_start(*catalog, *a)[j] && containers@[j].known == is_known(
            *catalog,
            *a,
            to_start(*catalog, *a)[j],
        ) by {
            assert(text::views(names@)[j] == names@[j]@);
        }
    }
    ReloadItem { active: a.clone(), containers, managed_host }
}

/// What is to be done next.
#[derive(Debug, Clone, Copy, PartialEq, Eq, Structural)]
pub enum ReloadPhase {
    /// Ask whether the container runs.
    Asking,
    StartingContainer,
    ProbingContainer,
    WarmingContainer,
    StartingHost,
    ProbingHost,
    WarmingHost,
    Done,
    Failed,
}

pub struct ReloadProgress {
    pub phase: ReloadPhase,
    pub item: int,
    pub container: int,
    /// The backends that run again.
    pub restarted: Seq<Seq<char>>,
    pub error: Option<Seq<char>>,
}

/// Turning to the backends that the host agent starts.
pub open spec fn reload_at_host(items: Seq<ReloadItem>, p: ReloadProgress, item: int) -> ReloadProgress
    decreases items.len() - item,
{
    if item < 0 || item >= items.len() {
        ReloadProgress { phase: ReloadPhase::Done, item, container: 0, ..p }
    } else if items[item].managed_host {
        ReloadProgress { phase: ReloadPhase::StartingHost, item, container: 0, ..p }
    } else {
        reload_at_host(items, p, item + 1)
    }
}

/// Turning to a container of a backend, or to the next backend if it has no more.
pub open spec fn reload_at(
    items: Seq<ReloadItem>,
    p: ReloadProgress,
    item: int,
    container: int,
) -> ReloadProgress
    decreases items.len() - item,
{
    if item < 0 || item >= items.len() {
        reload_at_host(items, p, 0)
    } else if 0 <= container < items[item].containers@.len() {
        ReloadProgress { phase: ReloadPhase::Asking, item, container, ..p }
    } else {
        reload_at(items, p, item + 1, 0)
    }
}

/// The current backend runs again.
pub open spec fn reloaded(items: Seq<ReloadItem>, p: ReloadProgress) -> ReloadProgress {
    ReloadProgress {
        restarted: crate::registry::with_new(p.restarted, items[p.item].active.backend_id@),
        ..p
    }
}

pub open spec fn reload_context(phase: ReloadPhase, a: ActiveBackend) -> Seq<char> {
    match phase {
        ReloadPhase::StartingHost => "reload host backend "@ + a.backend_id@ + ": "@,
        ReloadPhase::ProbingHost => "reload host health "@ + a.backend_id@ + ": "@,
        _ => "reload host warmup "@ + a.backend_id@ + ": "@,
    }
}

pub open spec fn reload_stepped(
    items: Seq<ReloadItem>,
    p: ReloadProgress,
    r: ReplyView,
) -> ReloadProgress {
    match (p.phase, r) {
        (ReloadPhase::Asking, ReplyView::Done) => reload_at(
            items,
            reloaded(items, p),
            p.item,
            p.container + 1,
        ),
        (ReloadPhase::Asking, ReplyView::Failed(_)) => ReloadProgress {
            phase: ReloadPhase::StartingContainer,
            ..p
        },
        (ReloadPhase::StartingContainer, ReplyView::Done) => if items[p.item].containers@[
            p.container
        ].known {
            ReloadProgress { phase: ReloadPhase::ProbingContainer, ..p }
        } else {
            reload_at(items, reloaded(items, p), p.item + 1, 0)
        },
        (ReloadPhase::StartingContainer, ReplyView::Failed(_)) => reload_at(
            items,
            p,
            p.item,
            p.container + 1,
        ),
        (ReloadPhase::ProbingContainer, ReplyView::Done) => ReloadProgress {
            phase: ReloadPhase::WarmingContainer,
            ..p
        },
        (ReloadPhase::ProbingContainer, ReplyView::Failed(_)) => reload_at(
            items,
            reloaded(items, p),
            p.item + 1,
            0,
        ),
        (ReloadPhase::WarmingContainer, _) => reload_at(items, reloaded(items, p), p.item + 1, 0),
        (ReloadPhase::StartingHost, ReplyView::Done) => ReloadProgress {
            phase: ReloadPhase::ProbingHost,
            ..p
        },
        (ReloadPhase::ProbingHost, ReplyView::Done) => ReloadProgress {
            phase: ReloadPhase::WarmingHost,
            ..p
        },
        (ReloadPhase::WarmingHost, ReplyView::Done) => reload_at_host(
            items,
            reloaded(items, p),
            p.item + 1,
        ),
        (
            ReloadPhase::StartingHost | ReloadPhase::ProbingHost | ReloadPhase::WarmingHost,
            ReplyView::Failed(m),
        ) => ReloadProgress {
            phase: ReloadPhase::Failed,
            error: Some(reload_context(p.phase, items[p.item].active) + m),
            ..p
        },
        (ReloadPhase::Done | ReloadPhase::Failed, _) => p,
    }
}

pub open spec fn reload_start(items: Seq<ReloadItem>, docker: bool) -> ReloadProgress {
    let p = ReloadProgress {
        phase: ReloadPhase::Done,
        item: 0,
        container: 0,
        restarted: Seq::empty(),
        error: None,
    };
    if docker {
        reload_at(items, p, 0, 0)
    } else {
        reload_at_host(items, p, 0)
    }
}

/// Loading parked models in progress. A container whose health or warmup fails
/// still counts as running again; the host agent has to succeed.
#[derive(Debug)]
pub struct Reload {
    pub items: Vec<ReloadItem>,
    pub phase: ReloadPhase,
    pub item: usize,
    pub container: usize,
    pub restarted: Vec<String>,
    pub error: Option<String>,
}

pub open spec fn is_reload_container_phase(phase: ReloadPhase) -> bool {
    phase == ReloadPhase::Asking || phase == ReloadPhase::StartingContainer || phase
        == ReloadPhase::ProbingContainer || phase == ReloadPhase::WarmingContainer
}

impl Reload {
    pub open spec fn progress(self) -> ReloadProgress {
        ReloadProgress {
            phase: self.phase,
            item: self.item as int,
            container: self.container as int,
            restarted: text::views(self.restarted@),
            error: crate::registry::opt_view(self.error),
        }
    }

    pub open spec fn wf(self) -> bool {
        &&& self.phase == ReloadPhase::Done || self.phase == ReloadPhase::Failed || self.item
            < self.items@.len()
        &&& is_reload_container_phase(self.phase) ==> self.container
            < self.items@[self.item as int].containers@.len()
    }

    pub fn new(items: Vec<ReloadItem>, docker: bool) -> (r: Reload)
        ensures
            r.wf(),
            r.items == items,
            r.progress() == reload_start(items@, docker),
    {
        let mut m: Reload = Reload {
            items,
            phase: ReloadPhase::Done,
            item: 0,
            container: 0,
            restarted: Vec::new(),
            error: None,
        };
        assert(text::views(m.restarted@) =~= Seq::empty());
        if docker {
            m.turn_to(0, 0);
        } else {
            m.turn_to_host(0);
        }
        m
    }

    fn turn_to_host(&mut self, from: usize)
        requires
            from <= old(self).items@.len(),
        ensures
            final(self).wf(),
            final(self).items == old(self).items,
            final(self).progress() == reload_at_host(
                old(self).items@,
                old(self).progress(),
                from as int,
            ),
    {
        let mut i: usize = from;
        while i < self.items.len() && !self.items[i].managed_host
            invariant
                from <= i <= self.items@.len(),
                *self == *old(self),
                reload_at_host(self.items@, self.progress(), from as int) == reload_at_host(
                    self.items@,
                    self.progress(),
                    i as int,
                ),
            decreases self.items@.len() - i,
        {
            i += 1;
        }
        self.item = i;
        self.container = 0;
        self.phase = if i < self.items.len() {
            ReloadPhase::StartingHost
        } else {
            ReloadPhase::Done
        };
    }

    fn turn_to(&mut self, item: usize, container: usize)
        requires
            item <= old(self).items@.len(),
        ensures
            final(self).wf(),
            final(self).items == old(self).items,
            final(self).progress() == reload_at(
                old(self).items@,
                old(self).progress(),
                item as int,
                container as int,
            ),
    {
        let mut i: usize = item;
        let mut k: usize = container;
        while i < self.items.len() && k >= self.items[i].containers.len()
            invariant
                item <= i <= self.items@.len(),
                *self == *old(self),
                reload_at(self.items@, self.progress(), item as int, container as int)
                    == reload_at(self.items@, self.progress(), i as int, k as int),
            decreases self.items@.len() - i,
        {
            i += 1;
            k = 0;
        }
        if i < self.items.len() {
            self.item = i;
            self.container = k;
            self.phase = ReloadPhase::Asking;
        } else {
            self.turn_to_host(0);
        }
    }

    fn note_restarted(&mut self)
        requires
            old(self).item < old(self).items@.len(),
        ensures
            *final(self) == (Reload { restarted: final(self).restarted, ..*old(self) }),
            final(self).progress() == reloaded(old(self).items@, old(self).progress()),
    {
        let id: String = self.items[self.item].active.backend_id.clone();
        push_new(&mut self.restarted, id.as_str());
    }

    pub fn step(&mut self, reply: Reply)
        requires
            old(self).wf(),
        ensures
            final(self).wf(),
            final(self).items == old(self).items,
            final(self).progress() == reload_stepped(
                old(self).items@,
                old(self).progress(),
                reply@,
            ),
    {
        let done: bool = match &reply {
            Reply::Done => true,
            Reply::Failed(_) => false,
        };
        assert(self.phase == ReloadPhase::Done || self.phase == ReloadPhase::Failed || self.item
            < self.items.len());
        match self.phase {
            ReloadPhase::Asking => {
                if done {
                    assert(self.container < self.items@[self.item as int].containers.len());
                    self.note_restarted();
                    self.turn_to(self.item, self.container + 1);
                } else {
                    self.phase = ReloadPhase::StartingContainer;
                }
            },
            ReloadPhase::StartingContainer => {
                assert(self.container < self.items@[self.item as int].containers.len());
                if !done {
                    self.turn_to(self.item, self.container + 1);
                } else if self.items[self.item].containers[self.container].known {
                    self.phase = ReloadPhase::ProbingContainer;
                } else {
                    self.note_restarted();
                    self.turn_to(self.item + 1, 0);
                }
            },
            ReloadPhase::ProbingContainer => {
                if done {
                    self.phase = ReloadPhase::WarmingContainer;
                } else {
                    self.note_restarted();
                    self.turn_to(self.item + 1, 0);
                }
            },
            ReloadPhase::WarmingContainer => {
                self.note_restarted();
                self.turn_to(self.item + 1, 0);
            },
            ReloadPhase::StartingHost | ReloadPhase::ProbingHost | ReloadPhase::WarmingHost => {
                match reply {
                    Reply::Failed(m) => {
                        self.fail(m.as_str());
                    },
                    Reply::Done => {
                        if self.phase == ReloadPhase::StartingHost {
                            self.phase = ReloadPhase::ProbingHost;
                        } else if self.phase == ReloadPhase::ProbingHost {
                            self.phase = ReloadPhase::WarmingHost;
                        } else {
                            self.note_restarted();
                            self.turn_to_host(self.item + 1);
                        }
                    },
                }
            },
            ReloadPhase::Done | ReloadPhase::Failed => {},
        }
    }

    fn fail(&mut self, m: &str)
        requires
            old(self).wf(),
            old(self).item < old(self).items@.len(),
        ensures
            final(self).wf(),
            final(self).items == old(self).items,
            final(self).progress() == (ReloadProgress {
                phase: ReloadPhase::Failed,
                error: Some(
                    reload_context(
                        old(self).phase,
                        old(self).items@[old(self).item as int].active,
                    ) + m@,
                ),
                ..old(self).progress()
            }),
    {
        let id: String = self.items[self.item].active.backend_id.clone();
        let mut e: String = match self.phase {
            ReloadPhase::StartingHost => wrap("reload host backend ", id.as_str(), ": "),
            ReloadPhase::ProbingHost => wrap("reload host health ", id.as_str(), ": "),
            _ => wrap("reload host warmup ", id.as_str(), ": "),
        };
        e.append(m);
        self.error = Some(e);
        self.phase = ReloadPhase::Failed;
    }

    /// What the clients are told when models run again.
    pub fn message(&self) -> (r: Option<String>)
        ensures
            match r {
                Some(m) => self.restarted@.len() > 0 && m@ == "Modelle wieder geladen: "@
                    + text::joined(text::views(self.restarted@), ", "@),
                None => self.restarted@.len() == 0,
            },
    {
        if self.restarted.is_empty() {
            return None;
        }
        let names: String = text::join(&self.restarted, ", ");
        Some(text::joined_pair("Modelle wieder geladen: ", names.as_str()))
    }
}

pub open spec fn reload_after(items: Seq<ReloadItem>, docker: bool, replies: Seq<ReplyView>) -> ReloadProgress
    decreases replies.len(),
{
    if replies.len() == 0 {
        reload_start(items, docker)
    } else {
        reload_stepped(items, reload_after(items, docker, replies.drop_last()), replies.last())
    }
}

/// Whether the host backends before a position run again.
pub open spec fn hosts_up(items: Seq<ReloadItem>, p: ReloadProgress, n: int) -> bool {
    forall|i: int|
        0 <= i < n && (#[trigger] items[i]).managed_host ==> p.restarted.contains(
            items[i].active.backend_id@,
        )
}

pub open spec fn reload_sound(items: Seq<ReloadItem>, p: ReloadProgress) -> bool {
    match p.phase {
        ReloadPhase::Done => hosts_up(items, p, items.len() as int),
        ReloadPhase::StartingHost | ReloadPhase::ProbingHost | ReloadPhase::WarmingHost => 0
            <= p.item < items.len() && hosts_up(items, p, p.item),
        _ => true,
    }
}

proof fn lemma_reload_at_host(items: Seq<ReloadItem>, p: ReloadProgress, item: int)
    requires
        0 <= item <= items.len(),
        hosts_up(items, p, item),
    ensures
        reload_sound(items, reload_at_host(items, p, item)),
    decreases items.len() - item,
{
    if item < items.len() && !items[item].managed_host {
        lemma_reload_at_host(items, p, item + 1);
    }
}

proof fn lemma_reload_at(items: Seq<ReloadItem>, p: ReloadProgress, item: int, container: int)
    ensures
        reload_sound(items, reload_at(items, p, item, container)),
    decreases items.len() - item,
{
    if item < 0 || item >= items.len() {
        lemma_reload_at_host(items, p, 0);
    } else if !(0 <= container < items[item].containers@.len()) {
        lemma_reload_at(items, p, item + 1, 0);
    }
}

/// When loading is done, every backend that the host agent runs is up again.
pub proof fn law_reload_starts_all_hosts(
    items: Seq<ReloadItem>,
    docker: bool,
    replies: Seq<ReplyView>,
)
    ensures
        reload_after(items, docker, replies).phase == ReloadPhase::Done ==> forall|i: int|
            0 <= i < items.len() && (#[trigger] items[i]).managed_host ==> reload_after(
                items,
                docker,
                replies,
            ).restarted.contains(items[i].active.backend_id@),
{
    lemma_reload_sound(items, docker, replies);
}

proof fn lemma_reload_sound(items: Seq<ReloadItem>, docker: bool, replies: Seq<ReplyView>)
    ensures
        reload_sound(items, reload_after(items, docker, replies)),
    decreases replies.len(),
{
    if replies.len() == 0 {
        let p = ReloadProgress {
            phase: ReloadPhase::Done,
            item: 0,
            container: 0,
            restarted: Seq::empty(),
            error: None,
        };
        if docker {
            lemma_reload_at(items, p, 0, 0);
        } else {
            lemma_reload_at_host(items, p, 0);
        }
    } else {
        let p = reload_after(items, docker, replies.drop_last());
        lemma_reload_sound(items, docker, replies.drop_last());
        let q = reloaded(items, p);
        lemma_reload_at(items, p, p.item, p.container + 1);
        lemma_reload_at(items, q, p.item, p.container + 1);
        lemma_reload_at(items, q, p.item + 1, 0);
        if p.phase == ReloadPhase::WarmingHost {
            let id = items[p.item].active.backend_id@;
            assert(q.restarted.contains(id)) by {
                if !p.restarted.contains(id) {
                    assert(q.restarted[p.restarted.len() as int] == id);
                }
            }
            assert forall|i: int|
                0 <= i < p.item + 1 && (#[trigger] items[i]).managed_host implies q.restarted.contains(
                items[i].active.backend_id@,
            ) by {
                if i < p.item {
                    let x = items[i].active.backend_id@;
                    let k = choose|k: int| 0 <= k < p.restarted.len() && p.restarted[k] == x;
                    assert(q.restarted[k] == x);
                }
            }
            lemma_reload_at_host(items, q, p.item + 1);
        }
    }
}

/// What is done to bring a backend back: a container is started where containers are
/// managed, a host runtime is started by its agent, anything else is left alone, and
/// one that the catalog no longer has fails.
pub proof fn law_how_a_backend_comes_back(c: BackendCatalog, a: ActiveBackend, docker: bool)
    ensures
        missing(c, a) is Some ==> restore_kind(c, a, docker) == RestoreKind::Missing,
        missing(c, a) is None && a.container@.len() > 0 && docker ==> restore_kind(c, a, docker)
            == RestoreKind::Container,
        missing(c, a) is None && a.container@.len() > 0 && !docker ==> restore_kind(c, a, docker)
            == RestoreKind::Untouched,
        missing(c, a) is None && a.container@.len() == 0 && crate::containers::is_managed_host(c, a)
            ==> restore_kind(c, a, docker) == RestoreKind::Host,
        missing(c, a) is None && a.container@.len() == 0 && !crate::containers::is_managed_host(
            c,
            a,
        ) ==> restore_kind(c, a, docker) == RestoreKind::Untouched,
        crate::registry::backend_index(c.backends@, a.backend_id@) is None ==> missing(c, a) == Some(
            "rollback backend '"@ + a.backend_id@ + "' missing"@,
        ),
{
}

/// What comes back is started, probed and warmed up in this order, and a failure at
/// any of these steps ends the rollback with what went wrong.
pub proof fn law_order_of_a_restore(items: Seq<RestoreItem>, p: RestoreProgress, m: Seq<char>)
    requires
        0 <= p.pos < items.len(),
        p.phase != RestorePhase::Done,
        p.phase != RestorePhase::Failed,
    ensures
        restore_stepped(items, p, ReplyView::Failed(m)).phase == RestorePhase::Failed,
        restore_stepped(items, p, ReplyView::Failed(m)).error is Some,
        restore_stepped(items, p, ReplyView::Failed(m)).pos == p.pos,
        p.phase == RestorePhase::Checking ==> restore_stepped(items, p, ReplyView::Done).phase
            == RestorePhase::StartingContainer,
        p.phase == RestorePhase::StartingContainer ==> restore_stepped(
            items,
            p,
            ReplyView::Done,
        ).phase == RestorePhase::ProbingContainer,
        p.phase == RestorePhase::ProbingContainer ==> restore_stepped(
            items,
            p,
            ReplyView::Done,
        ).phase == RestorePhase::WarmingContainer,
        p.phase == RestorePhase::StartingHost ==> restore_stepped(items, p, ReplyView::Done).phase
            == RestorePhase::ProbingHost,
        p.phase == RestorePhase::ProbingHost ==> restore_stepped(items, p, ReplyView::Done).phase
            == RestorePhase::WarmingHost,
        p.phase == RestorePhase::WarmingContainer || p.phase == RestorePhase::WarmingHost
            ==> restore_stepped(items, p, ReplyView::Done).phase == RestorePhase::Failed
            || restore_stepped(items, p, ReplyView::Done).pos > p.pos,
{
    lemma_turned_goes_on(items, p.pos + 1);
}

proof fn lemma_turned_goes_on(items: Seq<RestoreItem>, pos: int)
    requires
        0 <= pos <= items.len(),
    ensures
        restore_turned(items, pos).pos >= pos,
    decreases items.len() - pos,
{
    if pos < items.len() && items[pos].kind == RestoreKind::Untouched {
        lemma_turned_goes_on(items, pos + 1);
    }
}

/// The variant of a parked backend is the first that has its id or its container.
pub proof fn law_reload_variant(vs: Seq<BackendVariant>, id: Seq<char>, container: Seq<char>)
    ensures
        match reload_variant_of(vs, id, container) {
            Some(i) => 0 <= i < vs.len() && (vs[i].id@ == id || vs[i].container@ == container)
                && forall|j: int|
                0 <= j < i ==> (#[trigger] vs[j]).id@ != id && vs[j].container@ != container,
            None => forall|j: int|
                0 <= j < vs.len() ==> (#[trigger] vs[j]).id@ != id && vs[j].container@ != container,
        },
    decreases vs.len(),
{
    if vs.len() > 0 {
        let t = vs.drop_last();
        law_reload_variant(t, id, container);
        assert(forall|j: int| 0 <= j < t.len() ==> #[trigger] t[j] == vs[j]);
        assert(vs.last() == vs[vs.len() - 1]);
        if reload_variant_of(t, id, container) is Some {
            let i = reload_variant_of(t, id, container).unwrap();
            assert(t[i] == vs[i]);
            assert forall|j: int| 0 <= j < i implies (#[trigger] vs[j]).id@ != id
                && vs[j].container@ != container by {
                assert(t[j] == vs[j]);
            }
        } else {
            assert forall|j: int| 0 <= j < t.len() implies (#[trigger] vs[j]).id@ != id
                && vs[j].container@ != container by {
                assert(t[j] == vs[j]);
            }
        }
    }
}

/// A container that answers counts as loaded; one that does not is started, and once
/// it runs counts as loaded whatever its probe says. Where it cannot be started the
/// next one is tried. A host runtime that fails ends the reload.
pub proof fn law_reload_goes_on(items: Seq<ReloadItem>, p: ReloadProgress, m: Seq<char>)
    requires
        0 <= p.item < items.len(),
    ensures
        p.phase == ReloadPhase::Asking ==> reload_stepped(items, p, ReplyView::Failed(m)).phase
            == ReloadPhase::StartingContainer,
        p.phase == ReloadPhase::Asking ==> reload_stepped(
            items,
            p,
            ReplyView::Done,
        ).restarted.contains(items[p.item].active.backend_id@),
        p.phase == ReloadPhase::StartingContainer ==> reload_stepped(
            items,
            p,
            ReplyView::Failed(m),
        ).restarted == p.restarted,
        p.phase == ReloadPhase::WarmingContainer ==> reload_stepped(
            items,
            p,
            ReplyView::Failed(m),
        ).restarted.contains(items[p.item].active.backend_id@),
        p.phase == ReloadPhase::StartingHost || p.phase == ReloadPhase::ProbingHost || p.phase
            == ReloadPhase::WarmingHost ==> reload_stepped(items, p, ReplyView::Failed(m)).phase
            == ReloadPhase::Failed,
        p.phase == ReloadPhase::StartingHost ==> reload_stepped(items, p, ReplyView::Done).phase
            == ReloadPhase::ProbingHost,
        p.phase == ReloadPhase::ProbingHost ==> reload_stepped(items, p, ReplyView::Done).phase
            == ReloadPhase::WarmingHost,
        p.phase == ReloadPhase::WarmingHost ==> reload_stepped(
            items,
            p,
            ReplyView::Done,
        ).restarted.contains(items[p.item].active.backend_id@),
{
    let q = reloaded(items, p);
    let x = items[p.item].active.backend_id@;
    lemma_reload_keeps(items, q, p.item, p.container + 1);
    lemma_reload_keeps(items, q, p.item + 1, 0);
    lemma_reload_keeps(items, p, p.item, p.container + 1);
    lemma_reload_host_keeps(items, q, p.item + 1);
    if !p.restarted.contains(x) {
        assert(q.restarted[q.restarted.len() - 1] == x);
    }
}

proof fn lemma_reload_keeps(items: Seq<ReloadItem>, p: ReloadProgress, item: int, container: int)
    ensures
        reload_at(items, p, item, container).restarted == p.restarted,
    decreases items.len() - item,
{
    lemma_reload_host_keeps(items, p, 0);
    if 0 <= item < items.len() && !(0 <= container < items[item].containers@.len()) {
        lemma_reload_keeps(items, p, item + 1, 0);
    }
}

proof fn lemma_reload_host_keeps(items: Seq<ReloadItem>, p: ReloadProgress, item: int)
    ensures
        reload_at_host(items, p, item).restarted == p.restarted,
    decreases items.len() - item,
{
    if 0 <= item < items.len() && !items[item].managed_host {
        lemma_reload_host_keeps(items, p, item + 1);
    }
}

/// What is started for a parked backend: its own container where it is known, none
/// where the host agent runs it, and else one of those of the backend.
pub proof fn law_what_is_started(
    item: ReloadItem,
    c: BackendCatalog,
    a: ActiveBackend,
    k: int,
)
    requires
        is_reload_item(item, c, a),
    ensures
        item.active == a,
        a.container@.len() > 0 ==> item.containers@.len() == 1 && item.containers@[0].name@
            == a.container@,
        a.container@.len() == 0 && item.managed_host ==> item.containers@.len() == 0,
        a.container@.len() == 0 && !item.managed_host && 0 <= k < item.containers@.len()
            ==> crate::containers::containers_of_backend(c, a.backend_id@).contains(
            item.containers@[k].name@,
        ),
        0 <= k < item.containers@.len() && item.containers@[k].known ==> exists|i: int, j: int|
            0 <= i < c.backends@.len() && 0 <= j < c.backends@[i].variants@.len()
                && c.backends@[i].id@ == a.backend_id@ && ((
            #[trigger] c.backends@[i].variants@[j]).id@ == a.variant_id@
                || c.backends@[i].variants@[j].container@ == item.containers@[k].name@),
{
    if 0 <= k < item.containers@.len() {
        assert(item.containers@[k].name@ == to_start(c, a)[k]);
        if item.containers@[k].known {
            crate::registry::law_lookup_finds_the_first(c.backends@, a.backend_id@);
            let i = crate::registry::backend_index(c.backends@, a.backend_id@).unwrap();
            law_reload_variant(
                c.backends@[i].variants@,
                a.variant_id@,
                item.containers@[k].name@,
            );
            let j = reload_variant_of(
                c.backends@[i].variants@,
                a.variant_id@,
                item.containers@[k].name@,
            ).unwrap();
            assert(c.backends@[i].variants@[j].id@ == a.variant_id@
                || c.backends@[i].variants@[j].container@ == item.containers@[k].name@);
        }
    }
    if a.container@.len() > 0 {
        assert(item.containers@[0].name@ == to_start(c, a)[0]);
    }
}

/// A backend can be restored exactly if the catalog has a backend with its id and this
/// a variant with its id.
pub proof fn law_what_can_be_restored(c: BackendCatalog, a: ActiveBackend, i: int)
    ensures
        (forall|j: int|
            0 <= j < c.backends@.len() ==> (#[trigger] c.backends@[j]).id@ != a.backend_id@)
            ==> missing(c, a) is Some,
        0 <= i < c.backends@.len() && c.backends@[i].id@ == a.backend_id@ && (forall|j: int|
            0 <= j < i ==> (#[trigger] c.backends@[j]).id@ != a.backend_id@) ==> (missing(c, a)
            is None <==> exists|k: int|
            0 <= k < c.backends@[i].variants@.len() && (
            #[trigger] c.backends@[i].variants@[k]).id@ == a.variant_id@),
{
    crate::registry::law_lookup_finds_the_first(c.backends@, a.backend_id@);
    if 0 <= i < c.backends@.len() && c.backends@[i].id@ == a.backend_id@ && (forall|j: int|
        0 <= j < i ==> (#[trigger] c.backends@[j]).id@ != a.backend_id@) {
        assert(crate::registry::has_backend(
            c.backends@,
            c.backends@.len() as int,
            a.backend_id@,
        ));
        assert(crate::registry::backend_index(c.backends@, a.backend_id@) == Some(i));
        crate::bring_up::law_variant_of_an_id(c.backends@[i].variants@, a.variant_id@);
    }
}

} // verus!
