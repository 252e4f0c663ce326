//! Parking the models while no client is connected.

use crate::json;
use crate::json::{object, push_member, Json, JsonView};
use crate::lab::{endpoint_host_port, is_host_side_endpoint, ActiveBackend};
use crate::registry::wrap;
use crate::text;
use vstd::prelude::*;

verus! {

/// The seconds after which idle models are unloaded; zero means never.
pub open spec fn idle_seconds(setting: Option<String>) -> nat {
    match setting {
        Some(s) => match text::parsed_unsigned(s@, u64::MAX as nat) {
            Some(n) => n,
            None => 120,
        },
        None => 120,
    }
}

pub fn idle_unload_delay_secs(setting: &Option<String>) -> (r: u64)
    ensures
        r == idle_seconds(*setting),
{
    match setting {
        Some(s) => match text::parse_unsigned(s.as_str(), u64::MAX) {
            Some(n) => n,
            None => 120,
        },
        None => 120,
    }
}

/// The entries of a list, trimmed, without the empty ones.
pub open spec fn entries(parts: Seq<Seq<char>>) -> Seq<Seq<char>>
    decreases parts.len(),
{
    if parts.len() == 0 {
        Seq::empty()
    } else {
        let before = entries(parts.drop_last());
        let t = text::trim(parts.last());
        if t.len() == 0 {
            before
        } else {
            before.push(t)
        }
    }
}

/// The entries of a comma-separated list.
pub fn comma_list(s: &str) -> (r: Vec<String>)
    ensures
        text::views(r@) == entries(text::split(s@, ',')),
{
    let parts: Vec<String> = text::split_at_char(s, ',');
    let ghost pv = text::views(parts@);
    let mut out: Vec<String> = Vec::new();
    let mut i: usize = 0;
    assert(text::views(out@) =~= Seq::empty());
    assert(pv.take(0) =~= Seq::empty());
    while i < parts.len()
        invariant
            i <= parts.len(),
            pv == text::views(parts@),
            text::views(out@) == entries(pv.take(i as int)),
        decreases parts.len() - i,
    {
        assert(pv.take(i + 1).drop_last() =~= pv.take(i as int));
        let t: String = text::trimmed(parts[i].as_str());
        if !t.as_str().is_empty() {
            let ghost before = text::views(out@);
            out.push(t);
            assert(text::views(out@) =~= before.push(t@));
        }
        i += 1;
    }
    assert(pv.take(i as int) =~= pv);
    out
}

/// The host processes that are stopped with the models.
pub fn idle_unload_host_processes(setting: &Option<String>) -> (r: Vec<String>)
    ensures
        text::views(r@) == entries(
            text::split(
                match setting {
                    Some(s) => s@,
                    None => "tts-server"@,
                },
                ',',
            ),
        ),
{
    match setting {
        Some(s) => comma_list(s.as_str()),
        None => comma_list("tts-server"),
    }
}

/// The port of an active backend if it is served on the host.
pub open spec fn host_port(a: ActiveBackend) -> Option<nat> {
    if crate::lab::host_side(a.endpoint@) {
        crate::lab::port_of(a.endpoint@)
    } else {
        None
    }
}

fn find_host_port(a: &ActiveBackend) -> (r: Option<u16>)
    ensures
        match r {
            Some(p) => host_port(*a) == Some(p as nat),
            None => host_port(*a) is None,
        },
{
    if is_host_side_endpoint(a.endpoint.as_str()) {
        endpoint_host_port(a.endpoint.as_str())
    } else {
        None
    }
}

pub open spec fn has_port(v: Seq<ActiveBackend>, p: nat) -> bool {
    exists|i: int| 0 <= i < v.len() && host_port(#[trigger] v[i]) == Some(p)
}

/// The ports that synthesis servers on the host commonly use.
pub open spec fn is_common_port(p: u16) -> bool {
    p == 8083 || p == 8086 || p == 8089
}

pub open spec fn strictly_ascending(v: Seq<u16>) -> bool {
    forall|i: int, j: int| 0 <= i < j < v.len() ==> #[trigger] v[i] < #[trigger] v[j]
}

fn insert_port(v: &mut Vec<u16>, p: u16)
    requires
        strictly_ascending(old(v)@),
    ensures
        strictly_ascending(final(v)@),
        forall|x: u16| #[trigger]
            final(v)@.contains(x) <==> old(v)@.contains(x) || x == p,
{
    let ghost before = v@;
    let mut i: usize = 0;
    while i < v.len() && v[i] < p
        invariant
            i <= v.len(),
            v@ == before,
            forall|j: int| 0 <= j < i ==> #[trigger] before[j] < p,
        decreases v.len() - i,
    {
        i += 1;
    }
    if i < v.len() && v[i] == p {
        assert(before[i as int] == p);
        return ;
    }
    v.insert(i, p);
    proof {
        assert forall|x: u16| #[trigger] v@.contains(x) <==> before.contains(x) || x == p by {
            if before.contains(x) {
                let k = choose|k: int| 0 <= k < before.len() && before[k] == x;
                if k < i {
                    assert(v@[k] == x);
                } else {
                    assert(v@[k + 1] == x);
                }
            }
            assert(v@[i as int] == p);
            if v@.contains(x) && x != p {
                let k = choose|k: int| 0 <= k < v@.len() && v@[k] == x;
                if k < i {
                    assert(before[k] == x);
                } else {
                    assert(before[k - 1] == x);
                }
            }
        }
        assert forall|a: int, b: int| 0 <= a < b < v@.len() implies #[trigger] v@[a]
            < #[trigger] v@[b] by {
            let oa = if a < i {
                a
            } else {
                a - 1
            };
            let ob = if b < i {
                b
            } else {
                b - 1
            };
            if a != i && b != i {
                assert(before[oa] < before[ob]);
            } else if a == i {
                assert(before[ob] > p) by {
                    if ob > i {
                        assert(before[i as int] < before[ob]);
                    }
                }
            } else {
                assert(before[oa] < p);
            }
        }
    }
}

/// The host ports to free when the models are parked, in ascending order: those of
/// the active backends and the common ones.
pub fn unload_ports(v: &Vec<ActiveBackend>) -> (r: Vec<u16>)
    ensures
        strictly_ascending(r@),
        forall|p: u16| #[trigger]
            r@.contains(p) <==> has_port(v@, p as nat) || is_common_port(p),
{
    let mut ports: Vec<u16> = Vec::new();
    insert_port(&mut ports, 8083);
    insert_port(&mut ports, 8086);
    insert_port(&mut ports, 8089);
    let mut i: usize = 0;
    while i < v.len()
        invariant
            i <= v.len(),
            strictly_ascending(ports@),
            forall|p: u16| #[trigger]
                ports@.contains(p) <==> has_port(v@.take(i as int), p as nat) || is_common_port(p),
        decreases v.len() - i,
    {
        let ghost s = v@.take(i as int);
        let ghost t = v@.take(i + 1);
        proof {
            assert forall|p: nat| #[trigger]
                has_port(t, p) <==> has_port(s, p) || host_port(v@[i as int]) == Some(p) by {
                if has_port(s, p) {
                    let k = choose|k: int| 0 <= k < s.len() && host_port(#[trigger] s[k]) == Some(p);
                    assert(host_port(t[k]) == Some(p));
                }
                if host_port(v@[i as int]) == Some(p) {
                    assert(host_port(t[i as int]) == Some(p));
                }
                if has_port(t, p) && host_port(v@[i as int]) != Some(p) {
                    let k = choose|k: int| 0 <= k < t.len() && host_port(#[trigger] t[k]) == Some(p);
                    assert(host_port(s[k]) == Some(p));
                }
            }
        }
        match find_host_port(&v[i]) {
            Some(p) => {
                insert_port(&mut ports, p);
            },
            None => {},
        }
        i += 1;
    }
    assert(v@.take(i as int) =~= v@);
    ports
}

/// The host ports of some backends, in their order.
pub open spec fn ports_of(v: Seq<ActiveBackend>) -> Seq<nat>
    decreases v.len(),
{
    if v.len() == 0 {
        Seq::empty()
    } else {
        match host_port(v.last()) {
            Some(p) => ports_of(v.drop_last()).push(p),
            None => ports_of(v.drop_last()),
        }
    }
}

pub open spec fn numbers(v: Seq<u16>) -> Seq<nat> {
    Seq::new(v.len(), |i: int| v[i] as nat)
}

/// The ports of a reload request, or none where there is nothing for the host to
/// do: every backend is a container and none is served on the host.
pub fn reload_ports(v: &Vec<ActiveBackend>) -> (r: Option<Vec<u16>>)
    ensures
        match r {
            Some(ports) => numbers(ports@) == ports_of(v@) && (ports@.len() > 0 || exists|i: int|
                0 <= i < v.len() && (#[trigger] v@[i]).container@.len() == 0),
            None => ports_of(v@).len() == 0 && forall|i: int|
                0 <= i < v.len() ==> (#[trigger] v@[i]).container@.len() > 0,
        },
{
    let mut ports: Vec<u16> = Vec::new();
    let mut outside: bool = false;
    let mut i: usize = 0;
    assert(v@.take(0) =~= Seq::empty());
    assert(numbers(ports@) =~= Seq::empty());
    while i < v.len()
        invariant
            i <= v.len(),
            numbers(ports@) == ports_of(v@.take(i as int)),
            outside == exists|j: int| 0 <= j < i && (#[trigger] v@[j]).container@.len() == 0,
        decreases v.len() - i,
    {
        assert(v@.take(i + 1).drop_last() =~= v@.take(i as int));
        match find_host_port(&v[i]) {
            Some(p) => {
                let ghost before = numbers(ports@);
                ports.push(p);
                assert(numbers(ports@) =~= before.push(p as nat));
            },
            None => {},
        }
        if v[i].container.as_str().is_empty() {
            outside = true;
            assert(v@[i as int].container@.len() == 0);
        }
        i += 1;
    }
    assert(v@.take(i as int) =~= v@);
    if ports.is_empty() && !outside {
        assert(numbers(ports@) =~= Seq::empty());
        None
    } else {
        assert(numbers(ports@).len() == ports@.len());
        Some(ports)
    }
}

pub open spec fn text_values(v: Seq<Seq<char>>) -> Seq<JsonView> {
    Seq::new(v.len(), |i: int| JsonView::Text(v[i]))
}

pub open spec fn number_values(v: Seq<nat>) -> Seq<JsonView> {
    Seq::new(v.len(), |i: int| JsonView::Number(text::decimal(v[i])))
}

pub open spec fn backend_names(v: Seq<ActiveBackend>) -> Seq<Seq<char>> {
    Seq::new(v.len(), |i: int| v[i].backend_id@)
}

fn text_list(v: &Vec<String>) -> (r: Json)
    ensures
        r@ == JsonView::List(text_values(text::views(v@))),
{
    let mut out: Vec<Json> = Vec::new();
    let mut i: usize = 0;
    while i < v.len()
        invariant
            i <= v.len(),
            out@.len() == i,
            forall|k: int| 0 <= k < i ==> (#[trigger] out@[k])@ == JsonView::Text(v@[k]@),
        decreases v.len() - i,
    {
        out.push(Json::text(v[i].as_str()));
        i += 1;
    }
    assert(json::elements_view(out@) =~= text_values(text::views(v@)));
    json::list(out)
}

fn port_list(v: &Vec<u16>) -> (r: Json)
    ensures
        r@ == JsonView::List(number_values(numbers(v@))),
{
    let mut out: Vec<Json> = Vec::new();
    let mut i: usize = 0;
    while i < v.len()
        invariant
            i <= v.len(),
            out@.len() == i,
            forall|k: int|
                0 <= k < i ==> (#[trigger] out@[k])@ == JsonView::Number(
                    text::decimal(v@[k] as nat),
                ),
        decreases v.len() - i,
    {
        out.push(Json::number(v[i] as u64));
        i += 1;
    }
    assert(json::elements_view(out@) =~= number_values(numbers(v@)));
    json::list(out)
}

fn name_list(v: &Vec<ActiveBackend>) -> (r: Json)
    ensures
        r@ == JsonView::List(text_values(backend_names(v@))),
{
    let mut out: Vec<Json> = Vec::new();
    let mut i: usize = 0;
    while i < v.len()
        invariant
            i <= v.len(),
            out@.len() == i,
            forall|k: int|
                0 <= k < i ==> (#[trigger] out@[k])@ == JsonView::Text(v@[k].backend_id@),
        decreases v.len() - i,
    {
        out.push(Json::text(v[i].backend_id.as_str()));
        i += 1;
    }
    assert(json::elements_view(out@) =~= text_values(backend_names(v@)));
    json::list(out)
}

/// What the host is asked when the models were parked: to end the processes, and
/// those that listen on the ports.
pub fn unload_request(
    processes: &Vec<String>,
    ports: &Vec<u16>,
    stopped: &Vec<String>,
    v: &Vec<ActiveBackend>,
    now: u64,
) -> (r: Json)
    ensures
        r@ == JsonView::Object(
            seq![
                ("action"@, JsonView::Text("unload"@)),
                ("processes"@, JsonView::List(text_values(text::views(processes@)))),
                ("ports"@, JsonView::List(number_values(numbers(ports@)))),
                ("containers"@, JsonView::List(text_values(text::views(stopped@)))),
                ("backends"@, JsonView::List(text_values(backend_names(v@)))),
                ("ts_unix"@, JsonView::Number(text::decimal(now as nat))),
            ],
        ),
{
    let mut m: Vec<(String, Json)> = Vec::new();
    push_member(&mut m, "action", Json::text("unload"));
    push_member(&mut m, "processes", text_list(processes));
    push_member(&mut m, "ports", port_list(ports));
    push_member(&mut m, "containers", text_list(stopped));
    push_member(&mut m, "backends", name_list(v));
    push_member(&mut m, "ts_unix", Json::number(now));
    assert(json::members_view(m@) =~= seq![
        ("action"@, JsonView::Text("unload"@)),
        ("processes"@, JsonView::List(text_values(text::views(processes@)))),
        ("ports"@, JsonView::List(number_values(numbers(ports@)))),
        ("containers"@, JsonView::List(text_values(text::views(stopped@)))),
        ("backends"@, JsonView::List(text_values(backend_names(v@)))),
        ("ts_unix"@, JsonView::Number(text::decimal(now as nat))),
    ]);
    object(m)
}

/// How a backend is told to the host.
pub open spec fn told(a: ActiveBackend) -> JsonView {
    JsonView::Object(
        seq![
            ("backend_id"@, JsonView::Text(a.backend_id@)),
            ("endpoint"@, JsonView::Text(a.endpoint@)),
            ("container"@, JsonView::Text(a.container@)),
        ],
    )
}

pub open spec fn all_told(v: Seq<ActiveBackend>) -> Seq<JsonView> {
    Seq::new(v.len(), |i: int| told(v[i]))
}

fn tell(a: &ActiveBackend) -> (r: Json)
    ensures
        r@ == told(*a),
{
    let mut m: Vec<(String, Json)> = Vec::new();
    push_member(&mut m, "backend_id", Json::text(a.backend_id.as_str()));
    push_member(&mut m, "endpoint", Json::text(a.endpoint.as_str()));
    push_member(&mut m, "container", Json::text(a.container.as_str()));
    assert(json::members_view(m@) =~= seq![
        ("backend_id"@, JsonView::Text(a.backend_id@)),
        ("endpoint"@, JsonView::Text(a.endpoint@)),
        ("container"@, JsonView::Text(a.container@)),
    ]);
    object(m)
}

/// What the host is asked when a client came back: to start what it served, with
/// the ports of that.
pub fn reload_request(ports: &Vec<u16>, v: &Vec<ActiveBackend>, now: u64) -> (r: Json)
    ensures
        r@ == JsonView::Object(
            seq![
                ("action"@, JsonView::Text("reload"@)),
                ("ports"@, JsonView::List(number_values(numbers(ports@)))),
                ("backends"@, JsonView::List(all_told(v@))),
                ("ts_unix"@, JsonView::Number(text::decimal(now as nat))),
            ],
        ),
{
    let mut backends: Vec<Json> = Vec::new();
    let mut i: usize = 0;
    while i < v.len()
        invariant
            i <= v.len(),
            backends@.len() == i,
            forall|k: int| 0 <= k < i ==> (#[trigger] backends@[k])@ == told(v@[k]),
        decreases v.len() - i,
    {
        backends.push(tell(&v[i]));
        i += 1;
    }
    assert(json::elements_view(backends@) =~= all_told(v@));
    let mut m: Vec<(String, Json)> = Vec::new();
    push_member(&mut m, "action", Json::text("reload"));
    push_member(&mut m, "ports", port_list(ports));
    push_member(&mut m, "backends", json::list(backends));
    push_member(&mut m, "ts_unix", Json::number(now));
    assert(json::members_view(m@) =~= seq![
        ("action"@, JsonView::Text("reload"@)),
        ("ports"@, JsonView::List(number_values(numbers(ports@)))),
        ("backends"@, JsonView::List(all_told(v@))),
        ("ts_unix"@, JsonView::Number(text::decimal(now as nat))),
    ]);
    object(m)
}

/// What the clients are told when the models were parked.
pub fn unload_message(stopped: &Vec<String>) -> (r: String)
    ensures
        r@ == if stopped@.len() == 0 {
            NOTHING_STOPPED@
        } else {
            "Idle: Modelle entladen — "@ + text::joined(text::views(stopped@), ", "@)
                + " (+ Host-Unload-Request für tts-server/Ports)"@
        },
{
    if stopped.is_empty() {
        String::from_str(NOTHING_STOPPED)
    } else {
        let names: String = text::join(stopped, ", ");
        wrap(
            "Idle: Modelle entladen — ",
            names.as_str(),
            " (+ Host-Unload-Request für tts-server/Ports)",
        )
    }
}

pub const NOTHING_STOPPED: &'static str = "Idle: Host-Unload angefordert (Container waren bereits aus); tts-server o.ä. via host_idle_agent.ps1";

/// What the clients are told when parking is scheduled.
pub fn schedule_message(delay_secs: u64) -> (r: String)
    ensures
        r@ == "Keine Clients — Modelle werden in "@ + text::decimal(delay_secs as nat)
            + "s entladen, um Speicher freizugeben"@,
{
    let n: String = text::decimal_of(delay_secs);
    wrap(
        "Keine Clients — Modelle werden in ",
        n.as_str(),
        "s entladen, um Speicher freizugeben",
    )
}

/// The sessions of the clients and what they mean for the models.
#[derive(Debug, Clone, Copy, PartialEq, Eq, Structural)]
pub struct IdleUnload {
    pub sessions: usize,
    /// Counts up with every change of mind; a timer of an earlier generation does
    /// nothing.
    pub generation: u64,
    pub scheduled: bool,
    pub models_parked: bool,
}

impl Default for IdleUnload {
    fn default() -> (r: Self)
        ensures
            r.sessions == 0,
            r.generation == 0,
            !r.scheduled,
            !r.models_parked,
    {
        IdleUnload { sessions: 0, generation: 0, scheduled: false, models_parked: false }
    }
}

pub open spec fn next_generation(g: u64) -> u64 {
    if g == u64::MAX {
        0
    } else {
        (g + 1) as u64
    }
}

impl IdleUnload {
    fn new_generation(&mut self)
        ensures
            *final(self) == (IdleUnload {
                generation: next_generation(old(self).generation),
                ..*old(self)
            }),
    {
        self.generation = if self.generation == u64::MAX {
            0
        } else {
            self.generation + 1
        };
    }

    /// A client connects: a scheduled unload is cancelled. Tells whether the models
    /// have to be loaded again.
    pub fn connected(&mut self) -> (r: bool)
        requires
            old(self).sessions < usize::MAX,
        ensures
            *final(self) == after_connecting(*old(self)),
            final(self).sessions == old(self).sessions + 1,
            final(self).generation == next_generation(old(self).generation),
            !final(self).scheduled,
            final(self).models_parked == old(self).models_parked,
            r == old(self).models_parked,
    {
        self.sessions = self.sessions + 1;
        self.new_generation();
        self.scheduled = false;
        self.models_parked
    }

    /// A client leaves: when it was the last, an unload is scheduled unless that is
    /// switched off. Tells the generation of the timer to start.
    pub fn disconnected(&mut self, delay_secs: u64) -> (r: Option<u64>)
        ensures
            (*final(self), r) == after_leaving(*old(self), delay_secs),
            final(self).sessions == if old(self).sessions == 0 {
                0
            } else {
                old(self).sessions - 1
            },
            final(self).models_parked == old(self).models_parked,
            match r {
                Some(g) => {
                    &&& old(self).sessions <= 1
                    &&& delay_secs > 0
                    &&& g == next_generation(old(self).generation)
                    &&& final(self).generation == g
                    &&& final(self).scheduled
                },
                None => {
                    &&& old(self).sessions > 1 || delay_secs == 0
                    &&& final(self).generation == old(self).generation
                    &&& final(self).scheduled == old(self).scheduled
                },
            },
    {
        if self.sessions > 0 {
            self.sessions = self.sessions - 1;
        }
        if self.sessions > 0 || delay_secs == 0 {
            return None;
        }
        self.new_generation();
        self.scheduled = true;
        Some(self.generation)
    }

    /// Whether a timer that runs out may unload the models.
    pub fn due(&self, generation: u64) -> (r: bool)
        ensures
            r == is_due(*self, generation),
    {
        self.sessions == 0 && self.generation == generation
    }

    /// The models were unloaded.
    pub fn parked(&mut self)
        ensures
            *final(self) == (IdleUnload { models_parked: true, scheduled: false, ..*old(self) }),
    {
        self.models_parked = true;
        self.scheduled = false;
    }

    /// The models were loaded again.
    pub fn loaded(&mut self)
        ensures
            *final(self) == (IdleUnload { models_parked: false, ..*old(self) }),
    {
        self.models_parked = false;
    }
}

pub open spec fn is_due(s: IdleUnload, generation: u64) -> bool {
    s.sessions == 0 && s.generation == generation
}

/// A client that connects stops the timers that run: while it is there none
/// unloads anything, and when it has gone and an unload is scheduled anew, the
/// earlier timer is not the one that is due.
pub proof fn law_a_client_stops_the_timer(
    before: IdleUnload,
    here: IdleUnload,
    gone: IdleUnload,
    generation: u64,
)
    requires
        is_due(before, generation),
        here.sessions == before.sessions + 1,
        here.generation == next_generation(before.generation),
        gone.sessions == here.sessions - 1,
        gone.generation == next_generation(here.generation),
    ensures
        !is_due(here, generation),
        !is_due(gone, generation),
{
}

/// The delay is the number that is set, and two minutes where none is.
pub proof fn law_idle_delay(n: u64, s: String)
    requires
        s@ == text::decimal(n as nat),
    ensures
        idle_seconds(Some(s)) == n,
        idle_seconds(None) == 120,
{
    text::law_written_number_reads_back(n as nat, u64::MAX as nat);
}

/// A list has the parts between commas that are not blank, trimmed, and no others.
pub proof fn law_entries(parts: Seq<Seq<char>>)
    ensures
        forall|i: int|
            0 <= i < entries(parts).len() ==> (#[trigger] entries(parts)[i]).len() > 0 && exists|
                j: int,
            |
                0 <= j < parts.len() && entries(parts)[i] == text::trim(#[trigger] parts[j]),
        forall|j: int|
            0 <= j < parts.len() && text::trim(#[trigger] parts[j]).len() > 0 ==> entries(
                parts,
            ).contains(text::trim(parts[j])),
    decreases parts.len(),
{
    if parts.len() > 0 {
        let t = parts.drop_last();
        law_entries(t);
        let e = entries(parts);
        assert forall|i: int| 0 <= i < e.len() implies (#[trigger] e[i]).len() > 0 && exists|
            j: int,
        | 0 <= j < parts.len() && e[i] == text::trim(#[trigger] parts[j]) by {
            if i < entries(t).len() {
                assert(e[i] == entries(t)[i]);
                let j = choose|j: int| 0 <= j < t.len() && entries(t)[i] == text::trim(
                    #[trigger] t[j],
                );
                assert(t[j] == parts[j]);
            } else {
                assert(parts[parts.len() - 1] == parts.last());
            }
        }
        assert forall|j: int| 0 <= j < parts.len() && text::trim(#[trigger] parts[j]).len() > 0 implies
            e.contains(text::trim(parts[j])) by {
            if j < t.len() {
                assert(t[j] == parts[j]);
                let x = text::trim(t[j]);
                assert(entries(t).contains(x));
                let k = choose|k: int| 0 <= k < entries(t).len() && entries(t)[k] == x;
                assert(e[k] == x);
            } else {
                assert(e[e.len() - 1] == text::trim(parts.last()));
            }
        }
    }
}

/// The ports to reload are those of the backends that run on the host, and of no
/// others.
pub proof fn law_ports_of_host_backends(v: Seq<ActiveBackend>, p: nat)
    ensures
        ports_of(v).contains(p) <==> exists|i: int|
            0 <= i < v.len() && crate::lab::host_side((#[trigger] v[i]).endpoint@)
                && crate::lab::port_of(v[i].endpoint@) == Some(p),
    decreases v.len(),
{
    if v.len() > 0 {
        let t = v.drop_last();
        law_ports_of_host_backends(t, p);
        if ports_of(v).contains(p) {
            let k = choose|k: int| 0 <= k < ports_of(v).len() && ports_of(v)[k] == p;
            if k < ports_of(t).len() {
                assert(ports_of(t)[k] == p);
                let i = choose|i: int|
                    0 <= i < t.len() && crate::lab::host_side((#[trigger] t[i]).endpoint@)
                        && crate::lab::port_of(t[i].endpoint@) == Some(p);
                assert(v[i] == t[i]);
            } else {
                assert(v[v.len() - 1] == v.last());
            }
        }
        if exists|i: int|
            0 <= i < v.len() && crate::lab::host_side((#[trigger] v[i]).endpoint@)
                && crate::lab::port_of(v[i].endpoint@) == Some(p) {
            let i = choose|i: int|
                0 <= i < v.len() && crate::lab::host_side((#[trigger] v[i]).endpoint@)
                    && crate::lab::port_of(v[i].endpoint@) == Some(p);
            if i < t.len() {
                assert(t[i] == v[i]);
                let k = choose|k: int| 0 <= k < ports_of(t).len() && ports_of(t)[k] == p;
                assert(ports_of(v)[k] == p);
            } else {
                assert(ports_of(v)[ports_of(v).len() - 1] == p);
            }
        }
    }
}

/// What becomes of the sessions and the timer when a client connects.
pub open spec fn after_connecting(s: IdleUnload) -> IdleUnload {
    IdleUnload {
        sessions: (s.sessions + 1) as usize,
        generation: next_generation(s.generation),
        scheduled: false,
        ..s
    }
}

/// What becomes of them when a client leaves, and the timer that is started.
pub open spec fn after_leaving(s: IdleUnload, delay_secs: u64) -> (IdleUnload, Option<u64>) {
    let sessions: usize = if s.sessions == 0 {
        0
    } else {
        (s.sessions - 1) as usize
    };
    if sessions > 0 || delay_secs == 0 {
        (IdleUnload { sessions, ..s }, None)
    } else {
        (
            IdleUnload {
                sessions,
                generation: next_generation(s.generation),
                scheduled: true,
                ..s
            },
            Some(next_generation(s.generation)),
        )
    }
}

/// When the last client leaves a timer is started that unloads the models, and a
/// client that comes in time stops it for good, also if it leaves again.
pub proof fn law_timer_of_the_last_client(s: IdleUnload, delay_secs: u64, again: u64)
    requires
        s.sessions == 1,
        delay_secs > 0,
    ensures
        ({
            let (t, timer) = after_leaving(s, delay_secs);
            let back = after_connecting(t);
            &&& timer is Some
            &&& t.sessions == 0
            &&& t.scheduled
            &&& is_due(t, timer.unwrap())
            &&& back.sessions == 1
            &&& !back.scheduled
            &&& !is_due(back, timer.unwrap())
            &&& !is_due(after_leaving(back, again).0, timer.unwrap())
        }),
{
}

/// While clients are left, and where unloading is switched off, no timer is started
/// and none runs out.
pub proof fn law_models_stay_for_clients(s: IdleUnload, delay_secs: u64, timer: u64)
    ensures
        s.sessions > 1 ==> after_leaving(s, delay_secs).1 is None && !is_due(
            after_leaving(s, delay_secs).0,
            timer,
        ) && after_leaving(s, delay_secs).0.sessions == s.sessions - 1,
        delay_secs == 0 ==> after_leaving(s, delay_secs).1 is None,
        after_leaving(s, delay_secs).0.models_parked == s.models_parked,
        after_connecting(s).models_parked == s.models_parked,
{
}

/// The ports that are freed are those of the backends on the host and the three that
/// synthesis servers use.
pub proof fn law_ports_to_free(v: Seq<ActiveBackend>, p: u16)
    ensures
        is_common_port(p) <==> p == 8083 || p == 8086 || p == 8089,
        has_port(v, p as nat) <==> ports_of(v).contains(p as nat),
{
    law_ports_of_host_backends(v, p as nat);
    if has_port(v, p as nat) {
        let i = choose|i: int| 0 <= i < v.len() && host_port(#[trigger] v[i]) == Some(p as nat);
        assert(crate::lab::host_side(v[i].endpoint@));
    }
    if ports_of(v).contains(p as nat) {
        let i = choose|i: int|
            0 <= i < v.len() && crate::lab::host_side((#[trigger] v[i]).endpoint@)
                && crate::lab::port_of(v[i].endpoint@) == Some(p as nat);
        assert(host_port(v[i]) == Some(p as nat));
    }
}

} // verus!
