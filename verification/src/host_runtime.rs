//! Control plane for allowlisted native inference servers on the host.
//!
//! Commands and results are JSON files in a shared directory; a supervisor on
//! the host owns the processes and writes a heartbeat.

use crate::registry::{wrap, BackendStage, BackendVariant};
use crate::text;
use vstd::prelude::*;

verus! {

pub const HOST_SCHEMA_VERSION: u32 = 1;

pub const HEARTBEAT_MAX_AGE_SECS: u64 = 20;

/// Seconds to wait for the supervisor to acknowledge a command.
pub const COMMAND_TIMEOUT_SECS: u64 = 15;

#[derive(Debug)]
pub struct HostProcessStatus {
    pub stage: String,
    pub backend_id: String,
    pub variant_id: String,
    pub host_profile: String,
    pub state: String,
    pub pid: u32,
    pub endpoint: String,
    /// The voice that a synthesis process was started with.
    pub voice: String,
}

#[derive(Debug)]
pub struct HostAgentStatus {
    pub schema_version: u32,
    pub agent_version: String,
    pub updated_at_unix: u64,
    pub platform: String,
    pub device_name: String,
    pub accelerators: Vec<String>,
    pub profiles: Vec<String>,
    pub processes: Vec<HostProcessStatus>,
}

impl Default for HostAgentStatus {
    fn default() -> (r: Self)
        ensures
            r.schema_version == 0,
            r.agent_version@ == ""@,
            r.updated_at_unix == 0,
            r.platform@ == ""@,
            r.device_name@ == ""@,
            r.accelerators@.len() == 0,
            r.profiles@.len() == 0,
            r.processes@.len() == 0,
    {
        HostAgentStatus {
            schema_version: 0,
            agent_version: String::from_str(""),
            updated_at_unix: 0,
            platform: String::from_str(""),
            device_name: String::from_str(""),
            accelerators: Vec::new(),
            profiles: Vec::new(),
            processes: Vec::new(),
        }
    }
}

/// Whether a heartbeat counts at a moment.
pub open spec fn is_fresh(s: HostAgentStatus, now: u64) -> bool {
    &&& s.schema_version == HOST_SCHEMA_VERSION
    &&& s.updated_at_unix > 0
    &&& now <= s.updated_at_unix + HEARTBEAT_MAX_AGE_SECS
}

/// The process of a variant that the supervisor reports first.
pub open spec fn process_state(ps: Seq<HostProcessStatus>, variant_id: Seq<char>) -> Option<
    Seq<char>,
>
    decreases ps.len(),
{
    if ps.len() == 0 {
        None
    } else if ps[0].variant_id@ == variant_id {
        Some(ps[0].state@)
    } else {
        process_state(ps.drop_first(), variant_id)
    }
}

/// The state of a host runtime with the reason for it.
pub open spec fn host_state(s: HostAgentStatus, v: BackendVariant, now: u64) -> (
    Seq<char>,
    Seq<char>,
) {
    if !is_fresh(s, now) {
        ("unavailable"@, "host agent heartbeat is stale"@)
    } else if !text::lists(s.profiles@, v.host_profile@) {
        ("unavailable"@, "host profile '"@ + v.host_profile@ + "' is not configured"@)
    } else {
        match process_state(s.processes@, v.id@) {
            Some(state) => (
                if state.len() == 0 {
                    "unknown"@
                } else {
                    state
                },
                ""@,
            ),
            None => ("stopped"@, ""@),
        }
    }
}

/// Calls `SystemTime::elapsed` of std on the Unix epoch. Nothing is promised of the
/// seconds since then, or that there are any: they depend on the clock.
#[verifier::external_body]
fn clock_seconds() -> (now: Option<u64>)
{
    std::time::UNIX_EPOCH.elapsed().ok().map(|d| d.as_secs())
}

/// The seconds since the Unix epoch, zero if the clock stands before it.
fn unix_time() -> (now: u64)
{
    match clock_seconds() {
        Some(n) => n,
        None => 0,
    }
}

fn find_process(ps: &Vec<HostProcessStatus>, variant_id: &str) -> (r: Option<String>)
    ensures
        match r {
            Some(s) => process_state(ps@, variant_id@) == Some(s@),
            None => process_state(ps@, variant_id@) is None,
        },
{
    let mut i: usize = 0;
    assert(ps@.skip(0) =~= ps@);
    while i < ps.len()
        invariant
            i <= ps.len(),
            process_state(ps@, variant_id@) == process_state(ps@.skip(i as int), variant_id@),
        decreases ps.len() - i,
    {
        assert(ps@.skip(i as int)[0] == ps@[i as int]);
        if text::same(ps[i].variant_id.as_str(), variant_id) {
            return Some(ps[i].state.clone());
        }
        assert(ps@.skip(i as int).drop_first() =~= ps@.skip(i + 1));
        i += 1;
    }
    None
}

impl HostAgentStatus {
    /// Whether the heartbeat is of this protocol and not older than 20 seconds.
    pub fn fresh_at(&self, now: u64) -> (r: bool)
        ensures
            r == is_fresh(*self, now),
    {
        self.schema_version == HOST_SCHEMA_VERSION && self.updated_at_unix > 0 && (now
            <= self.updated_at_unix || now - self.updated_at_unix <= HEARTBEAT_MAX_AGE_SECS)
    }

    /// Whether the heartbeat is fresh by the clock of this machine.
    pub fn fresh(&self) -> (r: bool)
        ensures
            exists|now: u64| r == is_fresh(*self, now),
    {
        let now: u64 = unix_time();
        let r: bool = self.fresh_at(now);
        assert(r == is_fresh(*self, now));
        r
    }

    /// Whether the supervisor can launch a profile.
    pub fn profile_available(&self, profile: &str) -> (r: bool)
        ensures
            r == text::lists(self.profiles@, profile@),
    {
        text::listed(&self.profiles, profile)
    }

    /// The state of a host runtime at a moment, with the reason for it.
    pub fn runtime_state_at(&self, variant: &BackendVariant, now: u64) -> (r: (String, String))
        ensures
            (r.0@, r.1@) == host_state(*self, *variant, now),
    {
        if !self.fresh_at(now) {
            return (
                String::from_str("unavailable"),
                String::from_str("host agent heartbeat is stale"),
            );
        }
        if !self.profile_available(variant.host_profile.as_str()) {
            return (
                String::from_str("unavailable"),
                wrap("host profile '", variant.host_profile.as_str(), "' is not configured"),
            );
        }
        match find_process(&self.processes, variant.id.as_str()) {
            Some(state) => {
                if state.as_str().is_empty() {
                    (String::from_str("unknown"), String::from_str(""))
                } else {
                    (state, String::from_str(""))
                }
            },
            None => (String::from_str("stopped"), String::from_str("")),
        }
    }

    /// The state of a host runtime by the clock of this machine.
    pub fn runtime_state(&self, variant: &BackendVariant) -> (r: (String, String))
        ensures
            exists|now: u64| (r.0@, r.1@) == #[trigger] host_state(*self, *variant, now),
    {
        let now: u64 = unix_time();
        self.runtime_state_at(variant, now)
    }
}

pub open spec fn stage_text(stage: BackendStage) -> Seq<char> {
    match stage {
        BackendStage::Asr => "asr"@,
        BackendStage::Tts => "tts"@,
        BackendStage::Llm => "llm"@,
    }
}

/// The voice with which a host process is started: the requested one or else the
/// given one for synthesis, none for the other stages.
pub fn host_voice(stage: BackendStage, requested: &Option<String>, default_voice: &str) -> (r:
    String)
    ensures
        r@ == (if stage == BackendStage::Tts {
            match *requested {
                Some(v) => v@,
                None => default_voice@,
            }
        } else {
            ""@
        }),
{
    if stage != BackendStage::Tts {
        return String::from_str("");
    }
    match requested {
        Some(v) => v.clone(),
        None => String::from_str(default_voice),
    }
}

pub fn stage_name(stage: BackendStage) -> (r: &'static str)
    ensures
        r@ == stage_text(stage),
{
    match stage {
        BackendStage::Asr => "asr",
        BackendStage::Tts => "tts",
        BackendStage::Llm => "llm",
    }
}

/// A command for the supervisor.
#[derive(Debug)]
pub struct HostCommand {
    pub schema_version: u32,
    pub request_id: String,
    pub action: String,
    pub stage: String,
    pub backend_id: String,
    pub variant_id: String,
    pub host_profile: String,
    pub endpoint: String,
    pub voice: String,
    pub created_at_unix: u64,
}

/// What the supervisor answers.
#[derive(Debug)]
pub struct HostCommandResult {
    pub schema_version: u32,
    pub request_id: String,
    pub state: String,
    pub pid: u32,
    pub error: String,
}

/// Why a command for a variant is refused.
pub open spec fn command_fault(
    v: BackendVariant,
    status: Option<HostAgentStatus>,
    now: u64,
) -> Option<Seq<char>> {
    if v.host_profile@.len() == 0 {
        Some("variant '"@ + v.id@ + "' is not host-managed"@)
    } else {
        match status {
            None => Some("Windows host agent is not running"@),
            Some(s) => if !is_fresh(s, now) {
                Some("Windows host agent heartbeat is stale"@)
            } else if !text::lists(s.profiles@, v.host_profile@) {
                Some("Windows host profile '"@ + v.host_profile@ + "' is not configured"@)
            } else {
                None
            },
        }
    }
}

/// Checks that a host command for a variant may be sent.
pub fn admit_command(variant: &BackendVariant, status: &Option<HostAgentStatus>, now: u64) -> (r:
    Result<(), String>)
    ensures
        crate::registry::reports(r, command_fault(*variant, *status, now)),
{
    if variant.host_profile.as_str().is_empty() {
        return Err(wrap("variant '", variant.id.as_str(), "' is not host-managed"));
    }
    match status {
        None => Err(String::from_str("Windows host agent is not running")),
        Some(s) => {
            if !s.fresh_at(now) {
                return Err(String::from_str("Windows host agent heartbeat is stale"));
            }
            if !s.profile_available(variant.host_profile.as_str()) {
                return Err(
                    wrap(
                        "Windows host profile '",
                        variant.host_profile.as_str(),
                        "' is not configured",
                    ),
                );
            }
            Ok(())
        },
    }
}

/// The command that starts or stops the process of a variant.
pub fn host_command(
    action: &str,
    request_id: &str,
    stage: BackendStage,
    backend_id: &str,
    variant: &BackendVariant,
    endpoint: &str,
    voice: &str,
    now: u64,
) -> (r: HostCommand)
    ensures
        r.schema_version == HOST_SCHEMA_VERSION,
        r.request_id@ == request_id@,
        r.action@ == action@,
        r.stage@ == stage_text(stage),
        r.backend_id@ == backend_id@,
        r.variant_id@ == variant.id@,
        r.host_profile@ == variant.host_profile@,
        r.endpoint@ == endpoint@,
        r.voice@ == voice@,
        r.created_at_unix == now,
{
    HostCommand {
        schema_version: HOST_SCHEMA_VERSION,
        request_id: String::from_str(request_id),
        action: String::from_str(action),
        stage: String::from_str(stage_name(stage)),
        backend_id: String::from_str(backend_id),
        variant_id: variant.id.clone(),
        host_profile: variant.host_profile.clone(),
        endpoint: String::from_str(endpoint),
        voice: String::from_str(voice),
        created_at_unix: now,
    }
}

/// The command that stops every host process; it needs no heartbeat.
pub fn stop_all_command(request_id: &str, now: u64) -> (r: HostCommand)
    ensures
        r.schema_version == HOST_SCHEMA_VERSION,
        r.request_id@ == request_id@,
        r.action@ == "stop_all"@,
        r.stage@ == "tts"@,
        r.backend_id@ == "all-host-runtimes"@,
        r.variant_id@ == "all-host-runtimes"@,
        r.host_profile@ == "all"@,
        r.endpoint@ == ""@,
        r.voice@ == ""@,
        r.created_at_unix == now,
{
    HostCommand {
        schema_version: HOST_SCHEMA_VERSION,
        request_id: String::from_str(request_id),
        action: String::from_str("stop_all"),
        stage: String::from_str("tts"),
        backend_id: String::from_str("all-host-runtimes"),
        variant_id: String::from_str("all-host-runtimes"),
        host_profile: String::from_str("all"),
        endpoint: String::from_str(""),
        voice: String::from_str(""),
        created_at_unix: now,
    }
}

/// Why an answer to a command counts as a failure.
pub open spec fn result_fault(
    result: HostCommandResult,
    request_id: Seq<char>,
    action: Seq<char>,
) -> Option<Seq<char>> {
    if result.schema_version != HOST_SCHEMA_VERSION || result.request_id@ != request_id {
        Some("host agent returned a mismatched result"@)
    } else if result.error@.len() > 0 {
        Some("host agent "@ + action + " failed: "@ + result.error@ + ""@)
    } else if result.state@ == "error"@ {
        Some("host agent "@ + action + " failed: "@ + "unknown error"@ + ""@)
    } else {
        None
    }
}

/// The process id in an answer to a command.
pub fn check_result(result: &HostCommandResult, request_id: &str, action: &str) -> (r: Result<
    u32,
    String,
>)
    ensures
        match r {
            Ok(pid) => result_fault(*result, request_id@, action@) is None && pid == result.pid,
            Err(m) => result_fault(*result, request_id@, action@) == Some(m@),
        },
{
    if result.schema_version != HOST_SCHEMA_VERSION || !text::same(
        result.request_id.as_str(),
        request_id,
    ) {
        return Err(String::from_str("host agent returned a mismatched result"));
    }
    if !result.error.as_str().is_empty() {
        return Err(
            crate::registry::wrap2(
                "host agent ",
                action,
                " failed: ",
                result.error.as_str(),
                "",
            ),
        );
    }
    if text::same(result.state.as_str(), "error") {
        return Err(
            crate::registry::wrap2("host agent ", action, " failed: ", "unknown error", ""),
        );
    }
    Ok(result.pid)
}

/// The message when no answer came in time.
pub fn unacknowledged(action: &str) -> (r: String)
    ensures
        r@ == "host agent did not acknowledge '"@ + action@ + "' within 15 seconds"@,
{
    wrap("host agent did not acknowledge '", action, "' within 15 seconds")
}

/// The files of the control plane.
#[derive(Debug, Clone)]
pub struct HostRuntimeClient {
    root: String,
}

impl HostRuntimeClient {
    pub closed spec fn root_path(self) -> Seq<char> {
        self.root@
    }

    pub fn new(root: String) -> (r: Self)
        ensures
            r.root_path() == root@,
    {
        HostRuntimeClient { root }
    }

    pub fn status_path(&self) -> (r: String)
        ensures
            r@ == text::path_in(self.root_path(), "host-agent/status.json"@),
    {
        text::join_path(self.root.as_str(), "host-agent/status.json")
    }

    pub fn commands_dir(&self) -> (r: String)
        ensures
            r@ == text::path_in(self.root_path(), "host-agent/commands"@),
    {
        text::join_path(self.root.as_str(), "host-agent/commands")
    }

    pub fn results_dir(&self) -> (r: String)
        ensures
            r@ == text::path_in(self.root_path(), "host-agent/results"@),
    {
        text::join_path(self.root.as_str(), "host-agent/results")
    }

    /// The file of one command or result in its directory.
    pub fn file_in(dir: &str, request_id: &str) -> (r: String)
        ensures
            r@ == text::path_in(dir@, request_id@ + ".json"@),
    {
        let name: String = String::from_str(request_id).concat(".json");
        text::join_path(dir, name.as_str())
    }
}

/// No command is admitted without a fresh heartbeat that lists the profile.
pub proof fn law_host_start_needs_a_live_agent(
    v: BackendVariant,
    status: Option<HostAgentStatus>,
    now: u64,
)
    ensures
        command_fault(v, status, now) is None ==> (status matches Some(s) && is_fresh(s, now)
            && text::lists(s.profiles@, v.host_profile@)),
{
}

/// A heartbeat that is fresh was fresh at every earlier moment.
pub proof fn law_heartbeats_only_age(s: HostAgentStatus, earlier: u64, later: u64)
    requires
        earlier <= later,
        is_fresh(s, later),
    ensures
        is_fresh(s, earlier),
{
}

/// A heartbeat counts for twenty seconds, and only one of the known form.
pub proof fn law_heartbeat_counts_for_twenty_seconds(s: HostAgentStatus, now: u64)
    ensures
        s.schema_version == 1 && s.updated_at_unix > 0 ==> (is_fresh(s, now) <==> now
            <= s.updated_at_unix + 20),
        s.schema_version != 1 || s.updated_at_unix == 0 ==> !is_fresh(s, now),
{
}

/// The state of a variant is that of the first process that runs it; one without a
/// process is stopped, and one of an agent that is not heard of, or that does not
/// know its profile, is unavailable.
pub proof fn law_state_of_a_variant(s: HostAgentStatus, v: BackendVariant, now: u64, i: int)
    requires
        is_fresh(s, now),
        exists|k: int| 0 <= k < s.profiles@.len() && (#[trigger] s.profiles@[k])@ == v.host_profile@,
    ensures
        0 <= i < s.processes@.len() && s.processes@[i].variant_id@ == v.id@ && (forall|j: int|
            0 <= j < i ==> (#[trigger] s.processes@[j]).variant_id@ != v.id@)
            && s.processes@[i].state@.len() > 0 ==> host_state(s, v, now).0
            == s.processes@[i].state@,
        (forall|j: int|
            0 <= j < s.processes@.len() ==> (#[trigger] s.processes@[j]).variant_id@ != v.id@)
            ==> host_state(s, v, now).0 == "stopped"@,
{
    lemma_process_state(s.processes@, v.id@, i);
}

proof fn lemma_process_state(ps: Seq<HostProcessStatus>, id: Seq<char>, i: int)
    ensures
        0 <= i < ps.len() && ps[i].variant_id@ == id && (forall|j: int|
            0 <= j < i ==> (#[trigger] ps[j]).variant_id@ != id) ==> process_state(ps, id) == Some(
            ps[i].state@,
        ),
        (forall|j: int| 0 <= j < ps.len() ==> (#[trigger] ps[j]).variant_id@ != id)
            ==> process_state(ps, id) is None,
    decreases ps.len(),
{
    if ps.len() > 0 && ps[0].variant_id@ != id {
        let t = ps.drop_first();
        lemma_process_state(t, id, i - 1);
        assert(forall|j: int| 0 <= j < t.len() ==> #[trigger] t[j] == ps[j + 1]);
        if 0 <= i < ps.len() && ps[i].variant_id@ == id && (forall|j: int|
            0 <= j < i ==> (#[trigger] ps[j]).variant_id@ != id) {
            assert(t[i - 1] == ps[i]);
        }
    }
}

/// Whatever state is reported, an agent that is not heard of leaves its variants
/// unavailable.
pub proof fn law_silent_agent_is_unavailable(s: HostAgentStatus, v: BackendVariant, now: u64)
    ensures
        now > s.updated_at_unix + 20 ==> host_state(s, v, now).0 == "unavailable"@,
        (forall|k: int|
            0 <= k < s.profiles@.len() ==> (#[trigger] s.profiles@[k])@ != v.host_profile@)
            ==> host_state(s, v, now).0 == "unavailable"@,
{
}

/// A result counts only if it is of the known form and of the request that was made,
/// and reports no error.
pub proof fn law_result_belongs_to_the_request(
    r: HostCommandResult,
    request_id: Seq<char>,
    action: Seq<char>,
)
    ensures
        result_fault(r, request_id, action) is None <==> r.schema_version == 1 && r.request_id@
            == request_id && r.error@.len() == 0 && r.state@ != "error"@,
        r.schema_version == 1 && r.request_id@ == request_id && r.error@.len() > 0 ==> result_fault(
            r,
            request_id,
            action,
        ) == Some("host agent "@ + action + " failed: "@ + r.error@ + ""@),
{
}

/// A command goes only to an agent that is heard of and knows the profile.
pub proof fn law_command_is_admitted(v: BackendVariant, s: HostAgentStatus, now: u64)
    ensures
        command_fault(v, None, now) is Some,
        v.host_profile@.len() == 0 ==> command_fault(v, Some(s), now) is Some,
        now > s.updated_at_unix + 20 ==> command_fault(v, Some(s), now) is Some,
        v.host_profile@.len() > 0 && s.schema_version == 1 && s.updated_at_unix > 0 && now
            <= s.updated_at_unix + 20 && (exists|k: int|
            0 <= k < s.profiles@.len() && (#[trigger] s.profiles@[k])@ == v.host_profile@)
            ==> command_fault(v, Some(s), now) is None,
{
}

/// The stages go by their names in small letters.
pub proof fn law_names_of_stages()
    ensures
        stage_text(BackendStage::Asr) == "asr"@,
        stage_text(BackendStage::Tts) == "tts"@,
        stage_text(BackendStage::Llm) == "llm"@,
{
}

} // verus!
