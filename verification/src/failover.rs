//! Watching the external language model server: when it fails a local one takes
//! over, and when it is back it serves again.

use crate::config::Config;
use crate::runtime::RuntimeState;
use crate::text;
use vstd::prelude::*;

verus! {

/// What the watch has seen.
#[derive(Debug, Clone, Copy, PartialEq, Eq, Structural)]
pub struct FailoverState {
    pub failures: u8,
    pub successes: u8,
    pub using_fallback: bool,
}

/// What the watch does.
#[derive(Debug, Clone, Copy, PartialEq, Eq, Structural)]
pub enum FailoverAction {
    Nothing,
    /// Make the local server serve.
    ActivateFallback,
    /// Make the external server serve again, then stop the local one.
    RestoreExternal,
}

pub open spec fn one_more(n: u8) -> u8 {
    if n == u8::MAX {
        n
    } else {
        (n + 1) as u8
    }
}

/// The counts after a look at the external server. While another model is wanted
/// nothing is counted.
pub open spec fn observed(s: FailoverState, wanted: bool, healthy: bool) -> FailoverState {
    if !wanted {
        FailoverState { failures: 0, successes: 0, using_fallback: false }
    } else if healthy {
        FailoverState { failures: 0, successes: one_more(s.successes), ..s }
    } else {
        FailoverState { failures: one_more(s.failures), successes: 0, ..s }
    }
}

/// What follows from a look at the external server.
pub open spec fn failover_action(
    s: FailoverState,
    wanted: bool,
    healthy: bool,
    idle: bool,
) -> FailoverAction {
    let t = observed(s, wanted, healthy);
    if !wanted {
        FailoverAction::Nothing
    } else if healthy && t.using_fallback && t.successes >= 2 && idle {
        FailoverAction::RestoreExternal
    } else if !healthy && !t.using_fallback && t.failures >= 2 {
        FailoverAction::ActivateFallback
    } else {
        FailoverAction::Nothing
    }
}

impl Default for FailoverState {
    fn default() -> (r: Self)
        ensures
            r.failures == 0,
            r.successes == 0,
            !r.using_fallback,
    {
        FailoverState { failures: 0, successes: 0, using_fallback: false }
    }
}

fn count_one_more(n: u8) -> (r: u8)
    ensures
        r == one_more(n),
{
    if n == u8::MAX {
        n
    } else {
        n + 1
    }
}

impl FailoverState {
    /// Takes note of a look at the external server and tells what to do.
    pub fn observe(&mut self, wanted: bool, healthy: bool, idle: bool) -> (r: FailoverAction)
        ensures
            *final(self) == observed(*old(self), wanted, healthy),
            r == failover_action(*old(self), wanted, healthy, idle),
    {
        if !wanted {
            self.failures = 0;
            self.successes = 0;
            self.using_fallback = false;
            return FailoverAction::Nothing;
        }
        if healthy {
            self.failures = 0;
            self.successes = count_one_more(self.successes);
            if self.using_fallback && self.successes >= 2 && idle {
                return FailoverAction::RestoreExternal;
            }
        } else {
            self.successes = 0;
            self.failures = count_one_more(self.failures);
            if !self.using_fallback && self.failures >= 2 {
                return FailoverAction::ActivateFallback;
            }
        }
        FailoverAction::Nothing
    }

    /// The local server serves.
    pub fn fallback_active(&mut self)
        ensures
            *final(self) == (FailoverState { using_fallback: true, ..*old(self) }),
    {
        self.using_fallback = true;
    }

    /// The external server serves again.
    pub fn external_restored(&mut self)
        ensures
            *final(self) == (FailoverState { using_fallback: false, ..*old(self) }),
    {
        self.using_fallback = false;
    }
}

/// Whether a runtime points at the external server and is else as another.
pub open spec fn points_at_external(
    a: RuntimeState,
    b: RuntimeState,
    url: Seq<char>,
    model: Seq<char>,
) -> bool {
    &&& b.llm_id@ == "external-openai"@
    &&& b.cfg.llm_base_url@ == url
    &&& b.cfg.model_name@ == model
    &&& b == (RuntimeState {
        llm_id: b.llm_id,
        cfg: Config { llm_base_url: b.cfg.llm_base_url, model_name: b.cfg.model_name, ..a.cfg },
        ..a
    })
}

/// Points the runtime at the external server again.
pub fn restore_external(rt: &mut RuntimeState, url: &str, model: &str)
    ensures
        points_at_external(*old(rt), *final(rt), url@, model@),
{
    rt.llm_id = String::from_str("external-openai");
    rt.cfg.llm_base_url = String::from_str(url);
    rt.cfg.model_name = String::from_str(model);
}

/// Where the external server tells which models it has.
pub fn models_url(base_url: &str) -> (r: String)
    ensures
        r@ == text::trim_end_of(base_url@, '/') + "/models"@,
{
    let base: String = text::without_trailing(base_url, '/');
    text::joined_pair(base.as_str(), "/models")
}

/// One bad look is not enough to leave the external server: the local one takes
/// over only after two in a row.
pub proof fn law_fallback_needs_two_failures(
    s: FailoverState,
    first: bool,
    second: bool,
    idle: bool,
)
    requires
        s.failures == 0,
        failover_action(observed(s, true, first), true, second, idle)
            == FailoverAction::ActivateFallback,
    ensures
        !first,
        !second,
{
}

/// One good look is not enough to go back to the external server either, and it is
/// never done while someone speaks.
pub proof fn law_return_needs_two_successes(
    s: FailoverState,
    first: bool,
    second: bool,
    idle: bool,
)
    requires
        s.successes == 0,
        failover_action(observed(s, true, first), true, second, idle)
            == FailoverAction::RestoreExternal,
    ensures
        first,
        second,
        idle,
{
}

/// Two failures in a row activate the fallback, whatever came before them.
pub proof fn law_two_failures_activate(s: FailoverState, idle: bool)
    requires
        !s.using_fallback,
    ensures
        failover_action(observed(s, true, false), true, false, idle)
            == FailoverAction::ActivateFallback,
{
}

/// Two successes in a row bring the external model back as soon as nobody speaks.
pub proof fn law_two_successes_restore(s: FailoverState)
    requires
        s.using_fallback,
    ensures
        failover_action(observed(s, true, true), true, true, true)
            == FailoverAction::RestoreExternal,
        failover_action(observed(s, true, true), true, true, false) == FailoverAction::Nothing,
{
}

/// The fallback is activated only once and left only where it is active; a look at a
/// healthy model never activates it, and one at a failing model never leaves it.
/// Where the external model is not wanted nothing is done and nothing is counted.
pub proof fn law_failover_is_not_repeated(s: FailoverState, wanted: bool, healthy: bool, idle: bool)
    ensures
        ({
            let a = failover_action(s, wanted, healthy, idle);
            let t = observed(s, wanted, healthy);
            &&& a == FailoverAction::ActivateFallback ==> wanted && !healthy && !s.using_fallback
            &&& a == FailoverAction::RestoreExternal ==> wanted && healthy && s.using_fallback
                && idle
            &&& wanted ==> t.using_fallback == s.using_fallback
            &&& wanted && healthy ==> t.failures == 0 && t.successes > 0
            &&& wanted && !healthy ==> t.successes == 0 && t.failures > 0
            &&& !wanted ==> t.failures == 0 && t.successes == 0 && !t.using_fallback
        }),
{
}

/// The external server takes over the language model and nothing else.
pub proof fn law_only_the_language_model_moves(
    a: RuntimeState,
    b: RuntimeState,
    url: Seq<char>,
    model: Seq<char>,
)
    requires
        points_at_external(a, b, url, model),
    ensures
        b.llm_id@ == "external-openai"@,
        b.cfg.llm_base_url@ == url,
        b.cfg.model_name@ == model,
        b.asr_id == a.asr_id,
        b.tts_id == a.tts_id,
        b.cfg.tts == a.cfg.tts,
        b.cfg.tts_url == a.cfg.tts_url,
        b.cfg.whisper_url == a.cfg.whisper_url,
        b.cfg.supertonic_voice == a.cfg.supertonic_voice,
        b.cfg.language == a.cfg.language,
{
}

} // verus!
