//! Activations, bring-up and recovery, driven against a control that only keeps a
//! record.

use s2s_vulkan::activation::{
    check_provisioned, prepare_target, requested_tts_id, requested_voice, stage_already_active,
    switch_targets, voice_requires_restart, Activation, ActivationPhase,
};
use s2s_vulkan::bring_up::{stage_candidates, BringUp, BringUpPhase, Reply};
use s2s_vulkan::config::Config;
use s2s_vulkan::containers::{
    abort_containers, active_backends, other_stage_containers, rollback_containers,
    unload_containers,
};
use s2s_vulkan::discovery::{
    active_bundled_asr, active_from_runtime, asks_bundled_asr, find_running_stage, merge_voices,
    tts_voice_loaded, voice_ids, voice_stems,
};
use s2s_vulkan::download::{
    cancel_download, installation_state, model_files, resolve_hf_token, ModelDownloadRecord,
};
use s2s_vulkan::failover::{FailoverAction, FailoverState};
use s2s_vulkan::host_runtime::{HostAgentStatus, HostProcessStatus};
use s2s_vulkan::lab::{
    activation_error_code, apply_runtime, endpoint_host_port, failed_status, is_safe_xtts_voice_id,
    provisioned_image, stack_status, stage_is_ready, ActivateStackRequest, ActiveBackend,
    ControllerState, LabStackStatus, ModelDownloadRequest, RuntimeProvisionStatus, StageTransition,
    TransitionPhase,
};
use s2s_vulkan::modules::{admit_install, module_status, InstallDecision};
use s2s_vulkan::parking::IdleUnload;
use s2s_vulkan::recovery::{
    reload_item, restore_items, Reload, ReloadPhase, Restore, RestorePhase,
};
use s2s_vulkan::registry::{
    BackendCatalog, BackendDefinition, BackendStage, BackendVariant, HardwareProfile,
    ModelArtifact, ResourceEstimate, ResourceStars, VoiceMode,
};
use s2s_vulkan::runtime::{runtime_from, status_of, RuntimeState, TurnCoordinator};
use s2s_vulkan::warmup::validate_tts_warmup_audio;

fn variant(id: &str, container: &str) -> BackendVariant {
    BackendVariant {
        id: id.to_string(),
        accelerator: "cpu".to_string(),
        vendors: vec!["any".to_string()],
        platforms: vec!["linux".to_string()],
        stable: true,
        published: true,
        runtime_delivery_reason: String::new(),
        device_match: vec![],
        endpoint: String::new(),
        native_endpoint: String::new(),
        container: container.to_string(),
        image: format!("test/{}:latest", id.trim_end_matches("-cpu")),
        image_download_size_bytes: 0,
        health_path: "/health".to_string(),
        environment: vec![],
        artifacts: vec![],
        bundled: None,
        protocol: String::new(),
        host_profile: String::new(),
    }
}

fn backend(id: &str, stage: BackendStage, container: &str) -> BackendDefinition {
    BackendDefinition {
        id: id.to_string(),
        stage,
        name: id.to_string(),
        tag: String::new(),
        description: String::new(),
        protocol: "mock".to_string(),
        model: id.to_string(),
        default_voice: if stage == BackendStage::Tts { "default".to_string() } else { String::new() },
        voices: vec![],
        voice_mode: VoiceMode::Fixed,
        native_sample_rate: 0,
        languages: vec![],
        licenses: vec![],
        access_url: String::new(),
        resources: ResourceEstimate {
            vram_gb: 1.0f32.to_bits(),
            ram_gb: 1.0f32.to_bits(),
            stars: ResourceStars { cpu: 0, gpu: 0, vram: 0 },
        },
        bundled: true,
        artifacts: vec![],
        variants: vec![variant(&format!("{id}-cpu"), container)],
    }
}

fn catalog(backends: Vec<BackendDefinition>) -> BackendCatalog {
    BackendCatalog { schema_version: 1, presets: vec![], backends }
}

fn switch_catalog() -> BackendCatalog {
    catalog(vec![
        backend("asr-a", BackendStage::Asr, "asr-a"),
        backend("asr-b", BackendStage::Asr, "asr-b"),
        backend("tts-fail", BackendStage::Tts, "tts-fail"),
    ])
}

fn cpu_hardware() -> HardwareProfile {
    let mut profile = HardwareProfile {
        vendor: "unknown".to_string(),
        device_name: "CPU".to_string(),
        accelerators: vec!["cpu".to_string()],
        platform: "linux".to_string(),
        in_container: false,
        allow_experimental: false,
        vram_total_gb: None,
        vram_free_gb: None,
        ram_total_gb: None,
        ram_available_gb: None,
        host_agent_online: false,
        host_profiles: vec![],
        tier: "cpu-light".to_string(),
    };
    profile.recompute_tier(&None);
    profile
}

fn active(id: &str, container: &str) -> ActiveBackend {
    ActiveBackend {
        backend_id: id.to_string(),
        variant_id: format!("{id}-cpu"),
        accelerator: "cpu".to_string(),
        endpoint: String::new(),
        container: container.to_string(),
    }
}

struct Lab {
    catalog: BackendCatalog,
    hardware: HardwareProfile,
    runtime: RuntimeState,
    state: ControllerState,
    docker: bool,
    turns: TurnCoordinator,
    waited: bool,
    running: Vec<String>,
    actions: Vec<String>,
    fail_start: Vec<String>,
    missing_variants: Vec<String>,
}

impl Lab {
    fn new(catalog: BackendCatalog, docker: bool) -> Lab {
        Lab {
            catalog,
            hardware: cpu_hardware(),
            runtime: runtime_from(Config::default()),
            state: ControllerState::default(),
            docker,
            turns: TurnCoordinator::default(),
            waited: false,
            running: vec![],
            actions: vec![],
            fail_start: vec![],
            missing_variants: vec![],
        }
    }

    fn start(&mut self, container: &str) -> Reply {
        self.actions.push(format!("start:{container}"));
        if self.fail_start.iter().any(|c| c == container) {
            return Reply::Failed(format!("injected start failure for {container}"));
        }
        if !self.running.iter().any(|c| c == container) {
            self.running.push(container.to_string());
        }
        Reply::Done
    }

    fn stop(&mut self, container: &str) {
        self.actions.push(format!("stop:{container}"));
        self.running.retain(|c| c != container);
    }

    fn runs(&self, container: &str) -> bool {
        self.running.iter().any(|c| c == container)
    }

    fn reconcile(&mut self) {
        for stage in [BackendStage::Asr, BackendStage::Tts, BackendStage::Llm] {
            let id = match stage {
                BackendStage::Asr => self.runtime.asr_id.clone(),
                BackendStage::Tts => self.runtime.tts_id.clone(),
                BackendStage::Llm => self.runtime.llm_id.clone(),
            };
            let mut found =
                active_from_runtime(&self.catalog, &self.hardware, &id, self.docker, &self.running);
            if found.is_none() {
                found = find_running_stage(
                    &self.catalog,
                    &self.hardware,
                    stage,
                    self.docker,
                    &self.running,
                );
            }
            if let Some(a) = found {
                let b = self.catalog.find(&a.backend_id).unwrap();
                let v = b.variants.iter().find(|v| v.id == a.variant_id).unwrap();
                if b.stage == stage {
                    apply_runtime(&mut self.runtime, b, v, &a.endpoint, None, &None);
                    self.state.set_active(stage, a);
                }
            }
        }
    }

    fn already_active(&self, stage: BackendStage, id: &Option<String>) -> bool {
        let Some(id) = id else { return false };
        let active = self.state.active(stage);
        let running = match active {
            Some(a) => self.runs(&a.container),
            None => false,
        };
        stage_already_active(&self.catalog, active, stage, id, &None, self.docker, running)
    }

    fn bring_up(&mut self, a: &mut Activation) -> Result<s2s_vulkan::bring_up::StagePlan, String> {
        let stage = a.targets[a.pos].stage;
        let id = a.targets[a.pos].id.clone();
        let candidates =
            stage_candidates(&self.catalog, &self.hardware, stage, &id, &None, &Some(a.runtime.clone()))?;
        let mut b =
            BringUp::new(stage, &id, candidates, self.docker, self.state.active(stage), &self.catalog);
        loop {
            if let Some(t) = b.notice() {
                a.announce(t);
            }
            let container = if b.pos < b.candidates.len() {
                b.candidates[b.pos].container.clone()
            } else {
                String::new()
            };
            let previous = match &b.previous {
                Some(p) => p.container.clone(),
                None => String::new(),
            };
            let reply = match b.phase {
                BringUpPhase::AskingPrevious => {
                    if self.runs(&previous) {
                        Reply::Done
                    } else {
                        Reply::Failed(String::new())
                    }
                }
                BringUpPhase::PausingPrevious => {
                    self.stop(&previous);
                    Reply::Done
                }
                BringUpPhase::StartingContainer => self.start(&container),
                BringUpPhase::StoppingContainer => {
                    self.stop(&container);
                    Reply::Done
                }
                BringUpPhase::RestoringPrevious => self.start(&previous),
                BringUpPhase::StartingHost => Reply::Failed("no host agent".to_string()),
                BringUpPhase::Succeeded => return Ok(b.plan().unwrap()),
                BringUpPhase::Failed => return Err(b.error.clone().unwrap_or_default()),
                _ => Reply::Done,
            };
            b.step(reply);
        }
    }

    fn restore(&mut self, snapshot: &ControllerState) -> Reply {
        for c in rollback_containers(&self.catalog, snapshot) {
            if self.runs(&c) {
                self.stop(&c);
            }
        }
        let items = restore_items(&self.catalog, snapshot, self.docker);
        let mut r = Restore::new(items);
        loop {
            let reply = match r.phase {
                RestorePhase::StartingContainer => {
                    let c = r.items[r.pos].active.container.clone();
                    if self.runs(&c) {
                        Reply::Done
                    } else {
                        self.start(&c)
                    }
                }
                RestorePhase::Done => return Reply::Done,
                RestorePhase::Failed => return Reply::Failed(r.error.clone().unwrap_or_default()),
                _ => Reply::Done,
            };
            r.step(reply);
        }
    }

    fn activate(&mut self, request: ActivateStackRequest) -> LabStackStatus {
        let voice = match requested_voice(&self.catalog, &request, &self.state, &self.runtime, false) {
            Ok(v) => v,
            Err(m) => return failed_status(&self.state, &self.runtime, m),
        };
        let tts_id = requested_tts_id(&request, &self.runtime);
        let restart = voice_requires_restart(&self.catalog, &tts_id, &self.runtime, &voice);
        let targets = switch_targets(
            &self.catalog,
            &self.hardware,
            &request,
            self.already_active(BackendStage::Asr, &request.asr_id),
            self.already_active(BackendStage::Tts, &request.tts_id),
            self.already_active(BackendStage::Llm, &request.llm_id),
            restart,
            &tts_id,
        );
        self.turns.pause();
        let mut a = Activation::new(
            targets,
            voice,
            self.docker,
            self.runtime.clone(),
            self.state.clone(),
        );
        let status = loop {
            let reply = match a.phase {
                ActivationPhase::Preparing => {
                    let stage = a.targets[a.pos].stage;
                    let id = a.targets[a.pos].id.clone();
                    match prepare_target(&self.catalog, &self.hardware, self.docker, stage, &id) {
                        Ok((b, v)) => {
                            let v = &self.catalog.backends[b].variants[v];
                            let state = if self.missing_variants.contains(&v.id) { "missing" } else { "ready" };
                            match check_provisioned(v, state) {
                                Ok(()) => Reply::Done,
                                Err(m) => Reply::Failed(m),
                            }
                        }
                        Err(m) => Reply::Failed(m),
                    }
                }
                ActivationPhase::BringingUp => match self.bring_up(&mut a) {
                    Ok(plan) => {
                        a.brought_up(&self.catalog, plan);
                        continue;
                    }
                    Err(m) => Reply::Failed(m),
                },
                ActivationPhase::Restoring => {
                    for c in abort_containers(&a.plans, &a.state_before) {
                        self.stop(&c);
                    }
                    let snapshot = a.state_before.clone();
                    self.restore(&snapshot)
                }
                ActivationPhase::RollingBack => {
                    let snapshot = a.state_before.clone();
                    self.restore(&snapshot)
                }
                ActivationPhase::Clearing => {
                    let plan = &a.plans[a.pos];
                    for c in other_stage_containers(
                        &self.catalog,
                        plan.stage,
                        &plan.container,
                        &plan.backend_id,
                    ) {
                        self.stop(&c);
                    }
                    Reply::Done
                }
                ActivationPhase::Draining => {
                    while !self.turns.is_idle() {
                        self.waited = true;
                        assert!(!self.turns.try_acquire());
                        self.turns.release_turn();
                    }
                    Reply::Done
                }
                ActivationPhase::Releasing | ActivationPhase::Reloading => Reply::Done,
                ActivationPhase::Finishing => break a.finish(),
                ActivationPhase::Succeeded => break stack_status(&a.state, &a.runtime),
                ActivationPhase::Failed => break a.failed_report(),
            };
            a.step(&self.catalog, &None, reply);
        };
        self.turns.resume();
        self.runtime = a.runtime.clone();
        self.state = a.state.clone();
        status
    }

    fn unload(&mut self) {
        for c in unload_containers(&self.catalog, &self.state, &self.running.clone()) {
            self.stop(&c);
        }
    }

    fn reload(&mut self) {
        let mut items = vec![];
        for a in active_backends(&self.state) {
            items.push(reload_item(&self.catalog, &a));
        }
        let mut r = Reload::new(items, self.docker);
        loop {
            let reply = match r.phase {
                ReloadPhase::Asking => {
                    let c = r.items[r.item].containers[r.container].name.clone();
                    if self.runs(&c) {
                        Reply::Done
                    } else {
                        Reply::Failed(String::new())
                    }
                }
                ReloadPhase::StartingContainer => {
                    let c = r.items[r.item].containers[r.container].name.clone();
                    self.start(&c)
                }
                ReloadPhase::Done | ReloadPhase::Failed => return,
                _ => Reply::Done,
            };
            r.step(reply);
        }
    }
}

fn request(asr: Option<&str>, tts: Option<&str>) -> ActivateStackRequest {
    ActivateStackRequest {
        asr_id: asr.map(|s| s.to_string()),
        tts_id: tts.map(|s| s.to_string()),
        llm_id: None,
        voice: None,
    }
}

#[test]
fn voice_only_activation_validates_qwen_catalog_and_preserves_runtime_on_error() {
    let mut qwen = backend("qwen3-tts-0.6b", BackendStage::Tts, "");
    qwen.default_voice = "Aiden".to_string();
    qwen.voices = vec!["Aiden".to_string(), "Serena".to_string(), "Vivian".to_string()];
    let mut lab = Lab::new(catalog(vec![qwen]), false);
    lab.runtime.tts_id = "qwen3-tts-0.6b".to_string();
    lab.runtime.cfg.supertonic_voice = "Aiden".to_string();
    lab.reconcile();
    assert!(lab.turns.try_acquire());
    let selected = lab.activate(ActivateStackRequest {
        asr_id: None,
        tts_id: None,
        llm_id: None,
        voice: Some("serena".to_string()),
    });
    assert!(selected.ok, "{}", selected.message);
    assert!(lab.waited);
    assert_eq!(selected.runtime.voice, "Serena");

    let rejected = lab.activate(ActivateStackRequest {
        asr_id: None,
        tts_id: None,
        llm_id: None,
        voice: Some("not-a-qwen-voice".to_string()),
    });
    assert!(!rejected.ok);
    assert!(rejected.message.contains("not available"));
    assert_eq!(lab.runtime.cfg.supertonic_voice, "Serena");
}

#[test]
fn unknown_backend_does_not_mutate_runtime() {
    let mut asr = backend("asr-a", BackendStage::Asr, "asr-a");
    asr.variants[0].endpoint = "http://127.0.0.1:9".to_string();
    asr.variants[0].native_endpoint = "http://127.0.0.1:9".to_string();
    let mut lab = Lab::new(catalog(vec![asr]), false);
    let before = status_of(&lab.runtime);
    let result = lab.activate(request(Some("missing"), None));
    let after = status_of(&lab.runtime);
    assert!(!result.ok);
    assert_eq!(before.asr, after.asr);
    assert_eq!(before.whisper_url, after.whisper_url);
}

#[test]
fn asr_switch_without_llm_id_preserves_active_llm() {
    let mut lab = Lab::new(switch_catalog(), true);
    lab.running.push("asr-a".to_string());
    lab.state.set_active(BackendStage::Asr, active("asr-a", "asr-a"));
    let mut llm = active("llm-kept", "llm-kept");
    llm.endpoint = "http://127.0.0.1:9999".to_string();
    lab.state.set_active(BackendStage::Llm, llm);
    let result = lab.activate(request(Some("asr-b"), None));
    assert!(result.ok, "{}", result.message);
    assert_eq!(result.asr.as_ref().map(|item| item.backend_id.as_str()), Some("asr-b"));
    assert_eq!(result.llm.as_ref().map(|item| item.backend_id.as_str()), Some("llm-kept"));
}

#[test]
fn switch_keeps_exactly_one_asr_container_running() {
    let mut lab = Lab::new(switch_catalog(), true);
    lab.runtime.asr_id = "asr-a".to_string();
    lab.running.push("asr-a".to_string());
    lab.reconcile();
    let result = lab.activate(request(Some("asr-b"), None));
    assert!(result.ok, "{}", result.message);
    assert_eq!(lab.running, vec!["asr-b".to_string()]);
}

#[test]
fn reselecting_stopped_active_container_restarts_it() {
    let mut lab = Lab::new(switch_catalog(), true);
    lab.runtime.asr_id = "asr-a".to_string();
    lab.state.set_active(BackendStage::Asr, active("asr-a", "asr-a"));
    let result = lab.activate(request(Some("asr-a"), None));
    assert!(result.ok, "{}", result.message);
    assert!(lab.runs("asr-a"));
    assert!(lab.actions.contains(&"start:asr-a".to_string()));
}

#[test]
fn switching_to_native_backend_stops_previous_stage_container() {
    let mut lab = Lab::new(
        catalog(vec![
            backend("tts-old", BackendStage::Tts, "tts-old"),
            backend("tts-native", BackendStage::Tts, ""),
        ]),
        true,
    );
    lab.runtime.tts_id = "tts-old".to_string();
    lab.running.push("tts-old".to_string());
    lab.reconcile();
    let result = lab.activate(request(None, Some("tts-native")));
    assert!(result.ok, "{}", result.message);
    assert!(lab.running.is_empty());
    assert!(lab.actions.contains(&"stop:tts-old".to_string()));
}

#[test]
fn reconcile_discovers_running_backend_after_controller_restart() {
    let mut lab = Lab::new(switch_catalog(), true);
    lab.running.push("asr-b".to_string());
    lab.reconcile();
    assert_eq!(lab.runtime.asr_id, "asr-b");
    assert_eq!(lab.state.asr.map(|active| active.backend_id), Some("asr-b".to_string()));
}

#[test]
fn the_bundled_recogniser_is_recognised_at_its_address() {
    let mut confucius = backend("confucius4-r2t2", BackendStage::Asr, "");
    confucius.protocol = "openai-asr".to_string();
    confucius.variants[0].endpoint = "http://confucius-asr:8082".to_string();
    let c = catalog(vec![confucius]);
    let mut cfg = Config::default();
    cfg.whisper_url = "http://confucius-asr:8082".to_string();
    cfg.stt_api = s2s_vulkan::config::SttApi::Openai;
    let rt = runtime_from(cfg);
    let mut hardware = cpu_hardware();
    hardware.in_container = true;
    assert_eq!(rt.asr_id, "confucius4-r2t2");
    assert!(asks_bundled_asr(&rt, true, true));
    let found = active_bundled_asr(&c, &hardware, &rt, true, true).unwrap();
    assert_eq!(found.backend_id, "confucius4-r2t2");
    assert_eq!(found.variant_id, "confucius4-r2t2-cpu");
    assert_eq!(found.endpoint, "http://confucius-asr:8082");
    assert!(found.container.is_empty());
    assert!(active_bundled_asr(&c, &hardware, &rt, true, false).is_none());
}

#[test]
fn switch_waits_for_active_turn_and_reopens_gate_afterwards() {
    let mut lab = Lab::new(switch_catalog(), true);
    lab.runtime.asr_id = "asr-a".to_string();
    assert!(lab.turns.try_acquire());
    lab.running.push("asr-a".to_string());
    lab.reconcile();
    let result = lab.activate(request(Some("asr-b"), None));
    assert!(lab.waited);
    assert!(result.ok, "{}", result.message);
    assert!(lab.turns.try_acquire());
}

#[test]
fn turn_pause_rejects_new_turns_and_waits_for_existing_turn() {
    let mut turns = TurnCoordinator::default();
    assert!(turns.try_acquire());
    turns.pause();
    assert!(!turns.try_acquire());
    assert!(!turns.is_idle());
    assert!(turns.release_turn());
    assert!(turns.is_idle());
    turns.resume();
    assert!(turns.try_acquire());
}

#[test]
fn failed_second_stage_rolls_back_runtime_and_containers() {
    let mut lab = Lab::new(switch_catalog(), true);
    lab.runtime.asr_id = "asr-a".to_string();
    lab.running.push("asr-a".to_string());
    lab.fail_start.push("tts-fail".to_string());
    lab.reconcile();
    let result = lab.activate(request(Some("asr-b"), Some("tts-fail")));
    assert!(!result.ok);
    assert!(!result.last_transition_error.is_empty());
    assert_eq!(lab.runtime.asr_id, "asr-a");
    assert!(stage_is_ready(result.asr.as_ref(), &result.asr_transition, "asr-a"));
    assert_eq!(lab.running, vec!["asr-a".to_string()]);
}

#[test]
fn missing_module_preflight_preserves_ready_stack() {
    let mut lab = Lab::new(switch_catalog(), true);
    lab.runtime.asr_id = "asr-a".to_string();
    lab.running.push("asr-a".to_string());
    lab.missing_variants.push("asr-b-cpu".to_string());
    lab.reconcile();
    let result = lab.activate(request(Some("asr-b"), None));
    assert!(!result.ok);
    assert_eq!(result.error_code, "module_not_provisioned");
    assert!(result.last_transition_error.contains("module_not_provisioned"));
    assert!(stage_is_ready(result.asr.as_ref(), &result.asr_transition, "asr-a"));
    assert_eq!(lab.running, vec!["asr-a".to_string()]);
}

#[test]
fn idle_unload_stops_containers_after_last_session_leaves() {
    let mut lab = Lab::new(switch_catalog(), true);
    lab.runtime.asr_id = "asr-a".to_string();
    lab.running.push("asr-a".to_string());
    lab.reconcile();
    assert!(lab.runs("asr-a"));

    let mut idle = IdleUnload::default();
    idle.connected();
    let generation = idle.disconnected(1).unwrap();
    assert!(idle.due(generation));
    lab.unload();
    idle.parked();
    assert!(!lab.runs("asr-a"));
    assert!(lab.actions.iter().any(|action| action == "stop:asr-a"));

    assert!(idle.connected());
    lab.reload();
    idle.loaded();
    assert!(lab.runs("asr-a"));
}

#[test]
fn a_failed_rollback_leaves_the_state_but_for_the_error() {
    let c = switch_catalog();
    let mut state = ControllerState::default();
    state.set_active(BackendStage::Asr, active("asr-a", "asr-a"));
    let request =
        ActivateStackRequest { asr_id: Some("asr-b".to_string()), tts_id: None, llm_id: None, voice: None };
    let targets = switch_targets(&c, &cpu_hardware(), &request, false, false, false, false, "");
    let runtime = runtime_from(Config::default());
    let mut a = Activation::new(targets, None, true, runtime, state);
    a.step(&c, &None, Reply::Done);
    a.step(&c, &None, Reply::Done);
    assert_eq!(a.phase, ActivationPhase::BringingUp);
    assert_eq!(a.drain_secs(), 10);
    a.step(&c, &None, Reply::Failed("no answer".to_string()));
    assert_eq!(a.phase, ActivationPhase::Restoring);
    a.step(&c, &None, Reply::Failed("container gone".to_string()));
    assert_eq!(a.phase, ActivationPhase::Failed);
    assert!(a.rollback_failed);
    assert_eq!(a.state.asr.as_ref().unwrap().backend_id, "asr-a");
    assert!(a.state.last_transition_error.contains("rollback: container gone"));
    assert_eq!(a.state.asr_transition.phase, TransitionPhase::Failed);
    assert!(!a.failed_report().ok);
}

#[test]
fn a_client_stops_the_timer() {
    let mut idle = IdleUnload::default();
    idle.connected();
    let generation = idle.disconnected(1).unwrap();
    assert!(!idle.connected());
    assert!(!idle.due(generation));
    let later = idle.disconnected(1).unwrap();
    assert!(!idle.due(generation));
    assert!(idle.due(later));
}

#[test]
fn a_stack_is_restored_only_when_each_backend_is_warm() {
    let c = switch_catalog();
    let mut s = ControllerState::default();
    s.set_active(BackendStage::Asr, active("asr-a", "asr-a"));
    let mut good = Restore::new(restore_items(&c, &s, true));
    let mut seen = vec![];
    while good.phase != RestorePhase::Done {
        seen.push(good.phase);
        good.step(Reply::Done);
    }
    assert_eq!(
        seen,
        vec![
            RestorePhase::Checking,
            RestorePhase::StartingContainer,
            RestorePhase::ProbingContainer,
            RestorePhase::WarmingContainer
        ]
    );
    let mut bad = Restore::new(restore_items(&c, &s, true));
    bad.step(Reply::Done);
    bad.step(Reply::Done);
    bad.step(Reply::Failed("no answer".to_string()));
    assert_eq!(bad.phase, RestorePhase::Failed);
    assert!(bad.error.unwrap().contains("asr-a"));
}

#[test]
fn loading_starts_every_backend_of_the_host() {
    let mut c = switch_catalog();
    let v = &mut c.backends[0].variants[0];
    v.container = String::new();
    v.host_profile = "crispasr-whisper".to_string();
    let mut a = active("asr-a", "");
    a.endpoint = "http://host.docker.internal:8088".to_string();
    let item = reload_item(&c, &a);
    assert!(item.managed_host);
    let mut r = Reload::new(vec![item], true);
    while r.phase != ReloadPhase::Done {
        assert!(r.phase != ReloadPhase::Failed);
        r.step(Reply::Done);
    }
    assert_eq!(r.restarted, vec!["asr-a"]);
}

#[test]
fn idle_unload_stops_sibling_container_when_host_variant_active() {
    let mut hybrid = backend("tts-hybrid", BackendStage::Tts, "s2s-tts-hybrid");
    let mut host = variant("tts-hybrid-host", "");
    host.accelerator = "remote".to_string();
    host.endpoint = "http://host.docker.internal:8089/v1/audio/speech".to_string();
    host.native_endpoint = "http://127.0.0.1:8089/v1/audio/speech".to_string();
    host.image = String::new();
    hybrid.variants.insert(0, host);
    let mut lab = Lab::new(catalog(vec![hybrid]), true);
    lab.running.push("s2s-tts-hybrid".to_string());
    lab.state.set_active(
        BackendStage::Tts,
        ActiveBackend {
            backend_id: "tts-hybrid".to_string(),
            variant_id: "tts-hybrid-host".to_string(),
            accelerator: "remote".to_string(),
            endpoint: "http://host.docker.internal:8089/v1/audio/speech".to_string(),
            container: String::new(),
        },
    );
    lab.unload();
    assert!(!lab.runs("s2s-tts-hybrid"));
}

#[test]
fn native_host_port_pause_restores_only_the_active_stage_container() {
    let mut asr = backend("asr-a", BackendStage::Asr, "asr-a");
    let mut host = variant("asr-a-host", "");
    host.host_profile = "crispasr-whisper".to_string();
    asr.variants.insert(0, host);
    let c = catalog(vec![asr, backend("tts-fail", BackendStage::Tts, "tts-fail")]);
    let mut lab = Lab::new(switch_catalog(), true);
    lab.running.push("asr-a".to_string());
    lab.running.push("tts-fail".to_string());
    let candidates =
        stage_candidates(&c, &cpu_hardware(), BackendStage::Asr, "asr-a", &None, &None).unwrap();
    let host_only: Vec<_> = candidates.into_iter().take(1).collect();
    let mut b = BringUp::new(
        BackendStage::Asr,
        "asr-a",
        host_only,
        true,
        &Some(active("asr-a", "asr-a")),
        &c,
    );
    while b.phase != BringUpPhase::Failed {
        assert!(b.phase != BringUpPhase::Succeeded);
        let reply = match b.phase {
            BringUpPhase::PausingPrevious => {
                lab.stop("asr-a");
                assert!(!lab.runs("asr-a"));
                assert!(lab.runs("tts-fail"));
                Reply::Done
            }
            BringUpPhase::StartingHost => Reply::Failed("agent offline".to_string()),
            BringUpPhase::RestoringPrevious => lab.start("asr-a"),
            _ => Reply::Done,
        };
        b.step(reply);
    }
    assert_eq!(lab.actions, vec!["stop:asr-a", "start:asr-a"]);
    assert!(lab.runs("asr-a"));
    assert!(lab.runs("tts-fail"));
}

#[test]
fn provisioned_digest_overrides_catalog_tag_for_lifecycle_validation() {
    let mut runtime = RuntimeProvisionStatus::default();
    runtime.image = "registry/asr@sha256:immutable".to_string();
    assert_eq!(
        provisioned_image(&runtime, "registry/asr:cpu"),
        "registry/asr@sha256:immutable"
    );
    assert_eq!(
        provisioned_image(&RuntimeProvisionStatus::default(), "registry/asr:cpu"),
        "registry/asr:cpu"
    );
}

#[test]
fn observed_image_total_replaces_catalog_estimate() {
    let mut b = backend("asr-a", BackendStage::Asr, "asr-a");
    b.variants[0].image_download_size_bytes = 1000;
    let mut runtime = RuntimeProvisionStatus::default();
    runtime.state = "missing".to_string();
    runtime.image_download_size_bytes = 100;
    runtime.image_downloaded_bytes = 42;
    let status = module_status("asr-a", &b, &b.variants[0], true, 0, &None, runtime, &None);
    assert_eq!(status.image_download_size_bytes, 100);
    assert_eq!(status.image_downloaded_bytes, 42);
}

#[test]
fn qwen_warmup_requires_non_empty_aligned_pcm() {
    let qwen = backend("qwen3-tts-0.6b", BackendStage::Tts, "");
    assert!(validate_tts_warmup_audio(&qwen, &[]).is_err());
    assert!(validate_tts_warmup_audio(&qwen, &[0]).is_err());
    assert!(validate_tts_warmup_audio(&qwen, &[0, 0]).is_ok());
}

#[test]
fn xtts_warmup_requires_mono_pcm16_wav_at_24khz() {
    fn wav(sample_rate: u32) -> Vec<u8> {
        let mut cursor = std::io::Cursor::new(Vec::new());
        {
            let spec = hound::WavSpec {
                channels: 1,
                sample_rate,
                bits_per_sample: 16,
                sample_format: hound::SampleFormat::Int,
            };
            let mut writer = hound::WavWriter::new(&mut cursor, spec).unwrap();
            writer.write_sample::<i16>(0).unwrap();
            writer.finalize().unwrap();
        }
        cursor.into_inner()
    }

    let xtts = backend("xtts-v2", BackendStage::Tts, "");
    assert!(validate_tts_warmup_audio(&xtts, &[]).is_err());
    assert!(validate_tts_warmup_audio(&xtts, &wav(16_000)).is_err());
    assert!(validate_tts_warmup_audio(&xtts, &wav(24_000)).is_ok());
}

#[test]
fn xtts_voice_discovery_filters_paths_and_model_delete_keeps_user_voices() {
    let names = vec![
        "de_sample.wav".to_string(),
        "user_voice-2.wav".to_string(),
        "ignored.mp3".to_string(),
    ];
    assert_eq!(voice_ids(&voice_stems(&names)), vec!["de_sample", "user_voice-2"]);
    assert!(is_safe_xtts_voice_id("user_voice-2"));
    assert!(!is_safe_xtts_voice_id("../outside"));
    assert!(!is_safe_xtts_voice_id("voice.wav"));

    let mut xtts = backend("xtts-v2", BackendStage::Tts, "xtts-v2");
    xtts.bundled = false;
    xtts.artifacts = vec![ModelArtifact {
        source: "https://example.invalid/de_sample.wav".to_string(),
        path: "xtts-v2/voices/de_sample.wav".to_string(),
        sha256: String::new(),
        size: 6,
        auth: String::new(),
    }];
    let gone = model_files(&xtts, &xtts.variants[0]).unwrap();
    assert!(gone.iter().any(|f| f == "xtts-v2/voices/de_sample.wav"));
    assert!(!gone.iter().any(|f| f == "xtts-v2/voices/user_voice-2.wav"));
}

#[test]
fn optional_model_cleanup_only_removes_catalog_artifacts() {
    let mut optional = backend("optional", BackendStage::Asr, "optional");
    optional.bundled = false;
    optional.artifacts = vec![ModelArtifact {
        source: "https://example.invalid/model.bin".to_string(),
        path: "optional/model.bin".to_string(),
        sha256: String::new(),
        size: 4,
        auth: String::new(),
    }];
    let variant = optional.variants[0].clone();
    assert_eq!(installation_state(&optional, &variant, &vec![Some(4)]), (true, 4));
    let gone = model_files(&optional, &variant).unwrap();
    assert_eq!(gone, vec!["optional/model.bin", "optional/model.bin.part"]);
    assert!(!gone.iter().any(|f| f == "optional/keep.txt"));

    optional.artifacts[0].path = "..".to_string();
    assert_eq!(
        model_files(&optional, &variant),
        Err("invalid artifact filename '..'".to_string())
    );
}

#[test]
fn a_voice_file_is_a_wav_file_with_a_name() {
    let names: Vec<String> =
        ["A.WAV", ".wav", "wav", "a.b.wav", "b.wave"].iter().map(|n| n.to_string()).collect();
    assert_eq!(voice_stems(&names), vec!["A", "a.b"]);
}

#[test]
fn xtts_voices_are_those_with_safe_names() {
    let stems = vec![
        "user_voice-2".to_string(),
        "de_sample".to_string(),
        "../outside".to_string(),
        "voice.wav".to_string(),
    ];
    assert_eq!(voice_ids(&stems), vec!["de_sample", "user_voice-2"]);
    assert!(is_safe_xtts_voice_id("user_voice-2"));
    assert!(!is_safe_xtts_voice_id("../outside"));
    assert!(!is_safe_xtts_voice_id("voice.wav"));
    let merged = merge_voices(&vec!["de_sample".to_string()], &voice_ids(&stems));
    assert_eq!(merged, vec!["de_sample", "user_voice-2"]);
}

#[test]
fn readiness_requires_matching_active_backend_and_stable_phase() {
    let active = ActiveBackend {
        backend_id: "asr-a".to_string(),
        variant_id: "asr-a-cpu".to_string(),
        accelerator: "cpu".to_string(),
        endpoint: "http://127.0.0.1:9".to_string(),
        container: String::new(),
    };
    let mut transition = StageTransition {
        stage: BackendStage::Asr,
        phase: TransitionPhase::Idle,
        backend_id: "asr-a".to_string(),
        variant_id: "asr-a-cpu".to_string(),
        message: "idle".to_string(),
    };
    assert!(stage_is_ready(Some(&active), &transition, "asr-a"));
    transition.phase = TransitionPhase::Warming;
    assert!(!stage_is_ready(Some(&active), &transition, "asr-a"));
    transition.phase = TransitionPhase::Ready;
    assert!(!stage_is_ready(Some(&active), &transition, "asr-other"));
}

#[test]
fn error_codes_follow_the_message() {
    assert_eq!(activation_error_code("x module_not_provisioned y"), "module_not_provisioned");
    assert_eq!(
        activation_error_code("host_module_delivery_pending"),
        "host_module_delivery_pending"
    );
}

#[test]
fn ports_are_read_out_of_addresses() {
    assert_eq!(endpoint_host_port("http://127.0.0.1:8089/v1/audio/speech"), Some(8089));
    assert_eq!(endpoint_host_port("http://127.0.0.1/v1"), None);
}

#[test]
fn fallback_takes_two_failures_and_returns_after_two_successes() {
    let mut f = FailoverState::default();
    assert_eq!(f.observe(true, false, true), FailoverAction::Nothing);
    assert_eq!(f.observe(true, false, true), FailoverAction::ActivateFallback);
    f.fallback_active();
    assert_eq!(f.observe(true, true, true), FailoverAction::Nothing);
    assert_eq!(f.observe(true, true, true), FailoverAction::RestoreExternal);
}

#[test]
fn an_install_needs_the_current_revision() {
    let v = variant("asr-a-cpu", "asr-a");
    assert!(admit_install("old", "new", &v, true).is_err());
    assert!(matches!(admit_install("new", "new", &v, true), Ok(InstallDecision::Install)));
}

#[test]
fn only_a_running_download_is_cancelled() {
    let c = switch_catalog();
    let mut none: Option<ModelDownloadRecord> = None;
    assert!(cancel_download(&c, &cpu_hardware(), "asr-a", &mut none).is_err());
    assert!(cancel_download(&c, &cpu_hardware(), "nothing", &mut none).is_err());
    let mut some = Some(ModelDownloadRecord {
        variant_id: "asr-a-cpu".to_string(),
        state: "downloading".to_string(),
        downloaded_bytes: 5,
        total_bytes: 10,
        error: String::new(),
    });
    let answer = cancel_download(&c, &cpu_hardware(), "asr-a", &mut some).unwrap();
    assert_eq!(answer.downloaded_bytes, 5);
}

#[test]
fn a_voice_of_a_restarted_backend_is_loaded_by_its_process() {
    let mut tts = backend("tts-x", BackendStage::Tts, "tts-x");
    tts.voices = vec!["default".to_string(), "other".to_string()];
    let fixed = catalog(vec![tts.clone()]);
    assert!(tts_voice_loaded(&fixed, "tts-x", "default", true, &None, &None));
    assert!(!tts_voice_loaded(&fixed, "tts-y", "default", true, &None, &None));
    tts.voice_mode = VoiceMode::Restart;
    let c = catalog(vec![tts]);
    let serving = Some(active("tts-x", "tts-x"));
    let mut agent = HostAgentStatus::default();
    agent.processes = vec![HostProcessStatus {
        stage: "tts".to_string(),
        backend_id: "tts-x".to_string(),
        variant_id: "tts-x-cpu".to_string(),
        host_profile: String::new(),
        state: "running".to_string(),
        pid: 1,
        endpoint: String::new(),
        voice: "Other".to_string(),
    }];
    let agent = Some(agent);
    assert!(tts_voice_loaded(&c, "tts-x", "other", true, &serving, &agent));
    assert!(!tts_voice_loaded(&c, "tts-x", "default", true, &serving, &agent));
    assert!(!tts_voice_loaded(&c, "tts-x", "other", true, &None, &agent));
    assert!(!tts_voice_loaded(&c, "tts-x", "other", true, &serving, &None));
}

#[test]
fn a_failed_probe_stops_the_container_again() {
    let c = switch_catalog();
    let candidates =
        stage_candidates(&c, &cpu_hardware(), BackendStage::Asr, "asr-b", &None, &None).unwrap();
    let mut b = BringUp::new(BackendStage::Asr, "asr-b", candidates, true, &None, &c);
    let mut seen = vec![];
    while b.phase != BringUpPhase::Failed {
        seen.push(b.phase);
        let reply = match b.phase {
            BringUpPhase::ProbingContainer => Reply::Failed("no answer".to_string()),
            _ => Reply::Done,
        };
        b.step(reply);
    }
    assert_eq!(
        seen,
        vec![
            BringUpPhase::StartingContainer,
            BringUpPhase::ProbingContainer,
            BringUpPhase::StoppingContainer
        ]
    );
    assert_eq!(b.error.as_deref(), Some("no answer"));
    assert!(b.plan().is_none());
}

#[test]
fn bundled_model_never_downloads_or_deletes() {
    let b = backend("asr-a", BackendStage::Asr, "asr-a");
    let decision = s2s_vulkan::download::decide_download(
        &b,
        &b.variants[0],
        true,
        0,
        0,
        &None,
        &ModelDownloadRequest::default(),
        &None,
        &None,
        &None,
    )
    .unwrap();
    match decision {
        s2s_vulkan::download::DownloadDecision::Answer(a) => assert_eq!(a.state, "bundled"),
        _ => panic!("a bundled model is never fetched"),
    }
    assert!(s2s_vulkan::download::admit_delete(&b, &b.variants[0], false).is_err());
}

#[test]
fn optional_model_installation_counts_complete_files() {
    let mut optional = backend("optional", BackendStage::Asr, "optional");
    optional.bundled = false;
    optional.artifacts = vec![ModelArtifact {
        source: "https://example.invalid/model.bin".to_string(),
        path: "optional/model.bin".to_string(),
        sha256: String::new(),
        size: 4,
        auth: String::new(),
    }];
    let v = optional.variants[0].clone();
    assert_eq!(
        s2s_vulkan::download::installation_state(&optional, &v, &vec![Some(4)]),
        (true, 4)
    );
    assert_eq!(
        s2s_vulkan::download::installation_state(&optional, &v, &vec![None]),
        (false, 0)
    );
}

#[test]
fn resolve_hf_token_prefers_request_then_session_then_env() {
    let env = Some("env-token".to_string());
    let session = Some("session-token".to_string());
    let requested = Some("request-token".to_string());
    assert!(resolve_hf_token(&None, &None, &None, &None).is_none());
    assert_eq!(resolve_hf_token(&None, &None, &None, &env).as_deref(), Some("env-token"));
    assert_eq!(resolve_hf_token(&None, &session, &None, &env).as_deref(), Some("session-token"));
    assert_eq!(
        resolve_hf_token(&requested, &session, &None, &env).as_deref(),
        Some("request-token")
    );
}

#[test]
fn the_host_is_told_what_to_park_and_what_to_load() {
    let mut asr = active("asr-a", "");
    asr.endpoint = "http://host.docker.internal:8082/inference".to_string();
    let tts = active("tts-a", "s2s-tts");
    let both = vec![asr, tts];
    let request = s2s_vulkan::parking::unload_request(
        &vec!["tts-server".to_string()],
        &vec![8082, 8083],
        &vec!["tts-a (s2s-tts)".to_string()],
        &both,
        7,
    );
    assert_eq!(request.get("action").unwrap().as_str(), Some("unload"));
    assert_eq!(request.get("processes").unwrap().at(0).unwrap().as_str(), Some("tts-server"));
    assert_eq!(request.get("containers").unwrap().at(0).unwrap().as_str(), Some("tts-a (s2s-tts)"));
    assert_eq!(request.get("backends").unwrap().at(1).unwrap().as_str(), Some("tts-a"));
    match request.get("ports").unwrap().at(1) {
        Some(s2s_vulkan::json::Json::Number(n)) => assert_eq!(n, "8083"),
        other => panic!("{other:?}"),
    }
    match request.get("ts_unix") {
        Some(s2s_vulkan::json::Json::Number(n)) => assert_eq!(n, "7"),
        other => panic!("{other:?}"),
    }
    let request = s2s_vulkan::parking::reload_request(&vec![8082], &both, 9);
    assert_eq!(request.get("action").unwrap().as_str(), Some("reload"));
    let first = request.get("backends").unwrap().at(0).unwrap();
    assert_eq!(first.get("backend_id").unwrap().as_str(), Some("asr-a"));
    assert_eq!(
        first.get("endpoint").unwrap().as_str(),
        Some("http://host.docker.internal:8082/inference")
    );
    let second = request.get("backends").unwrap().at(1).unwrap();
    assert_eq!(second.get("container").unwrap().as_str(), Some("s2s-tts"));
}
