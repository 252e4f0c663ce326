//! The agent on the host: heartbeats and commands.

use s2s_vulkan::discovery::merge_host_agent;
use s2s_vulkan::host_runtime::{
    admit_command, check_result, host_command, host_voice, stage_name, stop_all_command, unacknowledged,
    HostAgentStatus, HostCommandResult, HostRuntimeClient,
};
use s2s_vulkan::registry::{BackendStage, BackendVariant, HardwareProfile};
use std::time::{SystemTime, UNIX_EPOCH};

fn unix_time() -> u64 {
    SystemTime::now().duration_since(UNIX_EPOCH).unwrap().as_secs()
}

fn variant(id: &str, protocol: &str, profile: &str, port: u16) -> BackendVariant {
    BackendVariant {
        id: id.to_string(),
        accelerator: "vulkan".to_string(),
        vendors: vec!["intel".to_string()],
        platforms: vec!["windows".to_string()],
        stable: false,
        published: true,
        runtime_delivery_reason: String::new(),
        device_match: vec!["arc b580".to_string()],
        endpoint: format!("http://host.docker.internal:{port}"),
        native_endpoint: format!("http://127.0.0.1:{port}"),
        container: String::new(),
        image: String::new(),
        image_download_size_bytes: 0,
        health_path: "/health".to_string(),
        environment: vec![],
        artifacts: vec![],
        bundled: Some(false),
        protocol: protocol.to_string(),
        host_profile: profile.to_string(),
    }
}

#[test]
fn stale_heartbeat_is_not_accepted() {
    let mut status = HostAgentStatus::default();
    status.schema_version = 1;
    status.updated_at_unix = unix_time().saturating_sub(21);
    assert!(!status.fresh());
}

#[test]
fn fresh_heartbeat_exposes_allowlisted_profile() {
    let mut status = HostAgentStatus::default();
    status.schema_version = 1;
    status.updated_at_unix = unix_time();
    status.profiles = vec!["crispasr-whisper".to_string()];
    assert!(status.fresh());
    assert!(status.profile_available("crispasr-whisper"));
    assert!(!status.profile_available("powershell"));
}

#[test]
fn a_heartbeat_ages_within_twenty_seconds() {
    let mut status = HostAgentStatus::default();
    status.schema_version = 1;
    status.updated_at_unix = 1_000;
    assert!(status.fresh_at(900));
    assert!(status.fresh_at(1_000));
    assert!(status.fresh_at(1_020));
    assert!(!status.fresh_at(1_021));
    status.schema_version = 2;
    assert!(!status.fresh_at(1_000));
}

#[test]
fn only_synthesis_is_started_with_a_voice() {
    let asked = Some("anna".to_string());
    assert_eq!(host_voice(BackendStage::Tts, &asked, "default"), "anna");
    assert_eq!(host_voice(BackendStage::Tts, &None, "default"), "default");
    assert_eq!(host_voice(BackendStage::Asr, &asked, "default"), "");
    assert_eq!(host_voice(BackendStage::Llm, &None, "default"), "");
}

#[test]
fn start_uses_uuid_command_and_matching_result() {
    let mut status = HostAgentStatus::default();
    status.schema_version = 1;
    status.updated_at_unix = unix_time();
    status.platform = "windows".to_string();
    status.accelerators = vec!["vulkan".to_string()];
    status.profiles = vec!["crispasr-whisper".to_string()];
    let v = variant("fw-base-vulkan-windows-b580", "whisper-cpp", "crispasr-whisper", 8082);
    let now = unix_time();
    admit_command(&v, &Some(status), now).unwrap();
    let request_id = uuid::Uuid::new_v4().to_string();
    let command = host_command(
        "start",
        &request_id,
        BackendStage::Asr,
        "fw-base",
        &v,
        "http://host.docker.internal:8082",
        "",
        now,
    );
    assert_eq!(command.action, "start");
    assert_eq!(command.host_profile, "crispasr-whisper");
    assert_eq!(command.backend_id, "fw-base");
    assert_eq!(command.stage, "asr");
    uuid::Uuid::parse_str(&command.request_id).unwrap();
    let mut result = HostCommandResult {
        schema_version: 1,
        request_id: request_id.clone(),
        state: "starting".to_string(),
        pid: 4242,
        error: String::new(),
    };
    assert_eq!(check_result(&result, &request_id, "start").unwrap(), 4242);
    result.request_id = "other".to_string();
    assert!(check_result(&result, &request_id, "start").is_err());
}

#[test]
fn missing_agent_blocks_host_start() {
    let v =
        variant("supertonic-webgpu-vulkan-windows-b580", "openai-tts", "supertonic-webgpu", 8085);
    let error = admit_command(&v, &None, unix_time()).unwrap_err();
    assert!(error.contains("not running"));
}

#[test]
fn all_processes_are_stopped_by_one_command() {
    let c = stop_all_command("id", 7);
    assert_eq!(c.request_id, "id");
    assert_eq!(c.created_at_unix, 7);
    assert_eq!(stage_name(BackendStage::Tts), "tts");
    assert!(unacknowledged("stop").contains("stop"));
}

#[test]
fn files_stand_under_the_agent_directory() {
    let client = HostRuntimeClient::new("/data".to_string());
    assert_eq!(client.status_path(), "/data/host-agent/status.json");
    assert_eq!(client.commands_dir(), "/data/host-agent/commands");
    assert_eq!(client.results_dir(), "/data/host-agent/results");
    assert_eq!(HostRuntimeClient::file_in("/x", "id"), "/x/id.json");
}

#[test]
fn a_running_process_is_found() {
    let v = variant("fw-base-vulkan-windows-b580", "whisper-cpp", "crispasr-whisper", 8082);
    let mut status = HostAgentStatus::default();
    status.schema_version = 1;
    status.updated_at_unix = 100;
    status.profiles = vec!["crispasr-whisper".to_string()];
    assert_eq!(status.runtime_state_at(&v, 110).0, "stopped");
    assert_eq!(status.runtime_state_at(&v, 121).0, "unavailable");
    assert!(status.fresh_at(120));
    assert!(!status.fresh_at(121));
}

#[test]
fn an_agent_that_is_online_changes_the_profile() {
    let mut hw = HardwareProfile {
        vendor: "intel".to_string(),
        device_name: "Intel Arc B580".to_string(),
        accelerators: vec!["cpu".to_string()],
        platform: "linux".to_string(),
        in_container: true,
        allow_experimental: false,
        vram_total_gb: None,
        vram_free_gb: None,
        ram_total_gb: None,
        ram_available_gb: None,
        host_agent_online: false,
        host_profiles: vec![],
        tier: "cpu-light".to_string(),
    };
    merge_host_agent(&mut hw, &None, &None);
    assert!(!hw.host_agent_online);
}
