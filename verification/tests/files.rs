//! Checksums, downloads, containers and devices.

use s2s_vulkan::devices::find_device;
use s2s_vulkan::digest::{catalog_revision, checksum_is_expected, checksum_of, Checksum};
use s2s_vulkan::docker::{
    check_action, check_inspection, check_managed, is_running, managed_names, means_absent,
    module_url, running_url, stop_action, urlencoding_encode, validate_managed_target,
};
use s2s_vulkan::download::{
    access_fault, artifact_token, begin_attempt, check_partial, ended_record, part_path,
    partial_bytes, range_header, resumes, retry_after, AttemptStart, Fetch,
};
use s2s_vulkan::json::Json;
use s2s_vulkan::lab::{ActiveBackend, ControllerState, RuntimeProvisionStatus};
use s2s_vulkan::modules::{
    admit_cancel, admit_removal, finish_install, installing_record, is_installing, module_status,
    runtime_without_asking, takes_back, wait_for_model, WaitStep, HOST_PENDING, NO_CONTROLLER,
};
use s2s_vulkan::registry::{
    check_sizes, BackendDefinition, BackendStage, BackendVariant, ModelArtifact, ResourceEstimate,
    ResourceStars, VoiceMode,
};
use s2s_vulkan::text;

const ABC: &str = "ba7816bf8f01cfea414140de5dae2223b00361a396177a9cb410ff61f20015ad";

fn artifact(size: u64, sha256: &str) -> ModelArtifact {
    ModelArtifact {
        source: "https://huggingface.co/x/resolve/main/model.bin".to_string(),
        path: "x/model.bin".to_string(),
        sha256: sha256.to_string(),
        size,
        auth: String::new(),
    }
}

fn text_value(s: &str) -> Json {
    Json::Text(s.to_string())
}

fn object(members: Vec<(&str, Json)>) -> Json {
    Json::Object(members.into_iter().map(|(k, v)| (k.to_string(), v)).collect())
}

#[test]
fn checksums_of_pieces_are_those_of_the_whole() {
    assert_eq!(checksum_of(b"abc"), ABC);
    let mut c = Checksum::new();
    c.feed(b"a");
    c.feed(b"bc");
    assert_eq!(c.text(), ABC);
    assert!(checksum_is_expected(&ABC.to_uppercase(), ABC));
    assert!(checksum_is_expected("", ABC));
    assert!(!checksum_is_expected("00", ABC));
    assert!(catalog_revision(b"abc").contains(&ABC[0..8]));
}

#[test]
fn fetched_files_are_checked() {
    let mut f = Fetch::new(&artifact(3, ABC));
    assert!(f.reuse(b"a").is_ok());
    assert!(f.chunk(b"bc").is_ok());
    assert_eq!(f.finish().ok().unwrap(), 3);

    let mut long = Fetch::new(&artifact(2, ""));
    assert!(long.chunk(b"abc").is_err());

    let mut short = Fetch::new(&artifact(4, ""));
    assert!(short.chunk(b"abc").is_ok());
    assert!(short.finish().is_err());

    let mut wrong = Fetch::new(&artifact(3, ABC));
    assert!(wrong.chunk(b"abd").is_ok());
    assert!(wrong.finish().is_err());
}

#[test]
fn partial_files_are_resumed() {
    assert!(matches!(begin_attempt(&artifact(3, ""), 4), AttemptStart::Discard));
    assert!(matches!(begin_attempt(&artifact(3, ""), 3), AttemptStart::Promote));
    assert!(matches!(begin_attempt(&artifact(3, ""), 1), AttemptStart::Fetch { from: 1 }));
    assert_eq!(check_partial(&artifact(3, ABC), ABC), Ok(3));
    assert!(check_partial(&artifact(3, "00"), ABC).is_err());
    assert!(resumes(1, 206));
    assert!(!resumes(1, 200));
    assert_eq!(range_header(0), None);
    assert_eq!(range_header(5).as_deref(), Some("bytes=5-"));
    assert_eq!(part_path("x/model.bin").unwrap(), "x/model.bin.part");
}

fn a_variant() -> BackendVariant {
    BackendVariant {
        id: "m-cpu".to_string(),
        accelerator: "cpu".to_string(),
        vendors: vec![],
        platforms: vec![],
        stable: true,
        published: true,
        runtime_delivery_reason: String::new(),
        device_match: vec![],
        endpoint: String::new(),
        native_endpoint: String::new(),
        container: "m".to_string(),
        image: "registry/m:1".to_string(),
        image_download_size_bytes: 0,
        health_path: "/health".to_string(),
        environment: vec![],
        artifacts: vec![artifact(3, ""), artifact(4, ""), artifact(5, "")],
        bundled: None,
        protocol: String::new(),
        host_profile: String::new(),
    }
}

fn a_backend() -> BackendDefinition {
    BackendDefinition {
        id: "m".to_string(),
        stage: BackendStage::Asr,
        name: "m".to_string(),
        tag: String::new(),
        description: String::new(),
        protocol: "mock".to_string(),
        model: "m".to_string(),
        default_voice: String::new(),
        voices: vec![],
        voice_mode: VoiceMode::Fixed,
        native_sample_rate: 0,
        languages: vec![],
        licenses: vec![],
        access_url: String::new(),
        resources: ResourceEstimate {
            vram_gb: 0,
            ram_gb: 0,
            stars: ResourceStars { cpu: 0, gpu: 0, vram: 0 },
        },
        bundled: false,
        artifacts: vec![],
        variants: vec![a_variant()],
    }
}

#[test]
fn the_bytes_of_partial_files_are_added_up() {
    let b = a_backend();
    assert_eq!(partial_bytes(&b, &b.variants[0], &vec![Some(1), None, Some(4)]), 5);
    assert_eq!(partial_bytes(&b, &b.variants[0], &vec![None, None, None]), 0);
}

#[test]
fn some_runtimes_are_known_without_asking() {
    let mut v = a_variant();
    assert!(runtime_without_asking(&v, true).is_none());
    let away = runtime_without_asking(&v, false).unwrap();
    assert_eq!((away.state.as_str(), away.error.as_str()), ("unavailable", NO_CONTROLLER));
    v.host_profile = "crispasr-whisper".to_string();
    let host = runtime_without_asking(&v, true).unwrap();
    assert_eq!(host.state, "host_module_delivery_pending");
    assert_eq!(host.error, HOST_PENDING);
}

#[test]
fn only_a_running_installation_is_cancelled() {
    let mut r = installing_record("op", "m-cpu");
    assert!(admit_cancel(&Some(r.clone()), "m").is_ok());
    assert!(is_installing(&Some(r.clone())));
    finish_install(&mut r, "op", &None, false);
    assert_eq!(
        admit_cancel(&Some(r.clone()), "m"),
        Err("module installation is not running".to_string())
    );
    assert!(!is_installing(&Some(r)));
    assert_eq!(admit_cancel(&None, "m"), Err("no module installation for 'm'".to_string()));
    assert!(!is_installing(&None));
    assert!(takes_back(&None, true));
    assert!(!takes_back(&None, false));
    assert!(!takes_back(&Some("x".to_string()), true));
}

#[test]
fn an_active_module_is_not_removed() {
    let b = a_backend();
    let mut s = ControllerState::default();
    let r = admit_removal(&b, &b.variants[0], &s).unwrap();
    assert!(r.runtime && r.model);
    s.asr = Some(ActiveBackend {
        backend_id: "m".to_string(),
        variant_id: "m-cpu".to_string(),
        accelerator: "cpu".to_string(),
        endpoint: String::new(),
        container: "m".to_string(),
    });
    assert_eq!(
        admit_removal(&b, &b.variants[0], &s),
        Err("active module cannot be removed".to_string())
    );
}

#[test]
fn a_ready_module_has_its_model() {
    let b = a_backend();
    let v = &b.variants[0];
    let running = || RuntimeProvisionStatus {
        state: "running".to_string(),
        ..RuntimeProvisionStatus::default()
    };
    let whole = module_status("m", &b, v, true, 12, &None, running(), &None);
    assert_eq!(whole.state, "ready");
    let half = module_status("m", &b, v, false, 5, &None, running(), &None);
    assert_eq!(half.state, "running");
}

#[test]
fn transient_failures_are_tried_again() {
    assert_eq!(retry_after(0, false, "connection reset by peer"), Some(1));
    assert_eq!(retry_after(3, false, "HTTP 503"), Some(8));
    assert_eq!(retry_after(11, false, "timeout"), Some(64));
    assert_eq!(retry_after(12, false, "timeout"), None);
    assert_eq!(retry_after(0, true, "timeout"), None);
    assert_eq!(retry_after(0, false, "SHA-256 mismatch"), None);
}

#[test]
fn gated_files_need_a_token() {
    let mut a = artifact(3, "");
    assert_eq!(artifact_token(&a, "u", Some("t".to_string())), Ok(None));
    a.auth = "huggingface".to_string();
    assert_eq!(artifact_token(&a, "u", Some("t".to_string())), Ok(Some("t".to_string())));
    assert!(artifact_token(&a, "u", None).unwrap_err().contains("requires Hugging Face access"));
    assert!(access_fault(&a, "u", 403, "403 Forbidden").unwrap().contains("denied access"));
    assert!(access_fault(&a, "u", 404, "404").is_none());
}

#[test]
fn ended_downloads_are_recorded() {
    assert_eq!(ended_record("v", 10, &None, true, false, 10, 0).state, "installed");
    assert_eq!(ended_record("v", 10, &None, false, true, 3, 2).state, "cancelled");
    assert_eq!(ended_record("v", 10, &None, false, false, 3, 2).state, "missing");
    let failed = ended_record("v", 10, &Some("x".to_string()), false, false, 3, 20);
    assert_eq!((failed.state.as_str(), failed.error.as_str()), ("failed", "x"));
    assert_eq!(failed.downloaded_bytes, 10);
}

#[test]
fn an_installation_ends_in_its_record() {
    let mut r = installing_record("op", "v");
    assert_eq!(r.state, "installing");
    finish_install(&mut r, "other", &None, false);
    assert_eq!(r.state, "installing");
    finish_install(&mut r, "op", &Some("x".to_string()), false);
    assert_eq!(r.error, "x");
    assert!(matches!(wait_for_model(&None, true), WaitStep::Fail(_)));
}

fn inspection() -> Json {
    object(vec![(
        "Config",
        object(vec![
            ("Image", text_value("registry/asr:sha")),
            (
                "Labels",
                object(vec![
                    ("s2s.lab.managed", text_value("true")),
                    ("stage", text_value("asr")),
                    ("backend-id", text_value("fw-base")),
                ]),
            ),
        ]),
    )])
}

#[test]
fn managed_target_requires_exact_registry_metadata() {
    let inspect = inspection();
    assert!(validate_managed_target(&inspect, "asr", BackendStage::Asr, "fw-base", "registry/asr:sha").is_ok());
    assert!(validate_managed_target(&inspect, "asr", BackendStage::Asr, "fw-base", "attacker/asr:latest").is_err());
    assert!(validate_managed_target(&inspect, "asr", BackendStage::Tts, "fw-base", "registry/asr:sha").is_err());
    assert!(check_managed(&inspect, "asr").is_ok());
    assert!(check_managed(&Json::Null, "asr").is_err());
}

#[test]
fn running_containers_are_asked_for_by_a_filter() {
    assert_eq!(
        running_url("http://proxy:1"),
        "http://proxy:1/containers/json?filters=%7B%22label%22%3A%5B%22s2s.lab.managed%3Dtrue%22%5D%2C%22status%22%3A%5B%22running%22%5D%7D"
    );
}

#[test]
fn sizes_that_do_not_add_up_are_refused() {
    let mut b = a_backend();
    assert!(check_sizes(&b).is_ok());
    b.variants[0].artifacts[2].size = u64::MAX - 6;
    assert_eq!(check_sizes(&b), Err("artifact sizes of backend 'm' overflow".to_string()));
    b.variants[0].artifacts[2].size = u64::MAX - 7;
    assert!(check_sizes(&b).is_ok());
}

#[test]
fn the_state_of_containers_is_read() {
    let up = object(vec![("State", object(vec![("Running", Json::Bool(true))]))]);
    assert!(is_running(&up));
    assert!(!is_running(&Json::Null));
    let entry = |stage: &str| {
        object(vec![
            ("Names", Json::List(vec![text_value("/s2s-asr")])),
            ("Labels", object(vec![("stage", text_value(stage)), ("backend-id", text_value("a"))])),
        ])
    };
    assert_eq!(managed_names(&vec![entry("asr"), entry("web")]), vec!["s2s-asr"]);
    assert_eq!(stop_action(10), "stop?t=10");
    assert!(check_action("c", "start", 204, "204", "").is_ok());
    assert!(check_action("c", "start", 304, "304", "").is_ok());
    assert!(check_action("c", "start", 500, "500", "boom").unwrap_err().contains("boom"));
    assert!(check_inspection("c", 200, "200").is_ok());
    assert!(check_inspection("c", 404, "404 Not Found").is_err());
    assert!(means_absent(&check_inspection("c", 404, "404 Not Found").unwrap_err()));
}

#[test]
fn names_are_encoded() {
    assert_eq!(urlencoding_encode("a b/ü"), "a%20b%2F%C3%BC");
    assert_eq!(urlencoding_encode("a-b_c.d~9"), "a-b_c.d~9");
    assert!(module_url("http://c", "v 1", true).contains("v%201"));
}

#[test]
fn devices_are_found_by_part_of_their_name() {
    let names =
        vec![None, Some("Built-in".to_string()), Some("USB MICROPHONE Ä".to_string())];
    assert_eq!(find_device(&names, "microphone ä", "input"), Ok(2));
    assert_eq!(find_device(&names, "", "input"), Ok(0));
    assert_eq!(
        find_device(&names, "hdmi", "output").unwrap_err(),
        "no output device matching 'hdmi'"
    );
    assert_eq!(find_device(&vec![], "", "input").unwrap_err(), "no input device found");
}

#[test]
fn texts_are_handled() {
    assert_eq!(text::trimmed("  a b "), "a b");
    assert_eq!(text::to_lower("ÄbC"), "Äbc");
    assert_eq!(text::split_at_char("a,b,,c", ','), vec!["a", "b", "", "c"]);
    assert_eq!(text::parse_unsigned("+12", 100), Some(12));
    assert_eq!(text::parse_unsigned("101", 100), None);
    assert_eq!(text::parse_unsigned("", 100), None);
    assert_eq!(text::canonical_integer("-05").as_deref(), Some("-5"));
    assert_eq!(text::join_path("/a", "b"), "/a/b");
    assert_eq!(text::join_path("/a", "/b"), "/b");
    assert_eq!(text::utf8_bytes('ü'), vec![0xc3, 0xbc]);
    assert_eq!(text::count_words(" a  b "), 2);
}
