//! The catalog, hardware profiles and detection.

use s2s_vulkan::config::{
    Config, GpuPreference, SupertonicProvider, TtsBackend, DEFAULT_GERMAN_SYSTEM_PROMPT,
    DEFAULT_SYSTEM_PROMPT,
};
use s2s_vulkan::discovery::tts_voice_mode;
use s2s_vulkan::gpu::{
    cpu_device, detect, parse_nvidia_smi, parse_sycl_ls, parse_vulkaninfo, running_in_container,
    select_device, split_manifests, sycl_device, GpuKind, GpuProbe, GpuSettings,
};
use s2s_vulkan::json::Json;
use s2s_vulkan::registry::{
    default_capability_tier, derive_capability_tier, endpoint_for, infer_vendor,
    is_known_host_profile, memory_fields, normalize_platform, resolve_variant, validate_artifact_path,
    variant_artifacts, variant_bundled, variant_protocol, BackendCatalog, BackendDefinition,
    BackendStage, BackendVariant, HardwareProfile, MemoryReading, MemoryReadings, ModelArtifact, ResourceEstimate, ResourceStars,
    StackPreset, VoiceMode,
};
use s2s_vulkan::runtime::{
    apply_stack, apply_tts, infer_asr_id, infer_tts_id, runtime_from, StackSelection,
};
use s2s_vulkan::warmup::tts_warmup;

fn hw(vendor: &str, accelerators: &[&str]) -> HardwareProfile {
    let mut profile = HardwareProfile {
        vendor: vendor.to_string(),
        device_name: if vendor == "intel" { "Intel Arc B580".to_string() } else { vendor.to_string() },
        accelerators: accelerators.iter().map(|x| x.to_string()).collect(),
        platform: "linux".to_string(),
        in_container: true,
        allow_experimental: false,
        vram_total_gb: None,
        vram_free_gb: None,
        ram_total_gb: None,
        ram_available_gb: None,
        host_agent_online: false,
        host_profiles: Vec::new(),
        tier: default_capability_tier(),
    };
    profile.recompute_tier(&None);
    profile
}

#[test]
fn capability_tier_cpu_light_by_default() {
    let profile = hw("unknown", &["cpu"]);
    assert_eq!(derive_capability_tier(&profile), "cpu-light");
}

#[test]
fn capability_tier_gpu_8gb_from_vram() {
    let mut profile = hw("nvidia", &["cuda", "cpu"]);
    profile.vram_total_gb = Some(8.0f32.to_bits());
    assert_eq!(derive_capability_tier(&profile), "gpu-8gb");
    profile.vram_total_gb = Some(16.0f32.to_bits());
    assert_eq!(derive_capability_tier(&profile), "gpu-16gb+");
}

#[test]
fn capability_tier_host_vulkan_when_agent_online() {
    let mut profile = hw("intel", &["vulkan", "cpu"]);
    profile.host_agent_online = true;
    assert_eq!(derive_capability_tier(&profile), "host-vulkan");
}

#[test]
fn capability_tier_unknown_vram_with_cuda_is_gpu_8gb() {
    let profile = hw("nvidia", &["cuda", "cpu"]);
    assert_eq!(derive_capability_tier(&profile), "gpu-8gb");
}

#[test]
fn platform_override_is_restricted_to_known_values() {
    assert_eq!(normalize_platform(" Windows "), Some("windows".to_string()));
    assert_eq!(normalize_platform("linux"), Some("linux".to_string()));
    assert_eq!(normalize_platform("container-injected"), None);
}

#[test]
fn unsafe_artifact_paths_are_rejected() {
    assert!(validate_artifact_path("../escape.gguf").is_err());
    assert!(validate_artifact_path("C:\\escape.gguf").is_err());
    assert!(validate_artifact_path("/escape.gguf").is_err());
    assert!(validate_artifact_path("qwen/model.gguf").is_ok());
}

#[test]
fn cpu_device_backend() {
    assert_eq!(cpu_device().ggml_backend, "CPU");
}

#[test]
fn sycl_device_backend() {
    assert_eq!(sycl_device(0, "x").ggml_backend, "SYCL0");
    assert_eq!(sycl_device(1, "x").ggml_backend, "SYCL1");
}

#[test]
fn supertonic_provider_is_the_cpu_by_default() {
    assert_eq!(Config::default().supertonic_provider, SupertonicProvider::Cpu);
}

#[test]
fn german_lab_prompt_preserves_other_languages_and_custom_prompts() {
    let default = Config::default();
    assert_eq!(default.llm_system_prompt(Some("de")), DEFAULT_GERMAN_SYSTEM_PROMPT);
    assert_eq!(default.llm_system_prompt(Some("en")), DEFAULT_SYSTEM_PROMPT);

    let mut english = Config::default();
    english.language = "en".to_string();
    assert_eq!(english.llm_system_prompt(None), DEFAULT_SYSTEM_PROMPT);

    let mut custom = Config::default();
    custom.system_prompt = "Answer in your configured language.".to_string();
    assert_eq!(custom.llm_system_prompt(Some("de")), custom.system_prompt);
}

#[test]
fn xtts_http_endpoint_and_model_are_inferred() {
    let mut config = Config::default();
    config.tts = TtsBackend::Http;
    config.tts_url = "http://host.docker.internal:8091/v1/audio/speech".to_string();
    config.tts_model = "coqui/XTTS-v2".to_string();
    assert_eq!(infer_tts_id(&config), "xtts-v2");
}

#[test]
fn xtts_runtime_mapping_uses_24khz_and_default_voice() {
    let mut state = runtime_from(Config::default());
    let message = apply_tts(&mut state, "xtts-v2");
    assert!(message.contains("XTTS-v2"));
    assert_eq!(state.cfg.tts_url, "http://127.0.0.1:8091/v1/audio/speech");
    assert_eq!(state.cfg.tts_model, "coqui/XTTS-v2");
    assert_eq!(state.cfg.tts_native_sample_rate, 24_000);
    assert_eq!(state.cfg.supertonic_voice, "de_sample");
}

#[test]
fn the_owned_recogniser_is_inferred_from_its_address() {
    let mut config = Config::default();
    config.whisper_url = "http://confucius-asr:8082".to_string();
    config.stt_api = s2s_vulkan::config::SttApi::Openai;
    assert_eq!(infer_asr_id(&config), "confucius4-r2t2");
}

#[test]
fn a_selection_changes_what_it_names() {
    let mut state = runtime_from(Config::default());
    let mut sel = StackSelection::default();
    sel.language = Some("de".to_string());
    sel.model_name = Some("some-model".to_string());
    let before = state.cfg.tts_url.clone();
    apply_stack(&mut state, &sel);
    assert_eq!(state.cfg.language, "de");
    assert_eq!(state.cfg.model_name, "some-model");
    assert_eq!(state.cfg.tts_url, before);
}

#[test]
fn an_empty_selection_changes_nothing() {
    let mut state = runtime_from(Config::default());
    let before = state.clone();
    let notes = apply_stack(&mut state, &StackSelection::default());
    assert!(notes.is_empty());
    assert_eq!(state.tts_id, before.tts_id);
    assert_eq!(state.cfg.tts_url, before.cfg.tts_url);
    assert_eq!(state.cfg.whisper_url, before.cfg.whisper_url);
    assert_eq!(state.cfg.supertonic_voice, before.cfg.supertonic_voice);
    assert_eq!(state.cfg.language, before.cfg.language);
}

#[test]
fn an_override_wins_over_the_selected_backend() {
    let mut state = runtime_from(Config::default());
    let mut sel = StackSelection::default();
    sel.tts = Some("xtts-v2".to_string());
    sel.tts_url = Some("http://speaker:1/v1/audio/speech".to_string());
    sel.voice = Some("anna".to_string());
    apply_stack(&mut state, &sel);
    assert_eq!(state.tts_id, "xtts-v2");
    assert_eq!(state.cfg.tts_url, "http://speaker:1/v1/audio/speech");
    assert_eq!(state.cfg.supertonic_voice, "anna");
}

#[test]
fn supertonic_is_left_with_a_voice_it_knows() {
    let mut state = runtime_from(Config::default());
    state.cfg.supertonic_voice = "de_sample".to_string();
    apply_tts(&mut state, "supertonic");
    assert_eq!(state.cfg.supertonic_voice, "M1");
    state.cfg.supertonic_voice = "F2".to_string();
    apply_tts(&mut state, "supertonic");
    assert_eq!(state.cfg.supertonic_voice, "F2");
}

// --- A small catalog ---

fn variant(id: &str, accelerator: &str, vendors: &[&str], platform: &str) -> BackendVariant {
    BackendVariant {
        id: id.to_string(),
        accelerator: accelerator.to_string(),
        vendors: vendors.iter().map(|v| v.to_string()).collect(),
        platforms: vec![platform.to_string()],
        stable: true,
        published: true,
        runtime_delivery_reason: String::new(),
        device_match: vec![],
        endpoint: "http://asr:8082".to_string(),
        native_endpoint: "http://127.0.0.1:8082".to_string(),
        container: "s2s-asr".to_string(),
        image: "registry/asr:cpu".to_string(),
        image_download_size_bytes: 0,
        health_path: "/health".to_string(),
        environment: vec![],
        artifacts: vec![],
        bundled: None,
        protocol: String::new(),
        host_profile: String::new(),
    }
}

fn backend(id: &str, stage: BackendStage, variants: Vec<BackendVariant>) -> BackendDefinition {
    BackendDefinition {
        id: id.to_string(),
        stage,
        name: id.to_string(),
        tag: String::new(),
        description: String::new(),
        protocol: if stage == BackendStage::Asr { "whisper-cpp".to_string() } else { "openai-tts".to_string() },
        model: id.to_string(),
        default_voice: if stage == BackendStage::Tts { "default".to_string() } else { String::new() },
        voices: vec![],
        voice_mode: VoiceMode::Fixed,
        native_sample_rate: 24_000,
        languages: vec!["de".to_string()],
        licenses: vec![],
        access_url: String::new(),
        resources: ResourceEstimate {
            vram_gb: 0,
            ram_gb: 0,
            stars: ResourceStars { cpu: 1, gpu: 1, vram: 1 },
        },
        bundled: true,
        artifacts: vec![],
        variants,
    }
}

fn small_catalog() -> BackendCatalog {
    BackendCatalog {
        schema_version: 2,
        backends: vec![
            backend(
                "fw-tiny",
                BackendStage::Asr,
                vec![variant("fw-tiny-cpu", "cpu", &["any"], "linux")],
            ),
            backend(
                "supertonic",
                BackendStage::Tts,
                vec![variant("supertonic-cpu", "cpu", &["any"], "linux")],
            ),
        ],
        presets: vec![],
    }
}

#[test]
fn schema_one_remains_readable() {
    let mut catalog = small_catalog();
    catalog.validate().unwrap();
    catalog.schema_version = 1;
    catalog.validate().unwrap();
    catalog.schema_version = 3;
    assert!(catalog.validate().is_err());
}

#[test]
fn cross_backend_variant_is_rejected() {
    let mut catalog = small_catalog();
    catalog.backends[0].variants[0].id = "local-fallback-cuda".to_string();
    assert!(catalog.validate().is_err());
}

#[test]
fn missing_voice_mode_defaults_to_fixed_and_blank_tts_voice_is_rejected() {
    assert_eq!(VoiceMode::default(), VoiceMode::Fixed);
    let mut catalog = small_catalog();
    catalog.backends[1].default_voice = String::new();
    assert!(catalog.validate().unwrap_err().contains("default_voice"));
}

#[test]
fn a_preset_names_backends_of_the_right_stage() {
    let mut catalog = small_catalog();
    catalog.backends.push(backend(
        "local-fallback",
        BackendStage::Llm,
        vec![variant("local-fallback-cpu", "cpu", &["any"], "linux")],
    ));
    catalog.presets.push(StackPreset {
        id: "balanced".to_string(),
        name: "Balanced".to_string(),
        asr_id: "fw-tiny".to_string(),
        tts_id: "supertonic".to_string(),
        llm_id: "local-fallback".to_string(),
        languages: vec![],
        max_vram_gb: None,
        latency_hint: None,
        quality_hint: None,
    });
    catalog.validate().unwrap();
    catalog.presets[0].asr_id = "nothing".to_string();
    assert!(catalog.validate().is_err());
}

#[test]
fn authenticated_artifacts_require_huggingface_https_and_pins() {
    let artifact = ModelArtifact {
        source: "https://huggingface.co/org/model/resolve/975b202585dea4ae6ca7f6118121cdf1011d7d28/model.onnx"
            .to_string(),
        path: "xtts-v2/model.onnx".to_string(),
        sha256: "a".repeat(64),
        size: 10,
        auth: "huggingface".to_string(),
    };
    let mut catalog = small_catalog();
    catalog.backends[0].bundled = false;
    catalog.backends[0].access_url = "https://huggingface.co/org/model".to_string();
    catalog.backends[0].artifacts = vec![artifact.clone()];
    catalog.validate().unwrap();
    catalog.backends[0].artifacts[0].source = "https://example.invalid/model.onnx".to_string();
    assert!(catalog.validate().is_err());
    catalog.backends[0].artifacts[0] = artifact;
    catalog.backends[0].artifacts[0].auth = "basic".to_string();
    assert!(catalog.validate().is_err());
}

#[test]
fn variant_metadata_overrides_backend_artifacts_and_protocol() {
    let mut own = variant("fw-tiny-vulkan-windows-b580", "vulkan", &["intel"], "windows");
    own.bundled = Some(false);
    own.protocol = "whisper-cpp".to_string();
    own.host_profile = "crispasr-whisper".to_string();
    own.stable = false;
    own.device_match = vec!["arc b580".to_string()];
    own.artifacts = vec![ModelArtifact {
        source: "https://huggingface.co/x/resolve/main/ggml-tiny.bin".to_string(),
        path: "whisper/ggml-tiny.bin".to_string(),
        sha256: String::new(),
        size: 4,
        auth: String::new(),
    }];
    let mut b = backend("fw-tiny", BackendStage::Asr, vec![variant("fw-tiny-cpu", "cpu", &["any"], "linux"), own]);
    b.protocol = "faster-whisper".to_string();
    let catalog = BackendCatalog { schema_version: 2, backends: vec![b], presets: vec![] };
    let backend = catalog.find("fw-tiny").unwrap();
    let v = &backend.variants[1];
    assert!(!variant_bundled(backend, v));
    assert_eq!(variant_protocol(backend, v), "whisper-cpp");
    assert_eq!(variant_artifacts(backend, v)[0].path, "whisper/ggml-tiny.bin");
    assert_eq!(v.host_profile, "crispasr-whisper");

    let mut hardware = hw("intel", &["vulkan", "cpu"]);
    hardware.platform = "windows".to_string();
    assert!(resolve_variant(backend, &hardware).is_none());
    hardware.allow_experimental = true;
    let resolved = catalog.resolved(&hardware);
    assert!(!resolved[0].backend.bundled);
    assert_eq!(resolved[0].backend.protocol, "whisper-cpp");
    assert_eq!(resolved[0].backend.artifacts[0].path, "whisper/ggml-tiny.bin");
    assert_eq!(
        resolve_variant(backend, &hardware).map(|v| v.id.as_str()),
        Some("fw-tiny-vulkan-windows-b580")
    );
    hardware.device_name = "Intel Arc A770".to_string();
    assert!(resolve_variant(backend, &hardware).is_none());
}

#[test]
fn the_best_accelerator_is_chosen_and_unpublished_ones_are_not() {
    let mut xpu = variant("parakeet-xpu", "sycl", &["intel"], "linux");
    xpu.published = false;
    xpu.runtime_delivery_reason = "image_not_published_for_architecture".to_string();
    let b = backend(
        "parakeet",
        BackendStage::Asr,
        vec![
            variant("parakeet-cpu", "cpu", &["any"], "linux"),
            variant("parakeet-cuda", "cuda", &["nvidia"], "linux"),
            xpu,
        ],
    );
    assert_eq!(
        resolve_variant(&b, &hw("nvidia", &["cuda", "cpu"])).map(|v| v.id.as_str()),
        Some("parakeet-cuda")
    );
    assert_eq!(
        resolve_variant(&b, &hw("intel", &["sycl", "cpu"])).map(|v| v.id.as_str()),
        Some("parakeet-cpu")
    );
}

#[test]
fn endpoints_differ_inside_and_outside_of_containers() {
    let v = variant("fw-tiny-cpu", "cpu", &["any"], "linux");
    assert_eq!(endpoint_for(&v, true), "http://asr:8082");
    assert_eq!(endpoint_for(&v, false), "http://127.0.0.1:8082");
}

#[test]
fn known_profiles_and_vendors() {
    assert!(is_known_host_profile("crispasr-whisper"));
    assert!(!is_known_host_profile("powershell"));
    assert_eq!(infer_vendor("NVIDIA GeForce RTX 4090"), "nvidia");
    assert_eq!(infer_vendor("Intel Arc B580"), "intel");
}

#[test]
fn memory_readings_are_split() {
    assert_eq!(
        memory_fields("24564, 20000\n"),
        Some(("24564".to_string(), "20000".to_string()))
    );
}

// --- Detection ---

fn probe() -> GpuProbe {
    GpuProbe {
        in_container: false,
        dri_nodes: vec![],
        dri_present: false,
        nvidia_names: None,
        nvidia_device_node: false,
        sycl_runtime: false,
        sycl_ls: None,
        vulkaninfo: None,
        icds: vec![],
        windows: false,
        vulkan_sdk: false,
        level_zero: false,
        settings: GpuSettings { ggml_backend: None, s2s_gpu: None, allow_intel_vulkan: None },
    }
}

#[test]
fn a_machine_without_accelerators_uses_the_cpu() {
    let report = detect(GpuPreference::Auto, probe());
    assert_eq!(report.selected.kind, GpuKind::Cpu);
    assert_eq!(report.selected.ggml_backend, "CPU");
}

#[test]
fn cuda_is_preferred() {
    let mut p = probe();
    p.nvidia_names = parse_nvidia_smi("NVIDIA GeForce RTX 4090\n");
    let report = detect(GpuPreference::Auto, p);
    assert_eq!(report.selected.kind, GpuKind::Cuda);
    assert_eq!(report.selected.ggml_backend, "CUDA0");
    let (lines, notes) = report.log();
    assert_eq!(
        lines[0],
        "GPU auto-detect: selected NVIDIA GeForce RTX 4090 (cuda) → GGML_BACKEND=CUDA0"
    );
    assert_eq!(notes.len(), report.notes.len());
    let env = report.apply_env(false);
    assert!(env.contains(&("S2S_GPU_KIND".to_string(), "cuda".to_string())));
}

#[test]
fn an_intel_gpu_with_a_sycl_stack_is_driven_by_it() {
    let settings = GpuSettings { ggml_backend: None, s2s_gpu: None, allow_intel_vulkan: None };
    let all = parse_vulkaninfo("GPU0:\n    deviceName = Intel(R) Arc(TM) B580\n").unwrap();
    let mut notes = vec![];
    let auto = select_device(GpuPreference::Auto, &settings, &all, true, true, &mut notes);
    assert_eq!(auto.kind, GpuKind::Sycl);
    let bare = select_device(GpuPreference::Auto, &settings, &all, false, true, &mut notes);
    assert_eq!(bare.kind, GpuKind::Vulkan);
    let asked = select_device(GpuPreference::Vulkan, &settings, &all, true, true, &mut notes);
    assert_eq!(asked.name, all[0].name);
    let cpu = select_device(GpuPreference::Cpu, &settings, &all, true, true, &mut notes);
    assert_eq!(cpu.kind, GpuKind::Cpu);
}

#[test]
fn the_override_lets_vulkan_win_on_intel() {
    let mut all = parse_vulkaninfo("GPU0:\n    deviceName = Intel(R) Arc(TM) B580\n").unwrap();
    all.insert(0, sycl_device(0, "Intel(R) Arc(TM) B580"));
    let mut settings = GpuSettings {
        ggml_backend: None,
        s2s_gpu: None,
        allow_intel_vulkan: Some("1".to_string()),
    };
    let mut notes = vec![];
    let d = select_device(GpuPreference::Auto, &settings, &all, true, true, &mut notes);
    assert_eq!(d.kind, GpuKind::Vulkan);
    assert_eq!(d.name, all[1].name);
    assert!(notes.is_empty());
    all.pop();
    let d = select_device(GpuPreference::Auto, &settings, &all, true, true, &mut notes);
    assert_eq!(d.kind, GpuKind::Sycl);
    settings.allow_intel_vulkan = Some("0".to_string());
    all.extend(parse_vulkaninfo("GPU0:\n    deviceName = Intel(R) Arc(TM) B580\n").unwrap());
    let d = select_device(GpuPreference::Auto, &settings, &all, true, true, &mut notes);
    assert_eq!(d.kind, GpuKind::Sycl);
}

#[test]
fn a_driver_of_windows_is_taken_for_a_device() {
    let mut p = probe();
    p.windows = true;
    assert_eq!(detect(GpuPreference::Auto, p).selected.kind, GpuKind::Cpu);
    let mut p = probe();
    p.windows = true;
    p.icds = vec!["C:/drivers/igvk64.json".to_string()];
    let report = detect(GpuPreference::Auto, p);
    assert_eq!(report.selected.name, "Vulkan GPU (Windows ICD/SDK)");
    let mut p = probe();
    p.windows = true;
    p.vulkan_sdk = true;
    assert_eq!(detect(GpuPreference::Auto, p).selected.kind, GpuKind::Vulkan);
}

#[test]
fn memory_probes_are_refreshed() {
    let bits = |gb: f32| Some(gb.to_bits());
    let mut profile = hw("nvidia", &["cuda", "cpu"]);
    profile.vram_total_gb = bits(16.0);
    profile.vram_free_gb = bits(10.0);
    profile.ram_total_gb = bits(32.0);
    let reading = |probed: Option<u32>| MemoryReading { forced: None, probed };
    let readings = MemoryReadings {
        vram_total: reading(bits(12.0)),
        vram_free: reading(bits(2.0)),
        ram_total: reading(None),
        ram_available: reading(bits(4.0)),
    };
    profile.apply_static_probes(&readings, &None);
    assert_eq!(profile.vram_total_gb, bits(12.0));
    assert_eq!(profile.vram_free_gb, bits(2.0));
    assert_eq!(profile.ram_total_gb, bits(32.0));
    assert_eq!(profile.ram_available_gb, bits(4.0));
    assert_eq!(profile.tier, derive_capability_tier(&profile));
    let forced = MemoryReadings {
        vram_total: MemoryReading { forced: bits(24.0), probed: bits(12.0) },
        vram_free: reading(None),
        ram_total: reading(None),
        ram_available: reading(None),
    };
    profile.apply_static_probes(&forced, &None);
    assert_eq!(profile.vram_total_gb, bits(24.0));
    assert_eq!(profile.vram_free_gb, bits(2.0));
}

#[test]
fn outputs_of_tools_are_read() {
    assert!(parse_sycl_ls("nothing here").is_none());
    assert!(parse_vulkaninfo("").is_none());
    let found = parse_vulkaninfo("GPU0:\n    deviceName = Intel(R) Arc(TM) B580\n").unwrap();
    assert_eq!(found[0].kind, GpuKind::Vulkan);
    assert_eq!(found[0].ggml_backend, "Vulkan0");
}

#[test]
fn containers_are_noticed() {
    assert!(running_in_container(true, false, &None));
    assert!(running_in_container(false, false, &Some("0::/docker/abc".to_string())));
    assert!(!running_in_container(false, false, &Some("0::/".to_string())));
}

#[test]
fn driver_lists_are_split_at_both_separators() {
    assert_eq!(split_manifests("/a.json;/b.json:/c.json;"), vec!["/a.json", "/b.json", "/c.json"]);
    assert!(split_manifests("").is_empty());
}

#[test]
fn a_memory_report_is_read_line_by_line() {
    let report = "MemTotal:       16384 kB\nMemFree:  12 kB\nMemAvailable:   8192 kB\n";
    let read = |label: &str| s2s_vulkan::registry::meminfo_field(report, label);
    assert_eq!(read("MemTotal:").as_deref(), Some("16384"));
    assert_eq!(read("MemAvailable:").as_deref(), Some("8192"));
    assert_eq!(read("SwapFree:"), None);
}

#[test]
fn the_first_of_two_backends_with_an_id_is_found() {
    let mut c = small_catalog();
    let mut again = c.backends[0].clone();
    again.name = "another".to_string();
    c.backends.push(again);
    let first = c.backends[0].clone();
    assert_eq!(c.find(&first.id).unwrap().name, first.name);
    assert_eq!(c.position(&first.id), Some(0));
    assert!(c.find("nobody").is_none());
    assert!(c.validate().is_err());
}

#[test]
fn a_voice_mode_is_that_of_a_synthesizer() {
    let c = small_catalog();
    for b in &c.backends {
        let mode = tts_voice_mode(&c, &b.id);
        assert_eq!(mode.is_some(), b.stage == BackendStage::Tts);
    }
    assert!(tts_voice_mode(&c, "nobody").is_none());
}

#[test]
fn a_fixed_voice_is_not_sent_a_placeholder() {
    let mut piper = backend("piper", BackendStage::Tts, vec![]);
    for placeholder in ["", "default", "male"] {
        piper.default_voice = placeholder.to_string();
        match tts_warmup(&piper) {
            Json::Object(members) => assert!(members.iter().all(|m| m.0 != "voice")),
            _ => panic!("a request is an object"),
        }
    }
    piper.default_voice = "thorsten".to_string();
    match tts_warmup(&piper) {
        Json::Object(members) => assert!(members.iter().any(|m| m.0 == "voice")),
        _ => panic!("a request is an object"),
    }
}
