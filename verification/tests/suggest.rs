//! Suggestions for a machine.

use s2s_vulkan::api::{
    build_gateway_suggestions, gateway_pairs, gateway_query, is_suggestible, GatewayPairNumbers,
};
use s2s_vulkan::registry::{
    BackendDefinition, BackendStage, BackendVariant, CatalogBackendStatus, HardwareProfile,
    ResourceEstimate, ResourceStars, StackPreset, VoiceMode,
};
use s2s_vulkan::suggest::{
    build_suggestions, effective_budget, eligible_pairs, eligible_presets, fit_of, pair_terms,
    BackendSize, Budget, Fit, PairNumbers, PresetNumbers, SuggestionNumbers, SuggestionQuery,
    SuggestionsResponse,
};

#[allow(clippy::too_many_arguments)]
fn status(
    id: &str,
    stage: BackendStage,
    langs: &[&str],
    vram: f32,
    available: bool,
    stable: bool,
    host_managed: bool,
    runtime: &str,
    installed: bool,
) -> CatalogBackendStatus {
    CatalogBackendStatus {
        backend: BackendDefinition {
            id: id.to_string(),
            stage,
            name: id.to_string(),
            tag: String::new(),
            description: String::new(),
            protocol: "test".to_string(),
            model: id.to_string(),
            default_voice: if stage == BackendStage::Tts {
                "default".to_string()
            } else {
                String::new()
            },
            voices: vec![],
            voice_mode: VoiceMode::Fixed,
            native_sample_rate: 0,
            languages: langs.iter().map(|s| s.to_string()).collect(),
            licenses: vec![],
            access_url: String::new(),
            resources: ResourceEstimate {
                vram_gb: vram.to_bits(),
                ram_gb: 1.0f32.to_bits(),
                stars: ResourceStars { cpu: 2, gpu: 2, vram: 2 },
            },
            bundled: false,
            artifacts: vec![],
            variants: vec![],
        },
        available,
        compatible: available,
        activatable: available,
        reason: String::new(),
        selected_variant: if available {
            Some(BackendVariant {
                id: format!("{id}-cpu"),
                accelerator: "cpu".to_string(),
                vendors: vec!["any".to_string()],
                platforms: vec!["linux".to_string()],
                stable,
                published: true,
                runtime_delivery_reason: String::new(),
                device_match: vec![],
                endpoint: format!("http://{id}"),
                native_endpoint: String::new(),
                container: String::new(),
                image: String::new(),
                image_download_size_bytes: 0,
                health_path: "/health".to_string(),
                environment: vec![],
                artifacts: vec![],
                bundled: None,
                protocol: String::new(),
                host_profile: if host_managed { "host-profile".to_string() } else { String::new() },
            })
        } else {
            None
        },
        variant_id: String::new(),
        installed,
        download_state: if installed { "installed".to_string() } else { "missing".to_string() },
        download_size_bytes: 0,
        downloaded_bytes: 0,
        deletable: true,
        download_error: String::new(),
        host_managed,
        runtime_state: runtime.to_string(),
        runtime_reason: String::new(),
        image_download_size_bytes: 0,
        auth_required: false,
        hf_token_configured: false,
    }
}

fn cap(tier: &str) -> HardwareProfile {
    HardwareProfile {
        vendor: "unknown".to_string(),
        device_name: "CPU".to_string(),
        accelerators: vec!["cpu".to_string()],
        platform: "linux".to_string(),
        in_container: true,
        allow_experimental: false,
        vram_total_gb: None,
        vram_free_gb: None,
        ram_total_gb: Some(16.0f32.to_bits()),
        ram_available_gb: Some(8.0f32.to_bits()),
        host_agent_online: false,
        host_profiles: vec![],
        tier: tier.to_string(),
    }
}

fn vram_of(s: &CatalogBackendStatus) -> f32 {
    f32::from_bits(s.backend.resources.vram_gb).max(0.0)
}

fn score_of(a: &CatalogBackendStatus, t: &CatalogBackendStatus, hw: &HardwareProfile, fit: Fit) -> f32 {
    let mut score = 0.0f32;
    for group in pair_terms(a, t, hw, fit) {
        score += group.iter().map(|t| *t as f32 / 10_000.0).sum::<f32>();
    }
    score.clamp(0.0, 0.99)
}

fn hundredths(x: f32) -> u32 {
    (x * 100.0).round() as u32
}

fn suggestions(
    hw: HardwareProfile,
    backends: &Vec<CatalogBackendStatus>,
    presets: &Vec<StackPreset>,
    query: &SuggestionQuery,
) -> SuggestionsResponse {
    let budget = match effective_budget(&hw, query) {
        Budget::Exactly(b) => f32::from_bits(b),
        Budget::Share(b) => (f32::from_bits(b) * 0.8).max(0.5),
    };
    let fit = |vram: f32| fit_of(vram.to_bits(), budget.to_bits(), (budget * 0.5).to_bits());
    let pairs = eligible_pairs(backends, query)
        .iter()
        .map(|(a, t)| {
            let vram = vram_of(&backends[*a]) + vram_of(&backends[*t]);
            let score = score_of(&backends[*a], &backends[*t], &hw, fit(vram));
            PairNumbers {
                raw: score.to_bits(),
                score: hundredths(score),
                vram: hundredths(vram),
                fit: fit(vram),
            }
        })
        .collect();
    let preset_numbers = eligible_presets(backends, presets, query)
        .iter()
        .map(|c| {
            let (a, t) = (&backends[c.asr], &backends[c.tts]);
            let vram = vram_of(a) + vram_of(t);
            let score = (score_of(a, t, &hw, fit(vram)) + 0.06).clamp(0.0, 0.99);
            PresetNumbers { score: hundredths(score), vram: vram.to_bits(), fit: fit(vram) }
        })
        .collect();
    let numbers = SuggestionNumbers {
        pairs,
        presets: preset_numbers,
        backends: backends
            .iter()
            .map(|b| BackendSize { vram: vram_of(b).to_bits(), shown: format!("{:.1}", vram_of(b)) })
            .collect(),
        too_heavy: (budget * 1.2).to_bits(),
        budget_shown: format!("{budget:.1}"),
        budget: hundredths(budget),
    };
    build_suggestions(hw, backends, presets, query, &numbers)
}

fn query(language: Option<&str>) -> SuggestionQuery {
    SuggestionQuery {
        language: language.map(|l| l.to_string()),
        stable_only: true,
        max_vram_gb: Some(8.0f32.to_bits()),
        limit: 8,
    }
}

#[test]
fn language_filter_drops_english_only_tts() {
    let backends = vec![
        status("fw-tiny", BackendStage::Asr, &["de", "en"], 0.25, true, true, false, "not_managed", true),
        status("supertonic", BackendStage::Tts, &["de", "en"], 0.0, true, true, false, "not_managed", true),
        status("inflect-micro-v2", BackendStage::Tts, &["en"], 0.0, true, true, true, "stopped", true),
    ];
    let out = suggestions(cap("cpu-light"), &backends, &vec![], &query(Some("de")));
    assert!(out.suggested_pairs.iter().all(|p| p.tts_id != "inflect-micro-v2"));
    assert!(out
        .suggested_pairs
        .iter()
        .any(|p| p.asr_id == "fw-tiny" && p.tts_id == "supertonic"));
    assert_eq!(out.suggested_pairs[0].score, 99);
    assert_eq!(out.suggested_pairs[0].vram_gb, 25);
    assert_eq!(out.budget_vram_gb, Some(800));
    assert_eq!(
        out.suggested_pairs[0].reason,
        "leicht im VRAM-Budget, beide installiert, Docker-fähig, schneller Default-Stack · tier=cpu-light"
    );
}

#[test]
fn heavy_backend_is_cautioned_on_small_budget() {
    let backends = vec![status(
        "voxtral-mini-4b-realtime",
        BackendStage::Asr,
        &["de", "en"],
        16.0,
        true,
        true,
        true,
        "stopped",
        false,
    )];
    let out = suggestions(cap("gpu-8gb"), &backends, &vec![], &query(Some("de")));
    assert!(out.caution.iter().any(|c| c.backend_id == "voxtral-mini-4b-realtime"));
    assert_eq!(
        out.caution[0].reason,
        "~16.0 GB VRAM laut Katalog — auf diesem System voraussichtlich zu schwer (Budget ~8.0 GB)"
    );
}

#[test]
fn unavailable_host_runtime_is_cautioned() {
    let backends = vec![status(
        "piper",
        BackendStage::Tts,
        &["de", "en"],
        0.2,
        true,
        true,
        true,
        "unavailable",
        true,
    )];
    let out = suggestions(cap("cpu-light"), &backends, &vec![], &query(None));
    assert!(out.caution.iter().any(|c| c.backend_id == "piper"));
}

#[test]
fn preset_boost_when_members_eligible() {
    let backends = vec![
        status("fw-tiny", BackendStage::Asr, &["de", "en"], 0.25, true, true, false, "not_managed", true),
        status("supertonic", BackendStage::Tts, &["de", "en"], 0.0, true, true, false, "not_managed", true),
    ];
    let presets = vec![StackPreset {
        id: "balanced".to_string(),
        name: "Sofort startklar".to_string(),
        asr_id: "fw-tiny".to_string(),
        tts_id: "supertonic".to_string(),
        llm_id: "local-fallback".to_string(),
        languages: vec!["de".to_string(), "en".to_string()],
        max_vram_gb: Some(2.0f32.to_bits()),
        latency_hint: Some("low".to_string()),
        quality_hint: Some("balanced".to_string()),
    }];
    let out = suggestions(cap("cpu-light"), &backends, &presets, &query(Some("de")));
    assert_eq!(out.suggested_presets.len(), 1);
    assert_eq!(out.suggested_presets[0].id, "balanced");
    assert!(out.suggested_presets[0].score >= out.suggested_pairs[0].score);
}

#[test]
fn query_parser_defaults_stable_only() {
    let q = SuggestionQuery::from_query_pairs(&vec![], &vec![]);
    assert!(q.stable_only);
    let q = SuggestionQuery::from_query_pairs(
        &vec![("stable_only".to_string(), "false".to_string())],
        &vec![None],
    );
    assert!(!q.stable_only);
    let q = SuggestionQuery::from_query_pairs(
        &vec![
            ("language".to_string(), "DE".to_string()),
            ("max_vram_gb".to_string(), "8".to_string()),
            ("limit".to_string(), "3".to_string()),
        ],
        &vec![None, Some(8.0f32.to_bits()), None],
    );
    assert_eq!(q.language.as_deref(), Some("de"));
    assert_eq!(q.max_vram_gb, Some(8.0f32.to_bits()));
    assert_eq!(q.limit, 3);
}

#[test]
fn equal_scores_are_ranked_by_memory_and_name() {
    let asr = |id: &str, vram: f32| {
        status(id, BackendStage::Asr, &["de"], vram, true, true, false, "not_managed", false)
    };
    let backends = vec![
        asr("b", 2.0),
        asr("a", 2.0),
        asr("c", 1.0),
        status("t", BackendStage::Tts, &["de"], 0.0, true, true, false, "not_managed", false),
    ];
    let out = suggestions(cap("gpu-8gb"), &backends, &vec![], &query(Some("de")));
    let ids: Vec<&str> = out.suggested_pairs.iter().map(|p| p.asr_id.as_str()).collect();
    assert_eq!(ids, vec!["c", "a", "b"]);
}

#[test]
fn budgets_follow_the_machine() {
    let mut any = query(None);
    any.max_vram_gb = None;
    assert!(matches!(effective_budget(&cap("gpu-16gb+"), &any), Budget::Exactly(b) if f32::from_bits(b) == 14.0));
    assert!(matches!(effective_budget(&cap("host-vulkan"), &any), Budget::Exactly(b) if f32::from_bits(b) == 7.0));
    assert!(matches!(effective_budget(&cap("cpu-light"), &any), Budget::Exactly(b) if f32::from_bits(b) == 1.5));
    let mut free = cap("gpu-8gb");
    free.vram_free_gb = Some(6.0f32.to_bits());
    assert!(matches!(effective_budget(&free, &any), Budget::Share(b) if f32::from_bits(b) == 6.0));
}

#[test]
fn the_gateway_prefers_what_fits_and_is_installed() {
    let backends = vec![
        status("asr-a", BackendStage::Asr, &["de"], 1.0, true, true, false, "ready", true),
        status("tts-big", BackendStage::Tts, &["de"], 20.0, true, true, false, "ready", false),
        status("tts-a", BackendStage::Tts, &["de"], 1.0, true, true, false, "ready", true),
        status("tts-new", BackendStage::Tts, &["de"], 1.0, true, false, false, "ready", true),
        status("tts-en", BackendStage::Tts, &["en"], 1.0, true, true, false, "ready", true),
    ];
    let q = gateway_query(&vec![("language".to_string(), "de".to_string())], &vec![None]);
    assert!(q.stable_only);
    assert!(is_suggestible(&backends[0], &q, BackendStage::Asr));
    assert!(!is_suggestible(&backends[0], &q, BackendStage::Tts));
    assert!(!is_suggestible(&backends[3], &q, BackendStage::Tts));
    assert!(!is_suggestible(&backends[4], &q, BackendStage::Tts));
    let pairs = gateway_pairs(&backends, &q);
    assert_eq!(pairs, vec![(0, 1), (0, 2)]);
    let numbers = vec![
        GatewayPairNumbers { fits: false, vram: 2100 },
        GatewayPairNumbers { fits: true, vram: 200 },
    ];
    let out = build_gateway_suggestions(cap("gpu-8gb"), &backends, &q, &numbers);
    let shown: Vec<(&str, u32, u32)> =
        out.suggested_pairs.iter().map(|p| (p.tts_id.as_str(), p.score, p.vram_gb)).collect();
    assert_eq!(shown, vec![("tts-a", 96, 200), ("tts-big", 28, 2100)]);
    assert_eq!(out.scoring, "heuristic_v1");
}
