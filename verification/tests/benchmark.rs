//! Benchmark requests, error counts and exports.

use s2s_vulkan::benchmark::{
    admit_request, benchmark_db_path, character_errors, check_rated, check_rating, check_run_id,
    check_sample, csv, default_kind, default_prompts, edit_distance, llm_sample_body,
    managed_container_from_endpoint, memory_bytes, normalize_text, number_columns, pcm16_wav,
    percentile_index, sample_body, sample_file, sample_rate_of, sample_url, says_managed,
    validate_run_id, word_errors, BenchmarkRating, BenchmarkRequest, BenchmarkRun,
};
use s2s_vulkan::config::Config;
use s2s_vulkan::json::Json;

fn percentile(values: &[f64], thousandths: u32) -> f64 {
    if values.is_empty() {
        return 0.0;
    }
    let mut sorted = values.to_vec();
    sorted.sort_by(f64::total_cmp);
    sorted[percentile_index(sorted.len(), thousandths)]
}

fn rate(errors: usize, total: usize) -> f64 {
    if total == 0 {
        return if errors == 0 { 0.0 } else { 1.0 };
    }
    errors as f64 / total as f64
}

fn word_error_rate(reference: &str, hypothesis: &str) -> f64 {
    let c = word_errors(reference, hypothesis);
    rate(c.errors, c.total)
}

fn character_error_rate(reference: &str, hypothesis: &str) -> f64 {
    let c = character_errors(reference, hypothesis);
    rate(c.errors, c.total)
}

fn text(s: &str) -> Json {
    Json::Text(s.to_string())
}

fn number(s: &str) -> Json {
    Json::Number(s.to_string())
}

fn member(key: &str, value: Json) -> (String, Json) {
    (key.to_string(), value)
}

fn run(samples: Vec<Json>) -> BenchmarkRun {
    BenchmarkRun {
        id: "run-1".to_string(),
        kind: "tts".to_string(),
        status: "completed".to_string(),
        created_at: 1,
        completed_at: Some(2),
        stack: Json::Null,
        hardware: Json::Null,
        request: Json::Null,
        result: Some(Json::Object(vec![member("samples", Json::List(samples))])),
        error: None,
    }
}

#[test]
fn percentile_is_stable() {
    assert_eq!(percentile(&[4.0, 1.0, 3.0, 2.0], 500), 3.0);
    assert_eq!(percentile(&[], 950), 0.0);
}

#[test]
fn csv_escapes_quotes() {
    assert_eq!(csv("a\"b"), "\"a\"\"b\"");
}

#[test]
fn wav_header_contains_pcm_payload() {
    let wav = pcm16_wav(&[1, 2, 3, 4], 24_000).unwrap();
    assert_eq!(&wav[0..4], b"RIFF");
    assert_eq!(&wav[8..12], b"WAVE");
    assert_eq!(&wav[40..44], &4u32.to_le_bytes());
    assert_eq!(&wav[44..], &[1, 2, 3, 4]);
}

#[test]
fn error_rates_normalize_case_and_punctuation() {
    assert_eq!(word_error_rate("Hallo, Welt!", "hallo welt"), 0.0);
    assert_eq!(character_error_rate("Grüße!", "grüße"), 0.0);
    assert_eq!(word_error_rate("eins zwei", "eins drei"), 0.5);
}

#[test]
fn memory_stats_only_accept_registry_sidecar_hosts() {
    assert_eq!(
        managed_container_from_endpoint("http://whisper-tiny:8082/inference").as_deref(),
        Some("s2s-whisper-tiny")
    );
    assert_eq!(
        managed_container_from_endpoint("http://tts-qwen-sycl-aot:8083/v1/audio/speech").as_deref(),
        Some("s2s-tts-qwen-sycl-aot")
    );
    assert_eq!(managed_container_from_endpoint("http://host.docker.internal:11434/v1"), None);
    assert_eq!(
        managed_container_from_endpoint("http://supertonic.evil:8083/v1/audio/speech"),
        None
    );
}

#[test]
fn distances_are_bounded_and_symmetric() {
    let a: Vec<char> = "kitten".chars().collect();
    let b: Vec<char> = "sitting".chars().collect();
    assert_eq!(edit_distance(&a, &b), 3);
    assert_eq!(edit_distance(&b, &a), 3);
    assert_eq!(edit_distance(&a, &a), 0);
    assert_eq!(edit_distance(&a, &vec![]), 6);
}

#[test]
fn words_are_lowered_and_cleaned() {
    assert_eq!(normalize_text("  Hallo,   SCHÖNE Welt! "), vec!["hallo", "schöne", "welt"]);
    assert!(normalize_text("?!").is_empty());
}

#[test]
fn requests_are_admitted() {
    let given = BenchmarkRequest { kind: " TTS ".to_string(), prompts: vec![] };
    let admitted = admit_request(given).ok().unwrap();
    assert_eq!(admitted.kind, "tts");
    assert_eq!(admitted.prompts, default_prompts());
    assert_eq!(default_kind(), "tts");

    let unknown = BenchmarkRequest { kind: "vad".to_string(), prompts: vec![] };
    assert_eq!(
        admit_request(unknown).err().unwrap(),
        "benchmark kind 'vad' is not implemented; supported: tts, asr, llm"
    );
    let blank = BenchmarkRequest { kind: "asr".to_string(), prompts: vec![String::new()] };
    assert_eq!(
        admit_request(blank).err().unwrap(),
        "prompts must contain 1..100 entries of 1..1000 bytes"
    );
    let long = BenchmarkRequest { kind: "asr".to_string(), prompts: vec!["a".repeat(1001)] };
    assert!(admit_request(long).is_err());
    let many = BenchmarkRequest { kind: "asr".to_string(), prompts: vec!["a".to_string(); 101] };
    assert!(admit_request(many).is_err());
    let full = BenchmarkRequest { kind: "llm".to_string(), prompts: vec!["a".repeat(1000); 100] };
    assert_eq!(admit_request(full).ok().unwrap().prompts.len(), 100);
}

#[test]
fn run_ids_are_canonical() {
    assert!(validate_run_id("67e55044-10b1-426f-9247-bb680e5fe0c8").is_ok());
    assert!(validate_run_id("67E55044-10B1-426F-9247-BB680E5FE0C8").is_ok());
    assert!(validate_run_id("67e5504410b1426f9247bb680e5fe0c8").is_err());
    assert!(validate_run_id("../lab.db").is_err());
    assert!(check_run_id("a", &Ok("a".to_string())).is_ok());
    assert!(check_run_id("a", &Ok("b".to_string())).is_err());
    assert!(check_run_id("a", &Err("bad".to_string())).is_err());
}

#[test]
fn ratings_name_an_existing_sample() {
    assert!(check_rating(&BenchmarkRating { sample_index: 0, score: 1 }).is_ok());
    assert!(check_rating(&BenchmarkRating { sample_index: 99, score: 5 }).is_ok());
    assert!(check_rating(&BenchmarkRating { sample_index: 100, score: 5 }).is_err());
    assert!(check_rating(&BenchmarkRating { sample_index: 0, score: 0 }).is_err());
    assert!(check_rating(&BenchmarkRating { sample_index: 0, score: 6 }).is_err());
    let one = Some(run(vec![Json::Null]));
    assert!(check_rated(&BenchmarkRating { sample_index: 0, score: 3 }, &one).is_ok());
    assert_eq!(
        check_rated(&BenchmarkRating { sample_index: 1, score: 3 }, &one),
        Err("benchmark sample does not exist".to_string())
    );
    assert_eq!(
        check_rated(&BenchmarkRating { sample_index: 0, score: 3 }, &None),
        Err("benchmark not found".to_string())
    );
}

#[test]
fn tables_have_a_row_for_each_sample() {
    let sample = Json::Object(vec![member("prompt", text("sag \"ja\""))]);
    let mut cells = vec![String::new(); number_columns().len()];
    cells[0] = "12.5".to_string();
    let table = run(vec![sample]).to_csv(&vec![cells]);
    let lines: Vec<&str> = table.split('\n').collect();
    assert!(lines[0].starts_with("run_id,kind,status,prompt,"));
    assert_eq!(
        lines[1],
        "\"run-1\",\"tts\",\"completed\",\"sag \"\"ja\"\"\",\"\",\"\",12.5,,,,,,,,,,"
    );
    assert_eq!(lines.len(), 3);
    let empty = run(vec![]).to_csv(&vec![]);
    assert_eq!(empty.matches('\n').count(), 1);
    assert_eq!(run(vec![]).sample_count(), 0);
}

#[test]
fn memory_is_what_is_not_spare() {
    let stats = |usage: &str, spare: &str| {
        Json::Object(vec![member(
            "memory_stats",
            Json::Object(vec![
                member("usage", number(usage)),
                member("stats", Json::Object(vec![member("inactive_file", number(spare))])),
            ]),
        )])
    };
    assert_eq!(memory_bytes(&stats("100", "30")), Some(70));
    assert_eq!(memory_bytes(&stats("100", "130")), Some(0));
    assert_eq!(memory_bytes(&Json::Null), None);
}

#[test]
fn a_managed_container_says_so() {
    let labels = Json::Object(vec![member("s2s.lab.managed", text("true"))]);
    let inspection =
        Json::Object(vec![member("Config", Json::Object(vec![member("Labels", labels)]))]);
    assert!(says_managed(&inspection));
    assert!(!says_managed(&Json::Null));
}

#[test]
fn samples_are_named_after_their_place() {
    assert_eq!(sample_file(7), "007.wav");
    assert_eq!(sample_file(42), "042.wav");
    assert_eq!(sample_file(100), "100.wav");
    assert_eq!(sample_url("r", 3), "/api/v1/benchmarks/r/audio/3");
    assert!(check_sample(0).is_err());
}

#[test]
fn samples_are_requested_with_the_configured_models() {
    let cfg = Config::default();
    let body = sample_body(&cfg, "Hallo", false);
    assert_eq!(body.get("input").and_then(|v| v.as_str()), Some("Hallo"));
    let llm = llm_sample_body(&cfg, "Hallo", "0.2");
    assert_eq!(llm.get("model").and_then(|v| v.as_str()), Some(cfg.model_name.as_str()));
    assert_eq!(sample_rate_of(&cfg, Some(22_050)), 22_050);
}

#[test]
fn the_database_has_a_place() {
    assert_eq!(benchmark_db_path(&None, true), "/data/lab.db");
    assert_eq!(benchmark_db_path(&None, false), "target/s2s-lab.db");
    assert_eq!(benchmark_db_path(&Some("x.db".to_string()), true), "x.db");
}
