//! The gateway, its requests and the realtime protocol.

use s2s_vulkan::api::{
    body_plan, body_plan_for, build_gateway_suggestions, client_action, ends_session, gateway_pairs,
    gateway_query, is_wav_content_type, merged_status, readiness_http_status,
    refused_recording_status, request_language, stack_http_status, BodyPlan, ClientAction,
    GatewayPairNumbers, RecordingForm, MAX_ASR_REQUEST_BYTES,
};
use s2s_vulkan::config::Config;
use s2s_vulkan::gateway::{
    candidate_health_urls, gateway_audio, health_ok, iso_tts_language, probe_endpoint,
    probe_response_is_healthy, readiness, speech_plan, transcript, transcription_language,
    BoundedBody, GatewaySpeechRequest,
};
use s2s_vulkan::json::{json_text, parse_json, Json};
use s2s_vulkan::lab::{stack_status, ActiveBackend, ControllerState};
use s2s_vulkan::realtime::{
    answer_to, client_message, client_text, session_created, FreshIds, Playback, RealtimeAction,
};
use s2s_vulkan::registry::BackendStage;
use s2s_vulkan::runtime::{reload_note, runtime_from, status_of};
use s2s_vulkan::wav::{encode_wav, validate_pcm_wav, wav_info, MAX_ASR_WAV_BYTES};

fn pcm_wav() -> Vec<u8> {
    let mut bytes = Vec::new();
    {
        let spec = hound::WavSpec {
            channels: 1,
            sample_rate: 16_000,
            bits_per_sample: 16,
            sample_format: hound::SampleFormat::Int,
        };
        let mut writer = hound::WavWriter::new(std::io::Cursor::new(&mut bytes), spec).unwrap();
        writer.write_sample::<i16>(0).unwrap();
        writer.write_sample::<i16>(512).unwrap();
        writer.finalize().unwrap();
    }
    bytes
}

struct Part {
    name: &'static str,
    content_type: Option<&'static str>,
    data: Vec<u8>,
}

fn extract(content_type: &str, body: &[u8], parts: Vec<Part>) -> Result<(Vec<u8>, Option<String>), String> {
    match body_plan(content_type, body.len())? {
        BodyPlan::Recording => {
            validate_pcm_wav(body)?;
            Ok((body.to_vec(), None))
        }
        BodyPlan::Form(_) => {
            let mut form = RecordingForm::new();
            for part in parts {
                form.take_field(part.name, &part.content_type.map(|t| t.to_string()), part.data)?;
            }
            form.finish()
        }
    }
}

fn speech(input: Option<&str>, text: Option<&str>, model: Option<&str>) -> GatewaySpeechRequest {
    GatewaySpeechRequest {
        input: input.map(|s| s.to_string()),
        text: text.map(|s| s.to_string()),
        model: model.map(|s| s.to_string()),
        voice: None,
        language: None,
        response_format: None,
    }
}

fn str_of<'a>(v: &'a Json, key: &str) -> Option<&'a str> {
    v.get(key).and_then(|x| x.as_str())
}

#[test]
fn asr_health_candidates_include_base_health() {
    let urls = candidate_health_urls("http://whisper-tiny:8082", true);
    assert!(urls.iter().any(|u| u.ends_with("/health")));
    assert!(urls.iter().any(|u| u == "http://whisper-tiny:8082"));
}

#[test]
fn tts_health_candidates_strip_speech_path() {
    let urls = candidate_health_urls("http://supertonic:8083/v1/audio/speech", false);
    assert!(urls.iter().any(|u| u.contains("/health")));
    assert!(urls.iter().any(|u| u.starts_with("http://supertonic:8083")));
}

#[test]
fn speech_request_requires_text() {
    let req = speech(None, Some("  "), None);
    assert!(req.text().is_err());
    let req = speech(Some("Hallo"), None, None);
    assert_eq!(req.text().unwrap(), "Hallo");
}

#[test]
fn speech_request_rejects_caller_model() {
    let req = speech(Some("Hallo"), None, Some("caller-model"));
    assert!(req.validate().is_err());
}

#[test]
fn readiness_probe_rejects_json_404_and_html() {
    assert!(!probe_response_is_healthy(404, &Some("application/json".to_string())));
    assert!(!probe_response_is_healthy(200, &Some("text/html".to_string())));
    assert!(probe_response_is_healthy(200, &Some("application/json".to_string())));
}

#[test]
fn bounded_response_rejects_declared_and_streamed_oversize() {
    let declared = BoundedBody::new(4, Some(5)).err().unwrap();
    assert!(declared.contains("Content-Length"));
    let mut body = BoundedBody::new(3, None).ok().unwrap();
    assert!(body.push(b"ab").is_ok());
    let streamed = body.push(b"cd").unwrap_err();
    assert!(streamed.contains("byte limit"));
    assert_eq!(body.body, b"ab");
}

#[test]
fn raw_asr_accepts_only_valid_pcm_wav() {
    let wav = pcm_wav();
    let (actual, language) = extract("audio/wav", &wav, vec![]).unwrap();
    assert_eq!(actual, wav);
    assert_eq!(language, None);

    assert!(extract("audio/webm", &wav, vec![]).is_err());
    assert!(extract("audio/wav", b"RIFFbrokenWAVE", vec![]).is_err());
    for compressed in [b"ID3compressed-mp3".as_slice(), b"OggScompressed-ogg".as_slice()] {
        assert!(extract("audio/wav", compressed, vec![]).is_err());
    }

    let mut floating = wav;
    floating[20..22].copy_from_slice(&3_u16.to_le_bytes());
    assert!(extract("audio/wav", &floating, vec![]).is_err());
}

#[test]
fn multipart_asr_checks_part_type_and_language() {
    let content_type = "multipart/form-data; boundary=aurago-speech-lab-test";
    let wav = pcm_wav();
    let parts = vec![
        Part { name: "language", content_type: None, data: b"de".to_vec() },
        Part { name: "file", content_type: Some("audio/wav"), data: wav.clone() },
    ];
    let (actual, language) = extract(content_type, b"form", parts).unwrap();
    assert_eq!(actual, wav);
    assert_eq!(language.as_deref(), Some("de"));

    let wrong = vec![Part { name: "file", content_type: Some("audio/webm"), data: wav }];
    assert!(extract(content_type, b"form", wrong).is_err());
}

#[test]
fn boundaries_are_read_out_of_the_content_type() {
    match body_plan("multipart/form-data; boundary=\"a b\"", 3) {
        Ok(BodyPlan::Form(b)) => assert_eq!(b, "a b"),
        _ => panic!("a form has a boundary"),
    }
    match body_plan("multipart/form-data", 3) {
        Err(m) => assert!(m.starts_with("multipart boundary: ")),
        _ => panic!("a form without a boundary is refused"),
    }
    match body_plan_for("multipart/form-data", 3, Ok("x".to_string())) {
        Ok(BodyPlan::Form(b)) => assert_eq!(b, "x"),
        _ => panic!("the boundary is passed on"),
    }
}

#[test]
fn forms_need_a_recording() {
    assert_eq!(
        RecordingForm::new().finish().unwrap_err(),
        "multipart form missing file/audio field"
    );
    let mut form = RecordingForm::new();
    assert_eq!(
        form.field("audio", &None, vec![1], "").unwrap_err(),
        "multipart audio field requires Content-Type audio/wav"
    );
    assert!(form.field("other", &None, vec![1], "").is_ok());
    assert!(form.wav.is_none());
}

#[test]
fn asr_rejects_oversized_wav() {
    let mut wav = pcm_wav();
    wav.resize(MAX_ASR_WAV_BYTES + 1, 0);
    assert!(validate_pcm_wav(&wav).unwrap_err().contains("exceeds 8 MiB"));
    assert_eq!(refused_recording_status("recording exceeds 8 MiB"), 413);
    assert_eq!(refused_recording_status("no recording"), 400);
    assert!(MAX_ASR_REQUEST_BYTES > MAX_ASR_WAV_BYTES);
}

#[test]
fn failed_stack_activation_is_http_conflict() {
    assert_eq!(stack_http_status(true), 200);
    assert_eq!(stack_http_status(false), 409);
}

#[test]
fn readiness_uses_service_unavailable_until_both_components_are_ready() {
    assert_eq!(readiness_http_status(true), 200);
    assert_eq!(readiness_http_status(false), 503);
}

#[test]
fn encoded_recordings_are_accepted() {
    let bytes = encode_wav(&[0, 512, -512], 16_000).unwrap();
    let info = wav_info(&bytes).ok().unwrap();
    assert_eq!((info.channels, info.sample_rate, info.bits_per_sample), (1, 16_000, 16));
    assert!(info.integer);
    assert_eq!(info.frames, 3);
    assert!(validate_pcm_wav(&bytes).is_ok());
    assert!(wav_info(b"RIFFbrokenWAVE").is_err());
    assert!(is_wav_content_type("Audio/WAV; codecs=1"));
    assert!(!is_wav_content_type("audio/webm"));
}

#[test]
fn a_recording_is_a_head_and_its_samples() {
    let bytes = encode_wav(&[1, -2], 24_000).unwrap();
    let mut expected = b"RIFF".to_vec();
    expected.extend(40u32.to_le_bytes());
    expected.extend(b"WAVEfmt ");
    expected.extend(16u32.to_le_bytes());
    expected.extend([1, 0, 1, 0]);
    expected.extend(24_000u32.to_le_bytes());
    expected.extend(48_000u32.to_le_bytes());
    expected.extend([2, 0, 16, 0]);
    expected.extend(b"data");
    expected.extend(4u32.to_le_bytes());
    expected.extend([1, 0, 0xfe, 0xff]);
    assert_eq!(bytes, expected);
    assert_eq!(encode_wav(&[], 8_000).unwrap().len(), 44);
}

#[test]
fn a_recording_needs_a_rate() {
    assert_eq!(encode_wav(&[1], 0), Err("WAV sample rate is zero".to_string()));
    assert_eq!(encode_wav(&[1], 0x8000_0000), Err("audio does not fit a WAV file".to_string()));
    assert!(encode_wav(&[1], 0x7fff_ffff).is_ok());
}

fn active(id: &str) -> ActiveBackend {
    ActiveBackend {
        backend_id: id.to_string(),
        variant_id: format!("{id}-cpu"),
        accelerator: "cpu".to_string(),
        endpoint: format!("http://{id}:1"),
        container: id.to_string(),
    }
}

#[test]
fn both_stages_have_to_serve() {
    let mut rt = runtime_from(Config::default());
    rt.asr_id = "asr-a".to_string();
    rt.tts_id = "tts-a".to_string();
    let mut state = ControllerState::default();
    state.set_active(BackendStage::Asr, active("asr-a"));
    let missing = readiness(&stack_status(&state, &rt), true, true);
    assert!(missing.asr_ok && !missing.tts_ok && !missing.ready);
    assert_eq!(missing.message, "tts not selected");
    state.set_active(BackendStage::Tts, active("tts-b"));
    let drift = readiness(&stack_status(&state, &rt), true, true);
    assert_eq!(drift.message, "tts backend drift (runtime=tts-a, active=tts-b)");
    state.set_active(BackendStage::Tts, active("tts-a"));
    let silent = readiness(&stack_status(&state, &rt), false, true);
    assert!(!silent.ready && silent.tts_ok);
    let ready = readiness(&stack_status(&state, &rt), true, true);
    assert!(ready.ready);
    assert_eq!(ready.message, "ready · asr=asr-a tts=tts-a");
    assert_eq!(probe_endpoint(&Some(active("asr-a")), "x"), "http://asr-a:1");
    assert_eq!(probe_endpoint(&None, "x"), "x");
}

#[test]
fn speech_goes_to_the_selected_backend() {
    let mut cfg = Config::default();
    cfg.tts_url = "http://tts:1/v1/audio/speech".to_string();
    let plan = speech_plan(&cfg, &speech(Some("Hallo"), None, None)).ok().unwrap();
    assert_eq!(plan.url, cfg.tts_url);
    assert_eq!(plan.content_type, "audio/wav");
    assert_eq!(str_of(&plan.body, "input"), Some("Hallo"));
    assert!(speech_plan(&cfg, &speech(None, None, None)).is_err());
    assert_eq!(iso_tts_language(" German "), "de");
    assert_eq!(iso_tts_language("nl"), "nl");
    assert!(gateway_audio(vec![], "audio/wav", "t").is_err());
    assert_eq!(gateway_audio(vec![1], "audio/wav", "t").ok().unwrap().bytes, vec![1]);
}

#[test]
fn transcripts_carry_their_language() {
    let mut cfg = Config::default();
    cfg.language = "auto".to_string();
    assert_eq!(transcription_language(&cfg, 0, &None).unwrap_err(), "empty audio body");
    assert_eq!(transcription_language(&cfg, 1, &Some("de".to_string())).unwrap(), "de");
    assert_eq!(transcription_language(&cfg, 1, &None).unwrap(), "auto");
    assert_eq!(transcript("x".to_string(), "auto", "a").language, None);
    assert_eq!(transcript("x".to_string(), "de", "a").language.as_deref(), Some("de"));
    assert_eq!(request_language(None, Some("en".to_string())).as_deref(), Some("en"));
    assert_eq!(str_of(&health_ok(), "status"), Some("ok"));
}

#[test]
fn clients_are_understood() {
    assert!(matches!(client_action("get_stack"), ClientAction::GetStack));
    assert!(matches!(client_action("set_stack"), ClientAction::SetStack));
    assert!(matches!(client_action("dance"), ClientAction::Unknown));
    assert!(!ends_session("hello"));
    let rt = runtime_from(Config::default());
    let merged = merged_status(status_of(&rt), false, "lab says no");
    assert!(!merged.ok);
    assert!(merged.message.contains("lab says no"));
}

#[test]
fn suggestions_of_an_empty_catalog_are_empty() {
    let q = gateway_query(
        &vec![("language".to_string(), "de".to_string()), ("limit".to_string(), "2".to_string())],
        &vec![None, None],
    );
    assert_eq!(q.language.as_deref(), Some("de"));
    assert_eq!(q.limit, 2);
    let none = vec![];
    assert!(gateway_pairs(&none, &q).is_empty());
    let numbers: Vec<GatewayPairNumbers> = vec![];
    let hw = s2s_vulkan::registry::HardwareProfile {
        vendor: "unknown".to_string(),
        device_name: "CPU".to_string(),
        accelerators: vec!["cpu".to_string()],
        platform: "linux".to_string(),
        in_container: true,
        allow_experimental: false,
        vram_total_gb: None,
        vram_free_gb: None,
        ram_total_gb: None,
        ram_available_gb: None,
        host_agent_online: false,
        host_profiles: vec![],
        tier: "cpu-light".to_string(),
    };
    let out = build_gateway_suggestions(hw, &none, &q, &numbers);
    assert!(out.suggested_pairs.is_empty());
}

// --- Realtime ---

fn message(members: Vec<(&str, Json)>) -> Json {
    Json::Object(members.into_iter().map(|(k, v)| (k.to_string(), v)).collect())
}

#[test]
fn sent_audio_is_decoded() {
    let m = message(vec![
        ("type", Json::Text("input_audio_buffer.append".to_string())),
        ("audio", Json::Text("AQIDBA==".to_string())),
    ]);
    match client_message(&m, "e") {
        RealtimeAction::Audio(b) => assert_eq!(b, vec![1, 2, 3, 4]),
        _ => panic!("audio is handed on"),
    }
    let broken = message(vec![
        ("type", Json::Text("input_audio_buffer.append".to_string())),
        ("audio", Json::Text("***".to_string())),
    ]);
    assert!(matches!(client_message(&broken, "e"), RealtimeAction::Nothing));
    assert!(matches!(answer_to(&broken, "e", Some(vec![7])), RealtimeAction::Audio(_)));
    let cancel = message(vec![("type", Json::Text("response.cancel".to_string()))]);
    assert!(matches!(client_message(&cancel, "e"), RealtimeAction::Listen));
    let update = message(vec![("type", Json::Text("session.update".to_string()))]);
    match client_message(&update, "e") {
        RealtimeAction::Reply(r) => assert_eq!(str_of(&r, "type"), Some("session.updated")),
        _ => panic!("an update is answered"),
    }
    let created = session_created("m", "e", "s");
    assert_eq!(str_of(&created, "type"), Some("session.created"));
}

#[test]
fn audio_belongs_to_an_answer_that_ends_once() {
    let fresh = |n: &str| FreshIds {
        response: format!("r{n}"),
        first: format!("a{n}"),
        second: format!("b{n}"),
    };
    let mut p = Playback::new();
    assert!(p.step(true, &vec![], &fresh("0")).is_empty());
    let started = p.step(false, &vec![0x0201, 0x0403], &fresh("1"));
    assert_eq!(started.len(), 2);
    assert_eq!(str_of(&started[0], "type"), Some("response.created"));
    assert_eq!(str_of(&started[1], "type"), Some("response.audio.delta"));
    assert_eq!(str_of(&started[1], "response_id"), Some("r1"));
    assert_eq!(str_of(&started[1], "delta"), Some("AQIDBA=="));
    let more = p.step(false, &vec![1], &fresh("2"));
    assert_eq!(more.len(), 1);
    assert_eq!(str_of(&more[0], "response_id"), Some("r1"));
    let done = p.step(true, &vec![], &fresh("3"));
    assert_eq!(str_of(&done[0], "type"), Some("response.audio.done"));
    assert_eq!(str_of(&done[1], "type"), Some("response.done"));
    assert!(p.step(true, &vec![], &fresh("4")).is_empty());
}

#[test]
fn messages_are_read_from_their_text() {
    match client_text("{\"type\":\"input_audio_buffer.append\",\"audio\":\"AQIDBA==\"}", "e") {
        RealtimeAction::Audio(b) => assert_eq!(b, vec![1, 2, 3, 4]),
        _ => panic!("audio is handed on"),
    }
    assert!(matches!(client_text("{\"type\":\"response.cancel\"}", "e"), RealtimeAction::Listen));
    assert!(matches!(client_text("{\"type\":", "e"), RealtimeAction::Nothing));
    assert!(matches!(client_text("[1]", "e"), RealtimeAction::Nothing));
    match client_text("{\"type\":\"session.update\",\"session\":{\"a\":1}}", "e9") {
        RealtimeAction::Reply(j) => assert_eq!(
            json_text(&j),
            "{\"event_id\":\"e9\",\"session\":{\"a\":1},\"type\":\"session.updated\"}"
        ),
        _ => panic!("the session is confirmed"),
    }
}

#[test]
fn json_texts_are_read_and_written() {
    let j = parse_json(" {\"b\":[1,2.5,-3,\"x\\n\",true,null],\"a\":{\"c\":\"\u{fc}\"}} ").unwrap();
    assert_eq!(json_text(&j), "{\"a\":{\"c\":\"\u{fc}\"},\"b\":[1,2.5,-3,\"x\\n\",true,null]}");
    match j.get("b").unwrap() {
        Json::List(v) => {
            assert!(matches!(&v[1], Json::Number(n) if n == "2.5"));
            assert_eq!(v[3].as_str(), Some("x\n"));
            assert_eq!(v[4].as_bool(), Some(true));
            assert!(matches!(v[5], Json::Null));
        }
        _ => panic!("b is a list"),
    }
    assert!(parse_json("{\"a\":1,}").is_none());
    assert!(parse_json("").is_none());
    let twice = message(vec![("k", Json::number(1)), ("j", Json::Null), ("k", Json::number(2))]);
    assert_eq!(json_text(&twice), "{\"j\":null,\"k\":2}");
    assert_eq!(json_text(&Json::Number("no number".to_string())), "null");
}

#[test]
fn a_reload_is_told_with_the_reported_model() {
    assert_eq!(
        reload_note("small", "{\"model\":\"small.en\"}"),
        "ASR reloaded model=small (small.en)"
    );
    assert_eq!(reload_note("small", "{\"model\":3}"), "ASR reloaded model=small (small)");
    assert_eq!(reload_note("small", "<html>"), "ASR reloaded model=small (small)");
}

#[test]
fn a_language_field_is_read_as_text() {
    let mut form = RecordingForm::new();
    assert!(form.take_field("lang", &None, b" de\xff\n".to_vec()).is_ok());
    assert_eq!(form.language.as_deref(), Some("de\u{fffd}"));
    assert!(form.take_field("file", &None, vec![1]).is_err());
}
