//! Recognition, conversation and synthesis.

use s2s_vulkan::config::{Config, SttApi, TtsBackend};
use s2s_vulkan::json::Json;
use s2s_vulkan::llm::{
    chat_body, completions_url, estimated_tokens, llm_action, ollama_keep_alive_value, read_answer,
    Conversation, HeardItem, Line, LlmAction, Outcome, StreamedAnswer,
};
use s2s_vulkan::messages::{answer_chunks, AudioOut, PipelineEvent, Transcription, TurnId};
use s2s_vulkan::pcm::{
    bytes_to_i16_le, i16_to_bytes_le, resample_i16_linear, StreamingPcmResampler, Tap,
};
use s2s_vulkan::playout::{audio_slices, take_chunks, Ending, PcmAnswer};
use s2s_vulkan::sentences::{pop_sentence, split_sentences};
use s2s_vulkan::stt::{
    accept_transcript, classify_answer, clean_transcript, health_address, pick_transcript,
    server_error, stt_action, too_short, transcript_language, transcription_request, AnswerBody,
    AudioItem, SttAction,
};
use s2s_vulkan::tts::{
    accept_header, announced_rate, check_server_request, choose_model_dir, chunk_samples,
    decode_pcm_answer, decode_raw_audio, double_apostrophes,
    engine_default_language, engine_language, engine_rate,
    http_is_higgs, http_is_qwen, http_wants_pcm, looks_like_wav, model_dirs, native_sample_rate,
    qwen_frame_limit, reads_whole_answer, resolve_tts_backend, server_language, server_wants_wav, speech_body,
    tts_action, voice_file_of, voice_paths, SpeechItem, TtsAction,
};

fn as_bytes(samples: &[i16]) -> Vec<u8> {
    samples.iter().flat_map(|sample| sample.to_le_bytes()).collect()
}

/// The sample at a tap, interpolated between its neighbours.
fn sample(tap: &Tap, from: u32, to: u32) -> i16 {
    let position = tap.index as f64 * from as f64 / to as f64;
    let fraction = (position - position.floor()) as f32;
    let (a, b) = (tap.before as f32, tap.after as f32);
    (a + (b - a) * fraction).round().clamp(i16::MIN as f32, i16::MAX as f32) as i16
}

fn samples(taps: &[Tap], from: u32, to: u32) -> Vec<i16> {
    taps.iter().map(|t| sample(t, from, to)).collect()
}

#[test]
fn streaming_resampler_is_chunk_boundary_invariant() {
    let input: Vec<i16> = (0..2400)
        .map(|index| {
            let phase = index as f32 * 0.031;
            (phase.sin() * 20_000.0) as i16
        })
        .collect();
    let expected = samples(&resample_i16_linear(&input, 24_000, 16_000), 24_000, 16_000);
    let bytes = as_bytes(&input);
    let mut decoder = StreamingPcmResampler::new(24_000, 16_000);
    let mut actual = Vec::new();
    let mut offset = 0usize;
    let pattern = [1usize, 7, 2, 31, 5, 128, 3, 511];
    let mut pattern_index = 0usize;
    while offset < bytes.len() {
        let end = (offset + pattern[pattern_index % pattern.len()]).min(bytes.len());
        actual.extend(samples(&decoder.push_bytes(&bytes[offset..end]), 24_000, 16_000));
        offset = end;
        pattern_index += 1;
    }
    actual.extend(samples(&decoder.finish().ok().unwrap(), 24_000, 16_000));
    assert_eq!(actual, expected);
    assert_eq!(actual.len(), 1600);
}

#[test]
fn streaming_decoder_preserves_split_odd_byte() {
    let input = [i16::MIN, -123, 0, 456, i16::MAX];
    let bytes = as_bytes(&input);
    let mut decoder = StreamingPcmResampler::new(16_000, 16_000);
    let mut output = Vec::new();
    for byte in bytes {
        output.extend(samples(&decoder.push_bytes(&[byte]), 16_000, 16_000));
    }
    output.extend(samples(&decoder.finish().ok().unwrap(), 16_000, 16_000));
    assert_eq!(output, input);
}

#[test]
fn streaming_decoder_rejects_trailing_odd_byte() {
    let mut decoder = StreamingPcmResampler::new(24_000, 16_000);
    decoder.push_bytes(&[0x01]);
    assert!(decoder.finish().is_err());
}

#[test]
fn any_target_rate_is_served() {
    assert!(resample_i16_linear(&[1, 2, 3], 16_000, 0).is_empty());
    assert!(resample_i16_linear(&[], 0, 16_000).is_empty());
    let same = resample_i16_linear(&[1, 2, 3], 0, 0);
    assert_eq!(same.iter().map(|t| t.before).collect::<Vec<_>>(), vec![1, 2, 3]);
    let up = resample_i16_linear(&[5, 5, 5], 8_000, 24_000);
    assert_eq!(up.len(), 9);
    assert!(up.iter().all(|t| t.before == 5 && t.after == 5));
}

#[test]
fn two_cuts_of_a_stream_agree() {
    let input: Vec<i16> = (0..100).map(|i| i * 37 - 900).collect();
    let bytes = as_bytes(&input);
    let all = |size: usize| {
        let mut decoder = StreamingPcmResampler::new(44_100, 16_000);
        let mut taps = Vec::new();
        for part in bytes.chunks(size) {
            taps.extend(decoder.push_bytes(part));
            taps.extend(decoder.push_bytes(&[]));
        }
        taps.extend(decoder.finish().ok().unwrap());
        taps
    };
    assert_eq!(all(1), all(33));
    assert_eq!(all(7).len(), 36);
    assert_eq!(all(200), resample_i16_linear(&input, 44_100, 16_000));
}

#[test]
fn samples_and_bytes_survive() {
    let v = vec![i16::MIN, -1, 0, 1, i16::MAX];
    assert_eq!(bytes_to_i16_le(&i16_to_bytes_le(&v)), v);
    assert_eq!(i16_to_bytes_le(&[0x0201]), vec![1, 2]);
}

#[test]
fn qwen_frame_limit_never_allows_legacy_2048_frames() {
    let mut cfg = Config::default();
    cfg.tts_http_max_new_tokens = 2048;
    assert_eq!(qwen_frame_limit(&cfg), 256);
    cfg.tts_http_max_new_tokens = 0;
    assert_eq!(qwen_frame_limit(&cfg), 1);
}

#[test]
fn transcription_uses_selected_multipart_api() {
    let mut cfg = Config::default();
    cfg.whisper_url = "http://127.0.0.1:1/".to_string();
    cfg.stt_api = SttApi::Openai;
    let (url, fields) = transcription_request(&cfg, "0.0");
    assert_eq!(url, "http://127.0.0.1:1/v1/audio/transcriptions");
    assert!(fields.contains(&("model".to_string(), "confucius4-r2t2".to_string())));
    assert!(!fields.iter().any(|f| f.0 == "no_timestamps"));
    assert_eq!(
        clean_transcript(&cfg, "language German<asr_text>Guten Morgen".to_string()),
        "Guten Morgen"
    );
    cfg.stt_api = SttApi::Whisper;
    let (url, fields) = transcription_request(&cfg, "0.0");
    assert_eq!(url, "http://127.0.0.1:1/inference");
    assert!(fields.contains(&("no_timestamps".to_string(), "true".to_string())));
    assert!(!fields.iter().any(|f| f.0 == "model"));
    assert_eq!(clean_transcript(&cfg, "Hallo".to_string()), "Hallo");
}

#[test]
fn answers_of_recognisers_are_read() {
    assert!(matches!(classify_answer(" {\"text\":1} "), AnswerBody::Object(_)));
    match classify_answer(" Hallo \n") {
        AnswerBody::Plain(t) => assert_eq!(t, "Hallo"),
        AnswerBody::Object(_) => panic!("plain text is no object"),
    }
    assert_eq!(pick_transcript(&None, &Some(" x ".to_string())), "x");
    assert_eq!(accept_transcript("  ").unwrap_err(), "empty transcript");
    assert_eq!(accept_transcript(" a ").unwrap(), "a");
    assert_eq!(server_error("500", "no"), "ASR server 500: no");
    assert_eq!(health_address("http://a/", true), "http://a/");
    assert_eq!(health_address("http://a/", false), "http://a/health");
    let mut cfg = Config::default();
    cfg.language = "auto".to_string();
    assert_eq!(transcript_language(&cfg), None);
}

#[test]
fn short_recordings_are_not_sent() {
    assert!(too_short(6_399, 16_000));
    assert!(!too_short(6_400, 16_000));
    assert!(matches!(
        stt_action(AudioItem::Final { samples: 10, sample_rate: 16_000 }),
        SttAction::Listen
    ));
    assert!(matches!(
        stt_action(AudioItem::Final { samples: 16_000, sample_rate: 16_000 }),
        SttAction::Transcribe
    ));
    assert!(matches!(stt_action(AudioItem::Progressive), SttAction::Skip));
    assert!(matches!(stt_action(AudioItem::PipelineEnd), SttAction::Stop));
}

#[test]
fn a_backend_for_speech_is_found() {
    let mut cfg = Config::default();
    cfg.tts = TtsBackend::Auto;
    cfg.piper_model = None;
    assert!(resolve_tts_backend(&cfg, true) == TtsBackend::Supertonic);
    assert!(resolve_tts_backend(&cfg, false) == TtsBackend::System);
    cfg.piper_model = Some("m.onnx".to_string());
    assert!(resolve_tts_backend(&cfg, false) == TtsBackend::Piper);
}

#[test]
fn servers_are_asked_in_their_dialect() {
    let mut cfg = Config::default();
    cfg.tts_model = "qwen3-tts".to_string();
    cfg.tts_url = "http://tts:9/v1/audio/speech".to_string();
    assert!(http_is_qwen(&cfg) && !http_is_higgs(&cfg) && http_wants_pcm(&cfg));
    let body = speech_body(&cfg, "Hallo.", Some("german"), true);
    assert_eq!(body.get("response_format").and_then(|v| v.as_str()), Some("pcm"));
    assert!(body.get("max_new_tokens").is_some());
    assert_eq!(accept_header(&cfg), "audio/pcm, audio/wav, */*");
    assert!(reads_whole_answer(&cfg, "audio/wav"));
    assert!(!reads_whole_answer(&cfg, "audio/pcm"));
    cfg.tts_model = "kokoro".to_string();
    assert!(!http_wants_pcm(&cfg));
    assert_eq!(announced_rate(&Some("24000".to_string())), Some(24_000));
    assert_eq!(native_sample_rate(&cfg, Some(22_050)), 22_050);
}

#[test]
fn answers_of_synthesizers_are_decoded() {
    assert_eq!(decode_pcm_answer(&[1, 2]).unwrap(), vec![0x0201]);
    assert_eq!(decode_pcm_answer(&[1]).unwrap_err(), "TTS PCM stream produced no samples");
    assert_eq!(decode_pcm_answer(&[1, 2, 3]).unwrap_err(), "TTS PCM odd length 3");
    assert_eq!(decode_raw_audio(&[1]).unwrap_err(), "odd-length raw PCM from TTS");
    assert!(looks_like_wav(b"RIFF1234WAVE", 12));
    assert!(!looks_like_wav(b"RIFF", 12));
}

#[test]
fn speech_items_lead_to_actions() {
    let text = SpeechItem::Text("Hallo".to_string());
    assert!(matches!(tts_action(&text, TtsBackend::Http, "M1", true), TtsAction::Stream));
    assert!(matches!(tts_action(&text, TtsBackend::System, "M1", true), TtsAction::Speak));
    assert!(matches!(
        tts_action(&text, TtsBackend::Supertonic, "strange", false),
        TtsAction::LoadAndSpeak(_)
    ));
    assert!(matches!(
        tts_action(&SpeechItem::Text(" ".to_string()), TtsBackend::Http, "M1", true),
        TtsAction::Skip
    ));
    assert!(matches!(tts_action(&SpeechItem::Final, TtsBackend::Http, "", true), TtsAction::FinishTurn));
    assert!(check_server_request(" ", "M1", "M1").is_err());
    assert!(check_server_request("Hallo", "M1", "M1").is_ok());
    assert!(server_wants_wav("WAV"));
    assert_eq!(double_apostrophes("it's"), "it''s");
    assert_eq!(engine_language(Some("auto"), "de"), "de");
    assert_eq!(engine_rate(44_100, 16_000), 16_000);
}

#[test]
fn models_and_voices_are_looked_for() {
    let mut cfg = Config::default();
    cfg.supertonic_model_dir = Some("mine".to_string());
    cfg.supertonic_voice = "M1".to_string();
    cfg.supertonic_voice_path = None;
    let dirs = model_dirs(&cfg, &None);
    assert_eq!(dirs, vec!["mine", "models/supertonic/onnx", "assets/onnx"]);
    assert_eq!(choose_model_dir(&cfg, &None, &vec![false, true, true]).unwrap(), dirs[1]);
    assert!(choose_model_dir(&cfg, &None, &vec![false, false, false]).is_err());
    assert_eq!(voice_file_of(" M1 "), "M1.json");
    assert!(voice_paths(&cfg, "a/onnx", "a").contains(&"a/voice_styles/M1.json".to_string()));
}

#[test]
fn chunks_and_rest_are_all() {
    let mut pending: Vec<i16> = (0..10).collect();
    let chunks = take_chunks(&mut pending, 4);
    assert_eq!(chunks, vec![vec![0, 1, 2, 3], vec![4, 5, 6, 7]]);
    assert_eq!(pending, vec![8, 9]);
    let pcm: Vec<i16> = (0..3_000).collect();
    let slices = audio_slices(&pcm, 16_000);
    assert_eq!(slices.concat(), pcm);
    let mut cfg = Config::default();
    cfg.tts_sample_rate = 16_000;
    cfg.tts_stream_chunk_ms = 160;
    assert_eq!(chunk_samples(&cfg), 2_560);
}

#[test]
fn streamed_answers_are_played_whole() {
    let input: Vec<i16> = vec![1200; 1920 * 3];
    let bytes = as_bytes(&input);
    let mut answer = PcmAnswer::new(24_000, 16_000, 2_560);
    let mut played = 0;
    for part in bytes.chunks(3_840) {
        assert!(answer.has_room(part.len()));
        for chunk in answer.feed(part) {
            assert_eq!(chunk.len(), 2_560);
            played += chunk.len();
        }
    }
    let (rest, ending) = answer.finish();
    for chunk in &rest {
        played += chunk.len();
    }
    match ending {
        Ending::Played(n) => assert_eq!(n as usize, played),
        _ => panic!("the answer is played"),
    }
    assert_eq!(played, 3_840);
}

#[test]
fn a_wav_answer_comes_back() {
    let bytes = b"RIFF1234WAVEfmt ".to_vec();
    let mut answer = PcmAnswer::new(24_000, 16_000, 2_560);
    assert!(answer.feed(&bytes[0..5]).is_empty());
    assert!(answer.feed(&bytes[5..]).is_empty());
    match answer.finish().1 {
        Ending::Wav(b) => assert_eq!(b, bytes),
        _ => panic!("a recording is handed back"),
    }
    let mut odd = PcmAnswer::new(24_000, 16_000, 2_560);
    odd.feed(&[0; 13]);
    assert!(matches!(odd.finish().1, Ending::Failed(_)));
}

#[test]
fn sentences_keep_their_words() {
    assert_eq!(
        split_sentences("Das ist ein Satz. Und noch einer!"),
        vec!["Das ist ein Satz.", "Und noch einer!"]
    );
    let mut buf = "Hallo".to_string();
    assert_eq!(pop_sentence(&mut buf), None);
    assert_eq!(buf, "Hallo");
    assert!(split_sentences("  ").is_empty());
    let long = "wort ".repeat(60);
    let parts = split_sentences(&long);
    assert!(parts.len() > 1);
    assert_eq!(parts.join(" ").split_whitespace().count(), 60);
}

#[test]
fn conversations_are_bounded() {
    let mut c = Conversation::new("system");
    for i in 0..10 {
        c.hear(&format!("frage {i}"), 4);
        assert!(matches!(
            c.conclude(&Ok("antwort".to_string()), "frage"),
            Outcome::Answered
        ));
    }
    assert_eq!(c.history[0].role, "system");
    assert!(c.history.len() <= 6);
    match c.conclude(&Err("down".to_string()), " Hallo ") {
        Outcome::Fallback(t) => {
            assert_eq!(t, "Ich habe verstanden: Hallo. (LLM nicht erreichbar.)")
        }
        _ => panic!("a failure is told"),
    }
    assert!(matches!(c.conclude(&Ok(String::new()), "x"), Outcome::Listen));
    assert!(matches!(llm_action(&HeardItem::SessionEnd), LlmAction::Reset));
    assert!(matches!(
        llm_action(&HeardItem::Heard { text: "a".to_string(), partial: true }),
        LlmAction::Listen
    ));
}

#[test]
fn models_are_asked_as_configured() {
    let mut cfg = Config::default();
    cfg.llm_base_url = "http://llm/v1/".to_string();
    assert_eq!(completions_url(&cfg), "http://llm/v1/chat/completions");
    let c = Conversation::new("s");
    let body = chat_body(&cfg, &c.history, "0.2", true);
    assert_eq!(body.get("stream").and_then(|v| v.as_bool()), Some(true));
    assert!(ollama_keep_alive_value(" ").is_none());
    assert!(matches!(ollama_keep_alive_value("-1"), Some(Json::Number(_))));
    assert!(matches!(ollama_keep_alive_value("10m"), Some(Json::Text(_))));
}

fn obj(key: &str, value: Json) -> Json {
    Json::Object(vec![(key.to_string(), value)])
}

#[test]
fn streamed_words_are_spoken() {
    let mut a = StreamedAnswer::new();
    a.feed("data: {\"x\":1}\n: note\ndata: [DO");
    match a.next_line() {
        Some(Line::Data(d)) => assert_eq!(d, "{\"x\":1}"),
        _ => panic!("a line holds data"),
    }
    assert!(matches!(a.next_line(), Some(Line::Skip)));
    assert!(a.next_line().is_none());
    a.feed("NE]\n");
    assert!(matches!(a.next_line(), Some(Line::Done)));
    let delta = |s: &str| {
        obj("choices", Json::List(vec![obj("delta", obj("content", Json::Text(s.to_string())))]))
    };
    assert_eq!(a.accept(&delta("Das ist ein Satz. Und ")).unwrap(), vec!["Das ist ein Satz."]);
    assert!(a.accept(&delta("")).is_none());
    assert!(a.accept(&delta("mehr")).unwrap().is_empty());
    let (rest, full) = a.finish();
    assert_eq!(rest.as_deref(), Some("Und mehr"));
    assert_eq!(full.unwrap(), "Das ist ein Satz. Und mehr");
    assert!(StreamedAnswer::new().finish().1.is_err());
    assert_eq!(estimated_tokens("eins zwei"), 2);
    assert_eq!(estimated_tokens(""), 1);
}

#[test]
fn a_stream_is_read_line_by_line() {
    let line = |s: &str| format!("data: {{\"choices\":[{{\"delta\":{{\"content\":\"{s}\"}}}}]}}\n");
    let mut a = StreamedAnswer::new();
    assert!(a.accept_data("no json").is_none());
    assert!(a.accept_data("{\"choices\":[]}").is_none());
    a.feed_bytes(format!("{}\ndata: {{bad\n: note\n{}", line("Das ist"), line(" ein Satz. Und ")).as_bytes());
    assert_eq!(a.next_said(true), Some(vec![]));
    assert_eq!(a.next_said(true), Some(vec!["Das ist ein Satz.".to_string()]));
    assert_eq!(a.next_said(true), None);
    a.feed_bytes(format!("data: [DONE]\n{}", line("mehr")).as_bytes());
    assert_eq!(a.next_said(true), None);
    assert_eq!(a.full, "Das ist ein Satz. Und ");
    assert_eq!(a.next_said(true), Some(vec![]));
    assert_eq!(a.full, "Das ist ein Satz. Und mehr");
    let mut b = StreamedAnswer::new();
    b.feed_bytes(format!("data: [DONE]\n{}", line("mehr")).as_bytes());
    assert_eq!(b.next_said(false), Some(vec![]));
    assert_eq!(b.full, "mehr");
    let mut c = StreamedAnswer::new();
    c.feed_bytes(b"\xff");
    assert_eq!(c.line_buf, "\u{fffd}");
}

#[test]
fn whole_answers_are_read() {
    let answer = obj(
        "choices",
        Json::List(vec![obj("message", obj("content", Json::Text(" Hallo ".to_string())))]),
    );
    assert_eq!(read_answer(&answer).unwrap(), "Hallo");
    assert!(read_answer(&Json::Null).is_err());
}

#[test]
fn turns_are_told_apart() {
    let mut started = 0;
    let a = TurnId::next(&mut started);
    let b = TurnId::next(&mut started);
    assert_ne!(a.id, b.id);
    assert_eq!(started, 2);
    let mut c = a.clone();
    c.attach_lease(9);
    assert_eq!(c.lease, Some(9));
    assert_eq!(PipelineEvent::turn_id(&Some(a.clone())), Some(a.id.clone()));
    let tr = Transcription {
        text: "x".to_string(),
        language: None,
        turn: Some(a),
        partial: false,
    };
    let chunks = answer_chunks(&tr, "Das ist ein Satz. Und noch einer!");
    assert_eq!(chunks.len(), 3);
    assert!(chunks[2].is_final);
    let out = AudioOut { pcm_i16: vec![], sample_rate: 16_000, turn: None, response_done: true };
    assert!(!out.is_playable());
}

#[test]
fn the_servers_speak_a_language_when_none_is_given() {
    let mut cfg = Config::default();
    cfg.language = "auto".to_string();
    cfg.tts_language = "auto".to_string();
    assert_eq!(server_language(&cfg, " "), "en");
    assert_eq!(server_language(&cfg, "fr"), "fr");
    assert_eq!(engine_default_language(&cfg), "en");
    cfg.language = "de".to_string();
    assert_eq!(server_language(&cfg, ""), "de");
    assert_eq!(engine_default_language(&cfg), "de");
}
