//! Speech recognition: what is sent to the server and what is made of its answer.

use crate::config::{Config, SttApi};
use crate::registry::{self, wrap2};
use crate::text;
use vstd::prelude::*;

verus! {

/// The shortest audio that is recognised; shorter pieces are clicks and noise.
pub const MIN_AUDIO_MS: u64 = 400;

/// Whether a piece of audio is too short to be recognised.
pub open spec fn is_too_short(samples: nat, sample_rate: u32) -> bool {
    samples * 1000 < MIN_AUDIO_MS * (if sample_rate == 0 {
        1
    } else {
        sample_rate as int
    })
}

pub fn too_short(samples: usize, sample_rate: u32) -> (r: bool)
    ensures
        r == is_too_short(samples as nat, sample_rate),
{
    let rate: u128 = if sample_rate == 0 {
        1
    } else {
        sample_rate as u128
    };
    (samples as u128) * 1000 < 400 * rate
}

/// What is taken from the queue of recorded audio.
#[derive(Debug, Clone, Copy, PartialEq, Eq, Structural)]
pub enum AudioItem {
    PipelineEnd,
    SessionEnd,
    /// Audio of an utterance that is not over.
    Progressive,
    /// Audio of a complete utterance.
    Final { samples: usize, sample_rate: u32 },
}

/// What is done with it.
#[derive(Debug, Clone, Copy, PartialEq, Eq, Structural)]
pub enum SttAction {
    /// Pass the end on and stop.
    Stop,
    /// Listen again.
    Listen,
    Skip,
    Transcribe,
}

pub open spec fn stt_action_for(item: AudioItem) -> SttAction {
    match item {
        AudioItem::PipelineEnd => SttAction::Stop,
        AudioItem::SessionEnd => SttAction::Listen,
        AudioItem::Progressive => SttAction::Skip,
        AudioItem::Final { samples, sample_rate } => if is_too_short(samples as nat, sample_rate) {
            SttAction::Listen
        } else {
            SttAction::Transcribe
        },
    }
}

pub fn stt_action(item: AudioItem) -> (r: SttAction)
    ensures
        r == stt_action_for(item),
{
    match item {
        AudioItem::PipelineEnd => SttAction::Stop,
        AudioItem::SessionEnd => SttAction::Listen,
        AudioItem::Progressive => SttAction::Skip,
        AudioItem::Final { samples, sample_rate } => if too_short(samples, sample_rate) {
            SttAction::Listen
        } else {
            SttAction::Transcribe
        },
    }
}

/// The text of an utterance, or why there is none.
pub fn accept_transcript(text: &str) -> (r: Result<String, String>)
    ensures
        match r {
            Ok(t) => t@ == text::trim(text@) && t@.len() > 0,
            Err(m) => text::trim(text@).len() == 0 && m@ == "empty transcript"@,
        },
{
    let t: String = text::trimmed(text);
    if t.as_str().is_empty() {
        Err(String::from_str("empty transcript"))
    } else {
        Ok(t)
    }
}

/// The language that is passed on with a transcript.
pub fn transcript_language(cfg: &Config) -> (r: Option<String>)
    ensures
        match r {
            Some(l) => cfg.language@ != "auto"@ && l@ == cfg.language@,
            None => cfg.language@ == "auto"@,
        },
{
    if text::same(cfg.language.as_str(), "auto") {
        None
    } else {
        Some(cfg.language.clone())
    }
}

pub open spec fn transcription_path(api: SttApi) -> Seq<char> {
    if api == SttApi::Openai {
        "/v1/audio/transcriptions"@
    } else {
        "/inference"@
    }
}

/// The fields of a recognition request, each with its text; the audio goes with
/// them as a file.
pub open spec fn transcription_fields(cfg: Config, temperature: Seq<char>) -> Seq<
    (Seq<char>, Seq<char>),
> {
    let head = seq![("response_format"@, "json"@)];
    let dialect = if cfg.stt_api == SttApi::Openai {
        seq![("model"@, cfg.stt_model@)]
    } else {
        seq![("temperature"@, temperature), ("no_timestamps"@, "true"@)]
    };
    let language = if cfg.language@ == "auto"@ {
        Seq::empty()
    } else {
        seq![("language"@, cfg.language@)]
    };
    head + dialect + language
}

pub open spec fn pair_views(v: Seq<(String, String)>) -> Seq<(Seq<char>, Seq<char>)> {
    Seq::new(v.len(), |i: int| (v[i].0@, v[i].1@))
}

fn push_pair(v: &mut Vec<(String, String)>, key: &str, value: &str)
    ensures
        pair_views(final(v)@) == pair_views(old(v)@).push((key@, value@)),
{
    let ghost before = pair_views(v@);
    v.push((String::from_str(key), String::from_str(value)));
    assert(pair_views(v@) =~= before.push((key@, value@)));
}

/// The address and the fields of a recognition request. `temperature` is the
/// sampling temperature as it is written.
pub fn transcription_request(cfg: &Config, temperature: &str) -> (r: (
    String,
    Vec<(String, String)>,
))
    ensures
        r.0@ == text::trim_end_of(cfg.whisper_url@, '/') + transcription_path(cfg.stt_api),
        pair_views(r.1@) == transcription_fields(*cfg, temperature@),
{
    let base: String = text::without_trailing(cfg.whisper_url.as_str(), '/');
    let mut fields: Vec<(String, String)> = Vec::new();
    assert(pair_views(fields@) =~= Seq::empty());
    push_pair(&mut fields, "response_format", "json");
    let path: &str = if cfg.stt_api == SttApi::Openai {
        push_pair(&mut fields, "model", cfg.stt_model.as_str());
        "/v1/audio/transcriptions"
    } else {
        push_pair(&mut fields, "temperature", temperature);
        push_pair(&mut fields, "no_timestamps", "true");
        "/inference"
    };
    if !text::same(cfg.language.as_str(), "auto") {
        push_pair(&mut fields, "language", cfg.language.as_str());
    }
    assert(pair_views(fields@) =~= transcription_fields(*cfg, temperature@));
    (text::joined_pair(base.as_str(), path), fields)
}

/// The error for an answer that is not a success.
pub fn server_error(status_text: &str, body: &str) -> (r: String)
    ensures
        r@ == "ASR server "@ + status_text@ + ": "@ + body@ + ""@,
{
    wrap2("ASR server ", status_text, ": ", body, "")
}

/// What an answer of the server is.
#[derive(Debug)]
pub enum AnswerBody {
    /// Nothing or plain text.
    Plain(String),
    /// A JSON object, trimmed.
    Object(String),
}

pub fn classify_answer(body: &str) -> (r: AnswerBody)
    ensures
        ({
            let t = text::trim(body@);
            match r {
                AnswerBody::Plain(s) => s@ == t && (t.len() == 0 || t[0] != '{'),
                AnswerBody::Object(s) => s@ == t && t.len() > 0 && t[0] == '{',
            }
        }),
{
    let t: String = text::trimmed(body);
    proof {
        reveal_strlit("{");
        assert("{"@ =~= seq!['{']);
        if t@.len() > 0 {
            assert(t@.take(1) =~= seq![t@[0]]);
            assert(t@.take(1)[0] == t@[0]);
            assert("{"@[0] == '{');
        }
    }
    if text::begins_with(t.as_str(), "{") {
        AnswerBody::Object(t)
    } else {
        AnswerBody::Plain(t)
    }
}

pub open spec fn first_given(a: Option<Seq<char>>, b: Option<Seq<char>>) -> Seq<char> {
    match a {
        Some(s) => s,
        None => match b {
            Some(s) => s,
            None => ""@,
        },
    }
}

/// The transcript in an answer: its text, or else what some servers call the
/// transcription.
pub fn pick_transcript(spoken: &Option<String>, transcription: &Option<String>) -> (r: String)
    ensures
        r@ == text::trim(first_given(registry::opt_view(*spoken), registry::opt_view(*transcription))),
{
    match spoken {
        Some(t) => text::trimmed(t.as_str()),
        None => match transcription {
            Some(t) => text::trimmed(t.as_str()),
            None => text::trimmed(""),
        },
    }
}

pub open spec fn asr_marker() -> Seq<char> {
    "<asr_text>"@
}

/// A transcript without the note about its language that one model puts in front.
pub open spec fn without_language_note(t: Seq<char>) -> Seq<char> {
    let i = text::first_occurrence(t, asr_marker());
    if i >= t.len() {
        t
    } else {
        let note = text::trim(t.take(i));
        if note.len() == 0 || text::starts_with(text::lower(note), "language "@) {
            text::trim(t.skip(i + asr_marker().len()))
        } else {
            t
        }
    }
}

/// The transcript for a request, from that of the answer.
pub fn clean_transcript(cfg: &Config, transcript: String) -> (r: String)
    ensures
        r@ == if cfg.stt_api == SttApi::Openai && text::alike(
            cfg.stt_model@,
            "confucius4-r2t2"@,
        ) {
            without_language_note(transcript@)
        } else {
            transcript@
        },
{
    if cfg.stt_api != SttApi::Openai || !text::same_ignoring_case(
        cfg.stt_model.as_str(),
        "confucius4-r2t2",
    ) {
        return transcript;
    }
    let v: Vec<char> = text::chars_of(transcript.as_str());
    let p: Vec<char> = text::chars_of("<asr_text>");
    let i: usize = text::find(v.as_slice(), p.as_slice());
    if i >= v.len() {
        return transcript;
    }
    proof {
        text::lemma_first_occurrence(v@, p@);
    }
    let head: String = text::piece(v.as_slice(), 0, i);
    assert(v@.subrange(0, i as int) =~= v@.take(i as int));
    let note: String = text::trimmed(head.as_str());
    let lowered: String = text::to_lower(note.as_str());
    if note.as_str().is_empty() || text::begins_with(lowered.as_str(), "language ") {
        let rest: String = text::piece(v.as_slice(), i + p.len(), v.len());
        assert(v@.subrange(i + p@.len(), v@.len() as int) =~= v@.skip(i + p@.len()));
        text::trimmed(rest.as_str())
    } else {
        transcript
    }
}

/// The address of a health path of the server.
pub fn health_address(base: &str, root: bool) -> (r: String)
    ensures
        r@ == text::trim_end_of(base@, '/') + (if root {
            "/"@
        } else {
            "/health"@
        }),
{
    let b: String = text::without_trailing(base, '/');
    text::joined_pair(
        b.as_str(),
        if root {
            "/"
        } else {
            "/health"
        },
    )
}

/// The two dialects are not mixed: a model is named only to one kind of server and
/// timestamps are switched off only for the other.
pub proof fn law_dialects_are_not_mixed(cfg: Config, temperature: Seq<char>, i: int)
    requires
        0 <= i < transcription_fields(cfg, temperature).len(),
    ensures
        transcription_fields(cfg, temperature)[i].0 == "model"@ ==> cfg.stt_api == SttApi::Openai,
        transcription_fields(cfg, temperature)[i].0 == "no_timestamps"@ ==> cfg.stt_api
            != SttApi::Openai,
{
    reveal_strlit("model");
    reveal_strlit("no_timestamps");
    reveal_strlit("response_format");
    reveal_strlit("temperature");
    reveal_strlit("language");
    assert("model"@.len() == 5);
    assert("no_timestamps"@.len() == 13);
    assert("response_format"@.len() == 15);
    assert("temperature"@.len() == 11);
    assert("language"@.len() == 8);
}

/// What lasts less than 400 milliseconds is too short to be transcribed, and
/// nothing else is.
pub proof fn law_four_tenths_of_a_second(samples: usize, sample_rate: u32)
    requires
        sample_rate > 0,
    ensures
        is_too_short(samples as nat, sample_rate) <==> samples * 1000 < 400 * sample_rate,
        stt_action_for(AudioItem::Final { samples, sample_rate }) == SttAction::Transcribe
            <==> samples * 1000 >= 400 * sample_rate,
{
}

/// The language is passed to the server unless it is to be found out, once, and the
/// answer is asked for as JSON.
pub proof fn law_language_is_passed(cfg: Config, temperature: Seq<char>)
    ensures
        transcription_fields(cfg, temperature).contains(("response_format"@, "json"@)),
        cfg.language@ != "auto"@ ==> transcription_fields(cfg, temperature).contains(
            ("language"@, cfg.language@),
        ),
        cfg.stt_api == SttApi::Openai ==> transcription_fields(cfg, temperature).contains(
            ("model"@, cfg.stt_model@),
        ),
        cfg.stt_api != SttApi::Openai ==> transcription_fields(cfg, temperature).contains(
            ("temperature"@, temperature),
        ),
        cfg.language@ == "auto"@ ==> forall|i: int|
            0 <= i < transcription_fields(cfg, temperature).len() ==> (
            #[trigger] transcription_fields(cfg, temperature)[i]).0 != "language"@,
{
    let f = transcription_fields(cfg, temperature);
    assert(f[0] == ("response_format"@, "json"@));
    if cfg.stt_api == SttApi::Openai {
        assert(f[1] == ("model"@, cfg.stt_model@));
        if cfg.language@ != "auto"@ {
            assert(f[2] == ("language"@, cfg.language@));
        }
    } else {
        assert(f[1] == ("temperature"@, temperature));
        if cfg.language@ != "auto"@ {
            assert(f[3] == ("language"@, cfg.language@));
        }
    }
    reveal_strlit("response_format");
    reveal_strlit("model");
    reveal_strlit("temperature");
    reveal_strlit("no_timestamps");
    reveal_strlit("language");
    assert("language"@.len() == 8);
    assert("model"@.len() == 5);
    assert("temperature"@.len() == 11);
    assert("no_timestamps"@.len() == 13);
    assert("response_format"@.len() == 15);
}

/// A note on the language before the marker is taken off with it, and so is white
/// space around what was said; a text without the marker, or with something else
/// before it, stays as it is.
pub proof fn law_language_note_is_taken_off(note: Seq<char>, said: Seq<char>)
    requires
        forall|i: int|
            0 <= i < note.len() ==> !text::starts_with(
                #[trigger] (note + "<asr_text>"@ + said).skip(i),
                "<asr_text>"@,
            ),
    ensures
        text::trim(note).len() == 0 || text::starts_with(
            text::lower(text::trim(note)),
            "language "@,
        ) ==> without_language_note(note + "<asr_text>"@ + said) == text::trim(said),
        text::trim(note).len() > 0 && !text::starts_with(
            text::lower(text::trim(note)),
            "language "@,
        ) ==> without_language_note(note + "<asr_text>"@ + said) == note + "<asr_text>"@ + said,
{
    let m = "<asr_text>"@;
    let t = note + m + said;
    reveal_strlit("<asr_text>");
    assert(m.len() == 10);
    assert(text::starts_with(t.skip(note.len() as int), m)) by {
        assert(t.skip(note.len() as int).take(m.len() as int) =~= m);
    }
    text::lemma_first_occurrence_is(t, m, note.len() as int);
    assert(t.take(note.len() as int) =~= note);
    assert(t.skip((note.len() + m.len()) as int) =~= said);
}

/// A text without the marker is left as it is.
pub proof fn law_text_without_a_note_stays(t: Seq<char>)
    requires
        forall|i: int| 0 <= i < t.len() ==> !text::starts_with(#[trigger] t.skip(i), "<asr_text>"@),
    ensures
        without_language_note(t) == t,
{
    text::lemma_first_occurrence(t, "<asr_text>"@);
}

/// A recogniser of the OpenAI kind and one of whisper.cpp are asked at their own paths.
pub proof fn law_path_of_a_recogniser()
    ensures
        transcription_path(SttApi::Openai) == "/v1/audio/transcriptions"@,
        forall|api: SttApi|
            api != SttApi::Openai ==> #[trigger] transcription_path(api) == "/inference"@,
{
}

/// Of two texts the first that is there is taken.
pub proof fn law_first_text(a: Seq<char>, b: Option<Seq<char>>)
    ensures
        first_given(Some(a), b) == a,
        first_given(None, Some(a)) == a,
        first_given(None, None).len() == 0,
{
    reveal_strlit("");
}

} // verus!
