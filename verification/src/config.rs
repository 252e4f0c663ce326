//! Settings of the speech pipeline.

use crate::text;
use vstd::prelude::*;

verus! {

pub const DEFAULT_SYSTEM_PROMPT: &'static str = "You are a helpful voice assistant. Always reply in the same language the user speaks. If the user speaks German, reply only in German. Keep replies short and conversational (1-3 sentences).";

pub const DEFAULT_GERMAN_SYSTEM_PROMPT: &'static str = "Du bist ein deutschsprachiger Sprachassistent. Du verstehst Deutsch und beantwortest jede Frage direkt, freundlich und ausschließlich auf Deutsch. Deine Antworten sind kurz und natürlich.";

#[derive(Debug, Clone, Copy, PartialEq, Eq, Structural)]
pub enum Mode {
    /// Microphone in, speakers out.
    Local,
    /// Raw 16 kHz mono PCM over a WebSocket.
    Websocket,
    /// Lab controller API with the raw PCM transport.
    Lab,
    /// Realtime protocol subset.
    Realtime,
    /// Speech synthesis sidecar.
    TtsServer,
}

#[derive(Debug, Clone, Copy, PartialEq, Eq, Structural)]
pub enum VadBackend {
    Energy,
    Silero,
}

impl Default for VadBackend {
    fn default() -> (r: Self)
        ensures
            r == VadBackend::Energy,
    {
        VadBackend::Energy
    }
}

#[derive(Debug, Clone, Copy, PartialEq, Eq, Structural)]
pub enum TtsBackend {
    Auto,
    Supertonic,
    Http,
    Piper,
    System,
}

impl Default for TtsBackend {
    fn default() -> (r: Self)
        ensures
            r == TtsBackend::Auto,
    {
        TtsBackend::Auto
    }
}

#[derive(Debug, Clone, Copy, PartialEq, Eq, Structural)]
pub enum SupertonicProvider {
    Cpu,
    WebgpuVulkan,
}

impl Default for SupertonicProvider {
    fn default() -> (r: Self)
        ensures
            r == SupertonicProvider::Cpu,
    {
        SupertonicProvider::Cpu
    }
}

#[derive(Debug, Clone, Copy, PartialEq, Eq, Structural)]
pub enum SttApi {
    Whisper,
    Openai,
}

impl Default for SttApi {
    fn default() -> (r: Self)
        ensures
            r == SttApi::Whisper,
    {
        SttApi::Whisper
    }
}

/// Preferred accelerator.
#[derive(Debug, Clone, Copy, PartialEq, Eq, Structural)]
pub enum GpuPreference {
    Auto,
    Vulkan,
    Cuda,
    Sycl,
    Cpu,
}

impl Default for GpuPreference {
    fn default() -> (r: Self)
        ensures
            r == GpuPreference::Auto,
    {
        GpuPreference::Auto
    }
}

/// The settings that decisions depend on.
#[derive(Debug)]
pub struct Config {
    pub mode: Mode,
    pub log_level: String,
    pub vad: VadBackend,
    pub min_speech_ms: u64,
    pub min_silence_ms: u64,
    pub speech_pad_ms: u64,
    pub whisper_url: String,
    pub stt_api: SttApi,
    pub stt_model: String,
    pub language: String,
    pub llm_base_url: String,
    pub llm_api_key: String,
    pub model_name: String,
    pub system_prompt: String,
    pub chat_size: usize,
    pub max_tokens: u32,
    pub llm_stream: bool,
    pub llm_no_think: bool,
    pub llm_keep_alive: String,
    pub tts: TtsBackend,
    pub tts_language: String,
    pub tts_url: String,
    pub tts_model: String,
    pub tts_native_sample_rate: u32,
    pub tts_http_max_new_tokens: u32,
    pub tts_stream_chunk_ms: u32,
    pub tts_api_key: String,
    pub piper_bin: String,
    pub piper_model: Option<String>,
    pub supertonic_model_dir: Option<String>,
    pub supertonic_voice: String,
    pub supertonic_voice_path: Option<String>,
    pub supertonic_steps: usize,
    pub supertonic_threads: usize,
    pub supertonic_provider: SupertonicProvider,
    pub tts_sample_rate: u32,
    pub sample_rate: u32,
    pub input_device: String,
    pub output_device: String,
    pub host: String,
    pub port: u16,
    pub list_devices: bool,
    pub list_gpus: bool,
    pub gpu: GpuPreference,
    pub skip_health: bool,
    pub auto_bind_container: bool,
}

fn clone_opt(s: &Option<String>) -> (r: Option<String>)
    ensures
        r == *s,
{
    match s {
        Some(t) => Some(t.clone()),
        None => None,
    }
}

impl Clone for Config {
    fn clone(&self) -> (r: Self)
        ensures
            r == *self,
    {
        Config {
            mode: self.mode,
            log_level: self.log_level.clone(),
            vad: self.vad,
            min_speech_ms: self.min_speech_ms,
            min_silence_ms: self.min_silence_ms,
            speech_pad_ms: self.speech_pad_ms,
            whisper_url: self.whisper_url.clone(),
            stt_api: self.stt_api,
            stt_model: self.stt_model.clone(),
            language: self.language.clone(),
            llm_base_url: self.llm_base_url.clone(),
            llm_api_key: self.llm_api_key.clone(),
            model_name: self.model_name.clone(),
            system_prompt: self.system_prompt.clone(),
            chat_size: self.chat_size,
            max_tokens: self.max_tokens,
            llm_stream: self.llm_stream,
            llm_no_think: self.llm_no_think,
            llm_keep_alive: self.llm_keep_alive.clone(),
            tts: self.tts,
            tts_language: self.tts_language.clone(),
            tts_url: self.tts_url.clone(),
            tts_model: self.tts_model.clone(),
            tts_native_sample_rate: self.tts_native_sample_rate,
            tts_http_max_new_tokens: self.tts_http_max_new_tokens,
            tts_stream_chunk_ms: self.tts_stream_chunk_ms,
            tts_api_key: self.tts_api_key.clone(),
            piper_bin: self.piper_bin.clone(),
            piper_model: clone_opt(&self.piper_model),
            supertonic_model_dir: clone_opt(&self.supertonic_model_dir),
            supertonic_voice: self.supertonic_voice.clone(),
            supertonic_voice_path: clone_opt(&self.supertonic_voice_path),
            supertonic_steps: self.supertonic_steps,
            supertonic_threads: self.supertonic_threads,
            supertonic_provider: self.supertonic_provider,
            tts_sample_rate: self.tts_sample_rate,
            sample_rate: self.sample_rate,
            input_device: self.input_device.clone(),
            output_device: self.output_device.clone(),
            host: self.host.clone(),
            port: self.port,
            list_devices: self.list_devices,
            list_gpus: self.list_gpus,
            gpu: self.gpu,
            skip_health: self.skip_health,
            auto_bind_container: self.auto_bind_container,
        }
    }
}

impl Default for Config {
    /// The settings in force when nothing is set.
    fn default() -> (r: Self)
        ensures
            r.mode == Mode::Local,
            r.log_level@ == "info"@,
            r.vad == VadBackend::Energy,
            r.min_speech_ms == 900,
            r.min_silence_ms == 700,
            r.speech_pad_ms == 30,
            r.whisper_url@ == "http://127.0.0.1:8082"@,
            r.stt_api == SttApi::Whisper,
            r.stt_model@ == "confucius4-r2t2"@,
            r.language@ == "de"@,
            r.llm_base_url@ == "http://127.0.0.1:8081/v1"@,
            r.llm_api_key@ == ""@,
            r.model_name@ == "local-model"@,
            r.system_prompt@ == DEFAULT_SYSTEM_PROMPT@,
            r.chat_size == 30,
            r.max_tokens == 256,
            r.llm_stream,
            r.llm_no_think,
            r.llm_keep_alive@ == "5m"@,
            r.tts == TtsBackend::Auto,
            r.tts_language@ == "auto"@,
            r.tts_url@ == "http://127.0.0.1:8083/v1/audio/speech"@,
            r.tts_model@ == "tts"@,
            r.tts_native_sample_rate == 24000,
            r.tts_http_max_new_tokens == 256,
            r.tts_stream_chunk_ms == 160,
            r.tts_api_key@ == ""@,
            r.piper_bin@ == "piper"@,
            r.piper_model is None,
            r.supertonic_model_dir is None,
            r.supertonic_voice@ == "M1"@,
            r.supertonic_voice_path is None,
            r.supertonic_steps == 8,
            r.supertonic_threads == 0,
            r.supertonic_provider == SupertonicProvider::Cpu,
            r.tts_sample_rate == 16000,
            r.sample_rate == 16000,
            r.input_device@ == ""@,
            r.output_device@ == ""@,
            r.host@ == "127.0.0.1"@,
            r.port == 8765,
            !r.list_devices,
            !r.list_gpus,
            r.gpu == GpuPreference::Auto,
            !r.skip_health,
            r.auto_bind_container,
    {
        Config {
            mode: Mode::Local,
            log_level: String::from_str("info"),
            vad: VadBackend::Energy,
            min_speech_ms: 900,
            min_silence_ms: 700,
            speech_pad_ms: 30,
            whisper_url: String::from_str("http://127.0.0.1:8082"),
            stt_api: SttApi::Whisper,
            stt_model: String::from_str("confucius4-r2t2"),
            language: String::from_str("de"),
            llm_base_url: String::from_str("http://127.0.0.1:8081/v1"),
            llm_api_key: String::from_str(""),
            model_name: String::from_str("local-model"),
            system_prompt: String::from_str(DEFAULT_SYSTEM_PROMPT),
            chat_size: 30,
            max_tokens: 256,
            llm_stream: true,
            llm_no_think: true,
            llm_keep_alive: String::from_str("5m"),
            tts: TtsBackend::Auto,
            tts_language: String::from_str("auto"),
            tts_url: String::from_str("http://127.0.0.1:8083/v1/audio/speech"),
            tts_model: String::from_str("tts"),
            tts_native_sample_rate: 24000,
            tts_http_max_new_tokens: 256,
            tts_stream_chunk_ms: 160,
            tts_api_key: String::from_str(""),
            piper_bin: String::from_str("piper"),
            piper_model: None,
            supertonic_model_dir: None,
            supertonic_voice: String::from_str("M1"),
            supertonic_voice_path: None,
            supertonic_steps: 8,
            supertonic_threads: 0,
            supertonic_provider: SupertonicProvider::Cpu,
            tts_sample_rate: 16000,
            sample_rate: 16000,
            input_device: String::from_str(""),
            output_device: String::from_str(""),
            host: String::from_str("127.0.0.1"),
            port: 8765,
            list_devices: false,
            list_gpus: false,
            gpu: GpuPreference::Auto,
            skip_health: false,
            auto_bind_container: true,
        }
    }
}

/// Whether a language setting names a language.
pub open spec fn names_language(value: Seq<char>) -> bool {
    text::trim(value).len() > 0 && !text::alike(text::trim(value), "auto"@)
}

/// The trimmed value, where it names a language.
fn named_language(value: &str) -> (r: Option<String>)
    ensures
        match r {
            Some(l) => names_language(value@) && l@ == text::trim(value@),
            None => !names_language(value@),
        },
{
    let t: String = text::trimmed(value);
    if t.as_str().is_empty() || text::same_ignoring_case(t.as_str(), "auto") {
        None
    } else {
        Some(t)
    }
}

pub open spec fn is_german(language: Seq<char>) -> bool {
    let l = text::lower(language);
    l == "de"@ || l == "deu"@ || l == "ger"@ || l == "deutsch"@ || l == "german"@
}

/// The language that a prompt is picked for.
pub open spec fn prompt_language(c: Config, detected: Option<&str>) -> Seq<char> {
    match detected {
        Some(d) => if names_language(d@) {
            text::trim(d@)
        } else {
            c.language@
        },
        None => c.language@,
    }
}

pub open spec fn prompt_of(c: Config, detected: Option<&str>) -> Seq<char> {
    if c.system_prompt@ == DEFAULT_SYSTEM_PROMPT@ && is_german(prompt_language(c, detected)) {
        DEFAULT_GERMAN_SYSTEM_PROMPT@
    } else {
        c.system_prompt@
    }
}

/// The language code for speech synthesis.
pub open spec fn tts_language_of(c: Config, detected: Option<&str>) -> Seq<char> {
    if names_language(c.tts_language@) {
        text::lower(text::trim(c.tts_language@))
    } else if detected matches Some(d) && names_language(d@) {
        text::lower(text::trim(detected.unwrap()@))
    } else if names_language(c.language@) {
        text::lower(text::trim(c.language@))
    } else {
        "en"@
    }
}

/// The language label for the Qwen synthesis server.
pub open spec fn qwen_language(code: Seq<char>) -> Seq<char> {
    let c = text::lower(text::trim(code));
    if c == "de"@ || c == "deu"@ || c == "ger"@ || c == "deutsch"@ {
        "german"@
    } else if c == "en"@ || c == "eng"@ {
        "english"@
    } else if c == "zh"@ || c == "cn"@ || c == "cmn"@ || c == "zh-cn"@ || c == "zh-tw"@ {
        "chinese"@
    } else if c == "fr"@ || c == "fra"@ || c == "fre"@ {
        "french"@
    } else if c == "es"@ || c == "spa"@ {
        "spanish"@
    } else if c == "it"@ || c == "ita"@ {
        "italian"@
    } else if c == "pt"@ || c == "por"@ {
        "portuguese"@
    } else if c == "ja"@ || c == "jpn"@ {
        "japanese"@
    } else if c == "ko"@ || c == "kor"@ {
        "korean"@
    } else if c == "ru"@ || c == "rus"@ {
        "russian"@
    } else if c == ""@ {
        "auto"@
    } else {
        c
    }
}

impl Config {
    /// Listens on all interfaces in a container, unless a host was chosen.
    pub fn apply_container_defaults(&mut self, in_container: bool)
        ensures
            ({
                let widen = old(self).auto_bind_container && in_container && old(self).host@
                    == "127.0.0.1"@;
                &&& final(self).host@ == if widen {
                    "0.0.0.0"@
                } else {
                    old(self).host@
                }
                &&& *final(self) == (Config { host: final(self).host, ..*old(self) })
            }),
    {
        if !self.auto_bind_container {
            return;
        }
        if in_container && text::same(self.host.as_str(), "127.0.0.1") {
            self.host = String::from_str("0.0.0.0");
        }
    }

    /// The German prompt in place of the default one for a German conversation;
    /// an explicitly chosen prompt stays.
    pub fn llm_system_prompt(&self, detected: Option<&str>) -> (r: String)
        ensures
            r@ == prompt_of(*self, detected),
    {
        let named: Option<String> = match detected {
            Some(d) => named_language(d),
            None => None,
        };
        let language: String = match named {
            Some(l) => l,
            None => self.language.clone(),
        };
        let l: String = text::to_lower(language.as_str());
        if text::same(self.system_prompt.as_str(), DEFAULT_SYSTEM_PROMPT) && (text::same(
            l.as_str(),
            "de",
        ) || text::same(l.as_str(), "deu") || text::same(l.as_str(), "ger") || text::same(
            l.as_str(),
            "deutsch",
        ) || text::same(l.as_str(), "german")) {
            return String::from_str(DEFAULT_GERMAN_SYSTEM_PROMPT);
        }
        self.system_prompt.clone()
    }

    /// The language code for synthesis: the synthesis language, else the one
    /// detected in the turn, else the recognition language, else `en`.
    pub fn resolve_tts_language(&self, detected: Option<&str>) -> (r: String)
        ensures
            r@ == tts_language_of(*self, detected),
    {
        match named_language(self.tts_language.as_str()) {
            Some(l) => {
                return text::to_lower(l.as_str());
            },
            None => {},
        }
        match detected {
            Some(d) => {
                match named_language(d) {
                    Some(l) => {
                        return text::to_lower(l.as_str());
                    },
                    None => {},
                }
            },
            None => {},
        }
        match named_language(self.language.as_str()) {
            Some(l) => text::to_lower(l.as_str()),
            None => String::from_str("en"),
        }
    }

    /// The language label for the Qwen synthesis server.
    pub fn qwen_tts_language(code: &str) -> (r: String)
        ensures
            r@ == qwen_language(code@),
    {
        let c: String = text::to_lower(text::trimmed(code).as_str());
        let s: &str = c.as_str();
        if text::same(s, "de") || text::same(s, "deu") || text::same(s, "ger") || text::same(
            s,
            "deutsch",
        ) {
            String::from_str("german")
        } else if text::same(s, "en") || text::same(s, "eng") {
            String::from_str("english")
        } else if text::same(s, "zh") || text::same(s, "cn") || text::same(s, "cmn")
            || text::same(s, "zh-cn") || text::same(s, "zh-tw") {
            String::from_str("chinese")
        } else if text::same(s, "fr") || text::same(s, "fra") || text::same(s, "fre") {
            String::from_str("french")
        } else if text::same(s, "es") || text::same(s, "spa") {
            String::from_str("spanish")
        } else if text::same(s, "it") || text::same(s, "ita") {
            String::from_str("italian")
        } else if text::same(s, "pt") || text::same(s, "por") {
            String::from_str("portuguese")
        } else if text::same(s, "ja") || text::same(s, "jpn") {
            String::from_str("japanese")
        } else if text::same(s, "ko") || text::same(s, "kor") {
            String::from_str("korean")
        } else if text::same(s, "ru") || text::same(s, "rus") {
            String::from_str("russian")
        } else if text::same(s, "") {
            String::from_str("auto")
        } else {
            c
        }
    }
}

/// The language of the voice is the one that is set for it, else the one that was
/// heard, else the one that is set for all, else English; `auto` and blank name none.
pub proof fn law_language_of_the_voice(c: Config, heard: &str)
    ensures
        ({
            let named = |s: Seq<char>|
                text::trim(s).len() > 0 && text::lower(text::trim(s)) != text::lower("auto"@);
            let got = tts_language_of(c, Some(heard));
            &&& named(c.tts_language@) ==> got == text::lower(text::trim(c.tts_language@))
            &&& !named(c.tts_language@) && named(heard@) ==> got == text::lower(
                text::trim(heard@),
            )
            &&& !named(c.tts_language@) && !named(heard@) && named(c.language@) ==> got
                == text::lower(text::trim(c.language@))
            &&& !named(c.tts_language@) && !named(heard@) && !named(c.language@) ==> got == "en"@
            &&& !named(heard@) ==> tts_language_of(c, None) == got
        }),
{
}

/// A prompt that was set is kept. The default one is German where German was heard,
/// or is set and nothing else was heard, and English elsewhere.
pub proof fn law_prompt(c: Config, heard: &str)
    ensures
        c.system_prompt@ != DEFAULT_SYSTEM_PROMPT@ ==> prompt_of(c, Some(heard))
            == c.system_prompt@ && prompt_of(c, None) == c.system_prompt@,
        c.system_prompt@ == DEFAULT_SYSTEM_PROMPT@ && text::lower(c.language@) == "de"@
            ==> prompt_of(c, None) == DEFAULT_GERMAN_SYSTEM_PROMPT@,
        c.system_prompt@ == DEFAULT_SYSTEM_PROMPT@ && text::trim(heard@).len() > 0 && text::lower(
            text::trim(heard@),
        ) != text::lower("auto"@) ==> (prompt_of(c, Some(heard)) == DEFAULT_GERMAN_SYSTEM_PROMPT@
            <== {
            let l = text::lower(text::trim(heard@));
            l == "de"@ || l == "deu"@ || l == "ger"@ || l == "deutsch"@ || l == "german"@
        }),
        c.system_prompt@ == DEFAULT_SYSTEM_PROMPT@ && text::trim(heard@).len() > 0 && text::lower(
            text::trim(heard@),
        ) == "en"@ && text::lower("auto"@) != "en"@ ==> prompt_of(c, Some(heard))
            == DEFAULT_SYSTEM_PROMPT@,
{
    reveal_strlit("en");
    reveal_strlit("de");
    reveal_strlit("deu");
    reveal_strlit("ger");
    reveal_strlit("deutsch");
    reveal_strlit("german");
    assert("en"@.len() == 2 && "de"@.len() == 2 && "en"@[0] == 'e' && "de"@[0] == 'd');
    assert("deu"@.len() == 3 && "ger"@.len() == 3 && "deutsch"@.len() == 7 && "german"@.len() == 6);
}

/// The code of a language and its longer codes give one name.
pub proof fn law_names_of_languages(code: Seq<char>)
    ensures
        ({
            let c = text::lower(text::trim(code));
            let got = qwen_language(code);
            &&& c == "de"@ || c == "deu"@ || c == "ger"@ || c == "deutsch"@ ==> got == "german"@
            &&& c == "en"@ || c == "eng"@ ==> got == "english"@
            &&& c == "fr"@ || c == "fra"@ || c == "fre"@ ==> got == "french"@
            &&& c == "es"@ || c == "spa"@ ==> got == "spanish"@
            &&& c == "it"@ || c == "ita"@ ==> got == "italian"@
            &&& c == "pt"@ || c == "por"@ ==> got == "portuguese"@
            &&& c == "ja"@ || c == "jpn"@ ==> got == "japanese"@
            &&& c == "ko"@ || c == "kor"@ ==> got == "korean"@
            &&& c == "ru"@ || c == "rus"@ ==> got == "russian"@
            &&& c == "zh"@ || c == "cn"@ || c == "cmn"@ || c == "zh-cn"@ || c == "zh-tw"@ ==> got
                == "chinese"@
            &&& c.len() == 0 ==> got == "auto"@
            &&& c.len() > 7 ==> got == c
        }),
{
    reveal_strlit("de");
    reveal_strlit("deu");
    reveal_strlit("ger");
    reveal_strlit("deutsch");
    reveal_strlit("en");
    reveal_strlit("eng");
    reveal_strlit("zh");
    reveal_strlit("cn");
    reveal_strlit("cmn");
    reveal_strlit("zh-cn");
    reveal_strlit("zh-tw");
    reveal_strlit("fr");
    reveal_strlit("fra");
    reveal_strlit("fre");
    reveal_strlit("es");
    reveal_strlit("spa");
    reveal_strlit("it");
    reveal_strlit("ita");
    reveal_strlit("pt");
    reveal_strlit("por");
    reveal_strlit("ja");
    reveal_strlit("jpn");
    reveal_strlit("ko");
    reveal_strlit("kor");
    reveal_strlit("ru");
    reveal_strlit("rus");
    reveal_strlit("");
    assert("de"@.len() == 2 && "de"@[0] == 'd');
    assert("deu"@.len() == 3 && "deu"@[0] == 'd');
    assert("ger"@.len() == 3 && "ger"@[0] == 'g');
    assert("deutsch"@.len() == 7);
    assert("en"@.len() == 2 && "en"@[0] == 'e' && "en"@[1] == 'n');
    assert("eng"@.len() == 3 && "eng"@[0] == 'e');
    assert("zh"@.len() == 2 && "zh"@[0] == 'z');
    assert("cn"@.len() == 2 && "cn"@[0] == 'c');
    assert("cmn"@.len() == 3 && "cmn"@[0] == 'c');
    assert("zh-cn"@.len() == 5);
    assert("zh-tw"@.len() == 5);
    assert("fr"@.len() == 2 && "fr"@[0] == 'f');
    assert("fra"@.len() == 3 && "fra"@[0] == 'f');
    assert("fre"@.len() == 3 && "fre"@[0] == 'f');
    assert("es"@.len() == 2 && "es"@[0] == 'e' && "es"@[1] == 's');
    assert("spa"@.len() == 3 && "spa"@[0] == 's');
    assert("it"@.len() == 2 && "it"@[0] == 'i');
    assert("ita"@.len() == 3 && "ita"@[0] == 'i');
    assert("pt"@.len() == 2 && "pt"@[0] == 'p');
    assert("por"@.len() == 3 && "por"@[0] == 'p');
    assert("ja"@.len() == 2 && "ja"@[0] == 'j');
    assert("jpn"@.len() == 3 && "jpn"@[0] == 'j');
    assert("ko"@.len() == 2 && "ko"@[0] == 'k');
    assert("kor"@.len() == 3 && "kor"@[0] == 'k');
    assert("ru"@.len() == 2 && "ru"@[0] == 'r');
    assert("rus"@.len() == 3 && "rus"@[0] == 'r');
    assert(""@.len() == 0);
    let c = text::lower(text::trim(code));
    if c.len() == 0 {
        assert(c =~= ""@);
    }
}

} // verus!
