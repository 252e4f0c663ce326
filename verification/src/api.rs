//! The interface for clients: how their requests are read, what they are answered,
//! and what their messages on an open connection mean.

use crate::registry::{
    self, wrap, BackendStage, CatalogBackendStatus, HardwareProfile,
};
use crate::runtime::StackStatus;
use crate::suggest::{self, rank, RankKey};
use crate::text;
use crate::wav::{self, validate_pcm_wav};
use vstd::prelude::*;

verus! {

/// The version of the interface.
pub const SPEECH_LAB_CONTRACT_VERSION: &'static str = "speech-lab/v1";

/// The largest recognition request: the largest recording and the form around it.
pub const MAX_ASR_REQUEST_BYTES: usize = 0x81_0000;

// ---------------------------------------------------------------------------
// Answers
// ---------------------------------------------------------------------------

/// The status of a readiness answer: 200 or 503.
pub fn readiness_http_status(ready: bool) -> (r: u16)
    ensures
        r == if ready {
            200u16
        } else {
            503
        },
{
    if ready {
        200
    } else {
        503
    }
}

/// The status of the answer to a stack request: 200 or 409.
pub fn stack_http_status(ok: bool) -> (r: u16)
    ensures
        r == if ok {
            200u16
        } else {
            409
        },
{
    if ok {
        200
    } else {
        409
    }
}

/// The status of the answer to a recording that is refused: 413 or 400.
pub fn refused_recording_status(message: &str) -> (r: u16)
    ensures
        r == if text::has(message@, "exceeds 8 MiB"@) {
            413u16
        } else {
            400
        },
{
    if text::contains(message, "exceeds 8 MiB") {
        413
    } else {
        400
    }
}

// ---------------------------------------------------------------------------
// Recordings
// ---------------------------------------------------------------------------

/// The type of some content without its parameters.
pub open spec fn essence(value: Seq<char>) -> Seq<char> {
    text::lower(text::trim(value.take(text::first_char(value, ';'))))
}

pub open spec fn is_wav_type(value: Seq<char>) -> bool {
    essence(value) == "audio/wav"@ || essence(value) == "audio/x-wav"@
}

pub fn is_wav_content_type(value: &str) -> (r: bool)
    ensures
        r == is_wav_type(value@),
{
    let v: Vec<char> = text::chars_of(value);
    let i: usize = text::index_of(v.as_slice(), 0, ';');
    assert(v@.skip(0) =~= v@);
    let t: String = text::trimmed_piece(v.as_slice(), 0, i);
    assert(v@.subrange(0, i as int) =~= v@.take(i as int));
    let l: String = text::to_lower(t.as_str());
    text::same(l.as_str(), "audio/wav") || text::same(l.as_str(), "audio/x-wav")
}

/// What `multer::parse_boundary` finds in a content type: the boundary of a form,
/// or the text of its error.
pub uninterp spec fn boundary_of(content_type: Seq<char>) -> Result<Seq<char>, Seq<char>>;

pub open spec fn result_view(r: Result<String, String>) -> Result<Seq<char>, Seq<char>> {
    match r {
        Ok(s) => Ok(s@),
        Err(m) => Err(m@),
    }
}

/// Calls `multer::parse_boundary`, which reads the boundary of a multipart form out
/// of a content type. The boundary or the text of the error depends on the content
/// type alone.
#[verifier::external_body]
fn parse_boundary(content_type: &str) -> (r: Result<String, String>)
    ensures
        result_view(r) == boundary_of(content_type@),
{
    multer::parse_boundary(content_type).map_err(|e| e.to_string())
}

/// How the body of a recognition request is read.
#[derive(Debug)]
pub enum BodyPlan {
    /// As a form with this boundary.
    Form(String),
    /// As a recording.
    Recording,
}

pub open spec fn is_form(content_type: Seq<char>) -> bool {
    text::has(text::lower(content_type), "multipart/"@)
}

/// How a body is read, given what was found of a boundary.
pub open spec fn planned(
    content_type: Seq<char>,
    len: nat,
    boundary: Result<Seq<char>, Seq<char>>,
    plan: Result<BodyPlan, String>,
) -> bool {
    if is_form(content_type) {
        match boundary {
            Ok(b) => plan matches Ok(BodyPlan::Form(x)) && x@ == b,
            Err(e) => plan matches Err(m) && m@ == "multipart boundary: "@ + e,
        }
    } else if !is_wav_type(content_type) {
        plan matches Err(m) && m@ == "unsupported Content-Type "@ + content_type
            + "; expected audio/wav or multipart/form-data"@
    } else if len == 0 {
        plan matches Err(m) && m@ == "empty body; send multipart file= or raw audio/wav"@
    } else {
        plan matches Ok(BodyPlan::Recording)
    }
}

/// Decides how a body is read; `boundary` is what was found in its content type.
pub fn body_plan_for(content_type: &str, len: usize, boundary: Result<String, String>) -> (r:
    Result<BodyPlan, String>)
    ensures
        planned(content_type@, len as nat, result_view(boundary), r),
{
    let lowered: String = text::to_lower(content_type);
    if text::contains(lowered.as_str(), "multipart/") {
        return match boundary {
            Ok(b) => Ok(BodyPlan::Form(b)),
            Err(e) => Err(text::joined_pair("multipart boundary: ", e.as_str())),
        };
    }
    if !is_wav_content_type(content_type) {
        return Err(
            wrap(
                "unsupported Content-Type ",
                content_type,
                "; expected audio/wav or multipart/form-data",
            ),
        );
    }
    if len == 0 {
        return Err(String::from_str("empty body; send multipart file= or raw audio/wav"));
    }
    Ok(BodyPlan::Recording)
}

/// Decides how the body of a recognition request is read.
pub fn body_plan(content_type: &str, len: usize) -> (r: Result<BodyPlan, String>)
    ensures
        planned(content_type@, len as nat, boundary_of(content_type@), r),
{
    let lowered: String = text::to_lower(content_type);
    let boundary: Result<String, String> = if text::contains(lowered.as_str(), "multipart/") {
        parse_boundary(content_type)
    } else {
        Ok(String::from_str(""))
    };
    body_plan_for(content_type, len, boundary)
}

/// The fields of a form that were read.
#[derive(Debug)]
pub struct RecordingForm {
    pub wav: Option<Vec<u8>>,
    pub language: Option<String>,
}

pub open spec fn is_audio_field(name: Seq<char>) -> bool {
    name == "file"@ || name == "audio"@ || name == "data"@
}

pub open spec fn is_language_field(name: Seq<char>) -> bool {
    name == "language"@ || name == "lang"@
}

/// Why a field of a form is refused.
pub open spec fn field_fault(name: Seq<char>, content_type: Option<Seq<char>>) -> Option<
    Seq<char>,
> {
    if !is_audio_field(name) {
        None
    } else {
        match content_type {
            None => Some("multipart audio field requires Content-Type audio/wav"@),
            Some(t) => if is_wav_type(t) {
                None
            } else {
                Some(
                    "unsupported multipart audio Content-Type "@ + t + "; expected audio/wav"@,
                )
            },
        }
    }
}

/// Why a recording is refused.
pub open spec fn recording_fault(bytes: Seq<u8>) -> Option<Seq<char>> {
    wav::recording_fault(bytes, wav::wav_head(bytes), wav::wav_samples(bytes))
}

impl RecordingForm {
    pub fn new() -> (r: Self)
        ensures
            r.wav is None,
            r.language is None,
    {
        RecordingForm { wav: None, language: None }
    }

    /// Takes in a field; `shown` is its content as text. Of several fields with a
    /// recording or a language the last counts.
    pub fn field(
        &mut self,
        name: &str,
        content_type: &Option<String>,
        data: Vec<u8>,
        shown: &str,
    ) -> (r: Result<(), String>)
        ensures
            registry::reports(r, field_fault(name@, registry::opt_view(*content_type))),
            match r {
                Ok(_) => {
                    &&& final(self).wav == if is_audio_field(name@) {
                        Some(data)
                    } else {
                        old(self).wav
                    }
                    &&& if is_language_field(name@) {
                        final(self).language matches Some(l) && l@ == text::trim(shown@)
                    } else {
                        final(self).language == old(self).language
                    }
                },
                Err(_) => *final(self) == *old(self),
            },
    {
        proof {
            reveal_strlit("file");
            reveal_strlit("audio");
            reveal_strlit("data");
            reveal_strlit("language");
            reveal_strlit("lang");
            assert("data"@[0] != "lang"@[0]);
            assert("file"@[0] != "lang"@[0]);
            assert("file"@.len() == 4 && "data"@.len() == 4 && "lang"@.len() == 4);
            assert("audio"@.len() == 5 && "language"@.len() == 8);
        }
        if text::same(name, "file") || text::same(name, "audio") || text::same(name, "data") {
            match content_type {
                None => {
                    return Err(
                        String::from_str("multipart audio field requires Content-Type audio/wav"),
                    );
                },
                Some(t) => {
                    if !is_wav_content_type(t.as_str()) {
                        return Err(
                            wrap(
                                "unsupported multipart audio Content-Type ",
                                t.as_str(),
                                "; expected audio/wav",
                            ),
                        );
                    }
                },
            }
            self.wav = Some(data);
        } else if text::same(name, "language") || text::same(name, "lang") {
            self.language = Some(text::trimmed(shown));
        }
        Ok(())
    }

    /// Takes in a field as it was sent.
    pub fn take_field(&mut self, name: &str, content_type: &Option<String>, data: Vec<u8>) -> (r:
        Result<(), String>)
        ensures
            registry::reports(r, field_fault(name@, registry::opt_view(*content_type))),
            match r {
                Ok(_) => {
                    &&& final(self).wav == if is_audio_field(name@) {
                        Some(data)
                    } else {
                        old(self).wav
                    }
                    &&& if is_language_field(name@) {
                        final(self).language matches Some(l) && l@ == text::trim(text::lossy(data@))
                    } else {
                        final(self).language == old(self).language
                    }
                },
                Err(_) => *final(self) == *old(self),
            },
    {
        let shown: String = text::lossy_text(data.as_slice());
        self.field(name, content_type, data, shown.as_str())
    }

    /// The recording and the language of the form, or why it is refused.
    pub fn finish(self) -> (r: Result<(Vec<u8>, Option<String>), String>)
        ensures
            match self.wav {
                None => r matches Err(m) && m@ == "multipart form missing file/audio field"@,
                Some(w) => match r {
                    Ok((bytes, language)) => {
                        &&& recording_fault(w@) is None
                        &&& bytes == w
                        &&& language == (if self.language matches Some(l) && l@.len() > 0 {
                            self.language
                        } else {
                            None
                        })
                    },
                    Err(m) => recording_fault(w@) == Some(m@),
                },
            },
    {
        match self.wav {
            None => Err(String::from_str("multipart form missing file/audio field")),
            Some(w) => {
                match validate_pcm_wav(w.as_slice()) {
                    Ok(_) => {},
                    Err(m) => {
                        return Err(m);
                    },
                }
                let language: Option<String> = match self.language {
                    Some(l) => if l.as_str().is_empty() {
                        None
                    } else {
                        Some(l)
                    },
                    None => None,
                };
                Ok((w, language))
            },
        }
    }
}

/// The language of a recognition request: that of the form before that of the
/// header.
pub fn request_language(form: Option<String>, header: Option<String>) -> (r: Option<String>)
    ensures
        r == if form is Some {
            form
        } else {
            header
        },
{
    match form {
        Some(l) => Some(l),
        None => header,
    }
}

// ---------------------------------------------------------------------------
// Messages on an open connection
// ---------------------------------------------------------------------------

/// What a client wants.
#[derive(Debug, Clone, Copy, PartialEq, Eq, Structural)]
pub enum ClientAction {
    EndSession,
    SetStack,
    GetStack,
    Unknown,
}

/// Whether a message that is no JSON ends the session.
pub fn ends_session(message: &str) -> (r: bool)
    ensures
        r == (message@ == "END"@ || message@ == "session_end"@),
{
    text::same(message, "END") || text::same(message, "session_end")
}

pub open spec fn action_for(kind: Seq<char>) -> ClientAction {
    let k = text::lower(kind);
    if k == "set_stack"@ || k == "stack"@ {
        ClientAction::SetStack
    } else if k == "get_stack"@ {
        ClientAction::GetStack
    } else if k == "session_end"@ || k == "end"@ {
        ClientAction::EndSession
    } else {
        ClientAction::Unknown
    }
}

/// What a message of some kind means.
pub fn client_action(kind: &str) -> (r: ClientAction)
    ensures
        r == action_for(kind@),
{
    let l: String = text::to_lower(kind);
    let k: &str = l.as_str();
    if text::same(k, "set_stack") || text::same(k, "stack") {
        ClientAction::SetStack
    } else if text::same(k, "get_stack") {
        ClientAction::GetStack
    } else if text::same(k, "session_end") || text::same(k, "end") {
        ClientAction::EndSession
    } else {
        ClientAction::Unknown
    }
}

/// The status that a client is told after a change of the stack: a failed
/// activation is a failure whatever else was changed.
pub fn merged_status(status: StackStatus, lab_ok: bool, lab_message: &str) -> (r: StackStatus)
    ensures
        r == (StackStatus { ok: r.ok, message: r.message, ..status }),
        r.ok == (lab_ok && status.ok),
        r.message@ == if lab_ok {
            status.message@
        } else {
            lab_message@
        },
{
    let mut s: StackStatus = status;
    if !lab_ok {
        s.ok = false;
        s.message = String::from_str(lab_message);
    }
    s
}

// ---------------------------------------------------------------------------
// Suggestions
// ---------------------------------------------------------------------------

/// The first value with a name.
pub open spec fn parameter(pairs: Seq<(String, String)>, key: Seq<char>, from: int) -> Option<int>
    decreases pairs.len() - from,
{
    if from >= pairs.len() {
        None
    } else if pairs[from].0@ == key {
        Some(from)
    } else {
        parameter(pairs, key, from + 1)
    }
}

/// The first value with a name, or else with another one.
pub open spec fn parameter_or(
    pairs: Seq<(String, String)>,
    key: Seq<char>,
    other: Seq<char>,
) -> Option<int> {
    match parameter(pairs, key, 0) {
        Some(i) => Some(i),
        None => parameter(pairs, other, 0),
    }
}

fn find_parameter(pairs: &Vec<(String, String)>, key: &str) -> (r: Option<usize>)
    ensures
        match r {
            Some(i) => parameter(pairs@, key@, 0) == Some(i as int) && i < pairs@.len(),
            None => parameter(pairs@, key@, 0) is None,
        },
{
    let mut i: usize = 0;
    while i < pairs.len()
        invariant
            i <= pairs.len(),
            parameter(pairs@, key@, 0) == parameter(pairs@, key@, i as int),
        decreases pairs.len() - i,
    {
        if text::same(pairs[i].0.as_str(), key) {
            return Some(i);
        }
        i += 1;
    }
    None
}

fn find_parameter_or(pairs: &Vec<(String, String)>, key: &str, other: &str) -> (r: Option<usize>)
    ensures
        match r {
            Some(i) => parameter_or(pairs@, key@, other@) == Some(i as int) && i < pairs@.len(),
            None => parameter_or(pairs@, key@, other@) is None,
        },
{
    match find_parameter(pairs, key) {
        Some(i) => Some(i),
        None => find_parameter(pairs, other),
    }
}

/// What a client asks of the gateway's suggestions.
#[derive(Debug)]
pub struct GatewayQuery {
    pub language: Option<String>,
    pub stable_only: bool,
    /// The memory budget, if one is given; it is eight gigabytes otherwise.
    pub budget: Option<u32>,
    pub limit: usize,
}

pub open spec fn value_at(pairs: Seq<(String, String)>, i: int) -> Seq<char> {
    text::trim(pairs[i].1@)
}

/// Whether a query says what its parameters do. `sizes` holds for each parameter
/// the positive number that its value denotes, if it denotes one.
pub open spec fn asks(
    q: GatewayQuery,
    pairs: Seq<(String, String)>,
    sizes: Seq<Option<u32>>,
) -> bool {
    &&& match parameter_or(pairs, "language"@, "lang"@) {
        Some(i) => {
            let v = text::lower(value_at(pairs, i));
            if v.len() > 0 && v != "auto"@ {
                q.language matches Some(l) && l@ == v
            } else {
                q.language is None
            }
        },
        None => q.language is None,
    }
    &&& q.stable_only == match parameter_or(pairs, "stable_only"@, "stable"@) {
        Some(i) => !suggest::says_no(text::lower(value_at(pairs, i))),
        None => true,
    }
    &&& q.budget == match parameter_or(pairs, "max_vram_gb"@, "max_vram"@) {
        Some(i) => sizes[i],
        None => None,
    }
    &&& q.limit == match parameter(pairs, "limit"@, 0) {
        Some(i) => match text::parsed_unsigned(value_at(pairs, i), usize::MAX as nat) {
            Some(n) => if n < 1 {
                1
            } else if n > 32 {
                32
            } else {
                n as int
            },
            None => 8,
        },
        None => 8,
    }
}

fn query_language(pairs: &Vec<(String, String)>) -> (r: Option<String>)
    ensures
        match parameter_or(pairs@, "language"@, "lang"@) {
            Some(i) => {
                let v = text::lower(value_at(pairs@, i));
                if v.len() > 0 && v != "auto"@ {
                    r matches Some(l) && l@ == v
                } else {
                    r is None
                }
            },
            None => r is None,
        },
{
    match find_parameter_or(pairs, "language", "lang") {
        Some(i) => {
            let t: String = text::trimmed(pairs[i].1.as_str());
            let v: String = text::to_lower(t.as_str());
            if v.as_str().is_empty() || text::same(v.as_str(), "auto") {
                None
            } else {
                Some(v)
            }
        },
        None => None,
    }
}

fn query_limit(pairs: &Vec<(String, String)>) -> (r: usize)
    ensures
        r == match parameter(pairs@, "limit"@, 0) {
            Some(i) => match text::parsed_unsigned(value_at(pairs@, i), usize::MAX as nat) {
                Some(n) => if n < 1 {
                    1
                } else if n > 32 {
                    32
                } else {
                    n as int
                },
                None => 8,
            },
            None => 8,
        },
{
    match find_parameter(pairs, "limit") {
        Some(i) => {
            let t: String = text::trimmed(pairs[i].1.as_str());
            match text::parse_unsigned(t.as_str(), usize::MAX as u64) {
                Some(n) => if n < 1 {
                    1
                } else if n > 32 {
                    32
                } else {
                    n as usize
                },
                None => 8,
            }
        },
        None => 8,
    }
}

/// Reads the parameters of a request for suggestions.
pub fn gateway_query(pairs: &Vec<(String, String)>, sizes: &Vec<Option<u32>>) -> (r: GatewayQuery)
    requires
        sizes@.len() == pairs@.len(),
    ensures
        asks(r, pairs@, sizes@),
{
    let stable_only: bool = match find_parameter_or(pairs, "stable_only", "stable") {
        Some(i) => {
            let t: String = text::trimmed(pairs[i].1.as_str());
            let v: String = text::to_lower(t.as_str());
            let v: &str = v.as_str();
            !(text::same(v, "0") || text::same(v, "false") || text::same(v, "no") || text::same(
                v,
                "off",
            ))
        },
        None => true,
    };
    let budget: Option<u32> = match find_parameter_or(pairs, "max_vram_gb", "max_vram") {
        Some(i) => sizes[i],
        None => None,
    };
    GatewayQuery {
        language: query_language(pairs),
        stable_only,
        budget,
        limit: query_limit(pairs),
    }
}

/// Whether one of the languages of a backend is the wanted one.
pub open spec fn lists_language(langs: Seq<String>, wanted: Seq<char>) -> bool {
    langs.len() == 0 || exists|i: int|
        0 <= i < langs.len() && {
            let l = text::lower((#[trigger] langs[i])@);
            l == "auto"@ || l == wanted || text::starts_with(l, wanted + "-"@)
        }
}

fn language_listed(langs: &Vec<String>, wanted: &str) -> (r: bool)
    ensures
        r == lists_language(langs@, wanted@),
{
    if langs.len() == 0 {
        return true;
    }
    let p: String = text::joined_pair(wanted, "-");
    let mut i: usize = 0;
    while i < langs.len()
        invariant
            i <= langs.len(),
            p@ == wanted@ + "-"@,
            forall|j: int|
                0 <= j < i ==> {
                    let l = text::lower((#[trigger] langs@[j])@);
                    !(l == "auto"@ || l == wanted@ || text::starts_with(l, wanted@ + "-"@))
                },
        decreases langs.len() - i,
    {
        let l: String = text::to_lower(langs[i].as_str());
        if text::same(l.as_str(), "auto") || text::same(l.as_str(), wanted) || text::begins_with(
            l.as_str(),
            p.as_str(),
        ) {
            assert(langs@[i as int]@ == langs@[i as int]@);
            return true;
        }
        i += 1;
    }
    false
}

/// Whether the gateway suggests a backend for a stage.
pub open spec fn suggestible(s: CatalogBackendStatus, q: GatewayQuery, stage: BackendStage) -> bool {
    &&& s.backend.stage == stage
    &&& s.available
    &&& s.selected_variant matches Some(v) && (q.stable_only ==> v.stable)
    &&& q.language matches Some(l) ==> lists_language(s.backend.languages@, l@)
}

pub fn is_suggestible(s: &CatalogBackendStatus, q: &GatewayQuery, stage: BackendStage) -> (r: bool)
    ensures
        r == suggestible(*s, *q, stage),
{
    if s.backend.stage != stage || !s.available {
        return false;
    }
    match &s.selected_variant {
        Some(v) => {
            if q.stable_only && !v.stable {
                return false;
            }
        },
        None => {
            return false;
        },
    }
    match &q.language {
        Some(l) => language_listed(&s.backend.languages, l.as_str()),
        None => true,
    }
}

pub open spec fn suggestible_among(
    bs: Seq<CatalogBackendStatus>,
    q: GatewayQuery,
    stage: BackendStage,
    n: int,
) -> Seq<usize>
    decreases n,
{
    if n <= 0 {
        Seq::empty()
    } else if suggestible(bs[n - 1], q, stage) {
        suggestible_among(bs, q, stage, n - 1).push((n - 1) as usize)
    } else {
        suggestible_among(bs, q, stage, n - 1)
    }
}

fn suggestible_indices(
    bs: &Vec<CatalogBackendStatus>,
    q: &GatewayQuery,
    stage: BackendStage,
) -> (r: Vec<usize>)
    ensures
        r@ == suggestible_among(bs@, *q, stage, bs@.len() as int),
        forall|i: int| 0 <= i < r@.len() ==> #[trigger] r@[i] < bs@.len(),
{
    let mut out: Vec<usize> = Vec::new();
    let mut i: usize = 0;
    while i < bs.len()
        invariant
            i <= bs.len(),
            out@ == suggestible_among(bs@, *q, stage, i as int),
            forall|k: int| 0 <= k < out@.len() ==> #[trigger] out@[k] < i,
        decreases bs.len() - i,
    {
        if is_suggestible(&bs[i], q, stage) {
            out.push(i);
        }
        i += 1;
    }
    out
}

/// The pairs that the gateway considers.
pub open spec fn gateway_pairs_of(bs: Seq<CatalogBackendStatus>, q: GatewayQuery) -> Seq<
    (usize, usize),
> {
    let n = bs.len() as int;
    suggest::product(
        suggestible_among(bs, q, BackendStage::Asr, n),
        suggestible_among(bs, q, BackendStage::Tts, n),
    )
}

pub fn gateway_pairs(bs: &Vec<CatalogBackendStatus>, q: &GatewayQuery) -> (r: Vec<(usize, usize)>)
    ensures
        r@ == gateway_pairs_of(bs@, *q),
        forall|i: int|
            0 <= i < r@.len() ==> (#[trigger] r@[i]).0 < bs@.len() && r@[i].1 < bs@.len(),
{
    let asr: Vec<usize> = suggestible_indices(bs, q, BackendStage::Asr);
    let tts: Vec<usize> = suggestible_indices(bs, q, BackendStage::Tts);
    suggest::all_pairs(&asr, &tts, bs.len())
}

/// What was computed for a pair.
#[derive(Debug, Clone, Copy)]
pub struct GatewayPairNumbers {
    /// The memory does not exceed the budget.
    pub fits: bool,
    /// The memory in hundredths of a gigabyte.
    pub vram: u32,
}

#[derive(Debug)]
pub struct GatewaySuggestedPair {
    pub asr_id: String,
    pub tts_id: String,
    pub asr_name: String,
    pub tts_name: String,
    /// In hundredths.
    pub score: u32,
    pub reason: String,
    /// In hundredths of a gigabyte.
    pub vram_gb: u32,
}

#[derive(Debug)]
pub struct GatewaySuggestions {
    pub capability: HardwareProfile,
    pub suggested_pairs: Vec<GatewaySuggestedPair>,
    pub scoring: &'static str,
    pub note: &'static str,
}

/// The score of a pair in hundredths: 55, a quarter more within the budget and 35
/// less beyond it, and eight more for each part that is installed.
pub open spec fn gateway_score(
    a: CatalogBackendStatus,
    t: CatalogBackendStatus,
    fits: bool,
) -> u32 {
    let base: u32 = if fits {
        80
    } else {
        20
    };
    let one: u32 = if a.installed {
        8
    } else {
        0
    };
    let two: u32 = if t.installed {
        8
    } else {
        0
    };
    (base + one + two) as u32
}

fn score_pair(a: &CatalogBackendStatus, t: &CatalogBackendStatus, fits: bool) -> (r: u32)
    ensures
        r == gateway_score(*a, *t, fits),
{
    let base: u32 = if fits {
        80
    } else {
        20
    };
    let one: u32 = if a.installed {
        8
    } else {
        0
    };
    let two: u32 = if t.installed {
        8
    } else {
        0
    };
    base + one + two
}

pub open spec fn gateway_keys(
    bs: Seq<CatalogBackendStatus>,
    pairs: Seq<(usize, usize)>,
    ns: Seq<GatewayPairNumbers>,
) -> Seq<suggest::KeyView> {
    Seq::new(
        pairs.len(),
        |i: int|
            suggest::KeyView {
                score: gateway_score(
                    bs[pairs[i].0 as int],
                    bs[pairs[i].1 as int],
                    ns[i].fits,
                ) as int,
                vram: ns[i].vram as int,
                first: bs[pairs[i].0 as int].backend.id@,
                second: bs[pairs[i].1 as int].backend.id@,
            },
    )
}

pub open spec fn all_kept(n: nat) -> Seq<bool> {
    Seq::new(n, |i: int| true)
}

pub open spec fn gateway_suggests(
    s: GatewaySuggestedPair,
    bs: Seq<CatalogBackendStatus>,
    pair: (usize, usize),
    n: GatewayPairNumbers,
) -> bool {
    let a = bs[pair.0 as int];
    let t = bs[pair.1 as int];
    &&& s.asr_id@ == a.backend.id@
    &&& s.tts_id@ == t.backend.id@
    &&& s.asr_name@ == a.backend.name@
    &&& s.tts_name@ == t.backend.name@
    &&& s.score == gateway_score(a, t, n.fits)
    &&& s.reason@ == if n.fits {
        "stable catalog pair within the requested VRAM budget"@
    } else {
        "stable catalog pair above the requested VRAM budget"@
    }
    &&& s.vram_gb == n.vram
}

pub open spec fn best_gateway_pairs(
    r: Seq<GatewaySuggestedPair>,
    bs: Seq<CatalogBackendStatus>,
    pairs: Seq<(usize, usize)>,
    ns: Seq<GatewayPairNumbers>,
    limit: usize,
) -> bool {
    exists|order: Seq<usize>|
        {
            &&& #[trigger] suggest::is_ranking(
                order,
                gateway_keys(bs, pairs, ns),
                all_kept(pairs.len()),
                pairs.len() as int,
            )
            &&& r.len() == suggest::at_most(order.len() as int, limit)
            &&& forall|i: int|
                0 <= i < r.len() ==> gateway_suggests(
                    #[trigger] r[i],
                    bs,
                    pairs[order[i] as int],
                    ns[order[i] as int],
                )
        }
}

fn rank_gateway_pairs(
    bs: &Vec<CatalogBackendStatus>,
    pairs: &Vec<(usize, usize)>,
    ns: &Vec<GatewayPairNumbers>,
) -> (r: Vec<usize>)
    requires
        ns@.len() == pairs@.len(),
        forall|i: int|
            0 <= i < pairs@.len() ==> (#[trigger] pairs@[i]).0 < bs@.len() && pairs@[i].1 < bs@.len(),
    ensures
        suggest::is_ranking(
            r@,
            gateway_keys(bs@, pairs@, ns@),
            all_kept(pairs@.len()),
            pairs@.len() as int,
        ),
{
    let mut keys: Vec<RankKey> = Vec::new();
    let mut kept: Vec<bool> = Vec::new();
    let mut i: usize = 0;
    while i < pairs.len()
        invariant
            i <= pairs.len(),
            ns@.len() == pairs@.len(),
            forall|k: int|
                0 <= k < pairs@.len() ==> (#[trigger] pairs@[k]).0 < bs@.len() && pairs@[k].1
                    < bs@.len(),
            keys@.len() == i,
            kept@.len() == i,
            forall|k: int|
                0 <= k < i ==> (#[trigger] keys@[k])@ == gateway_keys(bs@, pairs@, ns@)[k],
            forall|k: int| 0 <= k < i ==> #[trigger] kept@[k],
        decreases pairs.len() - i,
    {
        let a: &CatalogBackendStatus = &bs[pairs[i].0];
        let t: &CatalogBackendStatus = &bs[pairs[i].1];
        keys.push(
            RankKey {
                score: score_pair(a, t, ns[i].fits),
                vram: ns[i].vram,
                first: a.backend.id.clone(),
                second: t.backend.id.clone(),
            },
        );
        kept.push(true);
        i += 1;
    }
    assert(suggest::key_views(keys@) =~= gateway_keys(bs@, pairs@, ns@));
    assert(kept@ =~= all_kept(pairs@.len()));
    rank(&keys, &kept)
}

/// The suggestions of the gateway, best first, from the numbers that were computed
/// for the pairs that it considers.
pub fn build_gateway_suggestions(
    capability: HardwareProfile,
    bs: &Vec<CatalogBackendStatus>,
    q: &GatewayQuery,
    ns: &Vec<GatewayPairNumbers>,
) -> (r: GatewaySuggestions)
    requires
        ns@.len() == gateway_pairs_of(bs@, *q).len(),
    ensures
        r.capability == capability,
        best_gateway_pairs(
            r.suggested_pairs@,
            bs@,
            gateway_pairs_of(bs@, *q),
            ns@,
            q.limit,
        ),
        r.scoring@ == "heuristic_v1"@,
        r.note@
            == "Predictions from catalog metadata and capacity budget; not runtime benchmarks."@,
{
    let pairs: Vec<(usize, usize)> = gateway_pairs(bs, q);
    let order: Vec<usize> = rank_gateway_pairs(bs, &pairs, ns);
    let mut out: Vec<GatewaySuggestedPair> = Vec::new();
    while out.len() < order.len() && out.len() < q.limit
        invariant
            out@.len() <= order@.len(),
            out@.len() <= q.limit,
            ns@.len() == pairs@.len(),
            forall|k: int|
                0 <= k < pairs@.len() ==> (#[trigger] pairs@[k]).0 < bs@.len() && pairs@[k].1
                    < bs@.len(),
            forall|k: int| 0 <= k < order@.len() ==> #[trigger] order@[k] < pairs@.len(),
            forall|k: int|
                0 <= k < out@.len() ==> gateway_suggests(
                    #[trigger] out@[k],
                    bs@,
                    pairs@[order@[k] as int],
                    ns@[order@[k] as int],
                ),
        decreases order.len() - out.len(),
    {
        let k: usize = order[out.len()];
        let a: &CatalogBackendStatus = &bs[pairs[k].0];
        let t: &CatalogBackendStatus = &bs[pairs[k].1];
        out.push(
            GatewaySuggestedPair {
                asr_id: a.backend.id.clone(),
                tts_id: t.backend.id.clone(),
                asr_name: a.backend.name.clone(),
                tts_name: t.backend.name.clone(),
                score: score_pair(a, t, ns[k].fits),
                reason: String::from_str(
                    if ns[k].fits {
                        "stable catalog pair within the requested VRAM budget"
                    } else {
                        "stable catalog pair above the requested VRAM budget"
                    },
                ),
                vram_gb: ns[k].vram,
            },
        );
    }
    GatewaySuggestions {
        capability,
        suggested_pairs: out,
        scoring: "heuristic_v1",
        note: "Predictions from catalog metadata and capacity budget; not runtime benchmarks.",
    }
}

/// A recording is known by its type, whatever its case, the white space around it and
/// the parameters behind it.
pub proof fn law_type_of_a_recording(kind: Seq<char>, parameters: Seq<char>)
    requires
        forall|i: int| 0 <= i < kind.len() ==> #[trigger] kind[i] != ';',
    ensures
        is_wav_type(kind.push(';') + parameters) == is_wav_type(kind),
        is_wav_type(kind) <==> text::lower(text::trim(kind)) == "audio/wav"@ || text::lower(
            text::trim(kind),
        ) == "audio/x-wav"@,
{
    let s = kind.push(';') + parameters;
    text::lemma_first_char_is(s, ';', kind.len() as int);
    text::lemma_first_char_is(kind, ';', kind.len() as int);
    assert(s.take(kind.len() as int) =~= kind);
    assert(kind.take(kind.len() as int) =~= kind);
}

/// A body is a form, or a recording that is not empty; anything else is refused.
pub proof fn law_body(
    content_type: Seq<char>,
    len: nat,
    boundary: Seq<char>,
    plan: Result<BodyPlan, String>,
)
    requires
        planned(content_type, len, Ok(boundary), plan),
    ensures
        text::has(text::lower(content_type), "multipart/"@) ==> (plan matches Ok(
            BodyPlan::Form(b),
        ) && b@ == boundary),
        !text::has(text::lower(content_type), "multipart/"@) && is_wav_type(content_type) && len > 0
            ==> plan is Ok && plan->Ok_0 is Recording,
        !text::has(text::lower(content_type), "multipart/"@) && (len == 0 || !is_wav_type(
            content_type,
        )) ==> plan is Err,
{
}

/// A field of a form is refused only if it is to hold audio and is not announced as
/// such.
pub proof fn law_fields_of_a_form(name: Seq<char>, content_type: Seq<char>)
    ensures
        name != "file"@ && name != "audio"@ && name != "data"@ ==> field_fault(name, None) is None
            && field_fault(name, Some(content_type)) is None,
        name == "file"@ || name == "audio"@ || name == "data"@ ==> field_fault(name, None) is Some
            && (field_fault(name, Some(content_type)) is None <==> is_wav_type(content_type)),
{
}

/// What a client asks by the type of a message, in any case.
pub proof fn law_client_actions(kind: Seq<char>)
    ensures
        text::lower(kind) == "set_stack"@ || text::lower(kind) == "stack"@ ==> action_for(kind)
            == ClientAction::SetStack,
        text::lower(kind) == "get_stack"@ ==> action_for(kind) == ClientAction::GetStack,
        text::lower(kind) == "session_end"@ || text::lower(kind) == "end"@ ==> action_for(kind)
            == ClientAction::EndSession,
        action_for(kind) == ClientAction::EndSession ==> text::lower(kind) == "session_end"@
            || text::lower(kind) == "end"@,
        action_for(kind) == ClientAction::SetStack ==> text::lower(kind) == "set_stack"@
            || text::lower(kind) == "stack"@,
{
    reveal_strlit("set_stack");
    reveal_strlit("stack");
    reveal_strlit("get_stack");
    reveal_strlit("session_end");
    reveal_strlit("end");
    assert("set_stack"@.len() == 9 && "get_stack"@.len() == 9 && "stack"@.len() == 5
        && "session_end"@.len() == 11 && "end"@.len() == 3);
    assert("set_stack"@[0] == 's' && "get_stack"@[0] == 'g');
}

/// Gateway suggestions come best first and are no more than asked for.
pub proof fn law_best_gateway_pairs_come_first(
    r: Seq<GatewaySuggestedPair>,
    bs: Seq<CatalogBackendStatus>,
    pairs: Seq<(usize, usize)>,
    ns: Seq<GatewayPairNumbers>,
    limit: usize,
    i: int,
    j: int,
)
    requires
        best_gateway_pairs(r, bs, pairs, ns, limit),
        ns.len() == pairs.len(),
        0 <= i < j < r.len(),
    ensures
        r.len() <= limit,
        r[i].score > r[j].score || (r[i].score == r[j].score && r[i].vram_gb <= r[j].vram_gb),
{
    let keys = gateway_keys(bs, pairs, ns);
    let order = choose|order: Seq<usize>|
        {
            &&& #[trigger] suggest::is_ranking(
                order,
                keys,
                all_kept(pairs.len()),
                pairs.len() as int,
            )
            &&& r.len() == suggest::at_most(order.len() as int, limit)
            &&& forall|i: int|
                0 <= i < r.len() ==> gateway_suggests(
                    #[trigger] r[i],
                    bs,
                    pairs[order[i] as int],
                    ns[order[i] as int],
                )
        };
    assert(suggest::ranks_before(keys, order[i] as int, order[j] as int));
    assert(gateway_suggests(r[i], bs, pairs[order[i] as int], ns[order[i] as int]));
    assert(gateway_suggests(r[j], bs, pairs[order[j] as int], ns[order[j] as int]));
    assert(all_kept(pairs.len())[order[i] as int]);
    assert(all_kept(pairs.len())[order[j] as int]);
}

/// All pairs are suggested while there is room.
pub proof fn law_all_gateway_pairs_are_suggested(
    r: Seq<GatewaySuggestedPair>,
    bs: Seq<CatalogBackendStatus>,
    pairs: Seq<(usize, usize)>,
    ns: Seq<GatewayPairNumbers>,
    limit: usize,
    k: int,
)
    requires
        best_gateway_pairs(r, bs, pairs, ns, limit),
        ns.len() == pairs.len(),
        pairs.len() <= usize::MAX,
        0 <= k < pairs.len(),
        r.len() < limit,
    ensures
        exists|i: int|
            0 <= i < r.len() && (#[trigger] r[i]).asr_id@ == bs[pairs[k].0 as int].backend.id@
                && r[i].tts_id@ == bs[pairs[k].1 as int].backend.id@ && r[i].vram_gb == ns[k].vram,
{
    let keys = gateway_keys(bs, pairs, ns);
    let order = choose|order: Seq<usize>|
        {
            &&& #[trigger] suggest::is_ranking(
                order,
                keys,
                all_kept(pairs.len()),
                pairs.len() as int,
            )
            &&& r.len() == suggest::at_most(order.len() as int, limit)
            &&& forall|i: int|
                0 <= i < r.len() ==> gateway_suggests(
                    #[trigger] r[i],
                    bs,
                    pairs[order[i] as int],
                    ns[order[i] as int],
                )
        };
    let u = k as usize;
    assert(all_kept(pairs.len())[k]);
    assert(order.contains(u));
    let i = choose|i: int| 0 <= i < order.len() && order[i] == u;
    assert(gateway_suggests(r[i], bs, pairs[order[i] as int], ns[order[i] as int]));
}

/// A pair that fits scores 80 and one that does not 20, and each model that is
/// installed adds eight: what fits always comes before what does not.
pub proof fn law_gateway_scores(
    a: CatalogBackendStatus,
    t: CatalogBackendStatus,
    b: CatalogBackendStatus,
    u: CatalogBackendStatus,
)
    ensures
        gateway_score(a, t, true) == gateway_score(a, t, false) + 60,
        gateway_score(a, t, true) > gateway_score(b, u, false),
        a.installed && t.installed ==> gateway_score(a, t, true) == 96,
        a.installed && !t.installed ==> gateway_score(a, t, true) == 88,
        !a.installed && t.installed ==> gateway_score(a, t, true) == 88,
        !a.installed && !t.installed ==> gateway_score(a, t, true) == 80,
{
}

/// What a gateway query asks: the first parameter of a name counts, its full name
/// before its short one; without any, stable backends and eight suggestions.
pub proof fn law_gateway_query(q: GatewayQuery, pairs: Seq<(String, String)>, sizes: Seq<Option<u32>>)
    requires
        asks(q, pairs, sizes),
    ensures
        1 <= q.limit <= 32,
        pairs.len() == 0 ==> q.limit == 8 && q.stable_only && q.language is None && q.budget is None,
        pairs.len() == 1 && pairs[0].0@ == "language"@ && text::lower(text::trim(pairs[0].1@)).len()
            > 0 && text::lower(text::trim(pairs[0].1@)) != "auto"@ ==> q.language is Some
            && q.language.unwrap()@ == text::lower(text::trim(pairs[0].1@)),
        pairs.len() == 1 && pairs[0].0@ == "max_vram_gb"@ ==> q.budget == sizes[0],
        pairs.len() == 1 && pairs[0].0@ == "stable_only"@ && (text::lower(text::trim(pairs[0].1@))
            == "0"@ || text::lower(text::trim(pairs[0].1@)) == "false"@ || text::lower(
            text::trim(pairs[0].1@),
        ) == "no"@ || text::lower(text::trim(pairs[0].1@)) == "off"@) ==> !q.stable_only,
{
    reveal_with_fuel(parameter, 3);
}

/// A backend may be suggested at the gateway if it is of the stage, can be used, is
/// stable where only stable ones are wanted, and lists the language or none.
pub proof fn law_suggestible(s: CatalogBackendStatus, q: GatewayQuery, stage: BackendStage, i: int)
    ensures
        suggestible(s, q, stage) ==> s.backend.stage == stage && s.available && s.selected_variant
            is Some && (q.stable_only ==> s.selected_variant.unwrap().stable),
        s.backend.stage == stage && s.available && s.selected_variant is Some && (
        s.selected_variant.unwrap().stable || !q.stable_only) && (q.language is None
            || s.backend.languages@.len() == 0 || (0 <= i < s.backend.languages@.len()
            && text::lower(s.backend.languages@[i]@) == q.language.unwrap()@)) ==> suggestible(
            s,
            q,
            stage,
        ),
{
    if 0 <= i < s.backend.languages@.len() && q.language is Some {
        let l = text::lower(s.backend.languages@[i]@);
        assert(l == q.language.unwrap()@ ==> lists_language(
            s.backend.languages@,
            q.language.unwrap()@,
        ));
    }
}

/// The gateway considers a recogniser with a synthesis exactly if both may be
/// suggested.
pub proof fn law_gateway_considers_all_pairs(
    bs: Seq<CatalogBackendStatus>,
    q: GatewayQuery,
    a: usize,
    t: usize,
)
    requires
        bs.len() <= usize::MAX,
    ensures
        gateway_pairs_of(bs, q).contains((a, t)) <==> a < bs.len() && t < bs.len() && suggestible(
            bs[a as int],
            q,
            BackendStage::Asr,
        ) && suggestible(bs[t as int], q, BackendStage::Tts),
{
    let n = bs.len() as int;
    let left = suggestible_among(bs, q, BackendStage::Asr, n);
    let right = suggestible_among(bs, q, BackendStage::Tts, n);
    lemma_suggestible_among(bs, q, BackendStage::Asr, n, a);
    lemma_suggestible_among(bs, q, BackendStage::Tts, n, t);
    if left.contains(a) && right.contains(t) {
        suggest::lemma_product_has(left, right, a, t);
    }
    if gateway_pairs_of(bs, q).contains((a, t)) {
        let p = suggest::product(left, right);
        let i = choose|i: int| 0 <= i < p.len() && p[i] == (a, t);
        suggest::lemma_product(left, right, i);
    }
}

proof fn lemma_suggestible_among(
    bs: Seq<CatalogBackendStatus>,
    q: GatewayQuery,
    stage: BackendStage,
    n: int,
    k: usize,
)
    requires
        0 <= n <= bs.len() <= usize::MAX,
    ensures
        suggestible_among(bs, q, stage, n).contains(k) <==> k < n && suggestible(
            bs[k as int],
            q,
            stage,
        ),
    decreases n,
{
    if n > 0 {
        lemma_suggestible_among(bs, q, stage, n - 1, k);
        let all = suggestible_among(bs, q, stage, n);
        let before = suggestible_among(bs, q, stage, n - 1);
        if before.contains(k) {
            let i = choose|i: int| 0 <= i < before.len() && before[i] == k;
            assert(all[i] == k);
        }
        if all.contains(k) {
            let i = choose|i: int| 0 <= i < all.len() && all[i] == k;
            if i < before.len() {
                assert(before[i] == k);
            }
        }
        if k == n - 1 && suggestible(bs[n - 1], q, stage) {
            assert(all[all.len() - 1] == k);
        }
    }
}

/// The value of a parameter is the first with its name; the other name counts only
/// where this one is missing.
pub proof fn law_first_parameter(
    pairs: Seq<(String, String)>,
    key: Seq<char>,
    other: Seq<char>,
    i: int,
)
    ensures
        0 <= i < pairs.len() && pairs[i].0@ == key && (forall|j: int|
            0 <= j < i ==> (#[trigger] pairs[j]).0@ != key) ==> parameter_or(pairs, key, other)
            == Some(i),
        0 <= i < pairs.len() && pairs[i].0@ == other && (forall|j: int|
            0 <= j < i ==> (#[trigger] pairs[j]).0@ != other) && (forall|j: int|
            0 <= j < pairs.len() ==> (#[trigger] pairs[j]).0@ != key) ==> parameter_or(
            pairs,
            key,
            other,
        ) == Some(i),
        (forall|j: int|
            0 <= j < pairs.len() ==> (#[trigger] pairs[j]).0@ != key && pairs[j].0@ != other)
            ==> parameter_or(pairs, key, other) is None,
{
    lemma_parameter(pairs, key, 0, i);
    lemma_parameter(pairs, other, 0, i);
}

proof fn lemma_parameter(pairs: Seq<(String, String)>, key: Seq<char>, from: int, i: int)
    requires
        0 <= from <= pairs.len(),
    ensures
        from <= i < pairs.len() && pairs[i].0@ == key && (forall|j: int|
            from <= j < i ==> (#[trigger] pairs[j]).0@ != key) ==> parameter(pairs, key, from)
            == Some(i),
        (forall|j: int| from <= j < pairs.len() ==> (#[trigger] pairs[j]).0@ != key) ==> parameter(
            pairs,
            key,
            from,
        ) is None,
    decreases pairs.len() - from,
{
    if from < pairs.len() && pairs[from].0@ != key {
        lemma_parameter(pairs, key, from + 1, i);
    }
}

} // verus!
