//! The realtime interface: messages of a client, and the events that carry the
//! answer.

use crate::json::{self, list, object, push_member, Json, JsonView};
use crate::pcm::{self, i16_to_bytes_le};
use crate::text;
use base64::engine::general_purpose::STANDARD;
use base64::Engine;
use vstd::prelude::*;

verus! {

// ---------------------------------------------------------------------------
// Base64
// ---------------------------------------------------------------------------

/// The bytes that `base64` reads out of a text in the standard alphabet, where it
/// accepts the text.
pub uninterp spec fn base64_bytes(text: Seq<char>) -> Option<Seq<u8>>;

/// The text in the standard alphabet that `base64` writes for some bytes.
pub uninterp spec fn base64_text(bytes: Seq<u8>) -> Seq<char>;

pub open spec fn bytes_view(v: Option<Vec<u8>>) -> Option<Seq<u8>> {
    match v {
        Some(b) => Some(b@),
        None => None,
    }
}

/// Calls `Engine::decode` of `base64` on the standard engine. The bytes, or that the
/// text is refused, depend on the text alone.
#[verifier::external_body]
fn decode_base64(text: &str) -> (r: Option<Vec<u8>>)
    ensures
        bytes_view(r) == base64_bytes(text@),
{
    STANDARD.decode(text).ok()
}

/// Calls `Engine::encode` of `base64` on the standard engine, which writes padding.
/// The text depends on the bytes alone, and reading it gives them back. It panics
/// only where its length does not fit a `usize`, which no slice in memory is long
/// enough for.
#[verifier::external_body]
fn encode_base64(bytes: &[u8]) -> (r: String)
    ensures
        r@ == base64_text(bytes@),
        base64_bytes(r@) == Some(bytes@),
{
    STANDARD.encode(bytes)
}

// ---------------------------------------------------------------------------
// Messages of a client
// ---------------------------------------------------------------------------

/// What a message asks for.
#[derive(Debug)]
pub enum RealtimeAction {
    /// Send this.
    Reply(Json),
    /// Pass this audio on.
    Audio(Vec<u8>),
    /// Listen again.
    Listen,
    Nothing,
}

/// The kind of a message.
pub open spec fn kind_of(message: JsonView) -> Seq<char> {
    match json::text_of(json::member(message, "type"@)) {
        Some(t) => t,
        None => ""@,
    }
}

pub open spec fn event(kind: Seq<char>, event_id: Seq<char>) -> Seq<(Seq<char>, JsonView)> {
    seq![("type"@, JsonView::Text(kind)), ("event_id"@, JsonView::Text(event_id))]
}

/// The audio of a message, given what was read out of its text.
pub open spec fn audio_text(message: JsonView) -> Option<Seq<char>> {
    json::text_of(json::member(message, "audio"@))
}

/// What a message asks for, given the bytes that were read out of its audio.
pub open spec fn is_answer_to(
    a: RealtimeAction,
    message: JsonView,
    event_id: Seq<char>,
    audio: Option<Seq<u8>>,
) -> bool {
    let kind = kind_of(message);
    if kind == "session.update"@ {
        let session = match json::member(message, "session"@) {
            Some(s) => s,
            None => JsonView::Object(Seq::empty()),
        };
        a matches RealtimeAction::Reply(j) && j@ == JsonView::Object(
            event("session.updated"@, event_id).push(("session"@, session)),
        )
    } else if kind == "input_audio_buffer.append"@ {
        match audio {
            Some(b) => a matches RealtimeAction::Audio(v) && v@ == b,
            None => a is Nothing,
        }
    } else if kind == "response.cancel"@ {
        a is Listen
    } else {
        a is Nothing
    }
}

fn event_members(kind: &str, event_id: &str) -> (m: Vec<(String, Json)>)
    ensures
        json::members_view(m@) == event(kind@, event_id@),
{
    let mut m: Vec<(String, Json)> = Vec::new();
    assert(json::members_view(m@) =~= Seq::empty());
    push_member(&mut m, "type", Json::text(kind));
    push_member(&mut m, "event_id", Json::text(event_id));
    assert(json::members_view(m@) =~= event(kind@, event_id@));
    m
}

fn message_kind(message: &Json) -> (r: String)
    ensures
        r@ == kind_of(message@),
{
    match message.text_member("type") {
        Some(t) => t,
        None => String::from_str(""),
    }
}

/// Decides on a message; `audio` is what was read out of its audio, if it has any.
pub fn answer_to(message: &Json, event_id: &str, audio: Option<Vec<u8>>) -> (r: RealtimeAction)
    ensures
        is_answer_to(r, message@, event_id@, bytes_view(audio)),
{
    let kind: String = message_kind(message);
    let k: &str = kind.as_str();
    if text::same(k, "session.update") {
        let session: Json = match message.get("session") {
            Some(s) => s.copy(),
            None => {
                let none: Vec<(String, Json)> = Vec::new();
                assert(json::members_view(none@) =~= Seq::empty());
                object(none)
            },
        };
        let mut m: Vec<(String, Json)> = event_members("session.updated", event_id);
        push_member(&mut m, "session", session);
        RealtimeAction::Reply(object(m))
    } else if text::same(k, "input_audio_buffer.append") {
        match audio {
            Some(b) => RealtimeAction::Audio(b),
            None => RealtimeAction::Nothing,
        }
    } else if text::same(k, "response.cancel") {
        RealtimeAction::Listen
    } else {
        RealtimeAction::Nothing
    }
}

/// The bytes of the audio of a message.
pub open spec fn audio_of(message: JsonView) -> Option<Seq<u8>> {
    match audio_text(message) {
        Some(t) => base64_bytes(t),
        None => None,
    }
}

/// Decides on a message of a client.
pub fn client_message(message: &Json, event_id: &str) -> (r: RealtimeAction)
    ensures
        is_answer_to(r, message@, event_id@, audio_of(message@)),
{
    let audio: Option<Vec<u8>> = match message.text_member("audio") {
        Some(t) => decode_base64(t.as_str()),
        None => None,
    };
    answer_to(message, event_id, audio)
}

/// Decides on the text of a message of a client; what is no JSON text asks for
/// nothing.
pub fn client_text(text: &str, event_id: &str) -> (r: RealtimeAction)
    ensures
        match json::parsed_json(text@) {
            Some(v) => is_answer_to(r, v, event_id@, audio_of(v)),
            None => r is Nothing,
        },
{
    match json::parse_json(text) {
        Some(message) => client_message(&message, event_id),
        None => RealtimeAction::Nothing,
    }
}

// ---------------------------------------------------------------------------
// Events
// ---------------------------------------------------------------------------

/// The first event on a connection.
pub fn session_created(model: &str, event_id: &str, session_id: &str) -> (r: Json)
    ensures
        r@ == JsonView::Object(
            event("session.created"@, event_id@).push(
                (
                    "session"@,
                    JsonView::Object(
                        seq![
                            ("id"@, JsonView::Text(session_id@)),
                            ("object"@, JsonView::Text("realtime.session"@)),
                            ("model"@, JsonView::Text(model@)),
                            (
                                "modalities"@,
                                JsonView::List(
                                    seq![JsonView::Text("text"@), JsonView::Text("audio"@)],
                                ),
                            ),
                        ],
                    ),
                ),
            ),
        ),
{
    let mut modalities: Vec<Json> = Vec::new();
    modalities.push(Json::text("text"));
    modalities.push(Json::text("audio"));
    assert(json::elements_view(modalities@) =~= seq![
        JsonView::Text("text"@),
        JsonView::Text("audio"@),
    ]);
    let mut s: Vec<(String, Json)> = Vec::new();
    assert(json::members_view(s@) =~= Seq::empty());
    push_member(&mut s, "id", Json::text(session_id));
    push_member(&mut s, "object", Json::text("realtime.session"));
    push_member(&mut s, "model", Json::text(model));
    push_member(&mut s, "modalities", list(modalities));
    assert(json::members_view(s@) =~= seq![
        ("id"@, JsonView::Text(session_id@)),
        ("object"@, JsonView::Text("realtime.session"@)),
        ("model"@, JsonView::Text(model@)),
        (
            "modalities"@,
            JsonView::List(seq![JsonView::Text("text"@), JsonView::Text("audio"@)]),
        ),
    ]);
    let mut m: Vec<(String, Json)> = event_members("session.created", event_id);
    push_member(&mut m, "session", object(s));
    object(m)
}

/// An event that tells the state of an answer.
pub open spec fn response_event(
    kind: Seq<char>,
    event_id: Seq<char>,
    id: Seq<char>,
    status: Seq<char>,
) -> JsonView {
    JsonView::Object(
        event(kind, event_id).push(
            (
                "response"@,
                JsonView::Object(
                    seq![("id"@, JsonView::Text(id)), ("status"@, JsonView::Text(status))],
                ),
            ),
        ),
    )
}

fn response_state(kind: &str, event_id: &str, id: &str, status: &str) -> (r: Json)
    ensures
        r@ == response_event(kind@, event_id@, id@, status@),
{
    let mut s: Vec<(String, Json)> = Vec::new();
    assert(json::members_view(s@) =~= Seq::empty());
    push_member(&mut s, "id", Json::text(id));
    push_member(&mut s, "status", Json::text(status));
    assert(json::members_view(s@) =~= seq![
        ("id"@, JsonView::Text(id@)),
        ("status"@, JsonView::Text(status@)),
    ]);
    let mut m: Vec<(String, Json)> = event_members(kind, event_id);
    push_member(&mut m, "response", object(s));
    object(m)
}

/// The event behind the last audio of an answer.
pub open spec fn audio_done(event_id: Seq<char>, id: Seq<char>) -> JsonView {
    JsonView::Object(
        event("response.audio.done"@, event_id).push(("response_id"@, JsonView::Text(id))),
    )
}

/// An event with audio of an answer.
pub open spec fn audio_delta(event_id: Seq<char>, id: Seq<char>, delta: Seq<char>) -> JsonView {
    JsonView::Object(
        event("response.audio.delta"@, event_id).push(("response_id"@, JsonView::Text(id))).push(
            ("delta"@, JsonView::Text(delta)),
        ),
    )
}

/// Names that were made up for the events of one step.
#[derive(Debug)]
pub struct FreshIds {
    /// For an answer that begins.
    pub response: String,
    pub first: String,
    pub second: String,
}

/// The answer that is being sent; none is open where the name is empty.
#[derive(Debug)]
pub struct Playback {
    pub response_id: String,
}

/// The open answer once audio, or the mark at the end of an answer, has been sent.
pub open spec fn open_after(id: Seq<char>, done: bool, fresh: FreshIds) -> Seq<char> {
    if done {
        ""@
    } else if id.len() == 0 {
        fresh.response@
    } else {
        id
    }
}

/// The events for audio, or for the mark at the end of an answer.
pub open spec fn events_for(
    id: Seq<char>,
    done: bool,
    delta: Seq<char>,
    fresh: FreshIds,
) -> Seq<JsonView> {
    let now = open_after(id, done, fresh);
    if done {
        if id.len() == 0 {
            Seq::empty()
        } else {
            seq![
                audio_done(fresh.first@, id),
                response_event("response.done"@, fresh.second@, id, "completed"@),
            ]
        }
    } else if id.len() == 0 {
        seq![
            response_event("response.created"@, fresh.first@, now, "in_progress"@),
            audio_delta(fresh.second@, now, delta),
        ]
    } else {
        seq![audio_delta(fresh.second@, now, delta)]
    }
}

impl Playback {
    pub fn new() -> (r: Self)
        ensures
            r.response_id@ == ""@,
    {
        Playback { response_id: String::from_str("") }
    }

    /// The events for audio, or for the mark at the end of an answer. What a client
    /// reads out of the audio events is the audio.
    pub fn step(&mut self, done: bool, audio: &Vec<i16>, fresh: &FreshIds) -> (r: Vec<Json>)
        ensures
            json::elements_view(r@) == events_for(
                old(self).response_id@,
                done,
                base64_text(pcm::encoded(audio@)),
                *fresh,
            ),
            final(self).response_id@ == (if done && old(self).response_id@.len() == 0 {
                old(self).response_id@
            } else {
                open_after(old(self).response_id@, done, *fresh)
            }),
            !done ==> base64_bytes(base64_text(pcm::encoded(audio@))) == Some(
                pcm::encoded(audio@),
            ),
    {
        let mut out: Vec<Json> = Vec::new();
        assert(json::elements_view(out@) =~= Seq::empty());
        let ghost delta = base64_text(pcm::encoded(audio@));
        if done {
            if !self.response_id.as_str().is_empty() {
                let mut m: Vec<(String, Json)> = event_members(
                    "response.audio.done",
                    fresh.first.as_str(),
                );
                push_member(&mut m, "response_id", Json::text(self.response_id.as_str()));
                out.push(object(m));
                out.push(
                    response_state(
                        "response.done",
                        fresh.second.as_str(),
                        self.response_id.as_str(),
                        "completed",
                    ),
                );
                self.response_id = String::from_str("");
            }
            assert(json::elements_view(out@) =~= events_for(
                old(self).response_id@,
                done,
                delta,
                *fresh,
            ));
            return out;
        }
        if self.response_id.as_str().is_empty() {
            self.response_id = fresh.response.clone();
            out.push(
                response_state(
                    "response.created",
                    fresh.first.as_str(),
                    self.response_id.as_str(),
                    "in_progress",
                ),
            );
        }
        let bytes: Vec<u8> = i16_to_bytes_le(audio.as_slice());
        let encoded: String = encode_base64(bytes.as_slice());
        let mut m: Vec<(String, Json)> = event_members(
            "response.audio.delta",
            fresh.second.as_str(),
        );
        push_member(&mut m, "response_id", Json::text(self.response_id.as_str()));
        push_member(&mut m, "delta", Json::text(encoded.as_str()));
        out.push(object(m));
        assert(json::elements_view(out@) =~= events_for(
            old(self).response_id@,
            done,
            delta,
            *fresh,
        ));
        out
    }
}

/// Audio is only ever sent for an answer that was announced: the answer is open
/// already, or the event before the audio opens it.
pub proof fn law_audio_belongs_to_an_answer(
    id: Seq<char>,
    delta: Seq<char>,
    fresh: FreshIds,
)
    ensures
        ({
            let ev = events_for(id, false, delta, fresh);
            let now = open_after(id, false, fresh);
            &&& ev.last() == audio_delta(fresh.second@, now, delta)
            &&& now == id && id.len() > 0 || ev[0] == response_event(
                "response.created"@,
                fresh.first@,
                now,
                "in_progress"@,
            )
        }),
{
}

/// The end of an answer is told once: nothing more is said of it until another one
/// begins.
pub proof fn law_answer_ends_once(id: Seq<char>, delta: Seq<char>, a: FreshIds, b: FreshIds)
    ensures
        events_for(open_after(id, true, a), true, delta, b).len() == 0,
{
    reveal_strlit("");
}

/// What a message of a client leads to is told by its type: an update is answered
/// with the session that it gives, audio that can be decoded is passed on, a cancelled
/// answer leads to listening, and anything else to nothing.
pub proof fn law_types_of_messages(
    a: RealtimeAction,
    message: JsonView,
    event_id: Seq<char>,
    audio: Option<Seq<u8>>,
)
    requires
        is_answer_to(a, message, event_id, audio),
    ensures
        json::member(message, "type"@) == Some(JsonView::Text("input_audio_buffer.append"@))
            && audio is Some ==> (a matches RealtimeAction::Audio(v) && v@ == audio.unwrap()),
        json::member(message, "type"@) == Some(JsonView::Text("response.cancel"@)) ==> a is Listen,
        json::member(message, "type"@) == Some(JsonView::Text("session.update"@)) ==> a is Reply,
        json::member(message, "type"@) is None ==> a is Nothing,
        a is Audio ==> json::member(message, "type"@) == Some(
            JsonView::Text("input_audio_buffer.append"@),
        ),
        a is Listen ==> json::member(message, "type"@) == Some(JsonView::Text("response.cancel"@)),
{
    reveal_strlit("session.update");
    reveal_strlit("input_audio_buffer.append");
    reveal_strlit("response.cancel");
    reveal_strlit("");
    assert("session.update"@.len() == 14);
    assert("input_audio_buffer.append"@.len() == 25);
    assert("response.cancel"@.len() == 15);
    assert(""@.len() == 0);
}

/// An answer has one id from its first audio to its end, and its end leaves none: the
/// audio that follows begins another.
pub proof fn law_answer_keeps_its_id(id: Seq<char>, delta: Seq<char>, fresh: FreshIds)
    ensures
        id.len() > 0 ==> open_after(id, false, fresh) == id && events_for(id, false, delta, fresh).len()
            == 1,
        id.len() == 0 ==> open_after(id, false, fresh) == fresh.response@ && events_for(
            id,
            false,
            delta,
            fresh,
        ).len() == 2,
        open_after(id, true, fresh).len() == 0,
        id.len() > 0 ==> events_for(id, true, delta, fresh).len() == 2,
        id.len() == 0 ==> events_for(id, true, delta, fresh).len() == 0,
{
    reveal_strlit("");
}

/// What the events say: the audio of an answer, then that it is done, each with the
/// id of the answer.
pub proof fn law_events_name_the_answer(id: Seq<char>, delta: Seq<char>, fresh: FreshIds)
    requires
        id.len() > 0,
    ensures
        ({
            let audio = events_for(id, false, delta, fresh)[0];
            let over = events_for(id, true, delta, fresh)[0];
            let done = events_for(id, true, delta, fresh)[1];
            &&& json::member(audio, "type"@) == Some(JsonView::Text("response.audio.delta"@))
            &&& json::member(audio, "response_id"@) == Some(JsonView::Text(id))
            &&& json::member(audio, "delta"@) == Some(JsonView::Text(delta))
            &&& json::member(over, "type"@) == Some(JsonView::Text("response.audio.done"@))
            &&& json::member(over, "response_id"@) == Some(JsonView::Text(id))
            &&& json::member(done, "type"@) == Some(JsonView::Text("response.done"@))
            &&& json::member(json::member(done, "response"@).unwrap(), "id"@) == Some(
                JsonView::Text(id),
            )
            &&& json::member(json::member(done, "response"@).unwrap(), "status"@) == Some(
                JsonView::Text("completed"@),
            )
        }),
{
    reveal_with_fuel(json::first_member, 5);
    reveal_strlit("type");
    reveal_strlit("event_id");
    reveal_strlit("response_id");
    reveal_strlit("delta");
    reveal_strlit("response");
    reveal_strlit("id");
    reveal_strlit("status");
    assert("type"@.len() == 4 && "event_id"@.len() == 8 && "response_id"@.len() == 11);
    assert("delta"@.len() == 5 && "response"@.len() == 8 && "id"@.len() == 2);
    assert("status"@.len() == 6);
    assert("event_id"@[0] == 'e' && "response"@[0] == 'r');
}

/// The audio of a message is what stands under its name, and a message without it has
/// none.
pub proof fn law_audio_of_a_message(m: Seq<(Seq<char>, JsonView)>, t: Seq<char>, i: int)
    ensures
        0 <= i < m.len() && m[i] == ("audio"@, JsonView::Text(t)) && (forall|j: int|
            0 <= j < i ==> (#[trigger] m[j]).0 != "audio"@) ==> audio_text(JsonView::Object(m))
            == Some(t),
        (forall|j: int| 0 <= j < m.len() ==> (#[trigger] m[j]).0 != "audio"@) ==> audio_text(
            JsonView::Object(m),
        ) is None && audio_of(JsonView::Object(m)) is None,
{
    json::law_first_member(m, "audio"@, i);
}

} // verus!
