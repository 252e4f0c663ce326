//! The language model: what it is asked, and how its answer is read and passed on
//! sentence by sentence.

use crate::config::Config;
use crate::json::{self, list, object, push_member, Json, JsonView};
use crate::registry::{wrap, wrap2};
use crate::sentences;
use crate::text;
use vstd::prelude::*;

verus! {

// ---------------------------------------------------------------------------
// The conversation
// ---------------------------------------------------------------------------

#[derive(Debug, Clone)]
pub struct ChatMessage {
    pub role: String,
    pub content: String,
}

/// A message: who says what.
pub type MessageView = (Seq<char>, Seq<char>);

pub open spec fn message_view(m: ChatMessage) -> MessageView {
    (m.role@, m.content@)
}

pub open spec fn message_views(v: Seq<ChatMessage>) -> Seq<MessageView> {
    Seq::new(v.len(), |i: int| message_view(v[i]))
}

/// The system prompt and the last `n` messages.
pub open spec fn kept(h: Seq<MessageView>, n: nat) -> Seq<MessageView> {
    if h.len() <= n + 1 {
        h
    } else {
        let last = h.skip(h.len() - n);
        if h[0].0 == "system"@ {
            seq![h[0]] + last
        } else {
            last
        }
    }
}

fn copy_message(m: &ChatMessage) -> (r: ChatMessage)
    ensures
        message_view(r) == message_view(*m),
{
    ChatMessage { role: m.role.clone(), content: m.content.clone() }
}

/// Keeps a conversation short.
pub fn trim_history(history: &mut Vec<ChatMessage>, chat_size: usize)
    ensures
        message_views(final(history)@) == kept(message_views(old(history)@), chat_size as nat),
        forall|k: int|
            0 <= k < chat_size && k < old(history)@.len() ==> k < final(history)@.len()
                && (#[trigger] final(history)@[final(history)@.len() - 1 - k]).content@
                == old(history)@[old(history)@.len() - 1 - k].content@,
{
    let ghost h = message_views(history@);
    let ghost start = history@;
    if history.len() <= chat_size || history.len() - chat_size == 1 {
        return;
    }
    let from: usize = history.len() - chat_size;
    let mut out: Vec<ChatMessage> = Vec::new();
    if text::same(history[0].role.as_str(), "system") {
        out.push(copy_message(&history[0]));
    }
    let ghost head = message_views(out@);
    assert(h[0] == message_view(history@[0]));
    assert(head =~= if h[0].0 == "system"@ {
        seq![h[0]]
    } else {
        Seq::empty()
    });
    let mut i: usize = from;
    assert(head + h.subrange(from as int, from as int) =~= head);
    while i < history.len()
        invariant
            from <= i <= history.len(),
            h == message_views(history@),
            message_views(out@) == head + h.subrange(from as int, i as int),
        decreases history.len() - i,
    {
        let ghost before = message_views(out@);
        let m: ChatMessage = copy_message(&history[i]);
        out.push(m);
        assert(message_views(out@) =~= before.push(h[i as int]));
        assert(h.subrange(from as int, i + 1) =~= h.subrange(from as int, i as int).push(
            h[i as int],
        ));
        assert(message_views(out@) =~= head + h.subrange(from as int, i + 1));
        i += 1;
    }
    assert(h.subrange(from as int, i as int) =~= h.skip(from as int));
    assert(message_views(out@) =~= kept(h, chat_size as nat));
    proof {
        law_last_messages_are_kept(h, chat_size as nat);
        let m = message_views(out@);
        assert forall|k: int| 0 <= k < chat_size && k < start.len() implies k < out@.len() && (
        #[trigger] out@[out@.len() - 1 - k]).content@ == start[start.len() - 1 - k].content@ by {
            assert(m[m.len() - 1 - k] == h[h.len() - 1 - k]);
            assert(m[m.len() - 1 - k] == message_view(out@[out@.len() - 1 - k]));
            assert(h[h.len() - 1 - k] == message_view(start[start.len() - 1 - k]));
        }
    }
    *history = out;
}

/// However long a conversation gets, what is kept of it is bounded, begins with the
/// system prompt and ends as the conversation does.
pub proof fn law_history_is_bounded(h: Seq<MessageView>, n: nat)
    requires
        h.len() > 0,
        h[0].0 == "system"@,
    ensures
        kept(h, n).len() <= n + 1,
        kept(h, n).len() > 0,
        kept(h, n)[0] == h[0],
        n > 0 ==> kept(h, n).last() == h.last(),
{
}

/// What is taken from the queue of transcripts.
#[derive(Debug)]
pub enum HeardItem {
    PipelineEnd,
    SessionEnd,
    Heard { text: String, partial: bool },
}

/// What is done with it.
#[derive(Debug, Clone, Copy, PartialEq, Eq, Structural)]
pub enum LlmAction {
    /// Pass the end on and stop.
    Stop,
    /// Begin a new conversation and listen again.
    Reset,
    /// Listen again.
    Listen,
    Ask,
}

pub open spec fn llm_action_for(item: HeardItem) -> LlmAction {
    match item {
        HeardItem::PipelineEnd => LlmAction::Stop,
        HeardItem::SessionEnd => LlmAction::Reset,
        HeardItem::Heard { text, partial } => if partial || text::trim(text@).len() == 0 {
            LlmAction::Listen
        } else {
            LlmAction::Ask
        },
    }
}

pub fn llm_action(item: &HeardItem) -> (r: LlmAction)
    ensures
        r == llm_action_for(*item),
{
    match item {
        HeardItem::PipelineEnd => LlmAction::Stop,
        HeardItem::SessionEnd => LlmAction::Reset,
        HeardItem::Heard { text, partial } => {
            let t: String = text::trimmed(text.as_str());
            if *partial || t.as_str().is_empty() {
                LlmAction::Listen
            } else {
                LlmAction::Ask
            }
        },
    }
}

/// What is done with the answer of the model.
#[derive(Debug)]
pub enum Outcome {
    /// The answer is known and becomes part of the conversation.
    Answered,
    /// Nothing will be spoken.
    Listen,
    /// The model failed, and this is spoken in its place.
    Fallback(String),
}

/// The conversation with the model.
#[derive(Debug)]
pub struct Conversation {
    pub history: Vec<ChatMessage>,
}

impl View for Conversation {
    type V = Seq<MessageView>;

    open spec fn view(&self) -> Seq<MessageView> {
        message_views(self.history@)
    }
}

impl Conversation {
    pub fn new(system_prompt: &str) -> (r: Self)
        ensures
            r@ == seq![("system"@, system_prompt@)],
    {
        let mut c: Conversation = Conversation { history: Vec::new() };
        c.say("system", system_prompt);
        assert(c@ =~= seq![("system"@, system_prompt@)]);
        c
    }

    fn say(&mut self, role: &str, content: &str)
        ensures
            final(self)@ == old(self)@.push((role@, content@)),
    {
        let ghost before = self@;
        let m: ChatMessage = ChatMessage {
            role: String::from_str(role),
            content: String::from_str(content),
        };
        self.history.push(m);
        assert(self@ =~= before.push((role@, content@)));
    }

    /// Adds what the user said and keeps the conversation short.
    pub fn hear(&mut self, content: &str, chat_size: usize)
        ensures
            final(self)@ == kept(old(self)@.push(("user"@, content@)), chat_size as nat),
    {
        self.say("user", content);
        trim_history(&mut self.history, chat_size);
    }

    /// Takes in what came of a request: an answer that is not empty becomes part of
    /// the conversation, and a failure is answered in its place.
    pub fn conclude(&mut self, result: &Result<String, String>, heard: &str) -> (r: Outcome)
        ensures
            match *result {
                Ok(answer) => if answer@.len() > 0 {
                    r is Answered && final(self)@ == old(self)@.push(("assistant"@, answer@))
                } else {
                    r is Listen && final(self)@ == old(self)@
                },
                Err(_) => {
                    &&& final(self)@ == old(self)@
                    &&& r matches Outcome::Fallback(t) && t@ == "Ich habe verstanden: "@
                        + text::trim(heard@) + ". (LLM nicht erreichbar.)"@
                },
            },
    {
        match result {
            Ok(answer) => {
                if answer.as_str().is_empty() {
                    Outcome::Listen
                } else {
                    self.say("assistant", answer.as_str());
                    Outcome::Answered
                }
            },
            Err(_) => {
                let t: String = text::trimmed(heard);
                Outcome::Fallback(
                    wrap("Ich habe verstanden: ", t.as_str(), ". (LLM nicht erreichbar.)"),
                )
            },
        }
    }
}

// ---------------------------------------------------------------------------
// The request
// ---------------------------------------------------------------------------

pub fn completions_url(cfg: &Config) -> (r: String)
    ensures
        r@ == text::trim_end_of(cfg.llm_base_url@, '/') + "/chat/completions"@,
{
    let base: String = text::without_trailing(cfg.llm_base_url.as_str(), '/');
    text::joined_pair(base.as_str(), "/chat/completions")
}

/// How long the model is kept loaded: a number of seconds or a duration.
pub open spec fn keep_alive(raw: Seq<char>) -> Option<JsonView> {
    let s = text::trim(raw);
    if s.len() == 0 {
        None
    } else {
        match text::parsed_signed(s) {
            Some(n) => Some(JsonView::Number(text::signed_decimal(n))),
            None => Some(JsonView::Text(s)),
        }
    }
}

pub open spec fn opt_value(j: Option<Json>) -> Option<JsonView> {
    match j {
        Some(x) => Some(x@),
        None => None,
    }
}

pub fn ollama_keep_alive_value(raw: &str) -> (r: Option<Json>)
    ensures
        opt_value(r) == keep_alive(raw@),
{
    let s: String = text::trimmed(raw);
    if s.as_str().is_empty() {
        return None;
    }
    match text::canonical_integer(s.as_str()) {
        Some(n) => Some(Json::Number(n)),
        None => Some(Json::Text(s)),
    }
}

pub open spec fn message_json(m: MessageView) -> JsonView {
    JsonView::Object(
        seq![("role"@, JsonView::Text(m.0)), ("content"@, JsonView::Text(m.1))],
    )
}

pub open spec fn message_jsons(h: Seq<MessageView>) -> Seq<JsonView> {
    Seq::new(h.len(), |i: int| message_json(h[i]))
}

/// The members of a request. Thinking is switched off where that is wanted, and an
/// Ollama server is told how long to keep the model.
pub open spec fn chat_members(
    cfg: Config,
    h: Seq<MessageView>,
    temperature: Seq<char>,
    stream: bool,
) -> Seq<(Seq<char>, JsonView)> {
    let head = seq![
        ("model"@, JsonView::Text(cfg.model_name@)),
        ("messages"@, JsonView::List(message_jsons(h))),
        ("temperature"@, JsonView::Number(temperature)),
        ("max_tokens"@, JsonView::Number(text::decimal(cfg.max_tokens as nat))),
        ("stream"@, JsonView::Bool(stream)),
    ];
    let thinking = if cfg.llm_no_think {
        seq![("reasoning_effort"@, JsonView::Text("none"@))]
    } else {
        Seq::empty()
    };
    let keeping = if text::has(cfg.llm_base_url@, "11434"@) {
        match keep_alive(cfg.llm_keep_alive@) {
            Some(v) => seq![("keep_alive"@, v)],
            None => Seq::empty(),
        }
    } else {
        Seq::empty()
    };
    head + thinking + keeping
}

fn messages_list(history: &Vec<ChatMessage>) -> (r: Json)
    ensures
        r@ == JsonView::List(message_jsons(message_views(history@))),
{
    let ghost h = message_views(history@);
    let mut out: Vec<Json> = Vec::new();
    let mut i: usize = 0;
    while i < history.len()
        invariant
            i <= history.len(),
            h == message_views(history@),
            json::elements_view(out@) =~= message_jsons(h).take(i as int),
        decreases history.len() - i,
    {
        let ghost before = json::elements_view(out@);
        let mut m: Vec<(String, Json)> = Vec::new();
        assert(json::members_view(m@) =~= Seq::empty());
        push_member(&mut m, "role", Json::text(history[i].role.as_str()));
        push_member(&mut m, "content", Json::text(history[i].content.as_str()));
        assert(json::members_view(m@) =~= seq![
            ("role"@, JsonView::Text(h[i as int].0)),
            ("content"@, JsonView::Text(h[i as int].1)),
        ]);
        let j: Json = object(m);
        assert(j@ == message_json(h[i as int]));
        out.push(j);
        assert(json::elements_view(out@) =~= before.push(message_json(h[i as int])));
        i += 1;
    }
    assert(message_jsons(h).take(i as int) =~= message_jsons(h));
    list(out)
}

/// The body of a request. `temperature` is the sampling temperature as it is
/// written.
pub fn chat_body(
    cfg: &Config,
    history: &Vec<ChatMessage>,
    temperature: &str,
    stream: bool,
) -> (r: Json)
    ensures
        r@ == JsonView::Object(
            chat_members(*cfg, message_views(history@), temperature@, stream),
        ),
{
    let mut m: Vec<(String, Json)> = Vec::new();
    assert(json::members_view(m@) =~= Seq::empty());
    push_member(&mut m, "model", Json::text(cfg.model_name.as_str()));
    push_member(&mut m, "messages", messages_list(history));
    push_member(&mut m, "temperature", Json::Number(String::from_str(temperature)));
    push_member(&mut m, "max_tokens", Json::number(cfg.max_tokens as u64));
    push_member(&mut m, "stream", Json::Bool(stream));
    if cfg.llm_no_think {
        push_member(&mut m, "reasoning_effort", Json::text("none"));
    }
    if text::contains(cfg.llm_base_url.as_str(), "11434") {
        match ollama_keep_alive_value(cfg.llm_keep_alive.as_str()) {
            Some(v) => {
                push_member(&mut m, "keep_alive", v);
            },
            None => {},
        }
    }
    assert(json::members_view(m@) =~= chat_members(
        *cfg,
        message_views(history@),
        temperature@,
        stream,
    ));
    object(m)
}

/// The error for an answer that is not a success.
pub fn http_error(stream: bool, status_text: &str, body: &str) -> (r: String)
    ensures
        r@ == (if stream {
            "LLM stream "@
        } else {
            "LLM "@
        }) + status_text@ + ": "@ + body@ + ""@,
{
    if stream {
        wrap2("LLM stream ", status_text, ": ", body, "")
    } else {
        wrap2("LLM ", status_text, ": ", body, "")
    }
}

// ---------------------------------------------------------------------------
// An answer at once
// ---------------------------------------------------------------------------

pub open spec fn part_texts(v: Seq<JsonView>) -> Seq<char>
    decreases v.len(),
{
    if v.len() == 0 {
        Seq::empty()
    } else {
        part_texts(v.drop_last()) + (match json::text_of(json::member(v.last(), "text"@)) {
            Some(t) => t,
            None => Seq::empty(),
        })
    }
}

/// The content of a message: a text, or the texts of its parts.
pub open spec fn content_of(msg: JsonView) -> Seq<char> {
    match json::member(msg, "content"@) {
        Some(JsonView::Text(t)) => t,
        Some(JsonView::List(v)) => part_texts(v),
        _ => Seq::empty(),
    }
}

/// Whether a line of reasoning can stand for an answer.
pub open spec fn is_usable_line(l: Seq<char>) -> bool {
    l.len() > 0 && l[0] != '*' && l[0] != '#'
}

/// The last usable line, or nothing.
pub open spec fn last_usable(lines: Seq<Seq<char>>) -> Seq<char>
    decreases lines.len(),
{
    if lines.len() == 0 {
        Seq::empty()
    } else if is_usable_line(text::trim(lines.last())) {
        text::trim(lines.last())
    } else {
        last_usable(lines.drop_last())
    }
}

pub open spec fn unquoted(s: Seq<char>) -> Seq<char> {
    text::trim_end_of(text::trim_start_of(s, '"'), '"')
}

/// What can be spoken of a message: its content, or else the last line of its
/// reasoning if that is short.
pub open spec fn spoken_text(msg: JsonView) -> Seq<char> {
    let content = text::trim(content_of(msg));
    if content.len() > 0 {
        content
    } else {
        match json::text_of(json::member(msg, "reasoning"@)) {
            Some(r) => {
                let last = unquoted(last_usable(text::split(r, '\n')));
                if text::utf8_len(last) < 200 {
                    last
                } else {
                    Seq::empty()
                }
            },
            None => Seq::empty(),
        }
    }
}

fn join_parts(v: &Vec<Json>) -> (r: String)
    ensures
        r@ == part_texts(json::elements_view(v@)),
{
    let ghost e = json::elements_view(v@);
    let mut out: String = String::from_str("");
    let mut i: usize = 0;
    proof {
        reveal_strlit("");
        assert(out@ =~= part_texts(e.take(0)));
    }
    while i < v.len()
        invariant
            i <= v.len(),
            e == json::elements_view(v@),
            out@ == part_texts(e.take(i as int)),
        decreases v.len() - i,
    {
        assert(e.take(i + 1).drop_last() =~= e.take(i as int));
        assert(e.take(i + 1).last() == v@[i as int]@);
        match v[i].text_member("text") {
            Some(t) => {
                out = text::joined_pair(out.as_str(), t.as_str());
            },
            None => {
                assert(out@ + Seq::<char>::empty() =~= out@);
            },
        }
        i += 1;
    }
    assert(e.take(i as int) =~= e);
    out
}

fn message_content(msg: &Json) -> (r: String)
    ensures
        r@ == content_of(msg@),
{
    proof {
        reveal_strlit("");
        assert(""@ =~= Seq::<char>::empty());
    }
    match msg.get("content") {
        Some(Json::Text(t)) => t.clone(),
        Some(Json::List(v)) => {
            assert(json::member(msg@, "content"@)->0->List_0 =~= json::elements_view(v@));
            join_parts(v)
        },
        _ => String::from_str(""),
    }
}

fn find_last_line(reasoning: &str) -> (r: String)
    ensures
        r@ == last_usable(text::split(reasoning@, '\n')),
{
    let lines: Vec<String> = text::split_at_char(reasoning, '\n');
    let ghost ls = text::views(lines@);
    let mut i: usize = lines.len();
    assert(ls.take(i as int) =~= ls);
    while i > 0
        invariant
            i <= lines.len(),
            ls == text::views(lines@),
            ls == text::split(reasoning@, '\n'),
            last_usable(ls) == last_usable(ls.take(i as int)),
        decreases i,
    {
        assert(ls.take(i as int).drop_last() =~= ls.take(i - 1));
        assert(ls.take(i as int).last() == lines@[i - 1]@);
        let l: String = text::trimmed(lines[i - 1].as_str());
        let c: Vec<char> = text::chars_of(l.as_str());
        if c.len() > 0 && c[0] != '*' && c[0] != '#' {
            return l;
        }
        i -= 1;
    }
    proof {
        reveal_strlit("");
        assert(""@ =~= Seq::<char>::empty());
    }
    String::from_str("")
}

/// What can be spoken of a message.
pub fn message_text(msg: &Json) -> (r: String)
    ensures
        r@ == spoken_text(msg@),
{
    let content: String = message_content(msg);
    let trimmed: String = text::trimmed(content.as_str());
    if !trimmed.as_str().is_empty() {
        return trimmed;
    }
    proof {
        reveal_strlit("");
        assert(""@ =~= Seq::<char>::empty());
    }
    match msg.text_member("reasoning") {
        Some(r) => {
            let line: String = find_last_line(r.as_str());
            let a: String = text::without_leading(line.as_str(), '"');
            let b: String = text::without_trailing(a.as_str(), '"');
            let v: Vec<char> = text::chars_of(b.as_str());
            if text::utf8_len_at_least(v.as_slice(), 200) {
                String::from_str("")
            } else {
                b
            }
        },
        None => String::from_str(""),
    }
}

/// A member of the first choice of an answer, or nothing.
pub open spec fn first_choice(answer: JsonView, key: Seq<char>) -> JsonView {
    match json::member(answer, "choices"@) {
        Some(choices) => match json::element(choices, 0) {
            Some(c) => match json::member(c, key) {
                Some(m) => m,
                None => JsonView::Null,
            },
            None => JsonView::Null,
        },
        None => JsonView::Null,
    }
}

fn choice_member<'a>(answer: &'a Json, key: &str) -> (r: Option<&'a Json>)
    ensures
        match r {
            Some(j) => j@ == first_choice(answer@, key@),
            None => first_choice(answer@, key@) == JsonView::Null,
        },
{
    match answer.get("choices") {
        Some(choices) => match choices.at(0) {
            Some(c) => c.get(key),
            None => None,
        },
        None => None,
    }
}

/// The answer of a model that answers at once.
pub fn read_answer(answer: &Json) -> (r: Result<String, String>)
    ensures
        ({
            let t = spoken_text(first_choice(answer@, "message"@));
            match r {
                Ok(s) => s@ == t && t.len() > 0,
                Err(m) => t.len() == 0 && m@
                    == "LLM returned empty content (thinking-only response?). Try --llm-no-think true or a non-thinking model."@,
            }
        }),
{
    let none: Json = Json::Null;
    let msg: &Json = match choice_member(answer, "message") {
        Some(m) => m,
        None => &none,
    };
    let t: String = message_text(msg);
    if t.as_str().is_empty() {
        Err(
            String::from_str(
                "LLM returned empty content (thinking-only response?). Try --llm-no-think true or a non-thinking model.",
            ),
        )
    } else {
        Ok(t)
    }
}

// ---------------------------------------------------------------------------
// An answer that streams in
// ---------------------------------------------------------------------------

/// What a line of the stream is.
#[derive(Debug)]
pub enum Line {
    /// Nothing that matters.
    Skip,
    /// The end of the stream.
    Done,
    /// A JSON text.
    Data(String),
}

pub enum LineView {
    Skip,
    Done,
    Data(Seq<char>),
}

impl View for Line {
    type V = LineView;

    open spec fn view(&self) -> LineView {
        match self {
            Line::Skip => LineView::Skip,
            Line::Done => LineView::Done,
            Line::Data(d) => LineView::Data(d@),
        }
    }
}

/// What a trimmed line is.
pub open spec fn line_of(l: Seq<char>) -> LineView {
    let data = if text::starts_with(l, "data:"@) {
        text::trim(l.skip("data:"@.len() as int))
    } else {
        l
    };
    if l.len() == 0 || l[0] == ':' {
        LineView::Skip
    } else if data == "[DONE]"@ {
        LineView::Done
    } else {
        LineView::Data(data)
    }
}

/// Reads a trimmed line.
pub fn read_line(l: &str) -> (r: Line)
    ensures
        r@ == line_of(l@),
{
    let v: Vec<char> = text::chars_of(l);
    if v.len() == 0 || v[0] == ':' {
        return Line::Skip;
    }
    let p: Vec<char> = text::chars_of("data:");
    let data: String = if text::begins_with(l, "data:") {
        assert(v@.subrange(p@.len() as int, v@.len() as int) =~= v@.skip(p@.len() as int));
        text::trimmed_piece(v.as_slice(), p.len(), v.len())
    } else {
        String::from_str(l)
    };
    if text::same(data.as_str(), "[DONE]") {
        Line::Done
    } else {
        Line::Data(data)
    }
}

/// What a part of an answer adds to its text. Reasoning is not spoken.
pub open spec fn delta_of(delta: JsonView) -> Seq<char> {
    match json::text_of(json::member(delta, "content"@)) {
        Some(t) => t,
        None => Seq::empty(),
    }
}

pub fn delta_text(delta: &Json) -> (r: String)
    ensures
        r@ == delta_of(delta@),
{
    proof {
        reveal_strlit("");
        assert(""@ =~= Seq::<char>::empty());
    }
    match delta.text_member("content") {
        Some(t) => t,
        None => String::from_str(""),
    }
}

/// An answer that streams in.
pub struct StreamedView {
    /// What has come of lines that are not complete.
    pub lines: Seq<char>,
    /// All that was said.
    pub full: Seq<char>,
    /// What was said and not passed on.
    pub pending: Seq<char>,
}

#[derive(Debug)]
pub struct StreamedAnswer {
    pub line_buf: String,
    pub full: String,
    pub sentence_buf: String,
}

impl View for StreamedAnswer {
    type V = StreamedView;

    open spec fn view(&self) -> StreamedView {
        StreamedView {
            lines: self.line_buf@,
            full: self.full@,
            pending: self.sentence_buf@,
        }
    }
}

/// An answer after more was said.
pub open spec fn said(s: StreamedView, delta: Seq<char>) -> StreamedView {
    StreamedView {
        full: s.full + delta,
        pending: sentences::popped_all(s.pending + delta).1,
        ..s
    }
}

/// The sentences that are complete once more was said.
pub open spec fn said_gives(s: StreamedView, delta: Seq<char>) -> Seq<Seq<char>> {
    sentences::popped_all(s.pending + delta).0
}

/// What a line with this data adds to the text: nothing where it is no JSON text.
pub open spec fn delta_in(data: Seq<char>) -> Seq<char> {
    match json::parsed_json(data) {
        Some(v) => delta_of(first_choice(v, "delta"@)),
        None => Seq::empty(),
    }
}

/// An answer after the lines up to the next one that says something, with the
/// sentences that are complete then. There are none where no such line is complete,
/// or, if it stops there, where the end of the stream is told before.
pub open spec fn said_next(s: StreamedView, stops: bool) -> (StreamedView, Option<Seq<Seq<char>>>)
    decreases s.lines.len(),
{
    let i = text::first_char(s.lines, '\n');
    if 0 <= i < s.lines.len() {
        let t = StreamedView { lines: s.lines.skip(i + 1), ..s };
        match line_of(text::trim(s.lines.take(i))) {
            LineView::Skip => said_next(t, stops),
            LineView::Done => if stops {
                (t, None)
            } else {
                said_next(t, stops)
            },
            LineView::Data(d) => if delta_in(d).len() == 0 {
                said_next(t, stops)
            } else {
                (said(t, delta_in(d)), Some(said_gives(t, delta_in(d))))
            },
        }
    } else {
        (s, None)
    }
}

impl StreamedAnswer {
    pub fn new() -> (r: Self)
        ensures
            r@ == (StreamedView {
                lines: Seq::empty(),
                full: Seq::empty(),
                pending: Seq::empty(),
            }),
    {
        proof {
            reveal_strlit("");
            assert(""@ =~= Seq::<char>::empty());
        }
        StreamedAnswer {
            line_buf: String::from_str(""),
            full: String::from_str(""),
            sentence_buf: String::from_str(""),
        }
    }

    /// Takes in more of the stream.
    pub fn feed(&mut self, chunk: &str)
        ensures
            final(self)@ == (StreamedView { lines: old(self)@.lines + chunk@, ..old(self)@ }),
    {
        let joined: String = text::joined_pair(self.line_buf.as_str(), chunk);
        self.line_buf = joined;
    }

    /// Takes in more of the stream as it came.
    pub fn feed_bytes(&mut self, chunk: &[u8])
        ensures
            final(self)@ == (StreamedView {
                lines: old(self)@.lines + text::lossy(chunk@),
                ..old(self)@
            }),
    {
        let shown: String = text::lossy_text(chunk);
        self.feed(shown.as_str());
    }

    /// Takes the next complete line.
    pub fn next_line(&mut self) -> (r: Option<Line>)
        ensures
            ({
                let l = old(self)@.lines;
                let i = text::first_char(l, '\n');
                match r {
                    Some(line) => {
                        &&& i < l.len()
                        &&& line@ == line_of(text::trim(l.take(i)))
                        &&& final(self)@ == (StreamedView { lines: l.skip(i + 1), ..old(self)@ })
                    },
                    None => i >= l.len() && final(self)@ == old(self)@,
                }
            }),
    {
        let v: Vec<char> = text::chars_of(self.line_buf.as_str());
        let i: usize = text::index_of(v.as_slice(), 0, '\n');
        proof {
            assert(v@.skip(0) =~= v@);
        }
        if i >= v.len() {
            return None;
        }
        let l: String = text::trimmed_piece(v.as_slice(), 0, i);
        assert(v@.subrange(0, i as int) =~= v@.take(i as int));
        let rest: String = text::piece(v.as_slice(), i + 1, v.len());
        assert(v@.subrange(i + 1, v@.len() as int) =~= v@.skip(i + 1));
        self.line_buf = rest;
        Some(read_line(l.as_str()))
    }

    /// Takes in the JSON value of a line. Gives the sentences that are complete now,
    /// or nothing where nothing was said.
    pub fn accept(&mut self, value: &Json) -> (r: Option<Vec<String>>)
        ensures
            ({
                let delta = delta_of(first_choice(value@, "delta"@));
                match r {
                    Some(v) => {
                        &&& delta.len() > 0
                        &&& final(self)@ == said(old(self)@, delta)
                        &&& text::views(v@) == said_gives(old(self)@, delta)
                    },
                    None => delta.len() == 0 && final(self)@ == old(self)@,
                }
            }),
    {
        let none: Json = Json::Null;
        let d: &Json = match choice_member(value, "delta") {
            Some(m) => m,
            None => &none,
        };
        let delta: String = delta_text(d);
        if delta.as_str().is_empty() {
            return None;
        }
        let full: String = text::joined_pair(self.full.as_str(), delta.as_str());
        let pending: String = text::joined_pair(self.sentence_buf.as_str(), delta.as_str());
        self.full = full;
        self.sentence_buf = pending;
        Some(sentences::pop_sentences(&mut self.sentence_buf))
    }

    /// Takes in the data of a line; what is no JSON text says nothing.
    pub fn accept_data(&mut self, data: &str) -> (r: Option<Vec<String>>)
        ensures
            match json::parsed_json(data@) {
                None => r is None && final(self)@ == old(self)@,
                Some(value) => {
                    let delta = delta_of(first_choice(value, "delta"@));
                    match r {
                        Some(v) => {
                            &&& delta.len() > 0
                            &&& final(self)@ == said(old(self)@, delta)
                            &&& text::views(v@) == said_gives(old(self)@, delta)
                        },
                        None => delta.len() == 0 && final(self)@ == old(self)@,
                    }
                },
            },
    {
        match json::parse_json(data) {
            Some(value) => self.accept(&value),
            None => None,
        }
    }

    /// Takes the lines up to the next one that says something. Gives the sentences
    /// that are complete then, or nothing where no such line is complete, or, if it
    /// stops there, where the end of the stream is told before.
    pub fn next_said(&mut self, stops: bool) -> (r: Option<Vec<String>>)
        ensures
            final(self)@ == said_next(old(self)@, stops).0,
            match r {
                Some(v) => said_next(old(self)@, stops).1 == Some(text::views(v@)),
                None => said_next(old(self)@, stops).1 is None,
            },
    {
        loop
            invariant
                said_next(self@, stops) == said_next(old(self)@, stops),
            decreases self@.lines.len(),
        {
            proof {
                text::lemma_first_char(self@.lines, '\n');
            }
            let line: Line = match self.next_line() {
                Some(line) => line,
                None => {
                    return None;
                },
            };
            match line {
                Line::Skip => {},
                Line::Done => {
                    if stops {
                        return None;
                    }
                },
                Line::Data(data) => {
                    match self.accept_data(data.as_str()) {
                        Some(sentences) => {
                            return Some(sentences);
                        },
                        None => {},
                    }
                },
            }
        }
    }

    /// Ends the answer: what is left to be spoken, and the whole.
    pub fn finish(&self) -> (r: (Option<String>, Result<String, String>))
        ensures
            ({
                let rest = text::trim(self@.pending);
                let full = text::trim(self@.full);
                &&& match r.0 {
                    Some(t) => t@ == rest && rest.len() > 0,
                    None => rest.len() == 0,
                }
                &&& match r.1 {
                    Ok(t) => t@ == full && full.len() > 0,
                    Err(m) => full.len() == 0 && m@
                        == "LLM stream produced empty content (thinking-only?). Try --llm-no-think true or --llm-stream false."@,
                }
            }),
    {
        let rest: String = text::trimmed(self.sentence_buf.as_str());
        let full: String = text::trimmed(self.full.as_str());
        let left: Option<String> = if rest.as_str().is_empty() {
            None
        } else {
            Some(rest)
        };
        if full.as_str().is_empty() {
            (
                left,
                Err(
                    String::from_str(
                        "LLM stream produced empty content (thinking-only?). Try --llm-no-think true or --llm-stream false.",
                    ),
                ),
            )
        } else {
            (left, Ok(full))
        }
    }
}

/// An answer after some parts.
pub open spec fn said_all(parts: Seq<Seq<char>>) -> StreamedView
    decreases parts.len(),
{
    if parts.len() == 0 {
        StreamedView { lines: Seq::empty(), full: Seq::empty(), pending: Seq::empty() }
    } else {
        said(said_all(parts.drop_last()), parts.last())
    }
}

/// The sentences that were passed on after some parts.
pub open spec fn passed_on(parts: Seq<Seq<char>>) -> Seq<Seq<char>>
    decreases parts.len(),
{
    if parts.len() == 0 {
        Seq::empty()
    } else {
        passed_on(parts.drop_last()) + said_gives(said_all(parts.drop_last()), parts.last())
    }
}

/// However the answer of the model is cut on its way, every word of it is passed on
/// once and in order: in a sentence, or in what is left at the end.
pub proof fn law_every_word_is_spoken(parts: Seq<Seq<char>>)
    ensures
        sentences::ink_of_all(passed_on(parts)) + sentences::ink(said_all(parts).pending)
            == sentences::ink(said_all(parts).full),
    decreases parts.len(),
{
    if parts.len() == 0 {
        assert(sentences::ink_of_all(passed_on(parts)) + sentences::ink(said_all(parts).pending)
            =~= sentences::ink(said_all(parts).full));
    } else {
        let t = parts.drop_last();
        law_every_word_is_spoken(t);
        let s = said_all(t);
        let d = parts.last();
        sentences::law_popping_keeps_words(s.pending + d);
        sentences::lemma_ink_adds(s.pending, d);
        sentences::lemma_ink_adds(s.full, d);
        sentences::lemma_ink_of_more(passed_on(t), said_gives(s, d));
        let a = sentences::ink_of_all(passed_on(t));
        let b = sentences::ink_of_all(said_gives(s, d));
        let c = sentences::ink(said(s, d).pending);
        assert((a + b) + c =~= a + (b + c));
        assert(a + (sentences::ink(s.pending) + sentences::ink(d)) =~= (a + sentences::ink(
            s.pending,
        )) + sentences::ink(d));
    }
}

/// The number of tokens of an answer, as far as it can be told from its words.
pub fn estimated_tokens(answer: &str) -> (n: usize)
    ensures
        n == if text::word_count(answer@) == 0 {
            1
        } else {
            text::word_count(answer@)
        },
{
    let n: usize = text::count_words(answer);
    if n == 0 {
        1
    } else {
        n
    }
}

/// A conversation that is short enough is kept whole. Of a longer one exactly the
/// last `n` messages are kept, each at its place from the end, behind the system
/// prompt where the conversation begins with one.
pub proof fn law_last_messages_are_kept(h: Seq<MessageView>, n: nat)
    ensures
        h.len() <= n + 1 ==> kept(h, n) == h,
        h.len() > n + 1 && h[0].0 == "system"@ ==> kept(h, n).len() == n + 1 && kept(h, n)[0]
            == h[0],
        h.len() > n + 1 && h[0].0 != "system"@ ==> kept(h, n).len() == n,
        forall|k: int|
            0 <= k < n && k < h.len() ==> k < kept(h, n).len() && #[trigger] kept(h, n)[kept(
                h,
                n,
            ).len() - 1 - k] == h[h.len() - 1 - k],
{
}

/// What is heard leads to a question only if it is complete and not blank; ends are
/// passed on.
pub proof fn law_what_is_asked(text: String, partial: bool)
    ensures
        llm_action_for(HeardItem::Heard { text, partial }) == LlmAction::Ask <==> !partial
            && text::trim(text@).len() > 0,
        llm_action_for(HeardItem::Heard { text, partial }) == LlmAction::Listen <==> partial
            || text::trim(text@).len() == 0,
        llm_action_for(HeardItem::PipelineEnd) == LlmAction::Stop,
        llm_action_for(HeardItem::SessionEnd) == LlmAction::Reset,
{
}

/// A request holds the model, the whole conversation in order, and the limits; thinking
/// is switched off only where that is wanted, and only an Ollama server is told how
/// long to keep the model.
pub proof fn law_chat_request(
    cfg: Config,
    h: Seq<MessageView>,
    temperature: Seq<char>,
    stream: bool,
    i: int,
)
    ensures
        ({
            let m = chat_members(cfg, h, temperature, stream);
            &&& m.contains(("model"@, JsonView::Text(cfg.model_name@)))
            &&& m[1].0 == "messages"@
            &&& m[1].1 matches JsonView::List(v) && v.len() == h.len() && (0 <= i < h.len()
                ==> json::member(v[i], "role"@) == Some(JsonView::Text(h[i].0)) && json::member(
                v[i],
                "content"@,
            ) == Some(JsonView::Text(h[i].1)))
            &&& m.contains(("temperature"@, JsonView::Number(temperature)))
            &&& m.contains(
                ("max_tokens"@, JsonView::Number(text::decimal(cfg.max_tokens as nat))),
            )
            &&& m.contains(("stream"@, JsonView::Bool(stream)))
            &&& cfg.llm_no_think ==> m.contains(("reasoning_effort"@, JsonView::Text("none"@)))
            &&& !cfg.llm_no_think && !text::has(cfg.llm_base_url@, "11434"@) ==> m.len() == 5
            &&& text::has(cfg.llm_base_url@, "11434"@) && keep_alive(cfg.llm_keep_alive@) is Some
                ==> m.contains(("keep_alive"@, keep_alive(cfg.llm_keep_alive@).unwrap()))
        }),
{
    let m = chat_members(cfg, h, temperature, stream);
    assert(m[0] == ("model"@, JsonView::Text(cfg.model_name@)));
    assert(m[1] == ("messages"@, JsonView::List(message_jsons(h))));
    assert(m[2] == ("temperature"@, JsonView::Number(temperature)));
    assert(m[3] == ("max_tokens"@, JsonView::Number(text::decimal(cfg.max_tokens as nat))));
    assert(m[4] == ("stream"@, JsonView::Bool(stream)));
    if cfg.llm_no_think {
        assert(m[5] == ("reasoning_effort"@, JsonView::Text("none"@)));
    }
    if text::has(cfg.llm_base_url@, "11434"@) && keep_alive(cfg.llm_keep_alive@) is Some {
        assert(m[m.len() - 1] == ("keep_alive"@, keep_alive(cfg.llm_keep_alive@).unwrap()));
    }
    reveal_with_fuel(json::first_member, 3);
    reveal_strlit("role");
    reveal_strlit("content");
    assert("role"@.len() == 4 && "content"@.len() == 7);
}

/// How long a model is kept is told as a number where a number is set, in its plain
/// form, and as the text that is set otherwise; nothing where nothing is set.
pub proof fn law_keep_alive(n: i64, raw: Seq<char>)
    ensures
        keep_alive(text::signed_decimal(n as int)) == Some(
            JsonView::Number(text::signed_decimal(n as int)),
        ),
        text::trim(raw).len() == 0 ==> keep_alive(raw) is None,
        text::trim(raw).len() > 0 && text::parsed_signed(text::trim(raw)) is None ==> keep_alive(raw)
            == Some(JsonView::Text(text::trim(raw))),
{
    let s = text::signed_decimal(n as int);
    text::law_signed_number_reads_back(n);
    text::lemma_trimmed(s);
    let m = if n < 0 {
        (-(n as int)) as nat
    } else {
        n as nat
    };
    text::lemma_decimal_digits(m);
    assert(text::is_digit(text::decimal(m)[0]));
    assert(text::is_digit(text::decimal(m)[text::decimal(m).len() - 1]));
    assert(s.last() == text::decimal(m).last());
    assert(text::trim(s) == s);
}

/// What a model answers is its content without white space around it; only without
/// content the last line of its reasoning that is neither a heading nor a list counts,
/// without quotes, and only if it is short.
pub proof fn law_answer_text(msg: JsonView, t: Seq<char>)
    ensures
        json::member(msg, "content"@) == Some(JsonView::Text(t)) && text::trim(t).len() > 0
            ==> spoken_text(msg) == text::trim(t),
        json::member(msg, "content"@) is None && json::member(msg, "reasoning"@) is None
            ==> spoken_text(msg).len() == 0,
        text::utf8_len(spoken_text(msg)) >= 200 ==> spoken_text(msg) == text::trim(content_of(msg)),
{
    text::law_trim(Seq::empty());
    assert(text::utf8_len(Seq::<char>::empty()) == 0);
}

/// The line of a reasoning that counts is the last one that is not blank and is no
/// heading and no item of a list.
pub proof fn law_last_usable_line(lines: Seq<Seq<char>>, i: int)
    requires
        0 <= i < lines.len(),
        text::trim(lines[i]).len() > 0,
        text::trim(lines[i])[0] != '*',
        text::trim(lines[i])[0] != '#',
        forall|j: int|
            i < j < lines.len() ==> text::trim(#[trigger] lines[j]).len() == 0 || text::trim(
                lines[j],
            )[0] == '*' || text::trim(lines[j])[0] == '#',
    ensures
        last_usable(lines) == text::trim(lines[i]),
    decreases lines.len(),
{
    if i < lines.len() - 1 {
        let t = lines.drop_last();
        assert(lines.last() == lines[lines.len() - 1]);
        assert(t[i] == lines[i]);
        assert forall|j: int| i < j < t.len() implies text::trim(#[trigger] t[j]).len() == 0
            || text::trim(t[j])[0] == '*' || text::trim(t[j])[0] == '#' by {
            assert(t[j] == lines[j]);
        }
        law_last_usable_line(t, i);
    }
}

/// The parts of a content one after another.
pub proof fn law_parts_of_a_content(a: Seq<JsonView>, x: JsonView, t: Seq<char>)
    ensures
        json::member(x, "text"@) == Some(JsonView::Text(t)) ==> part_texts(a.push(x)) == part_texts(a)
            + t,
        json::member(x, "text"@) is None ==> part_texts(a.push(x)) == part_texts(a),
{
    assert(a.push(x).drop_last() =~= a);
    assert(part_texts(a) + Seq::empty() =~= part_texts(a));
}

/// A line of a stream: an empty one and a comment are passed over, the mark of the end
/// ends it, and of any other what stands behind `data:` counts, without white space
/// around it.
pub proof fn law_lines_of_a_stream(l: Seq<char>)
    ensures
        l.len() == 0 || l[0] == ':' ==> line_of(l) == LineView::Skip,
        line_of("data:"@ + "[DONE]"@) == LineView::Done,
        l.len() > 0 && !text::is_space(l[0]) && !text::is_space(l.last()) && l != "[DONE]"@
            ==> line_of("data:"@ + l) == LineView::Data(l),
{
    reveal_strlit("data:");
    reveal_strlit("[DONE]");
    assert("data:"@[0] == 'd' && "data:"@.len() == 5);
    let done = "[DONE]"@;
    assert(done.len() == 6 && done[0] == '[' && done.last() == ']');
    text::lemma_trimmed(done);
    text::lemma_trimmed(l);
    assert(("data:"@ + done).take(5) =~= "data:"@);
    assert(("data:"@ + done).skip(5) =~= done);
    assert(("data:"@ + l).take(5) =~= "data:"@);
    assert(("data:"@ + l).skip(5) =~= l);
}

/// Whatever comes is added to the answer and to what waits to be spoken; nothing of
/// either is lost or changed.
pub proof fn law_answer_grows(s: StreamedView, delta: Seq<char>)
    ensures
        said(s, delta).full == s.full + delta,
        said(s, delta).lines == s.lines,
        sentences::ink_of_all(said_gives(s, delta)) + sentences::ink(said(s, delta).pending)
            == sentences::ink(s.pending + delta),
{
    sentences::law_popping_keeps_words(s.pending + delta);
}

/// An answer is read line by line up to the first that says something: what was read
/// goes, what comes behind it stays, and without such a line nothing else changes.
pub proof fn law_reading_goes_on(s: StreamedView, stops: bool)
    ensures
        ({
            let (t, gives) = said_next(s, stops);
            &&& t.lines.len() <= s.lines.len()
            &&& t.lines == s.lines.skip(s.lines.len() - t.lines.len())
            &&& gives is None ==> t == (StreamedView { lines: t.lines, ..s })
            &&& gives is None && !stops ==> !t.lines.contains('\n')
            &&& gives is Some ==> t.full.len() > s.full.len() && t.full.take(s.full.len() as int)
                == s.full && t.lines.len() < s.lines.len() && s.lines[s.lines.len() - t.lines.len()
                - 1] == '\n'
        }),
    decreases s.lines.len(),
{
    let i = text::first_char(s.lines, '\n');
    text::lemma_first_char(s.lines, '\n');
    if 0 <= i < s.lines.len() {
        let t = StreamedView { lines: s.lines.skip(i + 1), ..s };
        law_reading_goes_on(t, stops);
        let r = said_next(t, stops).0.lines;
        if r.len() <= t.lines.len() {
            assert(t.lines.skip(t.lines.len() - r.len()) =~= s.lines.skip(
                s.lines.len() - r.len(),
            ));
        }
        match line_of(text::trim(s.lines.take(i))) {
            LineView::Data(d) => {
                let u = said(t, delta_in(d));
                assert(u.lines == t.lines);
                assert(u.full.take(s.full.len() as int) =~= s.full);
            },
            _ => {},
        }
    } else {
        assert(s.lines.skip(0) =~= s.lines);
        assert(!s.lines.contains('\n'));
    }
}

/// What an answer adds is the content of the first choice; what else it has, such as
/// its reasoning, is not spoken.
pub proof fn law_content_is_spoken(
    delta: Seq<(Seq<char>, JsonView)>,
    more: Seq<JsonView>,
    t: Seq<char>,
    i: int,
)
    requires
        0 <= i < delta.len(),
        delta[i] == ("content"@, JsonView::Text(t)),
        forall|j: int| 0 <= j < i ==> (#[trigger] delta[j]).0 != "content"@,
    ensures
        delta_of(JsonView::Object(delta)) == t,
        delta_of(JsonView::Null).len() == 0,
        first_choice(
            JsonView::Object(
                seq![
                    (
                        "choices"@,
                        JsonView::List(
                            seq![JsonView::Object(seq![("delta"@, JsonView::Object(delta))])]
                                + more,
                        ),
                    ),
                ],
            ),
            "delta"@,
        ) == JsonView::Object(delta),
{
    json::law_first_member(delta, "content"@, i);
    let inner = seq![("delta"@, JsonView::Object(delta))];
    let list = seq![JsonView::Object(inner)] + more;
    let outer = seq![("choices"@, JsonView::List(list))];
    json::law_first_member(inner, "delta"@, 0);
    json::law_first_member(outer, "choices"@, 0);
    assert(list[0] == JsonView::Object(inner));
}

} // verus!
