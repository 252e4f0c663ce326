//! What passes between the stages: recording, recognition, language model and
//! synthesis.

use crate::json::Json;
use crate::registry::wrap;
use crate::runtime::StackStatus;
use crate::text;
use vstd::prelude::*;

verus! {

/// A turn of the conversation.
#[derive(Debug)]
pub struct TurnId {
    pub id: String,
    pub revision: u32,
    /// The number of the lease that keeps the turn open, if it has one.
    pub lease: Option<u64>,
}

impl Clone for TurnId {
    fn clone(&self) -> (r: Self)
        ensures
            r == *self,
    {
        TurnId { id: self.id.clone(), revision: self.revision, lease: self.lease }
    }
}

/// The name of a turn.
pub open spec fn turn_name(n: nat) -> Seq<char> {
    "turn_"@ + text::decimal(n) + ""@
}

impl TurnId {
    /// The turn behind the `started` that came before it.
    pub fn next(started: &mut u64) -> (r: Self)
        requires
            *old(started) < u64::MAX,
        ensures
            *final(started) == *old(started) + 1,
            r.id@ == turn_name(*final(started) as nat),
            r.revision == 0,
            r.lease is None,
    {
        *started = *started + 1;
        let n: String = text::decimal_of(*started);
        TurnId { id: wrap("turn_", n.as_str(), ""), revision: 0, lease: None }
    }

    /// Ties the turn to the lease that keeps it open.
    pub fn attach_lease(&mut self, lease: u64)
        ensures
            final(self).lease == Some(lease),
            final(self).id == old(self).id,
            final(self).revision == old(self).revision,
    {
        self.lease = Some(lease);
    }
}

/// Turns that follow one another have different names.
pub proof fn law_turns_are_told_apart(a: nat, b: nat)
    requires
        turn_name(a) == turn_name(b),
    ensures
        a == b,
{
    reveal_strlit("turn_");
    reveal_strlit("");
    let da = text::decimal(a);
    let db = text::decimal(b);
    assert(turn_name(a) =~= "turn_"@ + da);
    assert(turn_name(b) =~= "turn_"@ + db);
    assert(turn_name(a).skip(5) =~= da);
    assert(turn_name(b).skip(5) =~= db);
    text::lemma_decimal_value(a);
    text::lemma_decimal_value(b);
}

/// How a recorded segment is meant.
#[derive(Debug, Clone, Copy, PartialEq, Eq, Structural)]
pub enum VadMode {
    /// The speaker goes on.
    Progressive,
    Final,
}

/// What was understood.
#[derive(Debug)]
pub struct Transcription {
    pub text: String,
    pub language: Option<String>,
    pub turn: Option<TurnId>,
    pub partial: bool,
}

/// A sentence of the answer, ready to be spoken.
#[derive(Debug)]
pub struct LlmChunk {
    pub text: String,
    pub language: Option<String>,
    pub turn: Option<TurnId>,
    /// Nothing follows in this answer.
    pub is_final: bool,
}

/// Synthesized audio.
#[derive(Debug)]
pub struct AudioOut {
    pub pcm_i16: Vec<i16>,
    pub sample_rate: u32,
    pub turn: Option<TurnId>,
    pub response_done: bool,
}

impl AudioOut {
    /// Whether there is something to play: the mark at the end of an answer has no
    /// audio.
    pub fn is_playable(&self) -> (r: bool)
        ensures
            r == !(self.response_done && self.pcm_i16@.len() == 0),
    {
        !(self.response_done && self.pcm_i16.len() == 0)
    }
}

fn copy_language(l: &Option<String>) -> (r: Option<String>)
    ensures
        r == *l,
{
    match l {
        Some(s) => Some(s.clone()),
        None => None,
    }
}

fn copy_turn(t: &Option<TurnId>) -> (r: Option<TurnId>)
    ensures
        r == *t,
{
    match t {
        Some(t) => Some(t.clone()),
        None => None,
    }
}

impl LlmChunk {
    /// A sentence of the answer to a transcript.
    pub fn sentence(tr: &Transcription, s: &str) -> (r: Self)
        ensures
            r.text@ == s@,
            r.language == tr.language,
            r.turn == tr.turn,
            !r.is_final,
    {
        LlmChunk {
            text: String::from_str(s),
            language: copy_language(&tr.language),
            turn: copy_turn(&tr.turn),
            is_final: false,
        }
    }

    /// The mark behind the last sentence of the answer.
    pub fn last(tr: &Transcription) -> (r: Self)
        ensures
            r.text@ == ""@,
            r.language == tr.language,
            r.turn == tr.turn,
            r.is_final,
    {
        LlmChunk {
            text: String::from_str(""),
            language: copy_language(&tr.language),
            turn: copy_turn(&tr.turn),
            is_final: true,
        }
    }
}

pub open spec fn chunk_texts(v: Seq<LlmChunk>) -> Seq<Seq<char>> {
    Seq::new(v.len(), |i: int| v[i].text@)
}

/// The pieces in which an answer that is known at once is passed on: its sentences
/// and the mark behind them.
pub fn answer_chunks(tr: &Transcription, answer: &str) -> (r: Vec<LlmChunk>)
    ensures
        chunk_texts(r@) == crate::sentences::sentences_of(answer@).push(""@),
        forall|i: int|
            0 <= i < r@.len() ==> (#[trigger] r@[i]).is_final == (i == r@.len() - 1) && r@[i].turn
                == tr.turn && r@[i].language == tr.language,
{
    let v: Vec<String> = crate::sentences::split_sentences(answer);
    let ghost s = crate::sentences::sentences_of(answer@);
    let mut out: Vec<LlmChunk> = Vec::new();
    let mut i: usize = 0;
    assert(chunk_texts(out@) =~= s.take(0));
    while i < v.len()
        invariant
            i <= v.len(),
            s == text::views(v@),
            out@.len() == i,
            chunk_texts(out@) == s.take(i as int),
            forall|k: int|
                0 <= k < i ==> !(#[trigger] out@[k]).is_final && out@[k].turn == tr.turn
                    && out@[k].language == tr.language,
        decreases v.len() - i,
    {
        let ghost before = chunk_texts(out@);
        assert(s[i as int] == v@[i as int]@);
        out.push(LlmChunk::sentence(tr, v[i].as_str()));
        assert(chunk_texts(out@) =~= before.push(s[i as int]));
        assert(s.take(i + 1) =~= s.take(i as int).push(s[i as int]));
        i += 1;
    }
    assert(s.take(i as int) =~= s);
    let ghost before = chunk_texts(out@);
    out.push(LlmChunk::last(tr));
    assert(chunk_texts(out@) =~= before.push(""@));
    out
}

/// What a client is told besides the audio.
#[derive(Debug)]
pub enum PipelineEvent {
    SpeechStarted { turn: Option<String> },
    SpeechStopped { turn: Option<String>, duration_ms: u64 },
    PartialTranscript { text: String, turn: Option<String> },
    FinalTranscript { text: String, turn: Option<String>, language: Option<String> },
    LlmChunk { text: String, turn: Option<String> },
    LlmFull { text: String, turn: Option<String> },
    ResponseDone { turn: Option<String> },
    Metrics { stage: String, turn: Option<String>, values: Json },
    /// The stack after a client has come or the stack has changed.
    Stack(StackStatus),
    Error { stage: String, message: String },
}

impl PipelineEvent {
    /// The name of a turn.
    pub fn turn_id(t: &Option<TurnId>) -> (r: Option<String>)
        ensures
            match t {
                Some(t) => r == Some(t.id),
                None => r is None,
            },
    {
        match t {
            Some(t) => Some(t.id.clone()),
            None => None,
        }
    }

    /// The event that tells of a stack; without a message of its own it says
    /// `default_message`.
    pub fn stack(status: &StackStatus, default_message: &str) -> (r: Self)
        ensures
            match r {
                PipelineEvent::Stack(s) => {
                    &&& s.message@ == if status.message@.len() == 0 {
                        default_message@
                    } else {
                        status.message@
                    }
                    &&& s == (StackStatus { message: s.message, ..*status })
                },
                _ => false,
            },
    {
        let mut s: StackStatus = status.clone();
        if s.message.as_str().is_empty() {
            s.message = String::from_str(default_message);
        }
        PipelineEvent::Stack(s)
    }
}

/// The life cycle of a queue.
#[derive(Debug, Clone, Copy, PartialEq, Eq, Structural)]
pub enum Control {
    /// Forget the session and go on.
    SessionEnd,
    /// Stop.
    PipelineEnd,
}

#[derive(Debug)]
pub enum QueueItem<T> {
    Data(T),
    Control(Control),
}

impl<T> QueueItem<T> {
    pub fn end() -> (r: Self)
        ensures
            r == QueueItem::<T>::Control(Control::PipelineEnd),
    {
        QueueItem::Control(Control::PipelineEnd)
    }
}

} // verus!
