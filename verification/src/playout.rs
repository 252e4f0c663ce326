//! How audio is passed on: in pieces that keep its order and lose nothing.

use crate::pcm::{self, StreamView, StreamingPcmResampler, Tap};
use crate::tts;
use vstd::prelude::*;

verus! {

/// The pieces of some samples, all of one length but the last.
pub open spec fn pieces<T>(v: Seq<T>, n: nat) -> Seq<Seq<T>>
    decreases v.len(),
{
    if n == 0 || v.len() == 0 {
        Seq::empty()
    } else if v.len() <= n {
        seq![v]
    } else {
        seq![v.take(n as int)] + pieces(v.skip(n as int), n)
    }
}

pub open spec fn sample_views<T>(v: Seq<Vec<T>>) -> Seq<Seq<T>> {
    Seq::new(v.len(), |i: int| v[i]@)
}

fn copy_samples<T: Copy>(v: &Vec<T>, from: usize, to: usize) -> (r: Vec<T>)
    requires
        from <= to <= v@.len(),
    ensures
        r@ == v@.subrange(from as int, to as int),
{
    let mut out: Vec<T> = Vec::new();
    let mut i: usize = from;
    while i < to
        invariant
            from <= i <= to <= v@.len(),
            out@ == v@.subrange(from as int, i as int),
        decreases to - i,
    {
        out.push(v[i]);
        assert(out@ =~= v@.subrange(from as int, i + 1));
        i += 1;
    }
    out
}

/// How much audio is put into one message at most: about two seconds.
pub open spec fn slice_len(sample_rate: u32) -> nat {
    if 2 * sample_rate < 8000 {
        8000
    } else {
        (2 * sample_rate) as nat
    }
}

/// Cuts audio into messages that are sent back to back.
pub fn audio_slices<T: Copy>(pcm: &Vec<T>, sample_rate: u32) -> (r: Vec<Vec<T>>)
    ensures
        sample_views(r@) == pieces(pcm@, slice_len(sample_rate)),
{
    let n: u64 = if (sample_rate as u64) * 2 < 8000 {
        8000
    } else {
        (sample_rate as u64) * 2
    };
    let mut out: Vec<Vec<T>> = Vec::new();
    let mut at: usize = 0;
    assert(sample_views(out@) =~= Seq::empty());
    assert(pcm@.skip(0) =~= pcm@);
    assert(Seq::<Seq<T>>::empty() + pieces(pcm@, n as nat) =~= pieces(pcm@, n as nat));
    while at < pcm.len()
        invariant
            at <= pcm@.len(),
            n > 0,
            n == slice_len(sample_rate),
            sample_views(out@) + pieces(pcm@.skip(at as int), n as nat) == pieces(
                pcm@,
                n as nat,
            ),
        decreases pcm@.len() - at,
    {
        let ghost rest = pcm@.skip(at as int);
        let ghost before = sample_views(out@);
        let left: usize = pcm.len() - at;
        if left as u64 <= n {
            let s: Vec<T> = copy_samples(pcm, at, pcm.len());
            assert(s@ =~= rest);
            out.push(s);
            assert(sample_views(out@) =~= before.push(rest));
            at = pcm.len();
            proof {
                assert(pcm@.skip(at as int) =~= Seq::empty());
                assert(before.push(rest) + Seq::empty() =~= before + seq![rest]);
            }
        } else {
            let m: usize = n as usize;
            let s: Vec<T> = copy_samples(pcm, at, at + m);
            assert(s@ =~= rest.take(m as int));
            out.push(s);
            assert(sample_views(out@) =~= before.push(rest.take(m as int)));
            proof {
                let next = rest.skip(m as int);
                assert(pcm@.skip(at + m) =~= next);
                assert(before.push(rest.take(m as int)) + pieces(next, n as nat) =~= before + (seq![
                    rest.take(m as int),
                ] + pieces(next, n as nat)));
            }
            at += m;
        }
    }
    assert(pcm@.skip(at as int) =~= Seq::empty());
    assert(sample_views(out@) + Seq::<Seq<T>>::empty() =~= sample_views(out@));
    out
}

/// The full pieces at the front of some samples.
pub open spec fn full_pieces<T>(v: Seq<T>, n: nat) -> Seq<Seq<T>>
    decreases v.len(),
{
    if n == 0 || v.len() < n {
        Seq::empty()
    } else {
        seq![v.take(n as int)] + full_pieces(v.skip(n as int), n)
    }
}

/// What is left behind the full pieces.
pub open spec fn remainder<T>(v: Seq<T>, n: nat) -> Seq<T>
    decreases v.len(),
{
    if n == 0 || v.len() < n {
        v
    } else {
        remainder(v.skip(n as int), n)
    }
}

/// Takes the full pieces off the audio that waits to be passed on.
pub fn take_chunks<T: Copy>(pending: &mut Vec<T>, chunk: u64) -> (r: Vec<Vec<T>>)
    requires
        chunk > 0,
    ensures
        sample_views(r@) == full_pieces(old(pending)@, chunk as nat),
        final(pending)@ == remainder(old(pending)@, chunk as nat),
{
    let ghost all = pending@;
    let mut out: Vec<Vec<T>> = Vec::new();
    let mut at: usize = 0;
    assert(all.skip(0) =~= all);
    assert(sample_views(out@) + full_pieces(all, chunk as nat) =~= full_pieces(all, chunk as nat));
    while (pending.len() - at) as u64 >= chunk
        invariant
            at <= pending@.len(),
            chunk > 0,
            pending@ == all,
            sample_views(out@) + full_pieces(all.skip(at as int), chunk as nat) == full_pieces(
                all,
                chunk as nat,
            ),
            remainder(all.skip(at as int), chunk as nat) == remainder(all, chunk as nat),
        decreases pending@.len() - at,
    {
        let ghost rest = all.skip(at as int);
        let ghost before = sample_views(out@);
        let m: usize = chunk as usize;
        let s: Vec<T> = copy_samples(pending, at, at + m);
        assert(s@ =~= rest.take(m as int));
        out.push(s);
        assert(sample_views(out@) =~= before.push(rest.take(m as int)));
        proof {
            let next = rest.skip(m as int);
            assert(all.skip(at + m) =~= next);
            assert(before.push(rest.take(m as int)) + full_pieces(next, chunk as nat) =~= before
                + (seq![rest.take(m as int)] + full_pieces(next, chunk as nat)));
        }
        at += m;
    }
    let left: Vec<T> = copy_samples(pending, at, pending.len());
    assert(left@ =~= all.skip(at as int));
    assert(sample_views(out@) + Seq::<Seq<T>>::empty() =~= sample_views(out@));
    *pending = left;
    out
}

pub open spec fn glued<T>(v: Seq<Seq<T>>) -> Seq<T>
    decreases v.len(),
{
    if v.len() == 0 {
        Seq::empty()
    } else {
        v[0] + glued(v.drop_first())
    }
}

/// Cutting audio into messages loses nothing and changes no order.
pub proof fn law_slices_are_all<T>(v: Seq<T>, n: nat)
    requires
        n > 0,
    ensures
        glued(pieces(v, n)) == v,
    decreases v.len(),
{
    if v.len() == 0 {
        assert(glued(pieces(v, n)) =~= v);
    } else if v.len() <= n {
        assert(pieces(v, n).drop_first() =~= Seq::empty());
        assert(pieces(v, n)[0] == v);
        assert(glued(Seq::<Seq<T>>::empty()) =~= Seq::empty());
        assert(v + Seq::<T>::empty() =~= v);
    } else {
        law_slices_are_all(v.skip(n as int), n);
        assert(pieces(v, n).drop_first() =~= pieces(v.skip(n as int), n));
        assert(pieces(v, n)[0] == v.take(n as int));
        assert(v.take(n as int) + v.skip(n as int) =~= v);
    }
}

/// Neither does taking full pieces off: with what is left they are all there was.
pub proof fn law_chunks_and_rest_are_all<T>(v: Seq<T>, n: nat)
    requires
        n > 0,
    ensures
        glued(full_pieces(v, n)) + remainder(v, n) == v,
        remainder(v, n).len() < n,
    decreases v.len(),
{
    if v.len() < n {
        assert(glued(full_pieces(v, n)) + remainder(v, n) =~= v);
    } else {
        law_chunks_and_rest_are_all(v.skip(n as int), n);
        let w = v.skip(n as int);
        assert(full_pieces(v, n).drop_first() =~= full_pieces(w, n));
        assert(full_pieces(v, n)[0] == v.take(n as int));
        assert((v.take(n as int) + glued(full_pieces(w, n))) + remainder(w, n) =~= v.take(n as int)
            + (glued(full_pieces(w, n)) + remainder(w, n)));
        assert(v.take(n as int) + w =~= v);
    }
}

// ---------------------------------------------------------------------------
// An answer of raw samples, while it streams in
// ---------------------------------------------------------------------------

/// How far an answer has been read.
#[derive(Debug, Clone, Copy, PartialEq, Eq, Structural)]
pub enum AnswerPhase {
    /// Too little has come to tell what it is.
    Sniffing,
    /// It is a WAV file after all, and is collected.
    Wav,
    Streaming,
}

/// How many bytes are looked at to tell what an answer is.
pub const SNIFFED_BYTES: usize = 12;

/// An answer that streams in.
#[verifier::ext_equal]
pub struct AnswerView {
    pub phase: AnswerPhase,
    /// The bytes that were collected.
    pub prefix: Seq<u8>,
    pub stream: StreamView,
    /// The samples that wait for a full piece.
    pub pending: Seq<Tap>,
    pub chunk: nat,
}

/// Samples that wait once more bytes have been decoded.
pub open spec fn pending_after(s: AnswerView, bytes: Seq<u8>) -> Seq<Tap> {
    s.pending + pcm::push_gives(s.stream, bytes)
}

/// An answer whose bytes are decoded.
pub open spec fn streamed(s: AnswerView, bytes: Seq<u8>) -> AnswerView {
    AnswerView {
        phase: AnswerPhase::Streaming,
        prefix: Seq::empty(),
        stream: pcm::pushed(s.stream, bytes),
        pending: remainder(pending_after(s, bytes), s.chunk),
        chunk: s.chunk,
    }
}

/// An answer after more bytes.
pub open spec fn fed(s: AnswerView, bytes: Seq<u8>) -> AnswerView {
    let all = s.prefix + bytes;
    match s.phase {
        AnswerPhase::Sniffing => if all.len() < SNIFFED_BYTES {
            AnswerView { prefix: all, ..s }
        } else if tts::begins_as_wav(all, 4) {
            AnswerView { phase: AnswerPhase::Wav, prefix: all, ..s }
        } else {
            streamed(s, all)
        },
        AnswerPhase::Wav => AnswerView { prefix: all, ..s },
        AnswerPhase::Streaming => streamed(s, bytes),
    }
}

/// The pieces that are passed on for more bytes.
pub open spec fn fed_gives(s: AnswerView, bytes: Seq<u8>) -> Seq<Seq<Tap>> {
    let all = s.prefix + bytes;
    match s.phase {
        AnswerPhase::Sniffing => if all.len() < SNIFFED_BYTES || tts::begins_as_wav(all, 4) {
            Seq::empty()
        } else {
            full_pieces(pending_after(s, all), s.chunk)
        },
        AnswerPhase::Wav => Seq::empty(),
        AnswerPhase::Streaming => full_pieces(pending_after(s, bytes), s.chunk),
    }
}

/// How an answer ended.
#[derive(Debug)]
pub enum Ending {
    /// The WAV file that it was.
    Wav(Vec<u8>),
    /// So many samples have been passed on.
    Played(u64),
    Failed(String),
}

/// How a decoded answer ends.
pub open spec fn streaming_ends(s: AnswerView, gives: Seq<Seq<Tap>>, ending: Ending) -> bool {
    let rest = s.pending + pcm::finish_gives(s.stream);
    let total = pcm::resampled_len(s.stream.source.len() as int, s.stream.from, s.stream.to);
    if s.stream.odd is Some {
        &&& gives == Seq::<Seq<Tap>>::empty()
        &&& ending matches Ending::Failed(m) && m@ == "TTS PCM stream ended with an odd byte"@
    } else {
        &&& gives == (if rest.len() == 0 {
            Seq::empty()
        } else {
            seq![rest]
        })
        &&& if total == 0 {
            ending matches Ending::Failed(m) && m@ == "TTS PCM stream produced no samples"@
        } else {
            ending matches Ending::Played(n) && n == total
        }
    }
}

/// How an answer ends, and the pieces that are passed on at its end.
pub open spec fn answer_ends(s: AnswerView, gives: Seq<Seq<Tap>>, ending: Ending) -> bool {
    match s.phase {
        AnswerPhase::Streaming => streaming_ends(s, gives, ending),
        AnswerPhase::Sniffing => if tts::begins_as_wav(s.prefix, 4) {
            gives == Seq::<Seq<Tap>>::empty() && (ending matches Ending::Wav(b) && b@ == s.prefix)
        } else {
            exists|last: Seq<Seq<Tap>>|
                {
                    &&& gives == full_pieces(pending_after(s, s.prefix), s.chunk) + last
                    &&& #[trigger] streaming_ends(streamed(s, s.prefix), last, ending)
                }
        },
        AnswerPhase::Wav => gives == Seq::<Seq<Tap>>::empty() && (ending matches Ending::Wav(b) && b@
            == s.prefix),
    }
}

/// Reads an answer of raw samples while it streams in: decodes it, brings it to the
/// wanted rate and passes it on in pieces of one length.
#[derive(Debug)]
pub struct PcmAnswer {
    pub phase: AnswerPhase,
    pub prefix: Vec<u8>,
    pub decoder: StreamingPcmResampler,
    pub pending: Vec<Tap>,
    pub chunk: u64,
}

impl View for PcmAnswer {
    type V = AnswerView;

    open spec fn view(&self) -> AnswerView {
        AnswerView {
            phase: self.phase,
            prefix: self.prefix@,
            stream: self.decoder@,
            pending: self.pending@,
            chunk: self.chunk as nat,
        }
    }
}

fn append_bytes(v: &mut Vec<u8>, bytes: &[u8])
    ensures
        final(v)@ == old(v)@ + bytes@,
{
    let ghost start = v@;
    let mut i: usize = 0;
    assert(v@ =~= start + bytes@.take(0));
    while i < bytes.len()
        invariant
            i <= bytes.len(),
            v@ == start + bytes@.take(i as int),
        decreases bytes.len() - i,
    {
        v.push(bytes[i]);
        assert(v@ =~= start + bytes@.take(i + 1));
        i += 1;
    }
    assert(bytes@.take(i as int) =~= bytes@);
}

fn append_taps(v: &mut Vec<Tap>, more: &Vec<Tap>)
    ensures
        final(v)@ == old(v)@ + more@,
{
    let ghost start = v@;
    let mut i: usize = 0;
    assert(v@ =~= start + more@.take(0));
    while i < more.len()
        invariant
            i <= more.len(),
            v@ == start + more@.take(i as int),
        decreases more.len() - i,
    {
        v.push(more[i]);
        assert(v@ =~= start + more@.take(i + 1));
        i += 1;
    }
    assert(more@.take(i as int) =~= more@);
}

/// How many bytes of a sample wait for the rest of it.
pub open spec fn held(odd: Option<u8>) -> int {
    if odd is Some {
        1
    } else {
        0
    }
}

impl PcmAnswer {
    pub open spec fn wf(self) -> bool {
        &&& self.decoder.wf()
        &&& self.chunk > 0
    }

    /// Whether so many more bytes can be taken in without leaving the numbers that
    /// count samples.
    pub open spec fn takes(self, more: int) -> bool {
        pcm::fits(
            self.decoder.source@.len() + (held(self.decoder.odd_byte) + self.prefix@.len() + more)
                / 2,
            self.decoder.from_sr as int,
            self.decoder.to_sr as int,
        )
    }

    /// Starts on an answer with samples of one rate, wanted at another, in pieces of
    /// `chunk` samples.
    pub fn new(from_sr: u32, to_sr: u32, chunk: u64) -> (r: Self)
        requires
            chunk > 0,
        ensures
            r.wf(),
            r@ == (AnswerView {
                phase: AnswerPhase::Sniffing,
                prefix: Seq::empty(),
                stream: pcm::stream_start(pcm::at_least_one(from_sr), pcm::at_least_one(to_sr)),
                pending: Seq::empty(),
                chunk: chunk as nat,
            }),
    {
        PcmAnswer {
            phase: AnswerPhase::Sniffing,
            prefix: Vec::new(),
            decoder: StreamingPcmResampler::new(from_sr, to_sr),
            pending: Vec::new(),
            chunk,
        }
    }

    pub fn has_room(&self, more: usize) -> (r: bool)
        ensures
            r == self.takes(more as int),
    {
        if self.decoder.from_sr == self.decoder.to_sr {
            return true;
        }
        let odd: u128 = if self.decoder.odd_byte.is_some() {
            1
        } else {
            0
        };
        let n: u128 = (self.decoder.source.len() as u128) + (odd + (self.prefix.len() as u128) + (
        more as u128)) / 2;
        let to: u128 = self.decoder.to_sr as u128;
        assert(n * to <= 0x3_ffff_ffff_ffff_fffe * 0xffff_ffff) by (nonlinear_arith)
            requires
                n <= 0x3_ffff_ffff_ffff_fffe,
                to <= 0xffff_ffff,
        ;
        n * to <= u64::MAX as u128
    }

    /// Decodes bytes and takes the full pieces.
    fn stream(&mut self, bytes: &[u8]) -> (r: Vec<Vec<Tap>>)
        requires
            old(self).wf(),
            pcm::fits(
                pcm::pushed(old(self).decoder@, bytes@).source.len() as int,
                old(self).decoder.from_sr as int,
                old(self).decoder.to_sr as int,
            ),
        ensures
            final(self).wf(),
            final(self)@ == streamed(old(self)@, bytes@),
            sample_views(r@) == full_pieces(pending_after(old(self)@, bytes@), old(self)@.chunk),
    {
        self.phase = AnswerPhase::Streaming;
        self.prefix = Vec::new();
        let more: Vec<Tap> = self.decoder.push_bytes(bytes);
        append_taps(&mut self.pending, &more);
        take_chunks(&mut self.pending, self.chunk)
    }

    /// Takes in more of the answer and gives the pieces that can be passed on.
    pub fn feed(&mut self, bytes: &[u8]) -> (r: Vec<Vec<Tap>>)
        requires
            old(self).wf(),
            old(self).takes(bytes@.len() as int),
        ensures
            final(self).wf(),
            final(self)@ == fed(old(self)@, bytes@),
            sample_views(r@) == fed_gives(old(self)@, bytes@),
    {
        proof {
            let odd = held(self.decoder.odd_byte);
            pcm::lemma_fits_less(
                self.decoder.source@.len() + (odd + bytes@.len()) / 2,
                self.decoder.source@.len() + (odd + self.prefix@.len() + bytes@.len()) / 2,
                self.decoder.from_sr as int,
                self.decoder.to_sr as int,
            );
        }
        match self.phase {
            AnswerPhase::Streaming => self.stream(bytes),
            AnswerPhase::Wav => {
                append_bytes(&mut self.prefix, bytes);
                let none: Vec<Vec<Tap>> = Vec::new();
                assert(sample_views(none@) =~= Seq::empty());
                none
            },
            AnswerPhase::Sniffing => {
                append_bytes(&mut self.prefix, bytes);
                let none: Vec<Vec<Tap>> = Vec::new();
                assert(sample_views(none@) =~= Seq::empty());
                if self.prefix.len() < SNIFFED_BYTES {
                    return none;
                }
                if tts::looks_like_wav(self.prefix.as_slice(), 4) {
                    self.phase = AnswerPhase::Wav;
                    return none;
                }
                let mut all: Vec<u8> = Vec::new();
                std::mem::swap(&mut all, &mut self.prefix);
                self.stream(all.as_slice())
            },
        }
    }

    /// Ends a decoded answer.
    fn end(&mut self) -> (r: (Vec<Vec<Tap>>, Ending))
        requires
            old(self).wf(),
            pcm::fits(
                old(self).decoder.source@.len() as int,
                old(self).decoder.from_sr as int,
                old(self).decoder.to_sr as int,
            ),
        ensures
            streaming_ends(old(self)@, sample_views(r.0@), r.1),
    {
        let mut gives: Vec<Vec<Tap>> = Vec::new();
        assert(sample_views(gives@) =~= Seq::empty());
        match self.decoder.finish() {
            Err(m) => (gives, Ending::Failed(m)),
            Ok(more) => {
                append_taps(&mut self.pending, &more);
                let mut rest: Vec<Tap> = Vec::new();
                std::mem::swap(&mut rest, &mut self.pending);
                if rest.len() > 0 {
                    let ghost v = rest@;
                    gives.push(rest);
                    assert(sample_views(gives@) =~= seq![v]);
                }
                let total: u64 = self.decoder.produced;
                if total == 0 {
                    (gives, Ending::Failed(String::from_str("TTS PCM stream produced no samples")))
                } else {
                    (gives, Ending::Played(total))
                }
            },
        }
    }

    /// Ends the answer and gives the pieces that are left.
    pub fn finish(&mut self) -> (r: (Vec<Vec<Tap>>, Ending))
        requires
            old(self).wf(),
            old(self).takes(0),
        ensures
            answer_ends(old(self)@, sample_views(r.0@), r.1),
    {
        proof {
            let odd = held(self.decoder.odd_byte);
            pcm::lemma_fits_less(
                self.decoder.source@.len() as int,
                self.decoder.source@.len() + (odd + self.prefix@.len()) / 2,
                self.decoder.from_sr as int,
                self.decoder.to_sr as int,
            );
        }
        let ghost start = self@;
        let mut collected: Vec<u8> = Vec::new();
        std::mem::swap(&mut collected, &mut self.prefix);
        match self.phase {
            AnswerPhase::Streaming => self.end(),
            AnswerPhase::Wav => {
                let none: Vec<Vec<Tap>> = Vec::new();
                assert(sample_views(none@) =~= Seq::empty());
                (none, Ending::Wav(collected))
            },
            AnswerPhase::Sniffing => {
                if tts::looks_like_wav(collected.as_slice(), 4) {
                    let none: Vec<Vec<Tap>> = Vec::new();
                    assert(sample_views(none@) =~= Seq::empty());
                    return (none, Ending::Wav(collected));
                }
                let mut gives: Vec<Vec<Tap>> = self.stream(collected.as_slice());
                let ghost first = sample_views(gives@);
                let (last, ending) = self.end();
                let ghost tail = sample_views(last@);
                append_pieces(&mut gives, last);
                assert(sample_views(gives@) == first + tail);
                assert(streaming_ends(streamed(start, start.prefix), tail, ending));
                (gives, ending)
            },
        }
    }
}

fn append_pieces(v: &mut Vec<Vec<Tap>>, more: Vec<Vec<Tap>>)
    ensures
        sample_views(final(v)@) == sample_views(old(v)@) + sample_views(more@),
{
    let ghost a = v@;
    let ghost b = more@;
    let mut rest: Vec<Vec<Tap>> = more;
    v.append(&mut rest);
    assert(sample_views(v@) =~= sample_views(a) + sample_views(b));
}

// ---------------------------------------------------------------------------
// What holds of an answer however it comes in
// ---------------------------------------------------------------------------

pub open spec fn answer_start(from: int, to: int, chunk: nat) -> AnswerView {
    AnswerView {
        phase: AnswerPhase::Sniffing,
        prefix: Seq::empty(),
        stream: pcm::stream_start(from, to),
        pending: Seq::empty(),
        chunk,
    }
}

pub open spec fn answer_after(from: int, to: int, chunk: nat, parts: Seq<Seq<u8>>) -> AnswerView
    decreases parts.len(),
{
    if parts.len() == 0 {
        answer_start(from, to, chunk)
    } else {
        fed(answer_after(from, to, chunk, parts.drop_last()), parts.last())
    }
}

/// All that was passed on while an answer came in.
pub open spec fn passed_on(from: int, to: int, chunk: nat, parts: Seq<Seq<u8>>) -> Seq<Seq<Tap>>
    decreases parts.len(),
{
    if parts.len() == 0 {
        Seq::empty()
    } else {
        passed_on(from, to, chunk, parts.drop_last()) + fed_gives(
            answer_after(from, to, chunk, parts.drop_last()),
            parts.last(),
        )
    }
}

proof fn lemma_glued_adds<T>(a: Seq<Seq<T>>, b: Seq<Seq<T>>)
    ensures
        glued(a + b) == glued(a) + glued(b),
    decreases a.len(),
{
    if a.len() == 0 {
        assert(a + b =~= b);
        assert(glued(a) + glued(b) =~= glued(b));
    } else {
        lemma_glued_adds(a.drop_first(), b);
        assert((a + b).drop_first() =~= a.drop_first() + b);
        assert(a[0] + (glued(a.drop_first()) + glued(b)) =~= (a[0] + glued(a.drop_first())) + glued(
            b,
        ));
    }
}

/// Where an answer stands once some bytes of it have come.
pub open spec fn stands(s: AnswerView, bytes: Seq<u8>, gave: Seq<Seq<Tap>>) -> bool {
    &&& s.chunk > 0
    &&& match s.phase {
        AnswerPhase::Sniffing => {
            &&& s.prefix == bytes
            &&& bytes.len() < SNIFFED_BYTES
            &&& s.stream == pcm::stream_start(s.stream.from, s.stream.to)
            &&& s.stream.from > 0
            &&& s.stream.to > 0
            &&& s.pending.len() == 0
            &&& gave.len() == 0
        },
        AnswerPhase::Wav => s.prefix == bytes && tts::begins_as_wav(bytes, SNIFFED_BYTES as nat)
            && gave.len() == 0,
        AnswerPhase::Streaming => {
            &&& pcm::carries(s.stream, bytes)
            &&& bytes.len() >= SNIFFED_BYTES
            &&& !tts::begins_as_wav(bytes, 4)
            &&& glued(gave) + s.pending == pcm::given(s.stream)
        },
    }
}

proof fn lemma_streamed(
    s: AnswerView,
    bytes: Seq<u8>,
    more: Seq<u8>,
    gave: Seq<Seq<Tap>>,
)
    requires
        s.chunk > 0,
        pcm::carries(s.stream, bytes),
        glued(gave) + s.pending == pcm::given(s.stream),
    ensures
        pcm::carries(streamed(s, more).stream, bytes + more),
        glued(gave + full_pieces(pending_after(s, more), s.chunk)) + streamed(s, more).pending
            == pcm::given(streamed(s, more).stream),
{
    pcm::lemma_pushed_carries(s.stream, bytes, more);
    let p = pending_after(s, more);
    let g = full_pieces(p, s.chunk);
    law_chunks_and_rest_are_all(p, s.chunk);
    lemma_glued_adds(gave, g);
    assert((glued(gave) + glued(g)) + remainder(p, s.chunk) =~= glued(gave) + (glued(g)
        + remainder(p, s.chunk)));
    assert(glued(gave) + (s.pending + pcm::push_gives(s.stream, more)) =~= (glued(gave) + s.pending)
        + pcm::push_gives(s.stream, more));
}

proof fn lemma_fed_stands(s: AnswerView, bytes: Seq<u8>, more: Seq<u8>, gave: Seq<Seq<Tap>>)
    requires
        stands(s, bytes, gave),
    ensures
        stands(fed(s, more), bytes + more, gave + fed_gives(s, more)),
{
    let all = s.prefix + more;
    match s.phase {
        AnswerPhase::Sniffing => {
            assert(gave =~= Seq::empty());
            if all.len() < SNIFFED_BYTES || tts::begins_as_wav(all, 4) {
                assert(gave + fed_gives(s, more) =~= gave);
            } else {
                pcm::lemma_start_carries(s.stream.from, s.stream.to);
                assert(glued(gave) + s.pending =~= pcm::given(s.stream));
                lemma_streamed(s, Seq::empty(), all, gave);
                assert(Seq::<u8>::empty() + all =~= all);
            }
        },
        AnswerPhase::Wav => {
            assert forall|i: int| 0 <= i < 4 implies (bytes + more)[i] == bytes[i] by {}
            assert(gave + fed_gives(s, more) =~= gave);
        },
        AnswerPhase::Streaming => {
            lemma_streamed(s, bytes, more, gave);
            assert forall|i: int| 0 <= i < 4 implies (bytes + more)[i] == bytes[i] by {}
        },
    }
}

proof fn lemma_answer_stands(from: int, to: int, chunk: nat, parts: Seq<Seq<u8>>)
    requires
        from > 0,
        to > 0,
        chunk > 0,
    ensures
        stands(
            answer_after(from, to, chunk, parts),
            pcm::whole(parts),
            passed_on(from, to, chunk, parts),
        ),
        answer_after(from, to, chunk, parts).stream.from == from,
        answer_after(from, to, chunk, parts).stream.to == to,
    decreases parts.len(),
{
    if parts.len() > 0 {
        let t = parts.drop_last();
        lemma_answer_stands(from, to, chunk, t);
        lemma_fed_stands(
            answer_after(from, to, chunk, t),
            pcm::whole(t),
            parts.last(),
            passed_on(from, to, chunk, t),
        );
    }
}

proof fn lemma_glued_one<T>(v: Seq<T>)
    ensures
        glued(seq![v]) == v,
        glued(Seq::<Seq<T>>::empty()) == Seq::<T>::empty(),
{
    let e = Seq::<Seq<T>>::empty();
    assert(seq![v].drop_first() =~= e);
    assert(glued(e) =~= Seq::<T>::empty());
    assert(glued(seq![v]) == seq![v][0] + glued(seq![v].drop_first()));
    assert(v + Seq::<T>::empty() =~= v);
}

proof fn lemma_streaming_ends(
    s: AnswerView,
    bytes: Seq<u8>,
    gave: Seq<Seq<Tap>>,
    last: Seq<Seq<Tap>>,
    ending: Ending,
)
    requires
        pcm::carries(s.stream, bytes),
        glued(gave) + s.pending == pcm::given(s.stream),
        streaming_ends(s, last, ending),
        bytes.len() % 2 == 0,
    ensures
        glued(gave + last) == pcm::resampled(pcm::decoded(bytes), s.stream.from, s.stream.to),
{
    pcm::lemma_finished(s.stream, bytes);
    let rest = s.pending + pcm::finish_gives(s.stream);
    lemma_glued_adds(gave, last);
    lemma_glued_one(rest);
    assert(glued(last) =~= rest);
    assert(glued(gave) + rest =~= (glued(gave) + s.pending) + pcm::finish_gives(s.stream));
}

/// However an answer is cut on its way, the pieces that are passed on are together
/// its samples at the wanted rate.
pub proof fn law_answer_is_played_whole(
    from: int,
    to: int,
    chunk: nat,
    parts: Seq<Seq<u8>>,
    last: Seq<Seq<Tap>>,
    ending: Ending,
)
    requires
        from > 0,
        to > 0,
        chunk > 0,
        !tts::begins_as_wav(pcm::whole(parts), 4),
        pcm::whole(parts).len() % 2 == 0,
        answer_ends(answer_after(from, to, chunk, parts), last, ending),
    ensures
        glued(passed_on(from, to, chunk, parts) + last) == pcm::resampled(
            pcm::decoded(pcm::whole(parts)),
            from,
            to,
        ),
{
    lemma_answer_stands(from, to, chunk, parts);
    let s = answer_after(from, to, chunk, parts);
    let gave = passed_on(from, to, chunk, parts);
    match s.phase {
        AnswerPhase::Streaming => {
            lemma_streaming_ends(s, pcm::whole(parts), gave, last, ending);
        },
        AnswerPhase::Sniffing => {
            let head = full_pieces(pending_after(s, s.prefix), s.chunk);
            let tail = choose|tail: Seq<Seq<Tap>>|
                {
                    &&& last == head + tail
                    &&& #[trigger] streaming_ends(streamed(s, s.prefix), tail, ending)
                };
            pcm::lemma_start_carries(from, to);
            assert(glued(gave) + s.pending =~= pcm::given(s.stream));
            lemma_streamed(s, Seq::empty(), s.prefix, gave);
            assert(Seq::<u8>::empty() + s.prefix =~= s.prefix);
            lemma_streaming_ends(streamed(s, s.prefix), s.prefix, gave + head, tail, ending);
            assert((gave + head) + tail =~= gave + last);
        },
        AnswerPhase::Wav => {},
    }
}

/// An answer that is a WAV file after all comes back whole, and nothing of it is
/// passed on as raw samples.
pub proof fn law_wav_answer_comes_back(
    from: int,
    to: int,
    chunk: nat,
    parts: Seq<Seq<u8>>,
    last: Seq<Seq<Tap>>,
    ending: Ending,
)
    requires
        from > 0,
        to > 0,
        chunk > 0,
        tts::begins_as_wav(pcm::whole(parts), 4),
        answer_ends(answer_after(from, to, chunk, parts), last, ending),
    ensures
        passed_on(from, to, chunk, parts).len() == 0,
        last.len() == 0,
        ending matches Ending::Wav(b) && b@ == pcm::whole(parts),
{
    lemma_answer_stands(from, to, chunk, parts);
}

/// The slices of an answer have the same length but for the last, which is not
/// empty and no longer.
pub proof fn law_slices_have_the_length<T>(v: Seq<T>, n: nat, i: int)
    requires
        n > 0,
        0 <= i < pieces(v, n).len(),
    ensures
        0 < pieces(v, n)[i].len() <= n,
        i + 1 < pieces(v, n).len() ==> pieces(v, n)[i].len() == n,
    decreases v.len(),
{
    if v.len() > n && i > 0 {
        let t = v.skip(n as int);
        law_slices_have_the_length(t, n, i - 1);
        assert(pieces(v, n)[i] == pieces(t, n)[i - 1]);
    }
}

/// A slice lasts two seconds, and has no fewer than 8000 samples.
pub proof fn law_slice_lasts_two_seconds(sample_rate: u32)
    ensures
        slice_len(sample_rate) >= 8000,
        sample_rate >= 4000 ==> slice_len(sample_rate) == 2 * sample_rate,
        sample_rate < 4000 ==> slice_len(sample_rate) == 8000,
{
}

/// Every chunk that is passed on while an answer comes has the length of a chunk,
/// and none is held back: less than one waits.
pub proof fn law_chunks_have_the_length(s: AnswerView, bytes: Seq<u8>, i: int)
    requires
        s.chunk > 0,
    ensures
        0 <= i < fed_gives(s, bytes).len() ==> fed_gives(s, bytes)[i].len() == s.chunk,
        fed(s, bytes).phase == AnswerPhase::Streaming ==> fed(s, bytes).pending.len() < s.chunk,
{
    let all = s.prefix + bytes;
    lemma_full_pieces_are_full(pending_after(s, all), s.chunk, i);
    lemma_full_pieces_are_full(pending_after(s, bytes), s.chunk, i);
    law_chunks_and_rest_are_all(pending_after(s, all), s.chunk);
    law_chunks_and_rest_are_all(pending_after(s, bytes), s.chunk);
}

proof fn lemma_full_pieces_are_full<T>(v: Seq<T>, n: nat, i: int)
    requires
        n > 0,
    ensures
        0 <= i < full_pieces(v, n).len() ==> full_pieces(v, n)[i].len() == n,
    decreases v.len(),
{
    if v.len() >= n && i > 0 {
        let t = v.skip(n as int);
        lemma_full_pieces_are_full(t, n, i - 1);
        if i < full_pieces(v, n).len() {
            assert(full_pieces(v, n)[i] == full_pieces(t, n)[i - 1]);
        }
    }
}

/// Whether an answer is a WAV file is told by its first twelve bytes: before they are
/// there nothing is passed on, and from then on it stays what it is.
pub proof fn law_answer_is_sniffed_once(s: AnswerView, bytes: Seq<u8>)
    requires
        s.phase == AnswerPhase::Sniffing,
    ensures
        ({
            let all = s.prefix + bytes;
            let t = fed(s, bytes);
            &&& all.len() < 12 ==> t.phase == AnswerPhase::Sniffing && t.prefix == all
                && fed_gives(s, bytes).len() == 0
            &&& all.len() >= 12 && all[0] == 82 && all[1] == 73 && all[2] == 70 && all[3] == 70
                ==> t.phase == AnswerPhase::Wav && t.prefix == all && fed_gives(s, bytes).len() == 0
            &&& all.len() >= 12 && !(all[0] == 82 && all[1] == 73 && all[2] == 70 && all[3] == 70)
                ==> t.phase == AnswerPhase::Streaming
        }),
{
}

/// How a raw answer ends: with an odd byte or without a sample it failed, and else it
/// tells how many samples were passed on.
pub proof fn law_end_of_an_answer(s: AnswerView, gives: Seq<Seq<Tap>>, ending: Ending)
    requires
        streaming_ends(s, gives, ending),
        s.stream.from > 0,
        s.stream.to > 0,
    ensures
        s.stream.odd is Some ==> ending is Failed && gives.len() == 0,
        s.stream.odd is None && s.stream.source.len() * s.stream.to / s.stream.from == 0 ==> ending
            is Failed,
        s.stream.odd is None && s.stream.source.len() * s.stream.to / s.stream.from > 0 ==> (
        ending matches Ending::Played(n) && n == s.stream.source.len() * s.stream.to
            / s.stream.from),
        gives.len() <= 1,
{
    if s.stream.from == s.stream.to {
        let n = s.stream.source.len() as int;
        assert(n * s.stream.to == s.stream.from * n) by (nonlinear_arith)
            requires
                s.stream.from == s.stream.to,
        ;
        vstd::arithmetic::div_mod::lemma_div_multiples_vanish(n, s.stream.from);
    }
}

} // verus!
