//! Raw audio: 16-bit samples as little-endian bytes, and how a stream of them is
//! brought to another rate.

use vstd::prelude::*;

verus! {

/// The sample of two bytes, the low one first.
pub open spec fn sample_of(low: u8, high: u8) -> i16 {
    let u = low + 256 * high;
    if u < 32768 {
        u as i16
    } else {
        (u - 65536) as i16
    }
}

fn sample_from(low: u8, high: u8) -> (r: i16)
    ensures
        r == sample_of(low, high),
{
    let u: i32 = (low as i32) + 256 * (high as i32);
    if u < 32768 {
        u as i16
    } else {
        (u - 65536) as i16
    }
}

pub open spec fn low_byte(s: i16) -> u8 {
    (s as int % 256) as u8
}

pub open spec fn high_byte(s: i16) -> u8 {
    ((if s < 0 {
        s + 65536
    } else {
        s as int
    }) / 256) as u8
}

/// The samples of some bytes; an odd byte at the end is left out.
pub open spec fn decoded(bytes: Seq<u8>) -> Seq<i16> {
    Seq::new((bytes.len() / 2) as nat, |i: int| sample_of(bytes[2 * i], bytes[2 * i + 1]))
}

/// The bytes of some samples.
pub open spec fn encoded(samples: Seq<i16>) -> Seq<u8> {
    Seq::new(
        (2 * samples.len()) as nat,
        |i: int|
            if i % 2 == 0 {
                low_byte(samples[i / 2])
            } else {
                high_byte(samples[i / 2])
            },
    )
}

pub fn bytes_to_i16_le(bytes: &[u8]) -> (r: Vec<i16>)
    ensures
        r@ == decoded(bytes@),
{
    let mut out: Vec<i16> = Vec::new();
    let n: usize = bytes.len() / 2;
    let mut i: usize = 0;
    while i < n
        invariant
            i <= n,
            n == bytes@.len() / 2,
            out@.len() == i,
            forall|k: int| 0 <= k < i ==> out@[k] == decoded(bytes@)[k],
        decreases n - i,
    {
        assert(2 * i + 1 < bytes.len());
        out.push(sample_from(bytes[2 * i], bytes[2 * i + 1]));
        i += 1;
    }
    assert(out@ =~= decoded(bytes@));
    out
}

pub fn i16_to_bytes_le(samples: &[i16]) -> (r: Vec<u8>)
    ensures
        r@ == encoded(samples@),
{
    let mut out: Vec<u8> = Vec::new();
    let mut i: usize = 0;
    while i < samples.len()
        invariant
            i <= samples@.len(),
            out@.len() == 2 * i,
            forall|k: int| 0 <= k < 2 * i ==> out@[k] == encoded(samples@)[k],
        decreases samples.len() - i,
    {
        let s: i16 = samples[i];
        let u: i32 = if s < 0 {
            s as i32 + 65536
        } else {
            s as i32
        };
        assert(u % 256 == s as int % 256);
        out.push((u % 256) as u8);
        out.push((u / 256) as u8);
        i += 1;
    }
    assert(out@ =~= encoded(samples@));
    out
}

/// Decoding gives back what was encoded.
pub proof fn law_samples_survive(samples: Seq<i16>)
    ensures
        decoded(encoded(samples)) == samples,
{
    let b = encoded(samples);
    assert forall|i: int| 0 <= i < samples.len() implies decoded(b)[i] == samples[i] by {
        assert((2 * i) % 2 == 0 && (2 * i) / 2 == i);
        assert((2 * i + 1) % 2 == 1 && (2 * i + 1) / 2 == i);
        lemma_bytes_of(samples[i]);
    }
    assert(decoded(b) =~= samples);
}

proof fn lemma_bytes_of(s: i16)
    ensures
        sample_of(low_byte(s), high_byte(s)) == s,
{
    let u = if s < 0 {
        s + 65536
    } else {
        s as int
    };
    assert(u % 256 == s as int % 256);
    assert(u == u % 256 + 256 * (u / 256));
}

/// Encoding gives back whole samples that were decoded.
pub proof fn law_bytes_survive(bytes: Seq<u8>)
    requires
        bytes.len() % 2 == 0,
    ensures
        encoded(decoded(bytes)) == bytes,
{
    let s = decoded(bytes);
    assert forall|i: int| 0 <= i < bytes.len() implies encoded(s)[i] == bytes[i] by {
        let k = i / 2;
        lemma_sample_bytes(bytes[2 * k], bytes[2 * k + 1]);
    }
    assert(encoded(s) =~= bytes);
}

proof fn lemma_sample_bytes(low: u8, high: u8)
    ensures
        low_byte(sample_of(low, high)) == low,
        high_byte(sample_of(low, high)) == high,
{
    let u = low + 256 * high;
    assert(u % 256 == low as int);
    assert(u / 256 == high as int);
    if u >= 32768 {
        assert((u - 65536) % 256 == low as int);
    }
}

// ---------------------------------------------------------------------------
// Another rate
// ---------------------------------------------------------------------------

/// A sample at another rate lies between two neighbours of the source: `before`
/// and `after`. Its place between them follows from its `index`.
#[derive(Debug, Clone, Copy, PartialEq, Eq, Structural)]
pub struct Tap {
    pub index: u64,
    pub before: i16,
    pub after: i16,
}

/// The source sample at or before which a sample at another rate lies.
pub open spec fn position(index: int, from: int, to: int) -> int {
    index * from / to
}

/// The neighbours of a sample; the last sample of the source is its own successor,
/// and at the same rate every sample is.
pub open spec fn tap(source: Seq<i16>, index: int, from: int, to: int) -> Tap {
    if from == to {
        Tap { index: index as u64, before: source[index], after: source[index] }
    } else {
        let p = position(index, from, to);
        let last = source.len() - 1;
        Tap {
            index: index as u64,
            before: source[if p < last {
                p
            } else {
                last
            }],
            after: source[if p + 1 < last {
                p + 1
            } else {
                last
            }],
        }
    }
}

/// How many samples a source gives at another rate.
pub open spec fn resampled_len(n: int, from: int, to: int) -> int {
    if from == to {
        n
    } else {
        n * to / from
    }
}

pub open spec fn taps(source: Seq<i16>, first: int, end: int, from: int, to: int) -> Seq<Tap> {
    Seq::new((end - first) as nat, |k: int| tap(source, first + k, from, to))
}

/// A source at another rate.
pub open spec fn resampled(source: Seq<i16>, from: int, to: int) -> Seq<Tap> {
    taps(source, 0, resampled_len(source.len() as int, from, to), from, to)
}

/// Whether a sample does not depend on what is still to come of a source.
pub open spec fn is_settled(index: int, n: int, from: int, to: int) -> bool {
    index < resampled_len(n, from, to) && (from == to || position(index, from, to) + 1 < n)
}

/// The first sample from an index on that is not settled.
pub open spec fn settled_end(index: int, n: int, from: int, to: int) -> int
    decreases resampled_len(n, from, to) - index,
{
    if is_settled(index, n, from, to) {
        settled_end(index + 1, n, from, to)
    } else {
        index
    }
}

pub open spec fn at_least_one(rate: u32) -> int {
    if rate == 0 {
        1
    } else {
        rate as int
    }
}

/// A stream that is brought to another rate.
pub struct StreamView {
    pub from: int,
    pub to: int,
    pub source: Seq<i16>,
    pub produced: int,
    pub odd: Option<u8>,
}

/// The bytes of a stream that wait to be decoded.
pub open spec fn waiting(odd: Option<u8>, bytes: Seq<u8>) -> Seq<u8> {
    match odd {
        Some(b) => seq![b] + bytes,
        None => bytes,
    }
}

pub open spec fn odd_end(bytes: Seq<u8>) -> Option<u8> {
    if bytes.len() % 2 == 1 {
        Some(bytes.last())
    } else {
        None
    }
}

/// A stream after more bytes.
pub open spec fn pushed(s: StreamView, bytes: Seq<u8>) -> StreamView {
    let w = waiting(s.odd, bytes);
    let source = s.source + decoded(w);
    StreamView {
        source,
        odd: odd_end(w),
        produced: settled_end(s.produced, source.len() as int, s.from, s.to),
        ..s
    }
}

/// The samples that a stream gives for more bytes.
pub open spec fn push_gives(s: StreamView, bytes: Seq<u8>) -> Seq<Tap> {
    let t = pushed(s, bytes);
    taps(t.source, s.produced, t.produced, s.from, s.to)
}

/// The samples that a stream gives at its end.
pub open spec fn finish_gives(s: StreamView) -> Seq<Tap> {
    taps(
        s.source,
        s.produced,
        resampled_len(s.source.len() as int, s.from, s.to),
        s.from,
        s.to,
    )
}

/// Decodes a stream of samples and brings it to another rate. What comes out does
/// not depend on how the stream is cut into pieces.
#[derive(Debug)]
pub struct StreamingPcmResampler {
    pub from_sr: u32,
    pub to_sr: u32,
    pub source: Vec<i16>,
    pub produced: u64,
    pub odd_byte: Option<u8>,
}

impl View for StreamingPcmResampler {
    type V = StreamView;

    open spec fn view(&self) -> StreamView {
        StreamView {
            from: self.from_sr as int,
            to: self.to_sr as int,
            source: self.source@,
            produced: self.produced as int,
            odd: self.odd_byte,
        }
    }
}

proof fn lemma_len_is_ordered(m: int, n: int, from: int, to: int)
    requires
        0 <= m <= n,
        from > 0,
        to > 0,
    ensures
        0 <= resampled_len(m, from, to) <= resampled_len(n, from, to),
{
    if from != to {
        assert(m * to <= n * to) by (nonlinear_arith)
            requires
                m <= n,
                to > 0,
        ;
        assert(0 <= m * to) by (nonlinear_arith)
            requires
                0 <= m,
                to > 0,
        ;
        vstd::arithmetic::div_mod::lemma_div_is_ordered(m * to, n * to, from);
        vstd::arithmetic::div_mod::lemma_div_pos_is_pos(m * to, from);
    }
}

/// A sample that is settled keeps its neighbours when the source grows.
proof fn lemma_settled_stays(source: Seq<i16>, more: Seq<i16>, index: int, from: int, to: int)
    requires
        0 <= index,
        from > 0,
        to > 0,
        is_settled(index, source.len() as int, from, to),
    ensures
        tap(source + more, index, from, to) == tap(source, index, from, to),
        is_settled(index, (source + more).len() as int, from, to),
{
    lemma_len_is_ordered(source.len() as int, (source + more).len() as int, from, to);
    if from != to {
        assert(0 <= index * from) by (nonlinear_arith)
            requires
                0 <= index,
                from > 0,
        ;
        vstd::arithmetic::div_mod::lemma_div_pos_is_pos(index * from, to);
    }
}

proof fn lemma_settled_end(index: int, n: int, from: int, to: int)
    ensures
        index <= settled_end(index, n, from, to),
        settled_end(index, n, from, to) <= resampled_len(n, from, to) || settled_end(
            index,
            n,
            from,
            to,
        ) == index,
        forall|i: int| index <= i < settled_end(index, n, from, to) ==> #[trigger] is_settled(i, n, from, to),
        !is_settled(settled_end(index, n, from, to), n, from, to),
    decreases resampled_len(n, from, to) - index,
{
    if is_settled(index, n, from, to) {
        lemma_settled_end(index + 1, n, from, to);
    }
}

/// Whether a length can be brought to another rate without leaving the numbers
/// that count samples; at the same rate any can.
pub open spec fn fits(n: int, from: int, to: int) -> bool {
    from == to || n * to <= u64::MAX
}

impl StreamingPcmResampler {
    /// Whether as many samples have come out as the source is worth at most.
    pub open spec fn wf(self) -> bool {
        &&& self.from_sr > 0
        &&& self.to_sr > 0
        &&& self.produced <= resampled_len(
            self.source@.len() as int,
            self.from_sr as int,
            self.to_sr as int,
        )
    }

    pub fn new(from_sr: u32, to_sr: u32) -> (r: Self)
        ensures
            r.wf(),
            r@ == stream_start(at_least_one(from_sr), at_least_one(to_sr)),
    {
        let r: Self = StreamingPcmResampler {
            from_sr: if from_sr == 0 {
                1
            } else {
                from_sr
            },
            to_sr: if to_sr == 0 {
                1
            } else {
                to_sr
            },
            source: Vec::new(),
            produced: 0,
            odd_byte: None,
        };
        proof {
            lemma_len_is_ordered(0, 0, r.from_sr as int, r.to_sr as int);
        }
        r
    }

    /// Takes in more bytes and gives the samples that no longer depend on what
    /// follows.
    pub fn push_bytes(&mut self, bytes: &[u8]) -> (r: Vec<Tap>)
        requires
            old(self).wf(),
            fits(
                pushed(old(self)@, bytes@).source.len() as int,
                old(self).from_sr as int,
                old(self).to_sr as int,
            ),
        ensures
            final(self).wf(),
            final(self)@ == pushed(old(self)@, bytes@),
            r@ == push_gives(old(self)@, bytes@),
    {
        let ghost start = self@;
        self.decode(bytes);
        proof {
            lemma_len_is_ordered(
                start.source.len() as int,
                self.source@.len() as int,
                self.from_sr as int,
                self.to_sr as int,
            );
        }
        self.produce_settled()
    }

    fn decode(&mut self, bytes: &[u8])
        ensures
            final(self)@ == (StreamView {
                source: old(self)@.source + decoded(waiting(old(self)@.odd, bytes@)),
                odd: odd_end(waiting(old(self)@.odd, bytes@)),
                ..old(self)@
            }),
            final(self).from_sr == old(self).from_sr,
            final(self).to_sr == old(self).to_sr,
            final(self).produced == old(self).produced,
    {
        let ghost start = self.source@;
        let ghost w = waiting(self.odd_byte, bytes@);
        let mut low: Option<u8> = self.odd_byte;
        let mut i: usize = 0;
        let ghost held: int = if low is Some {
            1
        } else {
            0
        };
        assert(w.take(held) =~= waiting(low, Seq::empty()));
        assert(decoded(w.take(held)) =~= Seq::<i16>::empty());
        assert(self.source@ =~= start + decoded(w.take(held)));
        while i < bytes.len()
            invariant
                i <= bytes.len(),
                0 <= held <= 1,
                w.len() == bytes@.len() + held,
                forall|k: int| 0 <= k < bytes@.len() ==> w[held + k] == bytes@[k],
                self.source@ == start + decoded(w.take(held + i)),
                low == odd_end(w.take(held + i)),
                self.from_sr == old(self).from_sr,
                self.to_sr == old(self).to_sr,
                self.produced == old(self).produced,
            decreases bytes.len() - i,
        {
            let b: u8 = bytes[i];
            let ghost t = w.take(held + i);
            let ghost u = w.take(held + i + 1);
            assert(u =~= t.push(b));
            match low {
                Some(a) => {
                    let s: i16 = sample_from(a, b);
                    self.source.push(s);
                    low = None;
                    assert(decoded(u) =~= decoded(t).push(s));
                    assert(self.source@ =~= start + decoded(u));
                },
                None => {
                    low = Some(b);
                    assert(decoded(u) =~= decoded(t));
                },
            }
            i += 1;
        }
        assert(w.take(held + i) =~= w);
        self.odd_byte = low;
    }

    fn produce_settled(&mut self) -> (r: Vec<Tap>)
        requires
            old(self).wf(),
            fits(
                old(self).source@.len() as int,
                old(self).from_sr as int,
                old(self).to_sr as int,
            ),
        ensures
            final(self).wf(),
            final(self)@ == (StreamView {
                produced: settled_end(
                    old(self)@.produced,
                    old(self)@.source.len() as int,
                    old(self)@.from,
                    old(self)@.to,
                ),
                ..old(self)@
            }),
            r@ == taps(
                old(self)@.source,
                old(self)@.produced,
                final(self)@.produced,
                old(self)@.from,
                old(self)@.to,
            ),
    {
        let ghost start = self@;
        let ghost n = self.source@.len() as int;
        let mut out: Vec<Tap> = Vec::new();
        assert(out@ =~= taps(start.source, start.produced, start.produced, start.from, start.to));
        let target: u64 = self.target();
        while self.produced < target && self.next_is_settled()
            invariant
                self.wf(),
                start.from > 0,
                start.to > 0,
                n == start.source.len(),
                fits(n, start.from, start.to),
                target == resampled_len(n, start.from, start.to),
                self@ == (StreamView { produced: self@.produced, ..start }),
                start.produced <= self@.produced,
                settled_end(start.produced, n, start.from, start.to) == settled_end(
                    self@.produced,
                    n,
                    start.from,
                    start.to,
                ),
                out@ == taps(
                    start.source,
                    start.produced,
                    self@.produced,
                    start.from,
                    start.to,
                ),
            decreases target - self.produced,
        {
            let ghost before = out@;
            out.push(self.next_tap());
            self.produced = self.produced + 1;
            assert(out@ =~= taps(
                start.source,
                start.produced,
                self@.produced,
                start.from,
                start.to,
            ));
        }
        out
    }

    /// How many samples the source is worth.
    fn target(&self) -> (r: u64)
        requires
            self.wf(),
            fits(self.source@.len() as int, self.from_sr as int, self.to_sr as int),
        ensures
            r == resampled_len(
                self.source@.len() as int,
                self.from_sr as int,
                self.to_sr as int,
            ),
    {
        if self.from_sr == self.to_sr {
            self.source.len() as u64
        } else {
            let n: u64 = self.source.len() as u64;
            n * (self.to_sr as u64) / (self.from_sr as u64)
        }
    }

    /// The source sample at or before the next sample.
    fn next_position(&self) -> (r: u64)
        requires
            self.wf(),
            fits(self.source@.len() as int, self.from_sr as int, self.to_sr as int),
            self.from_sr != self.to_sr,
            self.produced < resampled_len(
                self.source@.len() as int,
                self.from_sr as int,
                self.to_sr as int,
            ),
        ensures
            r == position(self.produced as int, self.from_sr as int, self.to_sr as int),
            r < self.source@.len(),
    {
        proof {
            lemma_position_inside(
                self.produced as int,
                self.source@.len() as int,
                self.from_sr as int,
                self.to_sr as int,
            );
        }
        self.produced * (self.from_sr as u64) / (self.to_sr as u64)
    }

    fn next_is_settled(&self) -> (r: bool)
        requires
            self.wf(),
            fits(self.source@.len() as int, self.from_sr as int, self.to_sr as int),
            self.produced < resampled_len(
                self.source@.len() as int,
                self.from_sr as int,
                self.to_sr as int,
            ),
        ensures
            r == is_settled(
                self.produced as int,
                self.source@.len() as int,
                self.from_sr as int,
                self.to_sr as int,
            ),
    {
        if self.from_sr == self.to_sr {
            true
        } else {
            let n: u64 = self.source.len() as u64;
            self.next_position() < n - 1
        }
    }

    fn next_tap(&self) -> (r: Tap)
        requires
            self.wf(),
            fits(self.source@.len() as int, self.from_sr as int, self.to_sr as int),
            self.produced < resampled_len(
                self.source@.len() as int,
                self.from_sr as int,
                self.to_sr as int,
            ),
        ensures
            r == tap(
                self.source@,
                self.produced as int,
                self.from_sr as int,
                self.to_sr as int,
            ),
    {
        if self.from_sr == self.to_sr {
            assert(self.produced < self.source.len());
            let s: i16 = self.source[self.produced as usize];
            Tap { index: self.produced, before: s, after: s }
        } else {
            let q: u64 = self.next_position();
            assert(q < self.source.len());
            let p: usize = q as usize;
            let last: usize = self.source.len() - 1;
            Tap {
                index: self.produced,
                before: self.source[p],
                after: self.source[if p < last {
                    p + 1
                } else {
                    last
                }],
            }
        }
    }

    /// Gives the samples that are left at the end of the stream, which must not end
    /// inside a sample.
    pub fn finish(&mut self) -> (r: Result<Vec<Tap>, String>)
        requires
            old(self).wf(),
            fits(
                old(self).source@.len() as int,
                old(self).from_sr as int,
                old(self).to_sr as int,
            ),
        ensures
            final(self).wf(),
            match r {
                Ok(v) => {
                    &&& old(self)@.odd is None
                    &&& v@ == finish_gives(old(self)@)
                    &&& final(self)@ == (StreamView {
                        produced: resampled_len(
                            old(self)@.source.len() as int,
                            old(self)@.from,
                            old(self)@.to,
                        ),
                        ..old(self)@
                    })
                },
                Err(m) => {
                    &&& old(self)@.odd is Some
                    &&& m@ == "TTS PCM stream ended with an odd byte"@
                    &&& final(self)@ == old(self)@
                },
            },
    {
        if self.odd_byte.is_some() {
            return Err(String::from_str("TTS PCM stream ended with an odd byte"));
        }
        let ghost start = self@;
        let mut out: Vec<Tap> = Vec::new();
        let target: u64 = self.target();
        assert(out@ =~= taps(start.source, start.produced, start.produced, start.from, start.to));
        while self.produced < target
            invariant
                self.wf(),
                fits(start.source.len() as int, start.from, start.to),
                target == resampled_len(start.source.len() as int, start.from, start.to),
                self@ == (StreamView { produced: self@.produced, ..start }),
                start.produced <= self@.produced,
                out@ == taps(
                    start.source,
                    start.produced,
                    self@.produced,
                    start.from,
                    start.to,
                ),
            decreases target - self.produced,
        {
            out.push(self.next_tap());
            self.produced = self.produced + 1;
            assert(out@ =~= taps(
                start.source,
                start.produced,
                self@.produced,
                start.from,
                start.to,
            ));
        }
        Ok(out)
    }
}

pub proof fn lemma_fits_less(m: int, n: int, from: int, to: int)
    requires
        0 <= m <= n,
        0 <= to,
        fits(n, from, to),
    ensures
        fits(m, from, to),
{
    assert(m * to <= n * to) by (nonlinear_arith)
        requires
            m <= n,
            0 <= to,
    ;
}

/// A sample that a source is worth lies inside it.
proof fn lemma_position_inside(index: int, n: int, from: int, to: int)
    requires
        0 <= index < resampled_len(n, from, to),
        0 <= n,
        from > 0,
        to > 0,
        from != to,
        fits(n, from, to),
    ensures
        0 <= position(index, from, to) < n,
        0 <= index * from <= u64::MAX,
{
    let q = n * to / from;
    assert(index + 1 <= q);
    assert(q * from <= n * to) by {
        vstd::arithmetic::div_mod::lemma_fundamental_div_mod(n * to, from);
        vstd::arithmetic::div_mod::lemma_mod_bound(n * to, from);
        assert(from * q == q * from) by (nonlinear_arith);
    }
    assert((index + 1) * from <= q * from) by (nonlinear_arith)
        requires
            index + 1 <= q,
            from > 0,
    ;
    assert((index + 1) * from == index * from + from) by (nonlinear_arith);
    assert(0 <= index * from) by (nonlinear_arith)
        requires
            0 <= index,
            from > 0,
    ;
    assert(index * from < n * to);
    vstd::arithmetic::div_mod::lemma_div_pos_is_pos(index * from, to);
    let p = index * from / to;
    if p >= n {
        vstd::arithmetic::div_mod::lemma_fundamental_div_mod(index * from, to);
        vstd::arithmetic::div_mod::lemma_mod_bound(index * from, to);
        assert(to * p >= n * to) by (nonlinear_arith)
            requires
                p >= n,
                to > 0,
        ;
    }
}

/// Brings samples to another rate at once; at a rate of nothing there are none.
/// What is empty or has the rate already stays as it is.
pub fn resample_i16_linear(input: &[i16], from_sr: u32, to_sr: u32) -> (r: Vec<Tap>)
    requires
        from_sr > 0 || from_sr == to_sr || input@.len() == 0,
        fits(input@.len() as int, from_sr as int, to_sr as int),
    ensures
        if input@.len() == 0 {
            r@.len() == 0
        } else {
            r@ == resampled(input@, from_sr as int, to_sr as int)
        },
{
    if input.len() == 0 || (to_sr == 0 && from_sr != 0) {
        let none: Vec<Tap> = Vec::new();
        proof {
            if input@.len() > 0 {
                assert((input@.len() as int) * 0 / (from_sr as int) == 0) by (nonlinear_arith)
                    requires
                        from_sr > 0,
                ;
                assert(none@ =~= resampled(input@, from_sr as int, to_sr as int));
            }
        }
        return none;
    }
    let mut s: StreamingPcmResampler = StreamingPcmResampler::new(from_sr, to_sr);
    let mut i: usize = 0;
    while i < input.len()
        invariant
            i <= input.len(),
            s.source@ == input@.take(i as int),
            s.produced == 0,
            s.odd_byte is None,
            s.from_sr == at_least_one(from_sr),
            s.to_sr == at_least_one(to_sr),
        decreases input.len() - i,
    {
        s.source.push(input[i]);
        assert(s.source@ =~= input@.take(i + 1));
        i += 1;
    }
    assert(input@.take(i as int) =~= input@);
    proof {
        lemma_len_is_ordered(0, input@.len() as int, s.from_sr as int, s.to_sr as int);
    }
    match s.finish() {
        Ok(v) => {
            assert(v@ =~= resampled(input@, from_sr as int, to_sr as int));
            v
        },
        Err(_) => Vec::new(),
    }
}

// ---------------------------------------------------------------------------
// Pieces
// ---------------------------------------------------------------------------

pub open spec fn stream_start(from: int, to: int) -> StreamView {
    StreamView { from, to, source: Seq::empty(), produced: 0, odd: None }
}

/// A stream after some pieces.
pub open spec fn after_pieces(from: int, to: int, pieces: Seq<Seq<u8>>) -> StreamView
    decreases pieces.len(),
{
    if pieces.len() == 0 {
        stream_start(from, to)
    } else {
        pushed(after_pieces(from, to, pieces.drop_last()), pieces.last())
    }
}

/// What a stream has given after some pieces.
pub open spec fn given_for_pieces(from: int, to: int, pieces: Seq<Seq<u8>>) -> Seq<Tap>
    decreases pieces.len(),
{
    if pieces.len() == 0 {
        Seq::empty()
    } else {
        given_for_pieces(from, to, pieces.drop_last()) + push_gives(
            after_pieces(from, to, pieces.drop_last()),
            pieces.last(),
        )
    }
}

pub open spec fn whole(pieces: Seq<Seq<u8>>) -> Seq<u8>
    decreases pieces.len(),
{
    if pieces.len() == 0 {
        Seq::empty()
    } else {
        whole(pieces.drop_last()) + pieces.last()
    }
}

proof fn lemma_decoded_grows(b: Seq<u8>, more: Seq<u8>)
    ensures
        decoded(b + more) == decoded(b) + decoded(waiting(odd_end(b), more)),
        odd_end(b + more) == odd_end(waiting(odd_end(b), more)),
{
    let w = waiting(odd_end(b), more);
    let l = decoded(b + more);
    let r = decoded(b) + decoded(w);
    assert(l.len() == r.len());
    assert forall|i: int| 0 <= i < l.len() implies l[i] == r[i] by {
        if i < b.len() / 2 {
        } else {
            let k = i - b.len() / 2;
            if b.len() % 2 == 0 {
                assert((b + more)[2 * i] == more[2 * k]);
                assert((b + more)[2 * i + 1] == more[2 * k + 1]);
            } else {
                assert(2 * i == b.len() - 1 + 2 * k);
                assert((b + more)[2 * i] == w[2 * k]);
                assert((b + more)[2 * i + 1] == w[2 * k + 1]);
            }
        }
    }
    assert(l =~= r);
}

/// What holds of a stream whatever pieces its bytes came in.
pub open spec fn carries(s: StreamView, bytes: Seq<u8>) -> bool {
    let n = decoded(bytes).len() as int;
    &&& s.from > 0
    &&& s.to > 0
    &&& s.source == decoded(bytes)
    &&& s.odd == odd_end(bytes)
    &&& 0 <= s.produced <= resampled_len(n, s.from, s.to)
    &&& forall|i: int| 0 <= i < s.produced ==> #[trigger] is_settled(i, n, s.from, s.to)
}

/// All that a stream has given.
pub open spec fn given(s: StreamView) -> Seq<Tap> {
    taps(s.source, 0, s.produced, s.from, s.to)
}

pub proof fn lemma_start_carries(from: int, to: int)
    requires
        from > 0,
        to > 0,
    ensures
        carries(stream_start(from, to), Seq::empty()),
        given(stream_start(from, to)) == Seq::<Tap>::empty(),
{
    lemma_len_is_ordered(0, 0, from, to);
    assert(decoded(Seq::empty()) =~= Seq::<i16>::empty());
    assert(given(stream_start(from, to)) =~= Seq::<Tap>::empty());
}

pub proof fn lemma_pushed_carries(s: StreamView, bytes: Seq<u8>, more: Seq<u8>)
    requires
        carries(s, bytes),
    ensures
        carries(pushed(s, more), bytes + more),
        given(s) + push_gives(s, more) == given(pushed(s, more)),
{
    let u = pushed(s, more);
    lemma_decoded_grows(bytes, more);
    let new = decoded(waiting(s.odd, more));
    let n = u.source.len() as int;
    lemma_settled_end(s.produced, n, s.from, s.to);
    lemma_len_is_ordered(s.source.len() as int, n, s.from, s.to);
    assert forall|i: int| 0 <= i < u.produced implies #[trigger] is_settled(
        i,
        n,
        s.from,
        s.to,
    ) by {
        if i < s.produced {
            assert(is_settled(i, s.source.len() as int, s.from, s.to));
            lemma_settled_stays(s.source, new, i, s.from, s.to);
        }
    }
    let l = given(s) + push_gives(s, more);
    let r = given(u);
    assert forall|i: int| 0 <= i < r.len() implies l[i] == r[i] by {
        if i < s.produced {
            assert(is_settled(i, s.source.len() as int, s.from, s.to));
            lemma_settled_stays(s.source, new, i, s.from, s.to);
        }
    }
    assert(l =~= r);
}

pub proof fn lemma_finished(s: StreamView, bytes: Seq<u8>)
    requires
        carries(s, bytes),
    ensures
        given(s) + finish_gives(s) == resampled(decoded(bytes), s.from, s.to),
{
    assert(given(s) + finish_gives(s) =~= resampled(decoded(bytes), s.from, s.to));
}

proof fn lemma_stream(from: int, to: int, pieces: Seq<Seq<u8>>)
    requires
        from > 0,
        to > 0,
    ensures
        ({
            let s = after_pieces(from, to, pieces);
            &&& s.from == from && s.to == to
            &&& carries(s, whole(pieces))
            &&& given_for_pieces(from, to, pieces) == given(s)
        }),
    decreases pieces.len(),
{
    if pieces.len() == 0 {
        lemma_start_carries(from, to);
    } else {
        let t = pieces.drop_last();
        lemma_stream(from, to, t);
        lemma_pushed_carries(after_pieces(from, to, t), whole(t), pieces.last());
    }
}

/// However a stream is cut into pieces, all that comes out of it is what comes of
/// bringing its samples to the other rate at once.
pub proof fn law_pieces_do_not_matter(from: int, to: int, pieces: Seq<Seq<u8>>)
    requires
        from > 0,
        to > 0,
        whole(pieces).len() % 2 == 0,
    ensures
        given_for_pieces(from, to, pieces) + finish_gives(after_pieces(from, to, pieces))
            == resampled(decoded(whole(pieces)), from, to),
{
    lemma_stream(from, to, pieces);
    lemma_finished(after_pieces(from, to, pieces), whole(pieces));
}

/// Two streams with the same whole samples, cut in different ways, give the same:
/// as many samples as the source is worth at the other rate, and at the same rate
/// the samples themselves.
pub proof fn law_two_cuts_agree(from: int, to: int, a: Seq<Seq<u8>>, b: Seq<Seq<u8>>)
    requires
        from > 0,
        to > 0,
        whole(a) == whole(b),
        whole(a).len() % 2 == 0,
    ensures
        ({
            let x = given_for_pieces(from, to, a) + finish_gives(after_pieces(from, to, a));
            let y = given_for_pieces(from, to, b) + finish_gives(after_pieces(from, to, b));
            let n = whole(a).len() as int / 2;
            &&& x == y
            &&& x.len() == n * to / from
            &&& from == to ==> x.len() == n && forall|i: int|
                0 <= i < n ==> (#[trigger] x[i]).before == decoded(whole(a))[i] && x[i].after
                    == decoded(whole(a))[i]
        }),
{
    law_pieces_do_not_matter(from, to, a);
    law_pieces_do_not_matter(from, to, b);
    let n = whole(a).len() as int / 2;
    lemma_len_is_ordered(0, n, from, to);
    if from == to {
        vstd::arithmetic::div_mod::lemma_div_multiples_vanish(n, to);
        assert(n * to == to * n) by (nonlinear_arith);
    }
}

/// What comes out at another rate lies between samples of the source: a bound on
/// all of these is one on both neighbours of each sample, and the first sample is
/// the first of the source.
pub proof fn law_resampled_stays_inside(
    source: Seq<i16>,
    from: int,
    to: int,
    least: i16,
    greatest: i16,
)
    requires
        from > 0,
        to >= 0,
        forall|i: int| 0 <= i < source.len() ==> least <= #[trigger] source[i] <= greatest,
    ensures
        resampled(source, from, to).len() == source.len() * to / from,
        forall|i: int|
            0 <= i < resampled(source, from, to).len() ==> least <= (#[trigger] resampled(
                source,
                from,
                to,
            )[i]).before <= greatest && least <= resampled(source, from, to)[i].after <= greatest,
        resampled(source, from, to).len() > 0 ==> resampled(source, from, to)[0].index == 0
            && resampled(source, from, to)[0].before == source[0],
{
    let n = source.len() as int;
    let r = resampled(source, from, to);
    assert(0 <= n * to) by (nonlinear_arith)
        requires
            0 <= n,
            0 <= to,
    ;
    vstd::arithmetic::div_mod::lemma_div_pos_is_pos(n * to, from);
    if from == to {
        vstd::arithmetic::div_mod::lemma_div_multiples_vanish(n, to);
        assert(n * to == to * n) by (nonlinear_arith);
    }
    if r.len() > 0 {
        if n == 0 || to == 0 {
            assert(n * to == 0) by (nonlinear_arith)
                requires
                    n == 0 || to == 0,
            ;
            assert(0int / from == 0) by (nonlinear_arith)
                requires
                    from > 0,
            ;
        }
        assert(n > 0 && to > 0);
        assert forall|i: int| 0 <= i < r.len() implies least <= (#[trigger] r[i]).before <= greatest
            && least <= r[i].after <= greatest by {
            assert(0 <= i * from) by (nonlinear_arith)
                requires
                    0 <= i,
                    from > 0,
            ;
            vstd::arithmetic::div_mod::lemma_div_pos_is_pos(i * from, to);
        }
        assert(position(0, from, to) == 0) by (nonlinear_arith)
            requires
                to > 0,
        ;
    }
}

/// A stream that ends inside a sample is noticed, however it was cut.
pub proof fn law_odd_stream_is_noticed(from: int, to: int, pieces: Seq<Seq<u8>>)
    requires
        from > 0,
        to > 0,
    ensures
        after_pieces(from, to, pieces).odd is Some <==> whole(pieces).len() % 2 == 1,
{
    lemma_stream(from, to, pieces);
}

/// At another rate the sample with index `i` lies between the source samples at
/// `i * from / to`, rounded down, and one behind it, each limited to the last; at
/// the same rate every sample is its own.
pub proof fn law_neighbours(source: Seq<i16>, from: int, to: int, i: int)
    requires
        from > 0,
        to > 0,
        0 <= i < resampled(source, from, to).len(),
        source.len() * to <= u64::MAX,
    ensures
        source.len() > 0,
        resampled(source, from, to).len() == source.len() * to / from,
        resampled(source, from, to)[i].index == i,
        from == to ==> resampled(source, from, to)[i].before == source[i] && resampled(
            source,
            from,
            to,
        )[i].after == source[i],
        from != to && i * from / to < source.len() ==> resampled(source, from, to)[i].before
            == source[i * from / to],
        from != to && i * from / to >= source.len() ==> resampled(source, from, to)[i].before
            == source[source.len() - 1],
        from != to && i * from / to + 1 < source.len() ==> resampled(source, from, to)[i].after
            == source[i * from / to + 1],
        from != to && i * from / to + 1 >= source.len() ==> resampled(source, from, to)[i].after
            == source[source.len() - 1],
{
    let n = source.len() as int;
    if n == 0 {
        assert(0 * to / from == 0) by (nonlinear_arith)
            requires
                from > 0,
        ;
    }
    if from == to {
        vstd::arithmetic::div_mod::lemma_div_multiples_vanish(n, from);
        assert(n * to == from * n) by (nonlinear_arith)
            requires
                from == to,
        ;
    }
    assert(i <= n * to) by {
        vstd::arithmetic::div_mod::lemma_div_is_ordered_by_denominator(n * to, 1, from);
        assert(n * to >= 0) by (nonlinear_arith)
            requires
                n >= 0,
                to > 0,
        ;
    }
    assert(i * from / to >= 0) by {
        assert(i * from >= 0) by (nonlinear_arith)
            requires
                i >= 0,
                from > 0,
        ;
        vstd::arithmetic::div_mod::lemma_div_pos_is_pos(i * from, to);
    }
}

/// A sample that falls exactly on a sample of the source has it as its earlier
/// neighbour.
pub proof fn law_whole_positions(source: Seq<i16>, from: int, to: int, i: int, p: int)
    requires
        from > 0,
        to > 0,
        0 <= i < resampled(source, from, to).len(),
        source.len() * to <= u64::MAX,
        i * from == p * to,
        p < source.len(),
    ensures
        resampled(source, from, to)[i].before == source[p],
{
    law_neighbours(source, from, to, i);
    if from == to {
        assert(i == p) by (nonlinear_arith)
            requires
                i * from == p * to,
                from == to,
                from > 0,
        ;
    } else {
        assert(p * to == to * p) by (nonlinear_arith);
        vstd::arithmetic::div_mod::lemma_div_multiples_vanish(p, to);
    }
}

/// What a stream has given when it ends, whatever its pieces: as many samples as its
/// whole length gives, each between its neighbours in the whole.
pub proof fn law_stream_neighbours(from: int, to: int, pieces: Seq<Seq<u8>>, i: int)
    requires
        from > 0,
        to > 0,
        whole(pieces).len() % 2 == 0,
        whole(pieces).len() * to <= u64::MAX,
        0 <= i < (given_for_pieces(from, to, pieces) + finish_gives(
            after_pieces(from, to, pieces),
        )).len(),
    ensures
        ({
            let samples = decoded(whole(pieces));
            let all = given_for_pieces(from, to, pieces) + finish_gives(
                after_pieces(from, to, pieces),
            );
            let p = if from == to {
                i
            } else {
                i * from / to
            };
            &&& samples.len() == whole(pieces).len() / 2
            &&& all.len() == samples.len() * to / from
            &&& all[i].index == i
            &&& p < samples.len() ==> all[i].before == samples[p]
            &&& p >= samples.len() ==> all[i].before == samples.last()
            &&& from != to && p + 1 < samples.len() ==> all[i].after == samples[p + 1]
        }),
{
    law_pieces_do_not_matter(from, to, pieces);
    let samples = decoded(whole(pieces));
    assert(samples.len() * to <= whole(pieces).len() * to) by (nonlinear_arith)
        requires
            samples.len() <= whole(pieces).len(),
            to > 0,
    ;
    law_neighbours(samples, from, to, i);
}

/// The low byte of a sample comes first, and a sample from 32768 on stands for the
/// negative one 65536 below it.
pub proof fn law_low_byte_first(bytes: Seq<u8>, i: int)
    requires
        0 <= i,
        2 * i + 1 < bytes.len(),
    ensures
        decoded(bytes).len() == bytes.len() / 2,
        bytes[2 * i + 1] < 128 ==> decoded(bytes)[i] == bytes[2 * i] + 256 * bytes[2 * i + 1],
        bytes[2 * i + 1] >= 128 ==> decoded(bytes)[i] == bytes[2 * i] + 256 * bytes[2 * i + 1]
            - 65536,
{
}

/// A stream holds back no sample that it can tell: the next one to be given is past
/// the end of what came so far, or its later neighbour is still to come. At the same
/// rate nothing is held back.
pub proof fn law_nothing_is_held_back(s: StreamView, bytes: Seq<u8>)
    requires
        s.from > 0,
        s.to > 0,
        0 <= s.produced <= resampled_len(s.source.len() as int, s.from, s.to),
    ensures
        ({
            let t = pushed(s, bytes);
            let n = t.source.len() as int;
            &&& t.produced >= s.produced
            &&& push_gives(s, bytes).len() == t.produced - s.produced
            &&& s.from == s.to ==> t.produced == n
            &&& s.from != s.to ==> t.produced >= n * s.to / s.from || t.produced * s.from / s.to
                + 1 >= n
        }),
{
    let t = pushed(s, bytes);
    let n = t.source.len() as int;
    lemma_len_is_ordered(s.source.len() as int, n, s.from, s.to);
    lemma_settled_end(s.produced, n, s.from, s.to);
}

} // verus!
