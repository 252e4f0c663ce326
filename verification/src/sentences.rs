//! Cutting a text into sentences that can be spoken while the rest is still being
//! written.

use crate::text;
use vstd::prelude::*;

verus! {

/// A sentence has at least so many bytes.
pub const MIN_SENTENCE_BYTES: usize = 12;

/// A text without a mark is cut once it has more than so many bytes,
pub const MAX_UNBROKEN_BYTES: usize = 120;

/// at a blank among the first so many.
pub const CUT_BYTES: usize = 80;

pub open spec fn is_mark(c: char) -> bool {
    c == '.' || c == '!' || c == '?' || c == ';' || c == '\n'
}

pub open spec fn is_ascii_space(c: char) -> bool {
    c == ' ' || c == '\t' || c == '\n' || c == '\r' || c as int == 0x0c
}

fn char_is_ascii_space(c: char) -> (r: bool)
    ensures
        r == is_ascii_space(c),
{
    c == ' ' || c == '\t' || c == '\n' || c == '\r' || c as u32 == 0x0c
}

/// Whether a sentence ends behind an index: at a mark with white space or nothing
/// behind it, unless it would be too short.
pub open spec fn breaks_at(s: Seq<char>, i: int) -> bool {
    &&& 0 <= i < s.len()
    &&& is_mark(s[i])
    &&& i + 1 == s.len() || is_ascii_space(s[i + 1])
    &&& text::utf8_len(s.take(i + 1)) >= MIN_SENTENCE_BYTES
}

/// The first index from one on at which a sentence ends, or the length.
pub open spec fn break_index(s: Seq<char>, from: int) -> int
    decreases s.len() - from,
{
    if from >= s.len() || breaks_at(s, from) {
        from
    } else {
        break_index(s, from + 1)
    }
}

/// How many characters from `k` on stand among the first `n` bytes.
pub open spec fn fitting(s: Seq<char>, k: int, n: nat) -> int
    decreases s.len() - k,
{
    if k < s.len() && text::utf8_len(s.take(k + 1)) <= n {
        fitting(s, k + 1, n)
    } else {
        k
    }
}

/// The last blank before an index, or -1.
pub open spec fn last_blank(s: Seq<char>, k: int) -> int
    decreases k,
{
    if k <= 0 {
        -1
    } else if s[k - 1] == ' ' {
        k - 1
    } else {
        last_blank(s, k - 1)
    }
}

/// The sentence in front of an index, and what is left.
pub open spec fn cut(s: Seq<char>, at: int) -> (Option<Seq<char>>, Seq<char>) {
    let sentence = text::trim(s.take(at));
    (
        if sentence.len() > 0 {
            Some(sentence)
        } else {
            None
        },
        text::trim_start(s.skip(at)),
    )
}

/// What is cut off a long text without a mark.
pub open spec fn flushed(s: Seq<char>) -> (Option<Seq<char>>, Seq<char>) {
    let at = last_blank(s, fitting(s, 0, CUT_BYTES as nat));
    if text::utf8_len(s) > MAX_UNBROKEN_BYTES && at >= 0 {
        cut(s, at)
    } else {
        (None, s)
    }
}

/// The first sentence of a text, where it is complete, and what is left.
pub open spec fn popped(s: Seq<char>) -> (Option<Seq<char>>, Seq<char>) {
    let i = break_index(s, 0);
    if i < s.len() {
        let c = cut(s, i + 1);
        if c.0 is Some {
            c
        } else {
            flushed(c.1)
        }
    } else {
        flushed(s)
    }
}

fn find_break(v: &Vec<char>) -> (r: usize)
    ensures
        r == break_index(v@, 0),
        r <= v@.len(),
{
    let mut i: usize = 0;
    let mut bytes: usize = 0;
    while i < v.len()
        invariant
            i <= v.len(),
            break_index(v@, 0) == break_index(v@, i as int),
            bytes == capped(text::utf8_len(v@.take(i as int))),
        decreases v.len() - i,
    {
        let c: char = v[i];
        assert(v@.take(i + 1).drop_last() =~= v@.take(i as int));
        if bytes < MIN_SENTENCE_BYTES {
            bytes += text::bytes_of_char(c);
            if bytes > MIN_SENTENCE_BYTES {
                bytes = MIN_SENTENCE_BYTES;
            }
        }
        let marked: bool = c == '.' || c == '!' || c == '?' || c == ';' || c == '\n';
        if marked && bytes >= MIN_SENTENCE_BYTES && (i + 1 == v.len() || char_is_ascii_space(
            v[i + 1],
        )) {
            return i;
        }
        i += 1;
    }
    i
}

pub open spec fn capped(n: nat) -> nat {
    if n < MIN_SENTENCE_BYTES {
        n
    } else {
        MIN_SENTENCE_BYTES as nat
    }
}

/// How many characters stand among the first `n` bytes.
pub fn floor_char_boundary(v: &Vec<char>, n: usize) -> (r: usize)
    ensures
        r == fitting(v@, 0, n as nat),
        r <= v@.len(),
{
    let mut k: usize = 0;
    let mut bytes: usize = 0;
    while k < v.len()
        invariant
            k <= v.len(),
            fitting(v@, 0, n as nat) == fitting(v@, k as int, n as nat),
            bytes == text::utf8_len(v@.take(k as int)),
            bytes <= n,
        decreases v.len() - k,
    {
        assert(v@.take(k + 1).drop_last() =~= v@.take(k as int));
        let more: usize = text::bytes_of_char(v[k]);
        if more > n - bytes {
            return k;
        }
        bytes += more;
        k += 1;
    }
    k
}

fn find_blank(v: &Vec<char>, k: usize) -> (r: Option<usize>)
    requires
        k <= v@.len(),
    ensures
        match r {
            Some(p) => p == last_blank(v@, k as int) && p < k,
            None => last_blank(v@, k as int) == -1,
        },
{
    let mut i: usize = k;
    while i > 0
        invariant
            i <= k <= v@.len(),
            last_blank(v@, k as int) == last_blank(v@, i as int),
        decreases i,
    {
        if v[i - 1] == ' ' {
            return Some(i - 1);
        }
        i -= 1;
    }
    None
}

fn cut_at(v: &Vec<char>, at: usize) -> (r: (Option<String>, String))
    requires
        at <= v@.len(),
    ensures
        crate::registry::opt_view(r.0) == cut(v@, at as int).0,
        r.1@ == cut(v@, at as int).1,
{
    let sentence: String = text::trimmed_piece(v.as_slice(), 0, at);
    assert(v@.subrange(0, at as int) =~= v@.take(at as int));
    let behind: String = text::piece(v.as_slice(), at, v.len());
    assert(v@.subrange(at as int, v@.len() as int) =~= v@.skip(at as int));
    let rest: String = text::trimmed_start(behind.as_str());
    if sentence.as_str().is_empty() {
        (None, rest)
    } else {
        (Some(sentence), rest)
    }
}

fn flush(buf: &mut String) -> (r: Option<String>)
    ensures
        crate::registry::opt_view(r) == flushed(old(buf)@).0,
        final(buf)@ == flushed(old(buf)@).1,
{
    let v: Vec<char> = text::chars_of(buf.as_str());
    if !text::utf8_len_at_least(v.as_slice(), MAX_UNBROKEN_BYTES + 1) {
        return None;
    }
    let end: usize = floor_char_boundary(&v, CUT_BYTES);
    match find_blank(&v, end) {
        Some(at) => {
            let (sentence, rest) = cut_at(&v, at);
            *buf = rest;
            sentence
        },
        None => None,
    }
}

/// Takes the first sentence off a text, where it is complete. A long text without
/// a mark is cut at a blank.
pub fn pop_sentence(buf: &mut String) -> (r: Option<String>)
    ensures
        crate::registry::opt_view(r) == popped(old(buf)@).0,
        final(buf)@ == popped(old(buf)@).1,
{
    let v: Vec<char> = text::chars_of(buf.as_str());
    let i: usize = find_break(&v);
    if i < v.len() {
        let (sentence, rest) = cut_at(&v, i + 1);
        *buf = rest;
        if sentence.is_some() {
            return sentence;
        }
    }
    flush(buf)
}

proof fn lemma_trim_start_shrinks(s: Seq<char>)
    ensures
        text::trim_start(s).len() <= s.len(),
    decreases s.len(),
{
    if s.len() > 0 && text::is_space(s[0]) {
        lemma_trim_start_shrinks(s.drop_first());
    }
}

proof fn lemma_break_index(s: Seq<char>, from: int)
    requires
        0 <= from <= s.len(),
    ensures
        from <= break_index(s, from) <= s.len(),
    decreases s.len() - from,
{
    if from < s.len() && !breaks_at(s, from) {
        lemma_break_index(s, from + 1);
    }
}

proof fn lemma_fitting(s: Seq<char>, k: int, n: nat)
    requires
        0 <= k <= s.len(),
    ensures
        k <= fitting(s, k, n) <= s.len(),
    decreases s.len() - k,
{
    if k < s.len() && text::utf8_len(s.take(k + 1)) <= n {
        lemma_fitting(s, k + 1, n);
    }
}

proof fn lemma_last_blank(s: Seq<char>, k: int)
    ensures
        -1 <= last_blank(s, k),
        last_blank(s, k) < k || last_blank(s, k) == -1,
    decreases k,
{
    if k > 0 && s[k - 1] != ' ' {
        lemma_last_blank(s, k - 1);
    }
}

proof fn lemma_flushed_shrinks(s: Seq<char>)
    ensures
        flushed(s).1.len() <= s.len(),
        flushed(s).0 is Some ==> flushed(s).1.len() < s.len(),
{
    let k = fitting(s, 0, CUT_BYTES as nat);
    lemma_fitting(s, 0, CUT_BYTES as nat);
    let at = last_blank(s, k);
    lemma_last_blank(s, k);
    if at >= 0 {
        lemma_trim_start_shrinks(s.skip(at));
        if at == 0 {
            assert(s.take(0) =~= Seq::empty());
            assert(text::trim(s.take(0)) =~= Seq::<char>::empty());
        }
    }
}

/// A text gets shorter with each sentence that is taken off.
pub proof fn lemma_popped_shrinks(s: Seq<char>)
    ensures
        popped(s).1.len() <= s.len(),
        popped(s).0 is Some ==> popped(s).1.len() < s.len(),
{
    let i = break_index(s, 0);
    lemma_break_index(s, 0);
    if i < s.len() {
        lemma_trim_start_shrinks(s.skip(i + 1));
        lemma_flushed_shrinks(text::trim_start(s.skip(i + 1)));
    } else {
        lemma_flushed_shrinks(s);
    }
}

/// The complete sentences in front of a text, and what is left.
pub open spec fn popped_all(s: Seq<char>) -> (Seq<Seq<char>>, Seq<char>)
    decreases s.len(),
{
    match popped(s) {
        (Some(x), rest) => if rest.len() < s.len() {
            let more = popped_all(rest);
            (seq![x] + more.0, more.1)
        } else {
            (seq![x], rest)
        },
        (None, rest) => (Seq::empty(), rest),
    }
}

/// A text that is not blank, without white space at its ends.
pub open spec fn if_any(s: Seq<char>) -> Seq<Seq<char>> {
    if text::trim(s).len() > 0 {
        seq![text::trim(s)]
    } else {
        Seq::empty()
    }
}

/// The sentences of a text.
pub open spec fn sentences_of(s: Seq<char>) -> Seq<Seq<char>> {
    popped_all(s).0 + if_any(popped_all(s).1)
}

/// Takes all complete sentences off a text.
pub fn pop_sentences(buf: &mut String) -> (r: Vec<String>)
    ensures
        text::views(r@) == popped_all(old(buf)@).0,
        final(buf)@ == popped_all(old(buf)@).1,
{
    let ghost start = buf@;
    let mut out: Vec<String> = Vec::new();
    assert(text::views(out@) + popped_all(buf@).0 =~= popped_all(start).0);
    loop
        invariant
            start == old(buf)@,
            text::views(out@) + popped_all(buf@).0 == popped_all(start).0,
            popped_all(buf@).1 == popped_all(start).1,
        decreases buf@.len(),
    {
        let ghost was = buf@;
        let ghost before = text::views(out@);
        proof {
            lemma_popped_shrinks(was);
        }
        match pop_sentence(buf) {
            Some(s) => {
                let ghost x = s@;
                out.push(s);
                assert(text::views(out@) =~= before.push(x));
                assert(before.push(x) + popped_all(buf@).0 =~= before + (seq![x] + popped_all(
                    buf@,
                ).0));
            },
            None => {
                assert(before + Seq::<Seq<char>>::empty() =~= before);
                return out;
            },
        }
    }
}

/// The sentences of a text that is complete.
pub fn split_sentences(s: &str) -> (r: Vec<String>)
    ensures
        text::views(r@) == sentences_of(s@),
{
    let mut buf: String = String::from_str(s);
    let mut out: Vec<String> = pop_sentences(&mut buf);
    let rest: String = text::trimmed(buf.as_str());
    let ghost before = text::views(out@);
    if rest.as_str().is_empty() {
        assert(before + Seq::<Seq<char>>::empty() =~= before);
    } else {
        let ghost x = rest@;
        out.push(rest);
        assert(text::views(out@) =~= before + seq![x]);
    }
    out
}

// ---------------------------------------------------------------------------
// Nothing is lost
// ---------------------------------------------------------------------------

/// The characters of a text that are not white space.
pub open spec fn ink(s: Seq<char>) -> Seq<char>
    decreases s.len(),
{
    if s.len() == 0 {
        Seq::empty()
    } else if text::is_space(s.last()) {
        ink(s.drop_last())
    } else {
        ink(s.drop_last()).push(s.last())
    }
}

/// The ink of several texts.
pub open spec fn ink_of_all(v: Seq<Seq<char>>) -> Seq<char>
    decreases v.len(),
{
    if v.len() == 0 {
        Seq::empty()
    } else {
        ink(v[0]) + ink_of_all(v.drop_first())
    }
}

pub proof fn lemma_ink_adds(a: Seq<char>, b: Seq<char>)
    ensures
        ink(a + b) == ink(a) + ink(b),
    decreases b.len(),
{
    if b.len() == 0 {
        assert(a + b =~= a);
        assert(ink(a) + ink(b) =~= ink(a));
    } else {
        lemma_ink_adds(a, b.drop_last());
        assert((a + b).drop_last() =~= a + b.drop_last());
        assert(ink(a + b) =~= ink(a) + ink(b));
    }
}

proof fn lemma_ink_of_trimmed(s: Seq<char>)
    ensures
        ink(text::trim_start(s)) == ink(s),
        ink(text::trim_end(s)) == ink(s),
    decreases s.len(),
{
    if s.len() > 0 {
        if text::is_space(s[0]) {
            lemma_ink_of_trimmed(s.drop_first());
            let one = seq![s[0]];
            assert(s =~= one + s.drop_first());
            lemma_ink_adds(one, s.drop_first());
            assert(one.drop_last() =~= Seq::empty());
            assert(one.last() == s[0]);
            assert(ink(one.drop_last()) =~= Seq::<char>::empty());
            assert(ink(one) =~= Seq::<char>::empty());
            assert(ink(s) =~= ink(s.drop_first()));
        }
        if text::is_space(s.last()) {
            lemma_ink_of_trimmed(s.drop_last());
        }
    }
}

proof fn lemma_ink_of_trim(s: Seq<char>)
    ensures
        ink(text::trim(s)) == ink(s),
{
    lemma_ink_of_trimmed(s);
    lemma_ink_of_trimmed(text::trim_start(s));
}

pub open spec fn ink_of_opt(s: Option<Seq<char>>) -> Seq<char> {
    match s {
        Some(x) => ink(x),
        None => Seq::empty(),
    }
}

proof fn lemma_ink_of_cut(s: Seq<char>, at: int)
    requires
        0 <= at <= s.len(),
    ensures
        ink_of_opt(cut(s, at).0) + ink(cut(s, at).1) == ink(s),
{
    assert(s.take(at) + s.skip(at) =~= s);
    lemma_ink_adds(s.take(at), s.skip(at));
    lemma_ink_of_trim(s.take(at));
    lemma_ink_of_trimmed(s.skip(at));
    if cut(s, at).0 is None {
        assert(text::trim(s.take(at)) =~= Seq::<char>::empty());
    }
}

proof fn lemma_ink_of_flushed(s: Seq<char>)
    ensures
        ink_of_opt(flushed(s).0) + ink(flushed(s).1) == ink(s),
{
    let k = fitting(s, 0, CUT_BYTES as nat);
    lemma_fitting(s, 0, CUT_BYTES as nat);
    let at = last_blank(s, k);
    lemma_last_blank(s, k);
    if text::utf8_len(s) > MAX_UNBROKEN_BYTES && at >= 0 {
        lemma_ink_of_cut(s, at);
    } else {
        assert(Seq::<char>::empty() + ink(s) =~= ink(s));
    }
}

proof fn lemma_ink_of_popped(s: Seq<char>)
    ensures
        ink_of_opt(popped(s).0) + ink(popped(s).1) == ink(s),
{
    let i = break_index(s, 0);
    lemma_break_index(s, 0);
    if i < s.len() {
        lemma_ink_of_cut(s, i + 1);
        let c = cut(s, i + 1);
        if c.0 is None {
            lemma_ink_of_flushed(c.1);
            assert(Seq::<char>::empty() + ink(c.1) =~= ink(c.1));
        }
    } else {
        lemma_ink_of_flushed(s);
    }
}

pub proof fn lemma_ink_of_more(a: Seq<Seq<char>>, b: Seq<Seq<char>>)
    ensures
        ink_of_all(a + b) == ink_of_all(a) + ink_of_all(b),
    decreases a.len(),
{
    if a.len() == 0 {
        assert(a + b =~= b);
        assert(ink_of_all(a) + ink_of_all(b) =~= ink_of_all(b));
    } else {
        lemma_ink_of_more(a.drop_first(), b);
        assert((a + b).drop_first() =~= a.drop_first() + b);
        assert(ink_of_all(a + b) =~= ink_of_all(a) + ink_of_all(b));
    }
}

proof fn lemma_ink_of_one(x: Seq<char>)
    ensures
        ink_of_all(seq![x]) == ink(x),
        ink_of_all(Seq::empty()) == Seq::<char>::empty(),
{
    let e = Seq::<Seq<char>>::empty();
    assert(seq![x].drop_first() =~= e);
    assert(ink_of_all(e) =~= Seq::<char>::empty());
    assert(ink_of_all(seq![x]) == ink(seq![x][0]) + ink_of_all(seq![x].drop_first()));
    assert(ink(x) + Seq::<char>::empty() =~= ink(x));
}

/// Taking sentences off a text loses none of its words, and no sentence is empty.
pub proof fn law_popping_keeps_words(s: Seq<char>)
    ensures
        ink_of_all(popped_all(s).0) + ink(popped_all(s).1) == ink(s),
        forall|i: int| 0 <= i < popped_all(s).0.len() ==> (#[trigger] popped_all(s).0[i]).len() > 0,
    decreases s.len(),
{
    lemma_popped_shrinks(s);
    lemma_ink_of_popped(s);
    match popped(s) {
        (Some(x), rest) => {
            law_popping_keeps_words(rest);
            let more = popped_all(rest);
            lemma_ink_of_one(x);
            lemma_ink_of_more(seq![x], more.0);
            assert((ink(x) + ink_of_all(more.0)) + ink(more.1) =~= ink(x) + (ink_of_all(more.0)
                + ink(more.1)));
            assert(x.len() > 0) by {
                lemma_popped_not_empty(s);
            }
            assert forall|i: int| 0 <= i < popped_all(s).0.len() implies (#[trigger] popped_all(
                s,
            ).0[i]).len() > 0 by {
                if i > 0 {
                    assert(popped_all(s).0[i] == more.0[i - 1]);
                }
            }
        },
        (None, rest) => {
            lemma_ink_of_one(s);
            assert(Seq::<char>::empty() + ink(rest) =~= ink(rest));
        },
    }
}

proof fn lemma_popped_not_empty(s: Seq<char>)
    ensures
        popped(s).0 matches Some(x) ==> x.len() > 0,
{
}

/// The sentences of a text have all its words in their order, and no sentence is
/// empty.
pub proof fn law_sentences_keep_words(s: Seq<char>)
    ensures
        ink_of_all(sentences_of(s)) == ink(s),
        forall|i: int| 0 <= i < sentences_of(s).len() ==> (#[trigger] sentences_of(s)[i]).len() > 0,
{
    law_popping_keeps_words(s);
    let (v, rest) = popped_all(s);
    lemma_ink_of_more(v, if_any(rest));
    lemma_ink_of_trim(rest);
    lemma_ink_of_one(text::trim(rest));
    if text::trim(rest).len() == 0 {
        assert(text::trim(rest) =~= Seq::<char>::empty());
    }
    assert forall|i: int| 0 <= i < sentences_of(s).len() implies (#[trigger] sentences_of(
        s,
    )[i]).len() > 0 by {
        if i < v.len() {
            assert(sentences_of(s)[i] == v[i]);
        }
    }
}

/// A sentence ends at the first mark that white space or the end follows and that
/// leaves it at least twelve bytes long; it is handed out without white space around
/// it, and the rest begins behind it.
pub proof fn law_first_sentence(s: Seq<char>, i: int)
    requires
        0 <= i < s.len(),
        ends_sentence(s, i),
        forall|j: int| 0 <= j < i ==> !#[trigger] ends_sentence(s, j),
        text::trim(s.take(i + 1)).len() > 0,
    ensures
        popped(s).0 == Some(text::trim(s.take(i + 1))),
        popped(s).1 == text::trim_start(s.skip(i + 1)),
{
    lemma_break_is(s, 0, i);
}

/// Whether a sentence of twelve bytes or more ends at a place of a text: a mark
/// stands there, and white space or nothing behind it.
pub open spec fn ends_sentence(s: Seq<char>, i: int) -> bool {
    &&& s[i] == '.' || s[i] == '!' || s[i] == '?' || s[i] == ';' || s[i] == '\n'
    &&& i + 1 < s.len() ==> s[i + 1] == ' ' || s[i + 1] == '\t' || s[i + 1] == '\n' || s[i + 1]
        == '\r' || s[i + 1] as int == 12
    &&& text::utf8_len(s.take(i + 1)) >= 12
}

/// A text without an end of a sentence waits for more, until it is longer than 120
/// bytes; a longer one without a blank in its first 80 bytes waits too.
pub proof fn law_unfinished_sentence_waits(s: Seq<char>)
    requires
        forall|j: int| 0 <= j < s.len() ==> !#[trigger] ends_sentence(s, j),
        text::utf8_len(s) <= 120 || forall|k: int|
            0 <= k < s.len() && #[trigger] s[k] == ' ' ==> text::utf8_len(s.take(k + 1)) > 80,
    ensures
        popped(s).0 is None,
        popped(s).1 == s,
{
    lemma_no_break(s, 0);
    let n = fitting(s, 0, 80);
    lemma_fits_in(s, 0, 80);
    lemma_last_blank_is(s, n);
    let at = last_blank(s, n);
    if at >= 0 && text::utf8_len(s) > 120 {
        assert(s[at] == ' ');
        assert(text::utf8_len(s.take(at + 1)) <= 80);
    }
}

/// A text of more than 120 bytes without an end of a sentence is cut at the last
/// blank of its first 80 bytes.
pub proof fn law_long_text_is_cut_at_a_blank(s: Seq<char>, k: int)
    requires
        forall|j: int| 0 <= j < s.len() ==> !#[trigger] ends_sentence(s, j),
        text::utf8_len(s) > 120,
        0 <= k < s.len(),
        s[k] == ' ',
        text::utf8_len(s.take(k + 1)) <= 80,
        forall|j: int| k < j < s.len() && #[trigger] s[j] == ' ' ==> text::utf8_len(s.take(j + 1)) > 80,
        text::trim(s.take(k)).len() > 0,
    ensures
        popped(s).0 == Some(text::trim(s.take(k))),
        popped(s).1 == text::trim_start(s.skip(k)),
{
    lemma_no_break(s, 0);
    let n = fitting(s, 0, 80);
    lemma_fits_in(s, 0, 80);
    lemma_last_blank_is(s, n);
    let at = last_blank(s, n);
    if k >= n {
        text::lemma_utf8_len_grows(s.take(k + 1), n + 1);
        assert(s.take(k + 1).take(n + 1) =~= s.take(n + 1));
        assert(text::utf8_len(s.take(n + 1)) > 80);
    }
    assert(k < n);
    assert(at >= k);
    if at > k {
        assert(text::utf8_len(s.take(at + 1)) <= 80);
    }
}

proof fn lemma_break_is(s: Seq<char>, from: int, i: int)
    requires
        0 <= from <= i < s.len(),
        ends_sentence(s, i),
        forall|j: int| 0 <= j < i ==> !#[trigger] ends_sentence(s, j),
    ensures
        break_index(s, from) == i,
    decreases i - from,
{
    if from < i {
        assert(!ends_sentence(s, from));
        lemma_break_is(s, from + 1, i);
    }
}

proof fn lemma_no_break(s: Seq<char>, from: int)
    requires
        0 <= from <= s.len(),
        forall|j: int| 0 <= j < s.len() ==> !#[trigger] ends_sentence(s, j),
    ensures
        break_index(s, from) == s.len(),
    decreases s.len() - from,
{
    if from < s.len() {
        assert(!ends_sentence(s, from));
        lemma_no_break(s, from + 1);
    }
}

proof fn lemma_fits_in(s: Seq<char>, k: int, n: nat)
    requires
        0 <= k <= s.len(),
        forall|j: int| 0 <= j <= k ==> text::utf8_len(#[trigger] s.take(j)) <= n,
    ensures
        k <= fitting(s, k, n) <= s.len(),
        fitting(s, k, n) < s.len() ==> text::utf8_len(s.take(fitting(s, k, n) + 1)) > n,
        forall|j: int| 0 <= j <= fitting(s, k, n) ==> text::utf8_len(#[trigger] s.take(j)) <= n,
    decreases s.len() - k,
{
    if k < s.len() && text::utf8_len(s.take(k + 1)) <= n {
        lemma_fits_in(s, k + 1, n);
    }
}

proof fn lemma_last_blank_is(s: Seq<char>, k: int)
    requires
        0 <= k <= s.len(),
    ensures
        -1 <= last_blank(s, k) < k || (k == 0 && last_blank(s, k) == -1),
        last_blank(s, k) >= 0 ==> s[last_blank(s, k)] == ' ',
        forall|j: int| last_blank(s, k) < j < k ==> #[trigger] s[j] != ' ',
    decreases k,
{
    if k > 0 && s[k - 1] != ' ' {
        lemma_last_blank_is(s, k - 1);
    }
}

} // verus!
