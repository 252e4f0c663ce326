//! Benchmarks of the active stack: which runs are accepted, what is measured, and
//! how the results are reported.

use crate::config::Config;
use crate::json::{self, object, push_member, Json, JsonView};
use crate::registry::{self, wrap};
use crate::text;
use crate::tts;
use vstd::prelude::*;

verus! {

// ---------------------------------------------------------------------------
// Edit distance
// ---------------------------------------------------------------------------

pub open spec fn least(a: nat, b: nat) -> nat {
    if a <= b {
        a
    } else {
        b
    }
}

pub open spec fn greatest(a: nat, b: nat) -> nat {
    if a >= b {
        a
    } else {
        b
    }
}

/// How many elements must be put in, taken out or replaced to make one list of
/// another.
pub open spec fn distance<T>(a: Seq<T>, b: Seq<T>) -> nat
    decreases a.len() + b.len(),
{
    if a.len() == 0 {
        b.len()
    } else if b.len() == 0 {
        a.len()
    } else {
        least(
            least(
                distance(a.drop_last(), b.drop_last()) + (if a.last() == b.last() {
                    0nat
                } else {
                    1
                }),
                distance(a.drop_last(), b) + 1,
            ),
            distance(a, b.drop_last()) + 1,
        )
    }
}

/// The distance is no more than the length of the longer list.
pub proof fn law_distance_is_bounded<T>(a: Seq<T>, b: Seq<T>)
    ensures
        distance(a, b) <= greatest(a.len(), b.len()),
    decreases a.len() + b.len(),
{
    if a.len() > 0 && b.len() > 0 {
        law_distance_is_bounded(a.drop_last(), b.drop_last());
    }
}

/// The distance is the same both ways.
pub proof fn law_distance_is_symmetric<T>(a: Seq<T>, b: Seq<T>)
    ensures
        distance(a, b) == distance(b, a),
    decreases a.len() + b.len(),
{
    if a.len() > 0 && b.len() > 0 {
        law_distance_is_symmetric(a.drop_last(), b.drop_last());
        law_distance_is_symmetric(a.drop_last(), b);
        law_distance_is_symmetric(a, b.drop_last());
    }
}

/// Only equal lists have no distance.
pub proof fn law_no_distance_means_equal<T>(a: Seq<T>, b: Seq<T>)
    ensures
        distance(a, b) == 0 <==> a == b,
    decreases a.len() + b.len(),
{
    if a.len() == 0 || b.len() == 0 {
        assert(a.len() == b.len() ==> a =~= b);
    } else {
        law_no_distance_means_equal(a.drop_last(), b.drop_last());
        if a == b {
        } else if distance(a, b) == 0 {
            assert(a =~= a.drop_last().push(a.last()));
            assert(b =~= b.drop_last().push(b.last()));
        }
    }
}

/// What lists of can be compared.
pub trait Token: View + Sized {
    fn same(&self, other: &Self) -> (r: bool)
        ensures
            r == (self@ == other@),
    ;
}

impl Token for String {
    fn same(&self, other: &Self) -> (r: bool) {
        text::same(self.as_str(), other.as_str())
    }
}

impl Token for char {
    fn same(&self, other: &Self) -> (r: bool) {
        *self == *other
    }
}

pub open spec fn token_views<T: View>(v: Seq<T>) -> Seq<T::V> {
    Seq::new(v.len(), |i: int| v[i]@)
}

/// Whether a row holds the distances of a list to the starts of another.
pub open spec fn is_row<V>(row: Seq<u128>, a: Seq<V>, b: Seq<V>, n: int) -> bool {
    row.len() == n && forall|j: int|
        0 <= j < n ==> #[trigger] row[j] == distance(a, b.take(j))
}

proof fn lemma_entry<V>(a: Seq<V>, b: Seq<V>, i: int, j: int)
    requires
        0 <= i < a.len(),
        0 <= j < b.len(),
    ensures
        distance(a.take(i + 1), b.take(j + 1)) == least(
            least(
                distance(a.take(i), b.take(j)) + (if a[i] == b[j] {
                    0nat
                } else {
                    1
                }),
                distance(a.take(i), b.take(j + 1)) + 1,
            ),
            distance(a.take(i + 1), b.take(j)) + 1,
        ),
        distance(a.take(i), b.take(j)) <= a.len() + b.len(),
        distance(a.take(i), b.take(j + 1)) <= a.len() + b.len(),
        distance(a.take(i + 1), b.take(j)) <= a.len() + b.len(),
{
    assert(a.take(i + 1).drop_last() =~= a.take(i));
    assert(b.take(j + 1).drop_last() =~= b.take(j));
    law_distance_is_bounded(a.take(i), b.take(j));
    law_distance_is_bounded(a.take(i), b.take(j + 1));
    law_distance_is_bounded(a.take(i + 1), b.take(j));
}

fn next_row<T: Token>(previous: &Vec<u128>, a: &Vec<T>, b: &Vec<T>, i: usize) -> (r: Vec<u128>)
    requires
        i < a@.len(),
        is_row(previous@, token_views(a@).take(i as int), token_views(b@), (b@.len() + 1) as int),
    ensures
        is_row(r@, token_views(a@).take(i + 1), token_views(b@), (b@.len() + 1) as int),
{
    let ghost x = token_views(a@);
    let ghost y = token_views(b@);
    let mut row: Vec<u128> = Vec::new();
    row.push((i as u128) + 1);
    assert(y.take(0) =~= Seq::empty());
    assert(x.take(i + 1).len() == i + 1);
    let mut j: usize = 0;
    while j < b.len()
        invariant
            i < a@.len(),
            j <= b@.len(),
            x == token_views(a@),
            y == token_views(b@),
            is_row(previous@, x.take(i as int), y, (b@.len() + 1) as int),
            is_row(row@, x.take(i + 1), y, j + 1),
        decreases b.len() - j,
    {
        proof {
            lemma_entry(x, y, i as int, j as int);
            assert(x.len() == a.len() && y.len() == b.len());
            assert(x[i as int] == a@[i as int]@);
            assert(y[j as int] == b@[j as int]@);
            assert(previous@[j as int] == distance(x.take(i as int), y.take(j as int)));
            assert(previous@[j + 1] == distance(x.take(i as int), y.take(j + 1)));
            assert(row@[j as int] == distance(x.take(i + 1), y.take(j as int)));
        }
        let replaced: u128 = if a[i].same(&b[j]) {
            previous[j]
        } else {
            previous[j] + 1
        };
        let taken: u128 = previous[j + 1] + 1;
        let put: u128 = row[j] + 1;
        let mut best: u128 = replaced;
        if taken < best {
            best = taken;
        }
        if put < best {
            best = put;
        }
        let ghost before = row@;
        row.push(best);
        assert forall|k: int| 0 <= k < j + 2 implies #[trigger] row@[k] == distance(
            x.take(i + 1),
            y.take(k),
        ) by {
            if k < j + 1 {
                assert(row@[k] == before[k]);
            }
        }
        j += 1;
    }
    row
}

/// The edit distance of two lists.
pub fn edit_distance<T: Token>(reference: &Vec<T>, hypothesis: &Vec<T>) -> (r: usize)
    ensures
        r == distance(token_views(reference@), token_views(hypothesis@)),
{
    let ghost x = token_views(reference@);
    let ghost y = token_views(hypothesis@);
    let mut row: Vec<u128> = Vec::new();
    let mut j: usize = 0;
    row.push(0);
    assert(x.take(0) =~= Seq::empty());
    while j < hypothesis.len()
        invariant
            j <= hypothesis@.len(),
            y == token_views(hypothesis@),
            x.take(0).len() == 0,
            is_row(row@, x.take(0), y, j + 1),
        decreases hypothesis.len() - j,
    {
        let ghost before = row@;
        row.push((j as u128) + 1);
        assert forall|k: int| 0 <= k < j + 2 implies #[trigger] row@[k] == distance(
            x.take(0),
            y.take(k),
        ) by {
            if k < j + 1 {
                assert(row@[k] == before[k]);
            }
        }
        j += 1;
    }
    let mut i: usize = 0;
    while i < reference.len()
        invariant
            i <= reference@.len(),
            x == token_views(reference@),
            y == token_views(hypothesis@),
            is_row(row@, x.take(i as int), y, (hypothesis@.len() + 1) as int),
        decreases reference.len() - i,
    {
        row = next_row(&row, reference, hypothesis, i);
        i += 1;
    }
    proof {
        assert(x.take(i as int) =~= x);
        assert(y.take(y.len() as int) =~= y);
        assert(row@[y.len() as int] == distance(x, y.take(y.len() as int)));
        law_distance_is_bounded(x, y);
    }
    row[hypothesis.len()] as usize
}

// ---------------------------------------------------------------------------
// Words
// ---------------------------------------------------------------------------

/// Whether `char::is_alphanumeric` takes a character for a letter or a number.
pub uninterp spec fn alphanumeric(c: char) -> bool;

/// `char::is_alphanumeric`: whether a character is a letter or a number in Unicode,
/// which depends on the character alone.
pub assume_specification[ char::is_alphanumeric ](c: char) -> (r: bool)
    ensures
        r == alphanumeric(c),
;

/// The first index from one on whose character is in no word, or the length.
pub open spec fn word_end(s: Seq<char>, from: int) -> int
    decreases s.len() - from,
{
    if from >= s.len() || !alphanumeric(s[from]) {
        from
    } else {
        word_end(s, from + 1)
    }
}

pub open spec fn word_if_any(s: Seq<char>) -> Seq<Seq<char>> {
    if s.len() > 0 {
        seq![text::lowercase(s)]
    } else {
        Seq::empty()
    }
}

/// The words of a text in small letters.
pub open spec fn words_of(s: Seq<char>) -> Seq<Seq<char>>
    decreases s.len(),
{
    let i = word_end(s, 0);
    if 0 <= i < s.len() {
        word_if_any(s.take(i)) + words_of(s.skip(i + 1))
    } else {
        word_if_any(s)
    }
}

fn find_word_end(v: &Vec<char>, from: usize) -> (r: usize)
    requires
        from <= v@.len(),
    ensures
        from <= r <= v@.len(),
        r - from == word_end(v@.skip(from as int), 0),
{
    let ghost s = v@.skip(from as int);
    let mut i: usize = from;
    while i < v.len()
        invariant
            from <= i <= v@.len(),
            s == v@.skip(from as int),
            word_end(s, 0) == word_end(s, i - from),
        decreases v.len() - i,
    {
        assert(s[i - from] == v@[i as int]);
        if !v[i].is_alphanumeric() {
            return i;
        }
        i += 1;
    }
    i
}

fn push_word(out: &mut Vec<String>, v: &Vec<char>, from: usize, to: usize)
    requires
        from <= to <= v@.len(),
    ensures
        text::views(final(out)@) == text::views(old(out)@) + word_if_any(
            v@.subrange(from as int, to as int),
        ),
{
    let ghost before = text::views(out@);
    if from < to {
        let w: String = text::piece(v.as_slice(), from, to);
        let l: String = text::lowercase_of(w.as_str());
        let ghost x = l@;
        out.push(l);
        assert(text::views(out@) =~= before + seq![x]);
    } else {
        assert(before + Seq::<Seq<char>>::empty() =~= before);
    }
}

/// The words of a text: what stands between characters that are neither letters nor
/// numbers, in small letters.
pub fn normalize_text(value: &str) -> (r: Vec<String>)
    ensures
        text::views(r@) == words_of(value@),
{
    let v: Vec<char> = text::chars_of(value);
    let mut out: Vec<String> = Vec::new();
    let mut from: usize = 0;
    assert(v@.skip(0) =~= v@);
    assert(text::views(out@) + words_of(v@) =~= words_of(v@));
    loop
        invariant
            from <= v@.len(),
            v@ == value@,
            text::views(out@) + words_of(v@.skip(from as int)) == words_of(v@),
        decreases v.len() - from,
    {
        let ghost s = v@.skip(from as int);
        let ghost before = text::views(out@);
        let i: usize = find_word_end(&v, from);
        push_word(&mut out, &v, from, i);
        assert(v@.subrange(from as int, i as int) =~= s.take(i - from));
        if i >= v.len() {
            assert(s.take(i - from) =~= s);
            return out;
        }
        assert(s.skip(i - from + 1) =~= v@.skip(i + 1));
        assert(before + (word_if_any(s.take(i - from)) + words_of(v@.skip(i + 1))) =~= (before
            + word_if_any(s.take(i - from))) + words_of(v@.skip(i + 1)));
        from = i + 1;
    }
}

/// Errors against how much there is to get wrong.
#[derive(Debug, Clone, Copy, PartialEq, Eq, Structural)]
pub struct ErrorCount {
    pub errors: usize,
    /// At least one.
    pub total: usize,
}

pub open spec fn at_least_one(n: nat) -> nat {
    if n == 0 {
        1
    } else {
        n
    }
}

/// Counts the wrong words of a transcript.
pub fn word_errors(reference: &str, hypothesis: &str) -> (r: ErrorCount)
    ensures
        r.errors == distance(words_of(reference@), words_of(hypothesis@)),
        r.total == at_least_one(words_of(reference@).len()),
{
    let a: Vec<String> = normalize_text(reference);
    let b: Vec<String> = normalize_text(hypothesis);
    assert(token_views(a@) =~= text::views(a@));
    assert(token_views(b@) =~= text::views(b@));
    ErrorCount {
        errors: edit_distance(&a, &b),
        total: if a.len() == 0 {
            1
        } else {
            a.len()
        },
    }
}

/// The words of a text without what stands between them.
pub open spec fn letters_of(s: Seq<char>) -> Seq<char> {
    text::joined(words_of(s), ""@)
}

/// Counts the wrong characters of a transcript.
pub fn character_errors(reference: &str, hypothesis: &str) -> (r: ErrorCount)
    ensures
        r.errors == distance(letters_of(reference@), letters_of(hypothesis@)),
        r.total == at_least_one(letters_of(reference@).len()),
{
    let a: Vec<String> = normalize_text(reference);
    let b: Vec<String> = normalize_text(hypothesis);
    let a: String = text::join(&a, "");
    let b: String = text::join(&b, "");
    let a: Vec<char> = text::chars_of(a.as_str());
    let b: Vec<char> = text::chars_of(b.as_str());
    assert(token_views(a@) =~= a@);
    assert(token_views(b@) =~= b@);
    ErrorCount {
        errors: edit_distance(&a, &b),
        total: if a.len() == 0 {
            1
        } else {
            a.len()
        },
    }
}

/// The index in an ordered list of the value below which a share of a list lies, in
/// thousandths, rounded to the nearest.
pub open spec fn rank_of_share(count: int, thousandths: int) -> int {
    ((count - 1) * thousandths + 500) / 1000
}

/// The index of a quantile, in thousandths, among `count` sorted values: the nearest
/// one, the later of two that are equally near.
pub fn percentile_index(count: usize, thousandths: u32) -> (r: usize)
    requires
        count > 0,
        thousandths <= 1000,
    ensures
        r == rank_of_share(count as int, thousandths as int),
        r == ((count - 1) * thousandths + 500) / 1000,
        r < count,
{
    let n: u128 = (count - 1) as u128;
    let q: u128 = thousandths as u128;
    assert(n * q <= n * 1000) by (nonlinear_arith)
        requires
            q <= 1000,
            n >= 0,
    ;
    let r: u128 = (n * q + 500) / 1000;
    r as usize
}

// ---------------------------------------------------------------------------
// Requests
// ---------------------------------------------------------------------------

#[derive(Debug)]
pub struct BenchmarkRequest {
    pub kind: String,
    pub prompts: Vec<String>,
}

pub fn default_kind() -> (r: String)
    ensures
        r@ == "tts"@,
{
    String::from_str("tts")
}

#[derive(Debug)]
pub struct BenchmarkAccepted {
    pub id: String,
    pub status: String,
}

#[derive(Debug, Clone, Copy, PartialEq, Eq, Structural)]
pub struct BenchmarkRating {
    pub sample_index: usize,
    pub score: u8,
}

pub open spec fn default_prompts_of() -> Seq<Seq<char>> {
    seq![
        "Guten Morgen, wie kann ich dir heute helfen?"@,
        "Die schnelle Antwort ist oft besser als eine lange Erklärung."@,
        "Bitte prüfe Mikrofon, Netzwerk und Grafikkarte."@,
        "Heute ist ein guter Tag für einen Sprachtest."@,
        "Dieses Beispiel enthält Zahlen: zwölf, vierundzwanzig und zweihundert."@,
    ]
}

/// What is spoken where a request names nothing.
pub fn default_prompts() -> (r: Vec<String>)
    ensures
        text::views(r@) == default_prompts_of(),
{
    let mut v: Vec<String> = Vec::new();
    v.push(String::from_str("Guten Morgen, wie kann ich dir heute helfen?"));
    v.push(String::from_str("Die schnelle Antwort ist oft besser als eine lange Erklärung."));
    v.push(String::from_str("Bitte prüfe Mikrofon, Netzwerk und Grafikkarte."));
    v.push(String::from_str("Heute ist ein guter Tag für einen Sprachtest."));
    v.push(
        String::from_str("Dieses Beispiel enthält Zahlen: zwölf, vierundzwanzig und zweihundert."),
    );
    assert(text::views(v@) =~= default_prompts_of());
    v
}

pub open spec fn is_known_kind(kind: Seq<char>) -> bool {
    kind == "tts"@ || kind == "asr"@ || kind == "llm"@
}

pub open spec fn is_good_prompt(p: Seq<char>) -> bool {
    p.len() > 0 && text::utf8_len(p) <= 1000
}

pub open spec fn are_good_prompts(v: Seq<String>) -> bool {
    v.len() <= 100 && forall|i: int| 0 <= i < v.len() ==> is_good_prompt((#[trigger] v[i])@)
}

pub open spec fn kind_wanted(request: BenchmarkRequest) -> Seq<char> {
    text::lower(text::trim(request.kind@))
}

/// Why a request is refused.
pub open spec fn request_fault(request: BenchmarkRequest) -> Option<Seq<char>> {
    if !is_known_kind(kind_wanted(request)) {
        Some(
            "benchmark kind '"@ + kind_wanted(request)
                + "' is not implemented; supported: tts, asr, llm"@,
        )
    } else if request.prompts@.len() > 0 && !are_good_prompts(request.prompts@) {
        Some("prompts must contain 1..100 entries of 1..1000 bytes"@)
    } else {
        None
    }
}

fn prompts_are_good(v: &Vec<String>) -> (r: bool)
    ensures
        r == are_good_prompts(v@),
{
    if v.len() > 100 {
        return false;
    }
    let mut i: usize = 0;
    while i < v.len()
        invariant
            i <= v.len(),
            v@.len() <= 100,
            forall|k: int| 0 <= k < i ==> is_good_prompt((#[trigger] v@[k])@),
        decreases v.len() - i,
    {
        let c: Vec<char> = text::chars_of(v[i].as_str());
        if c.len() == 0 || text::utf8_len_at_least(c.as_slice(), 1001) {
            assert(!is_good_prompt(v@[i as int]@));
            return false;
        }
        i += 1;
    }
    true
}

/// Checks a request and fills in what it leaves open.
pub fn admit_request(request: BenchmarkRequest) -> (r: Result<BenchmarkRequest, String>)
    ensures
        match r {
            Ok(q) => {
                &&& request_fault(request) is None
                &&& q.kind@ == kind_wanted(request)
                &&& text::views(q.prompts@) == if request.prompts@.len() == 0 {
                    default_prompts_of()
                } else {
                    text::views(request.prompts@)
                }
            },
            Err(m) => request_fault(request) == Some(m@),
        },
{
    let t: String = text::trimmed(request.kind.as_str());
    let kind: String = text::to_lower(t.as_str());
    let k: &str = kind.as_str();
    if !(text::same(k, "tts") || text::same(k, "asr") || text::same(k, "llm")) {
        return Err(
            wrap("benchmark kind '", k, "' is not implemented; supported: tts, asr, llm"),
        );
    }
    if request.prompts.len() == 0 {
        return Ok(BenchmarkRequest { kind, prompts: default_prompts() });
    }
    if !prompts_are_good(&request.prompts) {
        return Err(String::from_str("prompts must contain 1..100 entries of 1..1000 bytes"));
    }
    Ok(BenchmarkRequest { kind, prompts: request.prompts })
}

/// What `uuid` makes of a text: the usual form of the identifier that it denotes, or
/// the text of its error.
pub uninterp spec fn uuid_text(text: Seq<char>) -> Result<Seq<char>, Seq<char>>;

pub open spec fn result_view(r: Result<String, String>) -> Result<Seq<char>, Seq<char>> {
    match r {
        Ok(s) => Ok(s@),
        Err(m) => Err(m@),
    }
}

/// Calls `Uuid::parse_str` of `uuid` and writes the identifier in its usual form.
/// What comes out depends on the text alone.
#[verifier::external_body]
fn parse_uuid(id: &str) -> (r: Result<String, String>)
    ensures
        result_view(r) == uuid_text(id@),
{
    uuid::Uuid::parse_str(id).map(|u| u.to_string()).map_err(|e| e.to_string())
}

/// Why the name of a run is refused, given the identifier that it denotes.
pub open spec fn run_id_fault(id: Seq<char>, parsed: Result<Seq<char>, Seq<char>>) -> Option<
    Seq<char>,
> {
    match parsed {
        Err(e) => Some("invalid benchmark id: "@ + e),
        Ok(usual) => if usual != text::lower(id) {
            Some("benchmark id must use canonical UUID form"@)
        } else {
            None
        },
    }
}

/// Checks the name of a run, given the identifier that it denotes.
pub fn check_run_id(id: &str, parsed: &Result<String, String>) -> (r: Result<(), String>)
    ensures
        registry::reports(r, run_id_fault(id@, result_view(*parsed))),
{
    match parsed {
        Err(e) => Err(text::joined_pair("invalid benchmark id: ", e.as_str())),
        Ok(usual) => {
            let l: String = text::to_lower(id);
            if text::same(usual.as_str(), l.as_str()) {
                Ok(())
            } else {
                Err(String::from_str("benchmark id must use canonical UUID form"))
            }
        },
    }
}

/// Checks the name of a run.
pub fn validate_run_id(id: &str) -> (r: Result<(), String>)
    ensures
        registry::reports(r, run_id_fault(id@, uuid_text(id@))),
{
    let parsed: Result<String, String> = parse_uuid(id);
    check_run_id(id, &parsed)
}

/// The samples of a run.
pub open spec fn samples_in(result: Option<JsonView>) -> Seq<JsonView> {
    match result {
        Some(r) => match json::member(r, "samples"@) {
            Some(JsonView::List(v)) => v,
            _ => Seq::empty(),
        },
        None => Seq::empty(),
    }
}

pub open spec fn opt_value(j: Option<Json>) -> Option<JsonView> {
    match j {
        Some(x) => Some(x@),
        None => None,
    }
}

/// Why a rating is refused at once.
pub open spec fn rating_fault(rating: BenchmarkRating) -> Option<Seq<char>> {
    if rating.sample_index >= 100 || rating.score < 1 || rating.score > 5 {
        Some("sample_index must be 0..99 and score must be 1..5"@)
    } else {
        None
    }
}

pub fn check_rating(rating: &BenchmarkRating) -> (r: Result<(), String>)
    ensures
        registry::reports(r, rating_fault(*rating)),
{
    if rating.sample_index >= 100 || rating.score < 1 || rating.score > 5 {
        Err(String::from_str("sample_index must be 0..99 and score must be 1..5"))
    } else {
        Ok(())
    }
}

/// Why a rating is refused once the run was looked up.
pub open spec fn rated_fault(rating: BenchmarkRating, run: Option<BenchmarkRun>) -> Option<
    Seq<char>,
> {
    match run {
        None => Some("benchmark not found"@),
        Some(run) => if rating.sample_index >= samples_in(opt_value(run.result)).len() {
            Some("benchmark sample does not exist"@)
        } else {
            None
        },
    }
}

pub fn check_rated(rating: &BenchmarkRating, run: &Option<BenchmarkRun>) -> (r: Result<(), String>)
    ensures
        registry::reports(r, rated_fault(*rating, *run)),
{
    match run {
        None => Err(String::from_str("benchmark not found")),
        Some(run) => {
            if rating.sample_index >= run.sample_count() {
                Err(String::from_str("benchmark sample does not exist"))
            } else {
                Ok(())
            }
        },
    }
}

// ---------------------------------------------------------------------------
// Measurements
// ---------------------------------------------------------------------------

pub open spec fn is_higgs_url(cfg: Config) -> bool {
    tts::model_has(cfg, "higgs"@) || tts::url_has(cfg, "higgs"@) || tts::url_has(cfg, ":8086"@)
}

/// The members of a request for a spoken sample. A recogniser is measured on WAV
/// files, and its samples are told from the model alone.
pub open spec fn sample_members(cfg: Config, prompt: Seq<char>, for_asr: bool) -> Seq<
    (Seq<char>, JsonView),
> {
    let head = seq![
        ("model"@, JsonView::Text(cfg.tts_model@)),
        ("input"@, JsonView::Text(prompt)),
        ("voice"@, JsonView::Text(cfg.supertonic_voice@)),
        ("language"@, JsonView::Text(crate::config::tts_language_of(cfg, None))),
        (
            "response_format"@,
            JsonView::Text(
                if for_asr {
                    "wav"@
                } else {
                    "pcm"@
                },
            ),
        ),
    ];
    let higgs = if for_asr {
        tts::model_has(cfg, "higgs"@)
    } else {
        is_higgs_url(cfg)
    };
    let qwen = tts::model_has(cfg, "qwen"@) || (!for_asr && tts::url_has(cfg, ":8083"@));
    let tail = if higgs {
        seq![
            ("max_new_tokens"@, JsonView::Number(text::decimal(1024))),
            ("temperature"@, JsonView::Number("0.8"@)),
            ("top_k"@, JsonView::Number(text::decimal(50))),
        ]
    } else if qwen {
        seq![("max_new_tokens"@, JsonView::Number(text::decimal(tts::frame_limit(cfg) as nat)))]
    } else {
        Seq::empty()
    };
    head + tail
}

/// The body of a request for a spoken sample.
pub fn sample_body(cfg: &Config, prompt: &str, for_asr: bool) -> (r: Json)
    ensures
        r@ == JsonView::Object(sample_members(*cfg, prompt@, for_asr)),
{
    let language: String = cfg.resolve_tts_language(None);
    let model: String = text::to_lower(cfg.tts_model.as_str());
    let url: String = text::to_lower(cfg.tts_url.as_str());
    let mut m: Vec<(String, Json)> = Vec::new();
    assert(json::members_view(m@) =~= Seq::empty());
    push_member(&mut m, "model", Json::text(cfg.tts_model.as_str()));
    push_member(&mut m, "input", Json::text(prompt));
    push_member(&mut m, "voice", Json::text(cfg.supertonic_voice.as_str()));
    push_member(&mut m, "language", Json::text(language.as_str()));
    push_member(
        &mut m,
        "response_format",
        Json::text(
            if for_asr {
                "wav"
            } else {
                "pcm"
            },
        ),
    );
    let higgs: bool = text::contains(model.as_str(), "higgs") || (!for_asr && (text::contains(
        url.as_str(),
        "higgs",
    ) || text::contains(url.as_str(), ":8086")));
    let qwen: bool = text::contains(model.as_str(), "qwen") || (!for_asr && text::contains(
        url.as_str(),
        ":8083",
    ));
    if higgs {
        push_member(&mut m, "max_new_tokens", Json::number(1024));
        push_member(&mut m, "temperature", Json::Number(String::from_str("0.8")));
        push_member(&mut m, "top_k", Json::number(50));
    } else if qwen {
        push_member(&mut m, "max_new_tokens", Json::number(tts::qwen_frame_limit(cfg) as u64));
    }
    assert(json::members_view(m@) =~= sample_members(*cfg, prompt@, for_asr));
    object(m)
}

/// The rate of a spoken sample: the announced one, or the configured one.
pub fn sample_rate_of(cfg: &Config, announced: Option<u32>) -> (r: u32)
    ensures
        ({
            let rate = match announced {
                Some(n) => n,
                None => cfg.tts_native_sample_rate,
            };
            r == if rate == 0 {
                1
            } else {
                rate
            }
        }),
{
    let rate: u32 = match announced {
        Some(n) => n,
        None => cfg.tts_native_sample_rate,
    };
    if rate == 0 {
        1
    } else {
        rate
    }
}

/// Checks the audio of a spoken sample.
pub fn check_sample(len: usize) -> (r: Result<(), String>)
    ensures
        registry::reports(
            r,
            if len == 0 {
                Some("TTS benchmark returned no audio"@)
            } else if len % 2 != 0 {
                Some("TTS benchmark returned an odd PCM byte count"@)
            } else {
                None
            },
        ),
{
    if len == 0 {
        Err(String::from_str("TTS benchmark returned no audio"))
    } else if len % 2 != 0 {
        Err(String::from_str("TTS benchmark returned an odd PCM byte count"))
    } else {
        Ok(())
    }
}

/// The body of a request to the language model.
pub fn llm_sample_body(cfg: &Config, prompt: &str, temperature: &str) -> (r: Json)
    ensures
        r@ == JsonView::Object(
            seq![
                ("model"@, JsonView::Text(cfg.model_name@)),
                (
                    "messages"@,
                    JsonView::List(
                        seq![
                            crate::llm::message_json(
                                ("system"@, crate::config::prompt_of(*cfg, None)),
                            ),
                            crate::llm::message_json(("user"@, prompt@)),
                        ],
                    ),
                ),
                ("temperature"@, JsonView::Number(temperature@)),
                ("max_tokens"@, JsonView::Number(text::decimal(cfg.max_tokens as nat))),
                ("stream"@, JsonView::Bool(true)),
            ],
        ),
{
    let system: String = cfg.llm_system_prompt(None);
    let mut messages: Vec<Json> = Vec::new();
    messages.push(message("system", system.as_str()));
    messages.push(message("user", prompt));
    assert(json::elements_view(messages@) =~= seq![
        crate::llm::message_json(("system"@, crate::config::prompt_of(*cfg, None))),
        crate::llm::message_json(("user"@, prompt@)),
    ]);
    let mut m: Vec<(String, Json)> = Vec::new();
    assert(json::members_view(m@) =~= Seq::empty());
    push_member(&mut m, "model", Json::text(cfg.model_name.as_str()));
    push_member(&mut m, "messages", json::list(messages));
    push_member(&mut m, "temperature", Json::Number(String::from_str(temperature)));
    push_member(&mut m, "max_tokens", Json::number(cfg.max_tokens as u64));
    push_member(&mut m, "stream", Json::Bool(true));
    let j: Json = object(m);
    assert(j@->Object_0 =~= seq![
        ("model"@, JsonView::Text(cfg.model_name@)),
        (
            "messages"@,
            JsonView::List(
                seq![
                    crate::llm::message_json(("system"@, crate::config::prompt_of(*cfg, None))),
                    crate::llm::message_json(("user"@, prompt@)),
                ],
            ),
        ),
        ("temperature"@, JsonView::Number(temperature@)),
        ("max_tokens"@, JsonView::Number(text::decimal(cfg.max_tokens as nat))),
        ("stream"@, JsonView::Bool(true)),
    ]);
    j
}

fn message(role: &str, content: &str) -> (r: Json)
    ensures
        r@ == crate::llm::message_json((role@, content@)),
{
    let mut m: Vec<(String, Json)> = Vec::new();
    assert(json::members_view(m@) =~= Seq::empty());
    push_member(&mut m, "role", Json::text(role));
    push_member(&mut m, "content", Json::text(content));
    assert(json::members_view(m@) =~= seq![
        ("role"@, JsonView::Text(role@)),
        ("content"@, JsonView::Text(content@)),
    ]);
    object(m)
}

/// Whether a host is that of a container that may be measured.
pub open spec fn is_measured_host(host: Seq<char>) -> bool {
    &&& (host == "supertonic"@ || host == "llama-fallback"@ || text::starts_with(host, "whisper-"@)
        || text::starts_with(host, "tts-"@) || text::starts_with(host, "parakeet-"@)
        || text::starts_with(host, "voxtral-"@))
    &&& forall|i: int|
        0 <= i < host.len() ==> {
            let c = #[trigger] host[i];
            'a' <= c <= 'z' || text::is_digit(c) || c == '-'
        }
}

/// What stands behind the scheme of a web address.
pub open spec fn behind_scheme(endpoint: Seq<char>) -> Option<Seq<char>> {
    if text::starts_with(endpoint, "http://"@) {
        Some(endpoint.skip("http://"@.len() as int))
    } else if text::starts_with(endpoint, "https://"@) {
        Some(endpoint.skip("https://"@.len() as int))
    } else {
        None
    }
}

/// The host in what stands behind the scheme: without path, credentials and port.
pub open spec fn host_in(rest: Seq<char>) -> Seq<char> {
    let authority = rest.take(text::first_char(rest, '/'));
    let parts = text::split(authority, '@');
    let name = parts.last();
    name.take(text::first_char(name, ':'))
}

fn text_behind_scheme(endpoint: &str) -> (r: Option<String>)
    ensures
        registry::opt_view(r) == behind_scheme(endpoint@),
{
    let v: Vec<char> = text::chars_of(endpoint);
    let p: Vec<char> = text::chars_of("http://");
    let q: Vec<char> = text::chars_of("https://");
    if text::begins_with(endpoint, "http://") {
        assert(v@.subrange(p@.len() as int, v@.len() as int) =~= v@.skip(p@.len() as int));
        Some(text::piece(v.as_slice(), p.len(), v.len()))
    } else if text::begins_with(endpoint, "https://") {
        assert(v@.subrange(q@.len() as int, v@.len() as int) =~= v@.skip(q@.len() as int));
        Some(text::piece(v.as_slice(), q.len(), v.len()))
    } else {
        None
    }
}

fn front_of(s: &str, c: char) -> (r: String)
    ensures
        r@ == s@.take(text::first_char(s@, c)),
{
    let v: Vec<char> = text::chars_of(s);
    let i: usize = text::index_of(v.as_slice(), 0, c);
    assert(v@.skip(0) =~= v@);
    assert(v@.subrange(0, i as int) =~= v@.take(i as int));
    text::piece(v.as_slice(), 0, i)
}

fn find_host(rest: &str) -> (r: String)
    ensures
        r@ == host_in(rest@),
{
    let authority: String = front_of(rest, '/');
    let parts: Vec<String> = text::split_at_char(authority.as_str(), '@');
    proof {
        text::lemma_split_not_empty(authority@, '@');
        assert(text::views(parts@).last() == parts@.last()@);
    }
    front_of(parts[parts.len() - 1].as_str(), ':')
}

fn char_is_small_letter(c: char) -> (r: bool)
    ensures
        r == ('a' <= c <= 'z'),
{
    let p: u32 = c as u32;
    p >= 97 && p <= 122
}

fn host_is_measured(host: &str) -> (r: bool)
    ensures
        r == is_measured_host(host@),
{
    if !(text::same(host, "supertonic") || text::same(host, "llama-fallback") || text::begins_with(
        host,
        "whisper-",
    ) || text::begins_with(host, "tts-") || text::begins_with(host, "parakeet-")
        || text::begins_with(host, "voxtral-")) {
        return false;
    }
    let v: Vec<char> = text::chars_of(host);
    let mut i: usize = 0;
    while i < v.len()
        invariant
            i <= v.len(),
            v@ == host@,
            forall|k: int|
                0 <= k < i ==> {
                    let c = #[trigger] v@[k];
                    'a' <= c <= 'z' || text::is_digit(c) || c == '-'
                },
        decreases v.len() - i,
    {
        let c: char = v[i];
        if !(char_is_small_letter(c) || text::char_is_digit(c) || c == '-') {
            assert(host@[i as int] == c);
            return false;
        }
        i += 1;
    }
    true
}

/// The container behind an address, if it is one of those that are measured.
pub fn managed_container_from_endpoint(endpoint: &str) -> (r: Option<String>)
    ensures
        match behind_scheme(endpoint@) {
            Some(rest) => if is_measured_host(host_in(rest)) {
                r matches Some(name) && name@ == "s2s-"@ + host_in(rest)
            } else {
                r is None
            },
            None => r is None,
        },
{
    match text_behind_scheme(endpoint) {
        Some(rest) => {
            let host: String = find_host(rest.as_str());
            if host_is_measured(host.as_str()) {
                Some(text::joined_pair("s2s-", host.as_str()))
            } else {
                None
            }
        },
        None => None,
    }
}

/// A whole number in a JSON value.
pub open spec fn whole_number(j: Option<JsonView>) -> Option<nat> {
    match j {
        Some(JsonView::Number(t)) => text::parsed_unsigned(t, u64::MAX as nat),
        _ => None,
    }
}

fn read_number(j: Option<&Json>) -> (r: Option<u64>)
    ensures
        match r {
            Some(n) => whole_number(json::opt_json(j)) == Some(n as nat),
            None => whole_number(json::opt_json(j)) is None,
        },
{
    match j {
        Some(Json::Number(t)) => text::parse_unsigned(t.as_str(), u64::MAX),
        _ => None,
    }
}

/// The memory that a container uses without what it can give back, from its
/// statistics.
pub open spec fn memory_in_use(stats: JsonView) -> Option<int> {
    match json::member(stats, "memory_stats"@) {
        Some(m) => match whole_number(json::member(m, "usage"@)) {
            Some(usage) => {
                let s = json::member(m, "stats"@);
                let spare = match s {
                    Some(s) => match whole_number(json::member(s, "inactive_file"@)) {
                        Some(n) => n,
                        None => match whole_number(json::member(s, "total_inactive_file"@)) {
                            Some(n) => n,
                            None => 0,
                        },
                    },
                    None => 0,
                };
                Some(
                    if usage >= spare {
                        usage - spare
                    } else {
                        0
                    },
                )
            },
            None => None,
        },
        None => None,
    }
}

pub fn memory_bytes(stats: &Json) -> (r: Option<u64>)
    ensures
        match r {
            Some(n) => memory_in_use(stats@) == Some(n as int),
            None => memory_in_use(stats@) is None,
        },
{
    let m: &Json = match stats.get("memory_stats") {
        Some(m) => m,
        None => {
            return None;
        },
    };
    let usage: u64 = match read_number(m.get("usage")) {
        Some(n) => n,
        None => {
            return None;
        },
    };
    let spare: u64 = match m.get("stats") {
        Some(s) => match read_number(s.get("inactive_file")) {
            Some(n) => n,
            None => match read_number(s.get("total_inactive_file")) {
                Some(n) => n,
                None => 0,
            },
        },
        None => 0,
    };
    Some(
        if usage >= spare {
            usage - spare
        } else {
            0
        },
    )
}

/// Whether a container says of itself that it may be measured.
pub fn says_managed(inspection: &Json) -> (r: bool)
    ensures
        r == (match json::member2(inspection@, "Config"@, "Labels"@) {
            Some(l) => json::text_of(json::member(l, "s2s.lab.managed"@)) == Some("true"@),
            None => false,
        }),
{
    match inspection.get("Config") {
        Some(c) => match c.get("Labels") {
            Some(l) => match l.text_member("s2s.lab.managed") {
                Some(t) => text::same(t.as_str(), "true"),
                None => false,
            },
            None => false,
        },
        None => false,
    }
}

// ---------------------------------------------------------------------------
// WAV files
// ---------------------------------------------------------------------------

fn push4(v: &mut Vec<u8>, a: u8, b: u8, c: u8, d: u8)
    ensures
        final(v)@ == old(v)@ + seq![a, b, c, d],
{
    let ghost before = v@;
    v.push(a);
    v.push(b);
    v.push(c);
    v.push(d);
    assert(v@ =~= before + seq![a, b, c, d]);
}

fn push_le32(v: &mut Vec<u8>, n: u32)
    ensures
        final(v)@ == old(v)@ + crate::wav::le32_of(n as int),
{
    push4(
        v,
        (n % 256) as u8,
        ((n / 256) % 256) as u8,
        ((n / 65536) % 256) as u8,
        ((n / 16777216) % 256) as u8,
    );
}

/// A WAV file with raw samples, unless it would be too large or its rate too high
/// for one.
pub fn pcm16_wav(pcm: &[u8], sample_rate: u32) -> (r: Result<Vec<u8>, String>)
    ensures
        match r {
            Ok(w) => pcm@.len() + 36 <= u32::MAX && 2 * sample_rate <= u32::MAX && w@
                == crate::wav::wav_header(pcm@.len() as int, sample_rate as int) + pcm@,
            Err(m) => if pcm@.len() + 36 > u32::MAX {
                m@ == "PCM sample is too large for WAV"@
            } else {
                2 * sample_rate > u32::MAX && m@ == "invalid WAV sample rate"@
            },
        },
{
    if pcm.len() > 0xffff_ffff - 36 {
        return Err(String::from_str("PCM sample is too large for WAV"));
    }
    if sample_rate > 0x7fff_ffff {
        return Err(String::from_str("invalid WAV sample rate"));
    }
    let n: u32 = pcm.len() as u32;
    let mut w: Vec<u8> = Vec::new();
    push4(&mut w, 0x52, 0x49, 0x46, 0x46);
    push_le32(&mut w, n + 36);
    push4(&mut w, 0x57, 0x41, 0x56, 0x45);
    push4(&mut w, 0x66, 0x6d, 0x74, 0x20);
    push_le32(&mut w, 16);
    push4(&mut w, 1, 0, 1, 0);
    push_le32(&mut w, sample_rate);
    push_le32(&mut w, 2 * sample_rate);
    push4(&mut w, 2, 0, 16, 0);
    push4(&mut w, 0x64, 0x61, 0x74, 0x61);
    push_le32(&mut w, n);
    let ghost head = crate::wav::wav_header(n as int, sample_rate as int);
    assert(w@ =~= head);
    let mut i: usize = 0;
    assert(w@ =~= head + pcm@.take(0));
    while i < pcm.len()
        invariant
            i <= pcm.len(),
            w@ == head + pcm@.take(i as int),
        decreases pcm.len() - i,
    {
        w.push(pcm[i]);
        assert(w@ =~= head + pcm@.take(i + 1));
        i += 1;
    }
    assert(pcm@.take(i as int) =~= pcm@);
    Ok(w)
}

/// The number of a sample with three digits at least.
pub open spec fn padded(n: nat) -> Seq<char> {
    if n < 10 {
        "00"@ + text::decimal(n)
    } else if n < 100 {
        "0"@ + text::decimal(n)
    } else {
        text::decimal(n)
    }
}

/// The file of a sample within the directory of its run.
pub fn sample_file(index: usize) -> (r: String)
    ensures
        r@ == padded(index as nat) + ".wav"@,
{
    let n: String = text::decimal_of(index as u64);
    let p: String = if index < 10 {
        text::joined_pair("00", n.as_str())
    } else if index < 100 {
        text::joined_pair("0", n.as_str())
    } else {
        n
    };
    text::joined_pair(p.as_str(), ".wav")
}

/// The address of the audio of a sample.
pub fn sample_url(run_id: &str, index: usize) -> (r: String)
    ensures
        r@ == "/api/v1/benchmarks/"@ + run_id@ + "/audio/"@ + text::decimal(index as nat) + ""@,
{
    let n: String = text::decimal_of(index as u64);
    registry::wrap2("/api/v1/benchmarks/", run_id, "/audio/", n.as_str(), "")
}

// ---------------------------------------------------------------------------
// Reports
// ---------------------------------------------------------------------------

#[derive(Debug)]
pub struct BenchmarkRun {
    pub id: String,
    pub kind: String,
    pub status: String,
    pub created_at: i64,
    pub completed_at: Option<i64>,
    pub stack: Json,
    pub hardware: Json,
    pub request: Json,
    pub result: Option<Json>,
    pub error: Option<String>,
}

/// A text with its quotation marks doubled.
pub open spec fn quotes_doubled(s: Seq<char>) -> Seq<char>
    decreases s.len(),
{
    if s.len() == 0 {
        Seq::empty()
    } else if s.last() == '"' {
        quotes_doubled(s.drop_last()).push('"').push('"')
    } else {
        quotes_doubled(s.drop_last()).push(s.last())
    }
}

/// A field of a table.
pub open spec fn csv_field(s: Seq<char>) -> Seq<char> {
    seq!['"'] + quotes_doubled(s) + seq!['"']
}

pub fn csv(value: &str) -> (r: String)
    ensures
        r@ == csv_field(value@),
{
    let v: Vec<char> = text::chars_of(value);
    let mut out: Vec<char> = Vec::new();
    out.push('"');
    let mut i: usize = 0;
    assert(v@.take(0) =~= Seq::empty());
    assert(out@ =~= seq!['"'] + quotes_doubled(v@.take(0)));
    while i < v.len()
        invariant
            i <= v.len(),
            out@ == seq!['"'] + quotes_doubled(v@.take(i as int)),
        decreases v.len() - i,
    {
        assert(v@.take(i + 1).drop_last() =~= v@.take(i as int));
        out.push(v[i]);
        if v[i] == '"' {
            out.push('"');
        }
        assert(out@ =~= seq!['"'] + quotes_doubled(v@.take(i + 1)));
        i += 1;
    }
    assert(v@.take(i as int) =~= v@);
    out.push('"');
    assert(out@ =~= csv_field(v@));
    text::string_of(out.as_slice())
}

/// The columns with numbers, in their order.
pub open spec fn number_columns_of() -> Seq<Seq<char>> {
    seq![
        "ttfa_ms"@,
        "ttft_ms"@,
        "asr_ms"@,
        "total_ms"@,
        "audio_seconds"@,
        "rtf"@,
        "wer"@,
        "cer"@,
        "tokens_per_second"@,
        "bytes"@,
        "memory_mib"@,
    ]
}

pub fn number_columns() -> (r: Vec<String>)
    ensures
        text::views(r@) == number_columns_of(),
{
    let mut v: Vec<String> = Vec::new();
    v.push(String::from_str("ttfa_ms"));
    v.push(String::from_str("ttft_ms"));
    v.push(String::from_str("asr_ms"));
    v.push(String::from_str("total_ms"));
    v.push(String::from_str("audio_seconds"));
    v.push(String::from_str("rtf"));
    v.push(String::from_str("wer"));
    v.push(String::from_str("cer"));
    v.push(String::from_str("tokens_per_second"));
    v.push(String::from_str("bytes"));
    v.push(String::from_str("memory_mib"));
    assert(text::views(v@) =~= number_columns_of());
    v
}

pub open spec fn text_or_empty(sample: JsonView, key: Seq<char>) -> Seq<char> {
    match json::text_of(json::member(sample, key)) {
        Some(t) => t,
        None => ""@,
    }
}

/// The fields of a row with text.
pub open spec fn text_fields(run: BenchmarkRun, sample: JsonView) -> Seq<Seq<char>> {
    seq![
        csv_field(run.id@),
        csv_field(run.kind@),
        csv_field(run.status@),
        csv_field(text_or_empty(sample, "prompt"@)),
        csv_field(text_or_empty(sample, "transcript"@)),
        csv_field(text_or_empty(sample, "completion"@)),
    ]
}

pub open spec fn csv_row(run: BenchmarkRun, sample: JsonView, numbers: Seq<Seq<char>>) -> Seq<
    char,
> {
    text::joined(text_fields(run, sample) + numbers, ","@) + "\n"@
}

pub open spec fn csv_rows(
    run: BenchmarkRun,
    samples: Seq<JsonView>,
    numbers: Seq<Vec<String>>,
) -> Seq<char>
    decreases samples.len(),
{
    if samples.len() == 0 {
        Seq::empty()
    } else {
        csv_rows(run, samples.drop_last(), numbers) + csv_row(
            run,
            samples.last(),
            text::views(numbers[samples.len() - 1]@),
        )
    }
}

pub open spec fn csv_head() -> Seq<char> {
    "run_id,kind,status,prompt,transcript,completion,ttfa_ms,ttft_ms,asr_ms,total_ms,audio_seconds,rtf,wer,cer,tokens_per_second,bytes,memory_mib\n"@
}

fn sample_text(sample: &Json, key: &str) -> (r: String)
    ensures
        r@ == csv_field(text_or_empty(sample@, key@)),
{
    match sample.text_member(key) {
        Some(t) => csv(t.as_str()),
        None => csv(""),
    }
}

impl BenchmarkRun {
    /// How many samples the run has.
    pub fn sample_count(&self) -> (r: usize)
        ensures
            r == samples_in(opt_value(self.result)).len(),
    {
        match &self.result {
            Some(j) => match j.get("samples") {
                Some(Json::List(v)) => {
                    assert(json::member(j@, "samples"@)->0->List_0.len() == v@.len());
                    v.len()
                },
                _ => 0,
            },
            None => 0,
        }
    }

    fn row(&self, sample: &Json, numbers: &Vec<String>) -> (r: String)
        ensures
            r@ == csv_row(*self, sample@, text::views(numbers@)),
    {
        let mut fields: Vec<String> = Vec::new();
        fields.push(csv(self.id.as_str()));
        fields.push(csv(self.kind.as_str()));
        fields.push(csv(self.status.as_str()));
        fields.push(sample_text(sample, "prompt"));
        fields.push(sample_text(sample, "transcript"));
        fields.push(sample_text(sample, "completion"));
        let ghost head = text_fields(*self, sample@);
        let ghost ns = text::views(numbers@);
        assert(text::views(fields@) =~= head + ns.take(0));
        let mut i: usize = 0;
        while i < numbers.len()
            invariant
                i <= numbers.len(),
                ns == text::views(numbers@),
                text::views(fields@) == head + ns.take(i as int),
            decreases numbers.len() - i,
        {
            let ghost before = text::views(fields@);
            fields.push(numbers[i].clone());
            assert(text::views(fields@) =~= before.push(ns[i as int]));
            assert(text::views(fields@) =~= head + ns.take(i + 1));
            i += 1;
        }
        assert(ns.take(i as int) =~= ns);
        let line: String = text::join(&fields, ",");
        text::joined_pair(line.as_str(), "\n")
    }

    /// The run as a table. `numbers` holds for each sample the texts of the columns
    /// with numbers.
    pub fn to_csv(&self, numbers: &Vec<Vec<String>>) -> (r: String)
        requires
            numbers@.len() == samples_in(opt_value(self.result)).len(),
        ensures
            r@ == csv_head() + csv_rows(*self, samples_in(opt_value(self.result)), numbers@),
    {
        let ghost samples = samples_in(opt_value(self.result));
        let mut out: String = String::from_str(
            "run_id,kind,status,prompt,transcript,completion,ttfa_ms,ttft_ms,asr_ms,total_ms,audio_seconds,rtf,wer,cer,tokens_per_second,bytes,memory_mib\n",
        );
        assert(out@ =~= csv_head() + csv_rows(*self, Seq::empty(), numbers@));
        match &self.result {
            Some(j) => {
                match j.get("samples") {
                    Some(Json::List(v)) => {
                        assert(samples =~= json::elements_view(v@));
                        assert(samples.take(0) =~= Seq::empty());
                        let mut i: usize = 0;
                        while i < v.len()
                            invariant
                                i <= v.len(),
                                samples == json::elements_view(v@),
                                numbers@.len() == v@.len(),
                                out@ == csv_head() + csv_rows(
                                    *self,
                                    samples.take(i as int),
                                    numbers@,
                                ),
                            decreases v.len() - i,
                        {
                            let ghost before = csv_rows(*self, samples.take(i as int), numbers@);
                            let row: String = self.row(&v[i], &numbers[i]);
                            out = text::joined_pair(out.as_str(), row.as_str());
                            assert(samples.take(i + 1).drop_last() =~= samples.take(i as int));
                            assert(samples.take(i + 1).last() == v@[i as int]@);
                            assert((csv_head() + before) + row@ =~= csv_head() + (before + row@));
                            i += 1;
                        }
                        assert(samples.take(i as int) =~= samples);
                    },
                    _ => {
                        assert(samples =~= Seq::empty());
                    },
                }
            },
            None => {
                assert(samples =~= Seq::empty());
            },
        }
        out
    }
}

/// Where the runs are kept.
pub fn benchmark_db_path(given: &Option<String>, in_container: bool) -> (r: String)
    ensures
        r@ == match *given {
            Some(p) => p@,
            None => if in_container {
                "/data/lab.db"@
            } else {
                "target/s2s-lab.db"@
            },
        },
{
    match given {
        Some(p) => p.clone(),
        None => if in_container {
            String::from_str("/data/lab.db")
        } else {
            String::from_str("target/s2s-lab.db")
        },
    }
}

/// One edit is worth one: appending a token to one side, or a token to each, changes
/// the distance by at most one, and equal tokens leave it; the lengths alone make for
/// as many edits as they differ.
pub proof fn law_one_edit_counts_one<T>(a: Seq<T>, b: Seq<T>, x: T, y: T)
    ensures
        distance(a.push(x), b) <= distance(a, b) + 1,
        distance(a, b.push(y)) <= distance(a, b) + 1,
        distance(a.push(x), b.push(y)) <= distance(a, b) + 1,
        distance(a.push(x), b.push(x)) <= distance(a, b),
        distance(a, b) >= a.len() - b.len(),
        distance(a, b) >= b.len() - a.len(),
        distance(a, a.push(x)) == 1,
        distance(a, Seq::empty()) == a.len(),
{
    assert(a.push(x).drop_last() =~= a);
    assert(b.push(y).drop_last() =~= b);
    assert(b.push(x).drop_last() =~= b);
    law_no_distance_means_equal(a, a);
    lemma_distance_of_lengths(a, b);
    lemma_distance_of_lengths(a, a.push(x));
    if b.len() == 0 {
        assert(distance(a.push(x), b) == a.len() + 1);
    }
    if a.len() == 0 {
        assert(distance(a, b.push(y)) == b.len() + 1);
    }
}

proof fn lemma_distance_of_lengths<T>(a: Seq<T>, b: Seq<T>)
    ensures
        distance(a, b) >= a.len() - b.len(),
        distance(a, b) >= b.len() - a.len(),
    decreases a.len() + b.len(),
{
    if a.len() > 0 && b.len() > 0 {
        lemma_distance_of_lengths(a.drop_last(), b.drop_last());
        lemma_distance_of_lengths(a.drop_last(), b);
        lemma_distance_of_lengths(a, b.drop_last());
    }
}

/// Words are what stands between characters that are neither letters nor digits, in
/// lower case: such a character parts a text into two whose words follow each other,
/// and a text without one is a word.
pub proof fn law_words_are_parted(a: Seq<char>, c: char, b: Seq<char>)
    requires
        !alphanumeric(c),
    ensures
        words_of(a.push(c) + b) == words_of(a) + words_of(b),
        a.len() > 0 && (forall|i: int| 0 <= i < a.len() ==> alphanumeric(#[trigger] a[i]))
            ==> words_of(a) == seq![text::lowercase(a)],
        words_of(Seq::empty()) == Seq::<Seq<char>>::empty(),
    decreases a.len(),
{
    let s = a.push(c) + b;
    let i = word_end(a, 0);
    lemma_word_end(a, 0);
    lemma_word_end(s, 0);
    let j = word_end(s, 0);
    if i < a.len() {
        assert(!alphanumeric(s[i])) by {
            assert(s[i] == a[i]);
        }
        assert(forall|k: int| 0 <= k < i ==> s[k] == #[trigger] a[k]);
        assert(j == i) by {
            if j < i {
                assert(s[j] == a[j]);
                assert(alphanumeric(a[j]));
            }
            if j > i {
                assert(alphanumeric(s[i]));
            }
        }
        law_words_are_parted(a.skip(i + 1), c, b);
        assert(s.skip(i + 1) =~= a.skip(i + 1).push(c) + b);
        assert(s.take(i) =~= a.take(i));
        assert(words_of(s) =~= words_of(a) + words_of(b));
    } else {
        assert(s[a.len() as int] == c);
        assert(j == a.len()) by {
            if j < a.len() {
                assert(s[j] == a[j]);
                assert(alphanumeric(a[j]));
            }
            if j > a.len() {
                assert(alphanumeric(s[a.len() as int]));
            }
        }
        assert(s.take(j) =~= a);
        assert(s.skip(j + 1) =~= b);
        assert(words_of(a) =~= word_if_any(a));
        assert(words_of(s) =~= words_of(a) + words_of(b));
    }
    assert(words_of(Seq::empty()) =~= Seq::<Seq<char>>::empty());
}

proof fn lemma_word_end(s: Seq<char>, from: int)
    requires
        0 <= from <= s.len(),
    ensures
        from <= word_end(s, from) <= s.len(),
        word_end(s, from) < s.len() ==> !alphanumeric(s[word_end(s, from)]),
        forall|k: int| from <= k < word_end(s, from) ==> alphanumeric(#[trigger] s[k]),
    decreases s.len() - from,
{
    if from < s.len() && alphanumeric(s[from]) {
        lemma_word_end(s, from + 1);
    }
}

/// A request is admitted for one of the three kinds, in any case and with white space
/// around it, with up to a hundred prompts of up to a thousand bytes, or with none.
pub proof fn law_admitted_request(r: BenchmarkRequest)
    ensures
        ({
            let kind = text::lower(text::trim(r.kind@));
            let known = kind == "tts"@ || kind == "asr"@ || kind == "llm"@;
            &&& !known ==> request_fault(r) is Some
            &&& known && r.prompts@.len() == 0 ==> request_fault(r) is None
            &&& r.prompts@.len() > 100 ==> request_fault(r) is Some
            &&& known && r.prompts@.len() <= 100 && (forall|i: int|
                0 <= i < r.prompts@.len() ==> 0 < (#[trigger] r.prompts@[i])@.len()
                    && text::utf8_len(r.prompts@[i]@) <= 1000) ==> request_fault(r) is None
            &&& (exists|i: int|
                0 <= i < r.prompts@.len() && ((#[trigger] r.prompts@[i])@.len() == 0
                    || text::utf8_len(r.prompts@[i]@) > 1000)) ==> request_fault(r) is Some
        }),
{
}

/// A rating is between one and five, for a sample that is there.
pub proof fn law_ratings(r: BenchmarkRating, run: BenchmarkRun)
    ensures
        rating_fault(r) is None <==> 1 <= r.score <= 5 && r.sample_index < 100,
        rated_fault(r, None) is Some,
        rated_fault(r, Some(run)) is None <==> r.sample_index < samples_in(
            opt_value(run.result),
        ).len(),
{
}

/// An id is taken in its usual form only, in any case.
pub proof fn law_run_id(id: Seq<char>, usual: Seq<char>, e: Seq<char>)
    ensures
        run_id_fault(id, Ok(usual)) is None <==> text::lower(id) == usual,
        run_id_fault(id, Err(e)) is Some,
{
}

/// A field of a table is put in quotes, and the quotes in it are doubled; nothing else
/// is changed.
pub proof fn law_quotes_are_doubled(a: Seq<char>, b: Seq<char>, c: char)
    ensures
        quotes_doubled(a + b) == quotes_doubled(a) + quotes_doubled(b),
        quotes_doubled(seq!['"']) == seq!['"', '"'],
        c != '"' ==> quotes_doubled(seq![c]) == seq![c],
        csv_field(a).len() == quotes_doubled(a).len() + 2,
        csv_field(a)[0] == '"',
        csv_field(a).last() == '"',
        csv_field(a).subrange(1, csv_field(a).len() - 1) == quotes_doubled(a),
    decreases b.len(),
{
    assert(seq!['"'].drop_last() =~= Seq::empty());
    assert(seq![c].drop_last() =~= Seq::empty());
    assert(quotes_doubled(Seq::empty()) =~= Seq::<char>::empty());
    assert(quotes_doubled(seq!['"']) =~= seq!['"', '"']);
    assert(c != '"' ==> quotes_doubled(seq![c]) =~= seq![c]);
    assert(csv_field(a).subrange(1, csv_field(a).len() - 1) =~= quotes_doubled(a));
    if b.len() == 0 {
        assert(a + b =~= a);
        assert(quotes_doubled(a) + quotes_doubled(b) =~= quotes_doubled(a));
    } else {
        law_quotes_are_doubled(a, b.drop_last(), c);
        assert((a + b).drop_last() =~= a + b.drop_last());
        assert(quotes_doubled(a + b) =~= quotes_doubled(a) + quotes_doubled(b));
    }
}

/// The memory that a container uses is what is reported without what could be given
/// back, and nothing where more could be given back than is used.
pub proof fn law_memory_in_use(stats: JsonView, usage: nat, spare: nat)
    requires
        usage <= u64::MAX,
        spare <= u64::MAX,
        json::member(stats, "memory_stats"@) is Some,
        json::member(json::member(stats, "memory_stats"@).unwrap(), "usage"@) == Some(
            JsonView::Number(text::decimal(usage)),
        ),
    ensures
        ({
            let m = json::member(stats, "memory_stats"@).unwrap();
            let s = json::member(m, "stats"@);
            &&& s is None ==> memory_in_use(stats) == Some(usage as int)
            &&& s is Some && json::member(s.unwrap(), "inactive_file"@) == Some(
                JsonView::Number(text::decimal(spare)),
            ) && spare <= usage ==> memory_in_use(stats) == Some(usage - spare)
            &&& s is Some && json::member(s.unwrap(), "inactive_file"@) == Some(
                JsonView::Number(text::decimal(spare)),
            ) && spare > usage ==> memory_in_use(stats) == Some(0int)
        }),
{
    text::law_written_number_reads_back(usage, u64::MAX as nat);
    text::law_written_number_reads_back(spare, u64::MAX as nat);
}

/// Only hosts that the stack runs itself are measured, by names of small letters,
/// digits and hyphens.
pub proof fn law_measured_hosts(host: Seq<char>, i: int)
    requires
        is_measured_host(host),
        0 <= i < host.len(),
    ensures
        ('a' <= host[i] <= 'z') || ('0' <= host[i] <= '9') || host[i] == '-',
        host == "supertonic"@ || host == "llama-fallback"@ || text::starts_with(host, "whisper-"@)
            || text::starts_with(host, "tts-"@) || text::starts_with(host, "parakeet-"@)
            || text::starts_with(host, "voxtral-"@),
{
}

/// The share of a list is rounded to the nearest place: none lies at the first and all
/// at the last, half of an odd list in its middle, and a larger share never before a
/// smaller.
pub proof fn law_nearest_place(count: int, share: int, larger: int)
    requires
        count > 0,
        0 <= share <= larger <= 1000,
    ensures
        rank_of_share(count, 0) == 0,
        rank_of_share(count, 1000) == count - 1,
        count % 2 == 1 ==> rank_of_share(count, 500) == count / 2,
        -500 <= (count - 1) * share - 1000 * rank_of_share(count, share) < 500,
        rank_of_share(count, share) <= rank_of_share(count, larger),
{
    let n = count - 1;
    assert(n * share <= n * larger) by (nonlinear_arith)
        requires
            n >= 0,
            share <= larger,
    ;
    assert(n * 0 == 0);
    vstd::arithmetic::div_mod::lemma_div_is_ordered(n * share + 500, n * larger + 500, 1000);
}

/// The number of a sample has three digits at least, and is that number.
pub proof fn law_sample_numbers(n: nat)
    ensures
        padded(n).len() >= 3,
        n < 1000 ==> padded(n).len() == 3,
        forall|i: int| 0 <= i < padded(n).len() ==> '0' <= #[trigger] padded(n)[i] <= '9',
        padded(n).skip(padded(n).len() - text::decimal(n).len()) == text::decimal(n),
{
    reveal_strlit("00");
    reveal_strlit("0");
    assert("00"@ =~= seq!['0', '0']);
    assert("0"@ =~= seq!['0']);
    reveal_with_fuel(text::decimal, 5);
    text::lemma_decimal_digits(n);
    let d = text::decimal(n);
    assert(padded(n).skip(padded(n).len() - d.len()) =~= d);
}

/// The host of an address is what stands behind the scheme and the credentials and
/// before the port and the path; only web addresses have one.
pub proof fn law_host_of_an_address(name: Seq<char>, port: Seq<char>, path: Seq<char>)
    requires
        !name.contains('/') && !name.contains(':') && !name.contains('@'),
        !port.contains('/') && !port.contains('@'),
    ensures
        behind_scheme("http://"@ + name) == Some(name),
        behind_scheme("https://"@ + name) == Some(name),
        host_in(name) == name,
        host_in(name + "/"@ + path) == name,
        host_in(name + ":"@ + port) == name,
        host_in(name + ":"@ + port + "/"@ + path) == name,
{
    reveal_strlit("http://");
    reveal_strlit("https://");
    reveal_strlit("/");
    reveal_strlit(":");
    assert("http://"@.len() == 7 && "https://"@.len() == 8);
    assert("http://"@[4] == ':' && "https://"@[4] == 's');
    let h = "http://"@ + name;
    let t = "https://"@ + name;
    assert(h.take(7) =~= "http://"@);
    assert(h.skip(7) =~= name);
    assert(t.take(8) =~= "https://"@);
    assert(t.skip(8) =~= name);
    assert(t.take(7)[4] == 's');
    assert("/"@ =~= seq!['/']);
    assert(":"@ =~= seq![':']);
    let long = name + ":"@ + port;
    lemma_authority(name, Seq::empty());
    lemma_authority(name, seq!['/'] + path);
    assert(name.take(name.len() as int) =~= name);
    lemma_host_in(name, name);
    assert(name + Seq::<char>::empty() =~= name);
    assert(name + "/"@ + path =~= name + (seq!['/'] + path));
    assert(!long.contains('/')) by {
        if long.contains('/') {
            let i = choose|i: int| 0 <= i < long.len() && long[i] == '/';
            if i < name.len() {
                assert(name[i] == '/');
            } else if i > name.len() {
                assert(port[i - name.len() - 1] == '/');
            }
        }
    }
    assert(!long.contains('@')) by {
        if long.contains('@') {
            let i = choose|i: int| 0 <= i < long.len() && long[i] == '@';
            if i < name.len() {
                assert(name[i] == '@');
            } else if i > name.len() {
                assert(port[i - name.len() - 1] == '@');
            }
        }
    }
    lemma_authority(long, Seq::empty());
    lemma_authority(long, seq!['/'] + path);
    assert(long.take(name.len() as int) =~= name);
    lemma_host_in(long, name);
    assert(long + Seq::<char>::empty() =~= long);
    assert(long + "/"@ + path =~= long + (seq!['/'] + path));
}

proof fn lemma_authority(authority: Seq<char>, rest: Seq<char>)
    requires
        !authority.contains('/'),
        rest.len() == 0 || rest[0] == '/',
    ensures
        (authority + rest).take(text::first_char(authority + rest, '/')) == authority,
{
    let s = authority + rest;
    assert forall|i: int| 0 <= i < authority.len() implies s[i] != '/' by {
        assert(authority[i] == s[i]);
    }
    text::lemma_first_char(s, '/');
    let k = text::first_char(s, '/');
    if k < authority.len() {
        assert(authority[k] == '/');
    }
    if rest.len() > 0 {
        assert(s[authority.len() as int] == '/');
    }
    assert(k == authority.len());
    assert(s.take(k) =~= authority);
}

proof fn lemma_host_in(authority: Seq<char>, name: Seq<char>)
    requires
        !authority.contains('@'),
        !name.contains(':'),
        name.len() <= authority.len(),
        authority.take(name.len() as int) == name,
        authority.len() > name.len() ==> authority[name.len() as int] == ':',
    ensures
        text::split(authority, '@').last() == authority,
        authority.take(text::first_char(authority, ':')) == name,
{
    text::lemma_first_char(authority, '@');
    let k = text::first_char(authority, '@');
    if k < authority.len() {
        assert(authority.contains('@'));
    }
    text::lemma_first_char(authority, ':');
    let m = text::first_char(authority, ':');
    if m < name.len() {
        assert(name[m] == authority[m]);
    }
}

/// A sample is asked for with the prompt, the model and the voice of the synthesis; as
/// a WAV file for a recogniser and as raw samples else.
pub proof fn law_request_of_a_sample(cfg: Config, prompt: Seq<char>, for_asr: bool)
    ensures
        json::first_member(sample_members(cfg, prompt, for_asr), "input"@) == Some(
            JsonView::Text(prompt),
        ),
        json::first_member(sample_members(cfg, prompt, for_asr), "model"@) == Some(
            JsonView::Text(cfg.tts_model@),
        ),
        json::first_member(sample_members(cfg, prompt, for_asr), "voice"@) == Some(
            JsonView::Text(cfg.supertonic_voice@),
        ),
        for_asr ==> json::first_member(
            sample_members(cfg, prompt, for_asr),
            "response_format"@,
        ) == Some(JsonView::Text("wav"@)),
        !for_asr ==> json::first_member(
            sample_members(cfg, prompt, for_asr),
            "response_format"@,
        ) == Some(JsonView::Text("pcm"@)),
{
    reveal_strlit("input");
    reveal_strlit("model");
    reveal_strlit("voice");
    reveal_strlit("language");
    reveal_strlit("response_format");
    assert("input"@[0] == 'i' && "model"@[0] == 'm' && "voice"@[0] == 'v' && "language"@[0] == 'l'
        && "response_format"@[0] == 'r');
    let m = sample_members(cfg, prompt, for_asr);
    assert(m[0].0 == "model"@ && m[1].0 == "input"@ && m[2].0 == "voice"@ && m[3].0 == "language"@
        && m[4].0 == "response_format"@);
    json::law_first_member(m, "model"@, 0);
    json::law_first_member(m, "input"@, 1);
    json::law_first_member(m, "voice"@, 2);
    json::law_first_member(m, "response_format"@, 4);
}

/// A synthesis of the Higgs kind, by its model or by its address, is sampled with a
/// limit of its own.
pub proof fn law_sampling_of_higgs(cfg: Config, prompt: Seq<char>, for_asr: bool)
    ensures
        tts::model_has(cfg, "higgs"@) || (!for_asr && (tts::url_has(cfg, "higgs"@) || tts::url_has(
            cfg,
            ":8086"@,
        ))) ==> sample_members(cfg, prompt, for_asr).contains(
            ("max_new_tokens"@, JsonView::Number(text::decimal(1024))),
        ),
{
    if tts::model_has(cfg, "higgs"@) || (!for_asr && (tts::url_has(cfg, "higgs"@) || tts::url_has(
        cfg,
        ":8086"@,
    ))) {
        assert(sample_members(cfg, prompt, for_asr)[5] == (
            "max_new_tokens"@,
            JsonView::Number(text::decimal(1024)),
        ));
    }
}

} // verus!
