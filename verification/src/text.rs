//! Character-sequence operations. A text is modelled by its sequence of
//! Unicode scalar values.

use vstd::prelude::*;

verus! {

/// Appends one character.
///
/// `String::push` of std: the text afterwards is the text before with the
/// character at its end.
pub assume_specification[ String::push ](s: &mut String, c: char)
    ensures
        final(s)@ == old(s)@.push(c),
;

pub open spec fn is_space(c: char) -> bool {
    let n = c as int;
    ||| 0x9 <= n <= 0xd
    ||| n == 0x20
    ||| n == 0x85
    ||| n == 0xa0
    ||| n == 0x1680
    ||| 0x2000 <= n <= 0x200a
    ||| n == 0x2028
    ||| n == 0x2029
    ||| n == 0x202f
    ||| n == 0x205f
    ||| n == 0x3000
}

/// Whether a character has the Unicode property `White_Space`.
pub fn char_is_space(c: char) -> (r: bool)
    ensures
        r == is_space(c),
{
    let n: u32 = c as u32;
    (0x9 <= n && n <= 0xd) || n == 0x20 || n == 0x85 || n == 0xa0 || n == 0x1680 || (0x2000 <= n
        && n <= 0x200a) || n == 0x2028 || n == 0x2029 || n == 0x202f || n == 0x205f || n == 0x3000
}

fn code_point(c: char) -> (n: u32)
    ensures
        n == c as int,
{
    c as u32
}

pub open spec fn is_digit(c: char) -> bool {
    '0' as int <= c as int <= '9' as int
}

pub open spec fn is_ascii_letter(c: char) -> bool {
    ||| 'a' as int <= c as int <= 'z' as int
    ||| 'A' as int <= c as int <= 'Z' as int
}

pub fn char_is_digit(c: char) -> (r: bool)
    ensures
        r == is_digit(c),
{
    '0' as u32 <= c as u32 && c as u32 <= '9' as u32
}

pub fn char_is_ascii_letter(c: char) -> (r: bool)
    ensures
        r == is_ascii_letter(c),
{
    ('a' as u32 <= c as u32 && c as u32 <= 'z' as u32) || ('A' as u32 <= c as u32 && c as u32
        <= 'Z' as u32)
}

pub open spec fn lower_char(c: char) -> char {
    if 'A' as int <= c as int <= 'Z' as int {
        (c as int + 32) as char
    } else {
        c
    }
}

pub open spec fn upper_char(c: char) -> char {
    if 'a' as int <= c as int <= 'z' as int {
        (c as int - 32) as char
    } else {
        c
    }
}

fn lower_char_exec(c: char) -> (r: char)
    ensures
        r == lower_char(c),
{
    if 'A' as u32 <= c as u32 && c as u32 <= 'Z' as u32 {
        (c as u8 + 32) as char
    } else {
        c
    }
}

fn upper_char_exec(c: char) -> (r: char)
    ensures
        r == upper_char(c),
{
    if 'a' as u32 <= c as u32 && c as u32 <= 'z' as u32 {
        (c as u8 - 32) as char
    } else {
        c
    }
}

/// ASCII lower case.
pub open spec fn lower(s: Seq<char>) -> Seq<char> {
    s.map_values(|c: char| lower_char(c))
}

/// ASCII upper case.
pub open spec fn upper(s: Seq<char>) -> Seq<char> {
    s.map_values(|c: char| upper_char(c))
}

/// The text without its leading white space.
pub open spec fn trim_start(s: Seq<char>) -> Seq<char>
    decreases s.len(),
{
    if s.len() > 0 && is_space(s[0]) {
        trim_start(s.drop_first())
    } else {
        s
    }
}

/// The text without its trailing white space.
pub open spec fn trim_end(s: Seq<char>) -> Seq<char>
    decreases s.len(),
{
    if s.len() > 0 && is_space(s.last()) {
        trim_end(s.drop_last())
    } else {
        s
    }
}

/// The text without white space at either end.
pub open spec fn trim(s: Seq<char>) -> Seq<char> {
    trim_end(trim_start(s))
}

/// The text without the given character at its end, however often it stands there.
pub open spec fn trim_end_of(s: Seq<char>, c: char) -> Seq<char>
    decreases s.len(),
{
    if s.len() > 0 && s.last() == c {
        trim_end_of(s.drop_last(), c)
    } else {
        s
    }
}

/// The text without the given character at its start, however often it stands there.
pub open spec fn trim_start_of(s: Seq<char>, c: char) -> Seq<char>
    decreases s.len(),
{
    if s.len() > 0 && s[0] == c {
        trim_start_of(s.drop_first(), c)
    } else {
        s
    }
}

/// The text without the given prefix, however often it is repeated.
pub open spec fn trim_prefixes(s: Seq<char>, p: Seq<char>) -> Seq<char>
    decreases s.len(),
{
    if p.len() > 0 && starts_with(s, p) {
        trim_prefixes(s.skip(p.len() as int), p)
    } else {
        s
    }
}

pub open spec fn starts_with(s: Seq<char>, p: Seq<char>) -> bool {
    p.len() <= s.len() && s.take(p.len() as int) == p
}

pub open spec fn ends_with(s: Seq<char>, p: Seq<char>) -> bool {
    p.len() <= s.len() && s.skip(s.len() - p.len()) == p
}

pub open spec fn occurs_at(s: Seq<char>, p: Seq<char>, i: int) -> bool {
    0 <= i && i + p.len() <= s.len() && s.subrange(i, i + p.len()) == p
}

/// Whether `p` stands somewhere in `s`.
pub open spec fn has(s: Seq<char>, p: Seq<char>) -> bool {
    exists|i: int| occurs_at(s, p, i)
}

/// The pieces between the occurrences of a separator; one more than there are
/// separators.
pub open spec fn split(s: Seq<char>, c: char) -> Seq<Seq<char>>
    decreases s.len(),
{
    let i = first_char(s, c);
    if 0 <= i < s.len() {
        seq![s.take(i)] + split(s.skip(i + 1), c)
    } else {
        seq![s]
    }
}

/// The index of the first occurrence of a character, or the length.
pub open spec fn first_char(s: Seq<char>, c: char) -> int
    decreases s.len(),
{
    if s.len() == 0 || s[0] == c {
        0
    } else {
        1 + first_char(s.drop_first(), c)
    }
}

pub proof fn lemma_first_char(s: Seq<char>, c: char)
    ensures
        0 <= first_char(s, c) <= s.len(),
        first_char(s, c) < s.len() ==> s[first_char(s, c)] == c,
        forall|j: int| 0 <= j < first_char(s, c) ==> s[j] != c,
        first_char(s, c) < s.len() <==> s.contains(c),
    decreases s.len(),
{
    if s.len() == 0 || s[0] == c {
        if s.len() > 0 {
            assert(s.contains(c)) by {
                assert(s[0] == c);
            }
        }
    } else {
        lemma_first_char(s.drop_first(), c);
        let t = s.drop_first();
        assert forall|j: int| 0 <= j < first_char(s, c) implies s[j] != c by {
            if j > 0 {
                assert(s[j] == t[j - 1]);
            }
        }
        if s.contains(c) {
            let k = choose|k: int| 0 <= k < s.len() && s[k] == c;
            assert(t[k - 1] == c);
            assert(t.contains(c));
        }
        if t.contains(c) {
            let k = choose|k: int| 0 <= k < t.len() && t[k] == c;
            assert(s[k + 1] == c);
        }
    }
}

/// A first occurrence is determined by what it is.
pub proof fn lemma_first_char_is(s: Seq<char>, c: char, i: int)
    requires
        0 <= i <= s.len(),
        i < s.len() ==> s[i] == c,
        forall|j: int| 0 <= j < i ==> s[j] != c,
    ensures
        first_char(s, c) == i,
{
    lemma_first_char(s, c);
    let k = first_char(s, c);
    if k < i {
        assert(s[k] != c);
    }
    if i < k {
        assert(s[i] != c);
    }
}

/// A split always yields a piece.
pub proof fn lemma_split_not_empty(s: Seq<char>, c: char)
    ensures
        split(s, c).len() > 0,
{
}

/// The characters of a text.
pub fn chars_of(s: &str) -> (v: Vec<char>)
    ensures
        v@ == s@,
{
    let mut v: Vec<char> = Vec::new();
    for c in it: s.chars()
        invariant
            v@ =~= it.seq().take(it.index() as int),
            it.seq() == s@,
    {
        v.push(c);
    }
    v
}

/// The text with the given characters.
pub fn string_of(v: &[char]) -> (s: String)
    ensures
        s@ == v@,
{
    let mut s: String = String::new();
    let mut i: usize = 0;
    while i < v.len()
        invariant
            i <= v.len(),
            s@ == v@.take(i as int),
        decreases v.len() - i,
    {
        s.push(v[i]);
        i += 1;
        assert(v@.take(i as int) =~= v@.take(i - 1).push(v@[i - 1]));
    }
    assert(v@.take(v.len() as int) =~= v@);
    s
}

/// Whether two texts are the same.
pub fn same(a: &str, b: &str) -> (r: bool)
    ensures
        r == (a@ == b@),
{
    a.to_owned() == b.to_owned()
}

/// A piece of a character sequence as a text.
pub fn piece(v: &[char], from: usize, to: usize) -> (s: String)
    requires
        from <= to <= v.len(),
    ensures
        s@ == v@.subrange(from as int, to as int),
{
    let mut s: String = String::new();
    let mut i: usize = from;
    while i < to
        invariant
            from <= i <= to <= v.len(),
            s@ == v@.subrange(from as int, i as int),
        decreases to - i,
    {
        s.push(v[i]);
        i += 1;
        assert(v@.subrange(from as int, i as int) =~= v@.subrange(from as int, i - 1).push(
            v@[i - 1],
        ));
    }
    s
}

pub fn to_lower(s: &str) -> (r: String)
    ensures
        r@ == lower(s@),
{
    let v: Vec<char> = chars_of(s);
    let mut r: String = String::new();
    let mut i: usize = 0;
    while i < v.len()
        invariant
            v@ == s@,
            i <= v.len(),
            r@ =~= lower(s@).take(i as int),
        decreases v.len() - i,
    {
        r.push(lower_char_exec(v[i]));
        i += 1;
    }
    r
}

pub fn to_upper(s: &str) -> (r: String)
    ensures
        r@ == upper(s@),
{
    let v: Vec<char> = chars_of(s);
    let mut r: String = String::new();
    let mut i: usize = 0;
    while i < v.len()
        invariant
            v@ == s@,
            i <= v.len(),
            r@ =~= upper(s@).take(i as int),
        decreases v.len() - i,
    {
        r.push(upper_char_exec(v[i]));
        i += 1;
    }
    r
}

/// Where white space at the start of `v[from..to]` ends.
fn skip_space(v: &[char], from: usize, to: usize) -> (i: usize)
    requires
        from <= to <= v.len(),
    ensures
        from <= i <= to,
        trim_start(v@.subrange(from as int, to as int)) == v@.subrange(i as int, to as int),
{
    let mut i: usize = from;
    while i < to && char_is_space(v[i])
        invariant
            from <= i <= to <= v.len(),
            trim_start(v@.subrange(from as int, to as int)) == trim_start(
                v@.subrange(i as int, to as int),
            ),
        decreases to - i,
    {
        assert(v@.subrange(i as int, to as int).drop_first() =~= v@.subrange(i + 1, to as int));
        i += 1;
    }
    i
}

/// Where white space at the end of `v[from..to]` begins.
fn skip_space_back(v: &[char], from: usize, to: usize) -> (j: usize)
    requires
        from <= to <= v.len(),
    ensures
        from <= j <= to,
        trim_end(v@.subrange(from as int, to as int)) == v@.subrange(from as int, j as int),
{
    let mut j: usize = to;
    while j > from && char_is_space(v[j - 1])
        invariant
            from <= j <= to <= v.len(),
            trim_end(v@.subrange(from as int, to as int)) == trim_end(
                v@.subrange(from as int, j as int),
            ),
        decreases j,
    {
        assert(v@.subrange(from as int, j as int).drop_last() =~= v@.subrange(from as int, j - 1));
        j -= 1;
    }
    j
}

/// The text of `v[from..to]` without white space at either end.
pub fn trimmed_piece(v: &[char], from: usize, to: usize) -> (s: String)
    requires
        from <= to <= v.len(),
    ensures
        s@ == trim(v@.subrange(from as int, to as int)),
{
    let i: usize = skip_space(v, from, to);
    let j: usize = skip_space_back(v, i, to);
    piece(v, i, j)
}

pub fn trimmed(s: &str) -> (r: String)
    ensures
        r@ == trim(s@),
{
    let v: Vec<char> = chars_of(s);
    assert(v@.subrange(0, v.len() as int) =~= s@);
    trimmed_piece(v.as_slice(), 0, v.len())
}

pub fn trimmed_start(s: &str) -> (r: String)
    ensures
        r@ == trim_start(s@),
{
    let v: Vec<char> = chars_of(s);
    assert(v@.subrange(0, v.len() as int) =~= s@);
    let i: usize = skip_space(v.as_slice(), 0, v.len());
    piece(v.as_slice(), i, v.len())
}

pub fn without_trailing(s: &str, c: char) -> (r: String)
    ensures
        r@ == trim_end_of(s@, c),
{
    let v: Vec<char> = chars_of(s);
    let mut j: usize = v.len();
    assert(v@.take(j as int) =~= s@);
    while j > 0 && v[j - 1] == c
        invariant
            j <= v.len(),
            trim_end_of(s@, c) == trim_end_of(v@.take(j as int), c),
        decreases j,
    {
        assert(v@.take(j as int).drop_last() =~= v@.take(j - 1));
        j -= 1;
    }
    assert(v@.subrange(0, j as int) =~= v@.take(j as int));
    piece(v.as_slice(), 0, j)
}

pub fn without_leading(s: &str, c: char) -> (r: String)
    ensures
        r@ == trim_start_of(s@, c),
{
    let v: Vec<char> = chars_of(s);
    let mut i: usize = 0;
    assert(v@.skip(0) =~= s@);
    while i < v.len() && v[i] == c
        invariant
            i <= v.len(),
            trim_start_of(s@, c) == trim_start_of(v@.skip(i as int), c),
        decreases v.len() - i,
    {
        assert(v@.skip(i as int).drop_first() =~= v@.skip(i + 1));
        i += 1;
    }
    assert(v@.subrange(i as int, v.len() as int) =~= v@.skip(i as int));
    piece(v.as_slice(), i, v.len())
}

/// Whether `p` stands in `v` at index `i`.
pub fn stands_at(v: &[char], p: &[char], i: usize) -> (r: bool)
    ensures
        r == occurs_at(v@, p@, i as int),
{
    if i > v.len() || p.len() > v.len() - i {
        return false;
    }
    let mut k: usize = 0;
    while k < p.len()
        invariant
            i + p.len() <= v.len(),
            k <= p.len(),
            forall|j: int| 0 <= j < k ==> v@[i + j] == p@[j],
        decreases p.len() - k,
    {
        if v[i + k] != p[k] {
            assert(v@.subrange(i as int, i + p.len())[k as int] != p@[k as int]);
            return false;
        }
        k += 1;
    }
    assert(v@.subrange(i as int, i + p.len()) =~= p@);
    true
}

pub fn begins_with(s: &str, p: &str) -> (r: bool)
    ensures
        r == starts_with(s@, p@),
{
    let v: Vec<char> = chars_of(s);
    let w: Vec<char> = chars_of(p);
    proof {
        if w.len() <= v.len() {
            assert(v@.subrange(0, w.len() as int) =~= v@.take(w.len() as int));
        }
    }
    stands_at(v.as_slice(), w.as_slice(), 0)
}

pub fn finishes_with(s: &str, p: &str) -> (r: bool)
    ensures
        r == ends_with(s@, p@),
{
    let v: Vec<char> = chars_of(s);
    let w: Vec<char> = chars_of(p);
    if w.len() > v.len() {
        return false;
    }
    assert(v@.subrange(v.len() - w.len(), v.len() as int) =~= v@.skip(v.len() - w.len()));
    stands_at(v.as_slice(), w.as_slice(), v.len() - w.len())
}

pub fn contains(s: &str, p: &str) -> (r: bool)
    ensures
        r == has(s@, p@),
{
    let v: Vec<char> = chars_of(s);
    let w: Vec<char> = chars_of(p);
    let mut i: usize = 0;
    while i <= v.len()
        invariant
            v@ == s@,
            w@ == p@,
            i <= v.len() + 1,
            forall|j: int| 0 <= j < i ==> !occurs_at(s@, p@, j),
        decreases v.len() + 1 - i,
    {
        if stands_at(v.as_slice(), w.as_slice(), i) {
            return true;
        }
        if i == v.len() {
            return false;
        }
        i += 1;
    }
    false
}

/// The index of the first occurrence of a character, or the length.
pub fn index_of(v: &[char], from: usize, c: char) -> (i: usize)
    requires
        from <= v.len(),
    ensures
        from <= i <= v.len(),
        i == from + first_char(v@.skip(from as int), c),
{
    let mut i: usize = from;
    while i < v.len() && v[i] != c
        invariant
            from <= i <= v.len(),
            forall|j: int| from <= j < i ==> v@[j] != c,
        decreases v.len() - i,
    {
        i += 1;
    }
    proof {
        let t = v@.skip(from as int);
        assert forall|j: int| 0 <= j < i - from implies t[j] != c by {
            assert(t[j] == v@[from + j]);
        }
        lemma_first_char_is(t, c, i - from);
    }
    i
}

pub fn contains_char(s: &str, c: char) -> (r: bool)
    ensures
        r == s@.contains(c),
{
    let v: Vec<char> = chars_of(s);
    let i: usize = index_of(v.as_slice(), 0, c);
    proof {
        assert(v@.skip(0) =~= v@);
        lemma_first_char(v@, c);
    }
    i < v.len()
}

pub open spec fn views(v: Seq<String>) -> Seq<Seq<char>> {
    v.map_values(|s: String| s@)
}

/// The pieces of a text between the occurrences of a separator.
pub fn split_at_char(s: &str, c: char) -> (r: Vec<String>)
    ensures
        views(r@) == split(s@, c),
{
    let v: Vec<char> = chars_of(s);
    let mut r: Vec<String> = Vec::new();
    let mut from: usize = 0;
    assert(v@.skip(0) =~= s@);
    assert(views(r@) + split(v@.skip(0), c) =~= split(s@, c));
    loop
        invariant
            from <= v.len(),
            views(r@) + split(v@.skip(from as int), c) == split(s@, c),
        decreases v.len() - from,
    {
        let i: usize = index_of(v.as_slice(), from, c);
        let ghost before = views(r@);
        let ghost rest = v@.skip(from as int);
        proof {
            lemma_first_char(rest, c);
        }
        r.push(piece(v.as_slice(), from, i));
        assert(rest.take(i - from) =~= v@.subrange(from as int, i as int));
        assert(views(r@) =~= before.push(rest.take(i - from)));
        if i == v.len() {
            assert(rest.take(i - from) =~= rest);
            assert(views(r@) =~= before + seq![rest]);
            return r;
        }
        assert(rest.skip(i - from + 1) =~= v@.skip(i + 1));
        assert(views(r@) + split(v@.skip(i + 1), c) =~= before + (seq![rest.take(i - from)]
            + split(rest.skip(i - from + 1), c)));
        from = i + 1;
    }
}

/// The decimal digits of a number.
pub open spec fn decimal(n: nat) -> Seq<char>
    decreases n,
{
    if n < 10 {
        seq![digit_char(n)]
    } else {
        decimal(n / 10).push(digit_char(n % 10))
    }
}

pub open spec fn digit_char(d: nat) -> char {
    ('0' as int + d) as char
}

pub fn decimal_of(n: u64) -> (s: String)
    ensures
        s@ == decimal(n as nat),
    decreases n,
{
    let mut s: String = if n < 10 {
        String::new()
    } else {
        decimal_of(n / 10)
    };
    let d: u8 = (n % 10) as u8;
    s.push((48 + d) as char);
    assert(s@ =~= decimal(n as nat));
    s
}

/// The number that a digit string denotes.
pub open spec fn digits_value(s: Seq<char>) -> nat
    decreases s.len(),
{
    if s.len() == 0 {
        0
    } else {
        10 * digits_value(s.drop_last()) + digit_value(s.last())
    }
}

pub open spec fn digit_value(c: char) -> nat {
    (c as int - '0' as int) as nat
}

/// What is written of a number denotes it.
pub proof fn lemma_decimal_value(n: nat)
    ensures
        digits_value(decimal(n)) == n,
    decreases n,
{
    if n < 10 {
        let s = seq![digit_char(n)];
        assert(s.drop_last() =~= Seq::empty());
        assert(digits_value(s.drop_last()) == 0);
        assert(s.last() == digit_char(n));
    } else {
        lemma_decimal_value(n / 10);
        let s = decimal(n);
        assert(s.drop_last() =~= decimal(n / 10));
        assert(s.last() == digit_char(n % 10));
    }
}

pub open spec fn all_digits(s: Seq<char>) -> bool {
    forall|i: int| 0 <= i < s.len() ==> is_digit(#[trigger] s[i])
}

/// The number in a text: an optional plus sign and at least one digit, no
/// larger than `max`.
pub open spec fn parsed_unsigned(s: Seq<char>, max: nat) -> Option<nat> {
    let d = if s.len() > 0 && s[0] == '+' {
        s.drop_first()
    } else {
        s
    };
    if d.len() > 0 && all_digits(d) && digits_value(d) <= max {
        Some(digits_value(d))
    } else {
        None
    }
}

proof fn lemma_digits_grow(s: Seq<char>, i: int)
    requires
        0 <= i <= s.len(),
        all_digits(s),
    ensures
        digits_value(s.take(i)) <= digits_value(s),
    decreases s.len() - i,
{
    if i == s.len() {
        assert(s.take(i) =~= s);
    } else {
        lemma_digits_grow(s, i + 1);
        assert(s.take(i + 1).drop_last() =~= s.take(i));
    }
}

/// The number that the digits `v[from..]` denote, unless it is larger than `max`.
fn digits_to_u64(v: &[char], from: usize, max: u64) -> (r: Option<u64>)
    requires
        from < v.len(),
    ensures
        match r {
            Some(n) => all_digits(v@.skip(from as int)) && n == digits_value(v@.skip(from as int))
                && n <= max,
            None => !all_digits(v@.skip(from as int)) || digits_value(v@.skip(from as int)) > max,
        },
{
    let ghost t = v@.skip(from as int);
    let mut n: u64 = 0;
    let mut i: usize = from;
    let mut over: bool = false;
    while i < v.len()
        invariant
            t == v@.skip(from as int),
            from <= i <= v.len(),
            forall|j: int| 0 <= j < i - from ==> is_digit(#[trigger] t[j]),
            !over ==> n == digits_value(t.take(i - from)) && n <= max,
            over ==> digits_value(t.take(i - from)) > max,
        decreases v.len() - i,
    {
        let c: char = v[i];
        assert(t[i - from] == c);
        if !char_is_digit(c) {
            return None;
        }
        let d: u64 = (c as u32 - 48) as u64;
        assert(t.take(i - from + 1).drop_last() =~= t.take(i - from));
        assert(t.take(i - from + 1).last() == c);
        if !over {
            if n > max / 10 || (n == max / 10 && d > max % 10) {
                over = true;
            } else {
                n = n * 10 + d;
            }
        }
        i += 1;
    }
    assert(t.take(i - from) =~= t);
    if over {
        None
    } else {
        Some(n)
    }
}

/// The number in a text, as `str::parse` reads an unsigned integer of which
/// `max` is the largest value.
pub fn parse_unsigned(s: &str, max: u64) -> (r: Option<u64>)
    ensures
        match r {
            Some(n) => parsed_unsigned(s@, max as nat) == Some(n as nat),
            None => parsed_unsigned(s@, max as nat) is None,
        },
{
    let v: Vec<char> = chars_of(s);
    let from: usize = if v.len() > 0 && v[0] == '+' {
        1
    } else {
        0
    };
    proof {
        assert(v@.skip(0) =~= v@);
        if v.len() > 0 {
            assert(v@.skip(1) =~= v@.drop_first());
        }
    }
    if from >= v.len() {
        return None;
    }
    digits_to_u64(v.as_slice(), from, max)
}

/// The number in a text with an optional sign, in the range of 64 bits.
pub open spec fn parsed_signed(s: Seq<char>) -> Option<int> {
    if s.len() > 0 && s[0] == '-' {
        let d = s.drop_first();
        if d.len() > 0 && all_digits(d) && digits_value(d) <= 0x8000_0000_0000_0000 {
            Some(-(digits_value(d) as int))
        } else {
            None
        }
    } else {
        match parsed_unsigned(s, i64::MAX as nat) {
            Some(n) => Some(n as int),
            None => None,
        }
    }
}

/// A number as it is written.
pub open spec fn signed_decimal(n: int) -> Seq<char> {
    if n < 0 {
        seq!['-'] + decimal((-n) as nat)
    } else {
        decimal(n as nat)
    }
}

/// The number in a text with an optional sign, as it is written without needless
/// signs and zeros.
pub fn canonical_integer(s: &str) -> (r: Option<String>)
    ensures
        match r {
            Some(t) => parsed_signed(s@) is Some && t@ == signed_decimal(parsed_signed(s@)->0),
            None => parsed_signed(s@) is None,
        },
{
    let v: Vec<char> = chars_of(s);
    if v.len() > 0 && v[0] == '-' {
        assert(v@.skip(1) =~= v@.drop_first());
        if v.len() == 1 {
            return None;
        }
        match digits_to_u64(v.as_slice(), 1, 0x8000_0000_0000_0000) {
            Some(n) => {
                let t: String = decimal_of(n);
                if n == 0 {
                    Some(t)
                } else {
                    proof {
                        reveal_strlit("-");
                        assert("-"@ =~= seq!['-']);
                    }
                    Some(joined_pair("-", t.as_str()))
                }
            },
            None => None,
        }
    } else {
        match parse_unsigned(s, i64::MAX as u64) {
            Some(n) => Some(decimal_of(n)),
            None => None,
        }
    }
}

/// The number of words of a text.
pub open spec fn word_count(s: Seq<char>) -> nat
    decreases s.len(),
{
    if s.len() == 0 {
        0
    } else {
        word_count(s.drop_last()) + (if !is_space(s.last()) && (s.len() == 1 || is_space(
            s[s.len() - 2],
        )) {
            1nat
        } else {
            0
        })
    }
}

pub fn count_words(s: &str) -> (n: usize)
    ensures
        n == word_count(s@),
{
    let v: Vec<char> = chars_of(s);
    let mut n: usize = 0;
    let mut i: usize = 0;
    let mut inside: bool = false;
    assert(v@.take(0) =~= Seq::empty());
    while i < v.len()
        invariant
            i <= v.len(),
            n <= i,
            n == word_count(v@.take(i as int)),
            inside == (i > 0 && !is_space(v@[i - 1])),
        decreases v.len() - i,
    {
        let ghost t = v@.take(i + 1);
        assert(t.drop_last() =~= v@.take(i as int));
        assert(i > 0 ==> t[t.len() - 2] == v@[i - 1]);
        let space: bool = char_is_space(v[i]);
        if !space && !inside {
            n += 1;
        }
        inside = !space;
        i += 1;
    }
    assert(v@.take(i as int) =~= v@);
    n
}

/// Whether one text stands before another: code point by code point, a text
/// before its extensions.
pub open spec fn before(a: Seq<char>, b: Seq<char>) -> bool
    decreases a.len(),
{
    if b.len() == 0 {
        false
    } else if a.len() == 0 {
        true
    } else if a[0] != b[0] {
        (a[0] as int) < (b[0] as int)
    } else {
        before(a.drop_first(), b.drop_first())
    }
}

pub fn stands_before(a: &str, b: &str) -> (r: bool)
    ensures
        r == before(a@, b@),
{
    let v: Vec<char> = chars_of(a);
    let w: Vec<char> = chars_of(b);
    let mut i: usize = 0;
    assert(v@.skip(0) =~= a@);
    assert(w@.skip(0) =~= b@);
    while i < v.len() && i < w.len() && v[i] == w[i]
        invariant
            i <= v.len(),
            i <= w.len(),
            before(a@, b@) == before(v@.skip(i as int), w@.skip(i as int)),
        decreases v.len() - i,
    {
        assert(v@.skip(i as int).drop_first() =~= v@.skip(i + 1));
        assert(w@.skip(i as int).drop_first() =~= w@.skip(i + 1));
        i += 1;
    }
    if i >= w.len() {
        return false;
    }
    if i >= v.len() {
        return true;
    }
    code_point(v[i]) < code_point(w[i])
}

/// The order of texts is transitive.
pub proof fn lemma_before_transitive(a: Seq<char>, b: Seq<char>, c: Seq<char>)
    requires
        before(a, b),
        before(b, c),
    ensures
        before(a, c),
    decreases a.len(),
{
    if a.len() > 0 && a[0] == b[0] && b[0] == c[0] {
        lemma_before_transitive(a.drop_first(), b.drop_first(), c.drop_first());
    }
}

/// Of two different texts exactly one stands before the other.
pub proof fn lemma_before_total(a: Seq<char>, b: Seq<char>)
    ensures
        !before(a, a),
        !(before(a, b) && before(b, a)),
        a == b || before(a, b) || before(b, a),
    decreases a.len(),
{
    if a.len() > 0 {
        lemma_before_total(a.drop_first(), a.drop_first());
        if b.len() > 0 && a[0] == b[0] {
            lemma_before_total(a.drop_first(), b.drop_first());
            if a.drop_first() == b.drop_first() {
                assert(a =~= seq![a[0]] + a.drop_first());
                assert(b =~= seq![b[0]] + b.drop_first());
                assert(a =~= b);
            }
        }
    } else if b.len() == 0 {
        assert(a =~= b);
    }
}

/// The texts one after another with a separator between them.
pub open spec fn joined(parts: Seq<Seq<char>>, sep: Seq<char>) -> Seq<char>
    decreases parts.len(),
{
    if parts.len() == 0 {
        seq![]
    } else if parts.len() == 1 {
        parts[0]
    } else {
        joined(parts.drop_last(), sep) + sep + parts.last()
    }
}

pub fn join(parts: &Vec<String>, sep: &str) -> (r: String)
    ensures
        r@ == joined(views(parts@), sep@),
{
    let mut r: String = String::new();
    let mut i: usize = 0;
    while i < parts.len()
        invariant
            i <= parts.len(),
            r@ == joined(views(parts@).take(i as int), sep@),
        decreases parts.len() - i,
    {
        let ghost next = views(parts@).take(i + 1);
        assert(next.drop_last() =~= views(parts@).take(i as int));
        assert(next.last() == parts@[i as int]@);
        if i == 0 {
            r = parts[0].clone();
        } else {
            r.append(sep);
            r.append(parts[i].as_str());
        }
        i += 1;
    }
    assert(views(parts@).take(parts.len() as int) =~= views(parts@));
    r
}

/// Whether a list of texts holds a text.
pub open spec fn lists(v: Seq<String>, x: Seq<char>) -> bool {
    exists|i: int| 0 <= i < v.len() && (#[trigger] v[i])@ == x
}

pub fn listed(v: &Vec<String>, x: &str) -> (r: bool)
    ensures
        r == lists(v@, x@),
{
    let mut i: usize = 0;
    while i < v.len()
        invariant
            i <= v.len(),
            forall|j: int| 0 <= j < i ==> (#[trigger] v@[j])@ != x@,
        decreases v.len() - i,
    {
        if same(v[i].as_str(), x) {
            return true;
        }
        i += 1;
    }
    false
}

/// Whether two texts are the same but for ASCII case.
pub open spec fn alike(a: Seq<char>, b: Seq<char>) -> bool {
    lower(a) == lower(b)
}

pub fn same_ignoring_case(a: &str, b: &str) -> (r: bool)
    ensures
        r == alike(a@, b@),
{
    to_lower(a) == to_lower(b)
}

pub open spec fn is_control(c: char) -> bool {
    c as int <= 0x1f || 0x7f <= c as int <= 0x9f
}

pub fn char_is_control(c: char) -> (r: bool)
    ensures
        r == is_control(c),
{
    let n: u32 = c as u32;
    n <= 0x1f || (0x7f <= n && n <= 0x9f)
}

pub open spec fn is_ascii_alphanumeric(c: char) -> bool {
    is_ascii_letter(c) || is_digit(c)
}

pub open spec fn is_hex_digit(c: char) -> bool {
    ||| is_digit(c)
    ||| 'a' as int <= c as int <= 'f' as int
    ||| 'A' as int <= c as int <= 'F' as int
}

pub fn char_is_hex_digit(c: char) -> (r: bool)
    ensures
        r == is_hex_digit(c),
{
    let n: u32 = c as u32;
    char_is_digit(c) || ('a' as u32 <= n && n <= 'f' as u32) || ('A' as u32 <= n && n
        <= 'F' as u32)
}

/// Whether some character is white space.
pub open spec fn has_space(s: Seq<char>) -> bool {
    exists|i: int| 0 <= i < s.len() && is_space(#[trigger] s[i])
}

pub fn contains_space(s: &str) -> (r: bool)
    ensures
        r == has_space(s@),
{
    let v: Vec<char> = chars_of(s);
    let mut i: usize = 0;
    while i < v.len()
        invariant
            v@ == s@,
            i <= v.len(),
            forall|j: int| 0 <= j < i ==> !is_space(#[trigger] s@[j]),
        decreases v.len() - i,
    {
        if char_is_space(v[i]) {
            assert(is_space(s@[i as int]));
            return true;
        }
        i += 1;
    }
    false
}

/// The number of bytes of a character in UTF-8.
pub open spec fn char_bytes(c: char) -> nat {
    if (c as int) < 0x80 {
        1
    } else if (c as int) < 0x800 {
        2
    } else if (c as int) < 0x10000 {
        3
    } else {
        4
    }
}

/// The number of bytes of a text in UTF-8.
pub open spec fn utf8_len(s: Seq<char>) -> nat
    decreases s.len(),
{
    if s.len() == 0 {
        0
    } else {
        utf8_len(s.drop_last()) + char_bytes(s.last())
    }
}

pub fn bytes_of_char(c: char) -> (n: usize)
    ensures
        n == char_bytes(c),
{
    let p: u32 = c as u32;
    if p < 0x80 {
        1
    } else if p < 0x800 {
        2
    } else if p < 0x10000 {
        3
    } else {
        4
    }
}

pub proof fn lemma_utf8_len_grows(s: Seq<char>, i: int)
    requires
        0 <= i <= s.len(),
    ensures
        utf8_len(s.take(i)) <= utf8_len(s),
        utf8_len(s) >= s.len(),
    decreases s.len() - i, s.len(),
{
    if i == s.len() {
        assert(s.take(i) =~= s);
        if s.len() > 0 {
            lemma_utf8_len_grows(s.drop_last(), s.len() - 1);
        }
    } else {
        lemma_utf8_len_grows(s, i + 1);
        assert(s.take(i + 1).drop_last() =~= s.take(i));
    }
}

/// Whether a text takes at least `n` bytes in UTF-8.
pub fn utf8_len_at_least(v: &[char], n: usize) -> (r: bool)
    ensures
        r == (utf8_len(v@) >= n),
{
    let mut have: usize = 0;
    let mut i: usize = 0;
    while i < v.len() && have < n
        invariant
            i <= v.len(),
            have == utf8_len(v@.take(i as int)),
            have < n || have <= n + 3,
            have <= i * 4,
        decreases v.len() - i,
    {
        assert(v@.take(i + 1).drop_last() =~= v@.take(i as int));
        let add: usize = bytes_of_char(v[i]);
        if add >= n - have {
            proof {
                lemma_utf8_len_grows(v@, i + 1);
            }
            return true;
        }
        have += add;
        i += 1;
    }
    proof {
        lemma_utf8_len_grows(v@, i as int);
        if i == v.len() {
            assert(v@.take(i as int) =~= v@);
        }
    }
    have >= n
}

/// The index of the first occurrence of a pattern, or the length where there is
/// none before the end.
pub open spec fn first_occurrence(s: Seq<char>, p: Seq<char>) -> int
    decreases s.len(),
{
    if s.len() == 0 || starts_with(s, p) {
        0
    } else {
        1 + first_occurrence(s.drop_first(), p)
    }
}

/// What is found stands where it is found.
pub proof fn lemma_first_occurrence(s: Seq<char>, p: Seq<char>)
    ensures
        0 <= first_occurrence(s, p) <= s.len(),
        first_occurrence(s, p) < s.len() ==> starts_with(s.skip(first_occurrence(s, p)), p),
    decreases s.len(),
{
    if s.len() == 0 || starts_with(s, p) {
        assert(s.skip(0) =~= s);
    } else {
        lemma_first_occurrence(s.drop_first(), p);
        let i = first_occurrence(s.drop_first(), p);
        assert(s.skip(i + 1) =~= s.drop_first().skip(i));
    }
}

pub fn find(v: &[char], p: &[char]) -> (i: usize)
    ensures
        i <= v.len(),
        i == first_occurrence(v@, p@),
{
    let mut i: usize = 0;
    assert(v@.skip(0) =~= v@);
    while i < v.len() && !stands_at(v, p, i)
        invariant
            i <= v.len(),
            i + first_occurrence(v@.skip(i as int), p@) == first_occurrence(v@, p@),
        decreases v.len() - i,
    {
        let ghost t = v@.skip(i as int);
        proof {
            if starts_with(t, p@) {
                assert(v@.subrange(i as int, i + p.len()) =~= t.take(p.len() as int));
            }
            assert(t.drop_first() =~= v@.skip(i + 1));
        }
        i += 1;
    }
    proof {
        let t = v@.skip(i as int);
        if i < v.len() {
            assert(t.take(p.len() as int) =~= v@.subrange(i as int, i + p.len()));
        }
    }
    i
}

pub fn without_prefixes(s: &str, p: &str) -> (r: String)
    ensures
        r@ == trim_prefixes(s@, p@),
{
    let v: Vec<char> = chars_of(s);
    let w: Vec<char> = chars_of(p);
    let mut i: usize = 0;
    assert(v@.skip(0) =~= v@);
    while w.len() > 0 && stands_at(v.as_slice(), w.as_slice(), i)
        invariant
            w@ == p@,
            i <= v.len(),
            trim_prefixes(s@, p@) == trim_prefixes(v@.skip(i as int), p@),
        decreases v.len() - i,
    {
        let ghost t = v@.skip(i as int);
        assert(t.take(w.len() as int) =~= v@.subrange(i as int, i + w.len()));
        assert(t.skip(w.len() as int) =~= v@.skip(i + w.len()));
        i += w.len();
    }
    proof {
        let t = v@.skip(i as int);
        if w.len() > 0 && starts_with(t, p@) {
            assert(v@.subrange(i as int, i + w.len()) =~= t.take(w.len() as int));
        }
        assert(v@.subrange(i as int, v.len() as int) =~= t);
    }
    piece(v.as_slice(), i, v.len())
}

/// A path with a relative one below it.
pub open spec fn path_in(root: Seq<char>, rest: Seq<char>) -> Seq<char> {
    if rest.len() > 0 && rest[0] == '/' {
        rest
    } else if root.len() == 0 || root.last() == '/' {
        root + rest
    } else {
        root + "/"@ + rest
    }
}

pub fn join_path(root: &str, rest: &str) -> (r: String)
    ensures
        r@ == path_in(root@, rest@),
{
    let v: Vec<char> = chars_of(root);
    let w: Vec<char> = chars_of(rest);
    if w.len() > 0 && w[0] == '/' {
        return String::from_str(rest);
    }
    let mut r: String = String::from_str(root);
    if v.len() > 0 && v[v.len() - 1] != '/' {
        r.append("/");
    }
    r.append(rest);
    r
}

/// The text that `str::to_lowercase` makes of another.
pub uninterp spec fn lowercase(s: Seq<char>) -> Seq<char>;

/// Calls `str::to_lowercase`, which gives the text in small letters by Unicode's
/// rules. It depends on the text alone.
#[verifier::external_body]
pub(crate) fn lowercase_of(s: &str) -> (r: String)
    ensures
        r@ == lowercase(s@),
{
    s.to_lowercase()
}

/// The text that `String::from_utf8_lossy` makes of some bytes.
pub uninterp spec fn lossy(bytes: Seq<u8>) -> Seq<char>;

/// Calls `String::from_utf8_lossy`, which reads bytes as UTF-8 and puts a
/// replacement character where they are none. The text depends on the bytes alone.
#[verifier::external_body]
pub(crate) fn lossy_text(bytes: &[u8]) -> (r: String)
    ensures
        r@ == lossy(bytes@),
{
    String::from_utf8_lossy(bytes).into_owned()
}

/// Two texts, one after the other.
pub fn joined_pair(a: &str, b: &str) -> (r: String)
    ensures
        r@ == a@ + b@,
{
    let mut r: String = String::from_str(a);
    r.append(b);
    r
}

/// The bytes of a character in UTF-8.
pub open spec fn utf8_of(c: char) -> Seq<int> {
    let p = c as int;
    if p < 0x80 {
        seq![p]
    } else if p < 0x800 {
        seq![0xc0 + p / 64, 0x80 + p % 64]
    } else if p < 0x10000 {
        seq![0xe0 + p / 4096, 0x80 + p / 64 % 64, 0x80 + p % 64]
    } else {
        seq![0xf0 + p / 262144, 0x80 + p / 4096 % 64, 0x80 + p / 64 % 64, 0x80 + p % 64]
    }
}

pub open spec fn byte_values(v: Seq<u8>) -> Seq<int> {
    Seq::new(v.len(), |i: int| v[i] as int)
}

pub fn utf8_bytes(c: char) -> (r: Vec<u8>)
    ensures
        byte_values(r@) == utf8_of(c),
{
    let p: u32 = c as u32;
    let mut v: Vec<u8> = Vec::new();
    if p < 0x80 {
        v.push(p as u8);
    } else if p < 0x800 {
        v.push((0xc0 + p / 64) as u8);
        v.push((0x80 + p % 64) as u8);
    } else if p < 0x10000 {
        v.push((0xe0 + p / 4096) as u8);
        v.push((0x80 + p / 64 % 64) as u8);
        v.push((0x80 + p % 64) as u8);
    } else {
        v.push((0xf0 + p / 262144) as u8);
        v.push((0x80 + p / 4096 % 64) as u8);
        v.push((0x80 + p / 64 % 64) as u8);
        v.push((0x80 + p % 64) as u8);
    }
    assert(byte_values(v@) =~= utf8_of(c));
    v
}

/// Whether texts stand in order; equal ones may follow each other.
pub open spec fn in_text_order(v: Seq<String>) -> bool {
    forall|i: int, j: int|
        0 <= i < j < v.len() ==> !before((#[trigger] v[j])@, (#[trigger] v[i])@)
}

/// Inserting an element adds it to the elements of a list.
pub proof fn lemma_insert_multiset<A>(s: Seq<A>, p: int, x: A)
    requires
        0 <= p <= s.len(),
    ensures
        s.insert(p, x).to_multiset() == s.to_multiset().insert(x),
{
    let t = s.insert(p, x);
    assert(t.remove(p) =~= s);
    assert(t[p] == x);
    vstd::seq_lib::to_multiset_remove(t, p);
    t.to_multiset_ensures();
    assert(t.contains(x));
    assert(t.to_multiset().count(x) > 0);
    assert(t.to_multiset() =~= s.to_multiset().insert(x));
}

/// The texts of a list in order.
pub fn sorted_texts(v: &Vec<String>) -> (r: Vec<String>)
    ensures
        in_text_order(r@),
        r@.to_multiset() == v@.to_multiset(),
{
    let mut r: Vec<String> = Vec::new();
    let mut i: usize = 0;
    assert(v@.take(0) =~= r@);
    while i < v.len()
        invariant
            i <= v.len(),
            in_text_order(r@),
            r@.to_multiset() == v@.take(i as int).to_multiset(),
        decreases v.len() - i,
    {
        let mut p: usize = r.len();
        while p > 0 && stands_before(v[i].as_str(), r[p - 1].as_str())
            invariant
                i < v.len(),
                p <= r.len(),
                forall|k: int| p <= k < r.len() ==> before(v@[i as int]@, (#[trigger] r@[k])@),
            decreases p,
        {
            p -= 1;
        }
        let ghost old_r = r@;
        let x: String = v[i].clone();
        r.insert(p, x);
        proof {
            lemma_insert_multiset(old_r, p as int, x);
            assert(v@.take(i + 1) =~= v@.take(i as int).push(v@[i as int]));
            vstd::seq_lib::to_multiset_build(v@.take(i as int), v@[i as int]);
            assert forall|a: int, b: int| 0 <= a < b < r@.len() implies !before(
                (#[trigger] r@[b])@,
                (#[trigger] r@[a])@,
            ) by {
                let oa = if a < p {
                    a
                } else {
                    a - 1
                };
                let ob = if b < p {
                    b
                } else {
                    b - 1
                };
                if a != p && b != p {
                    assert(r@[a] == old_r[oa] && r@[b] == old_r[ob]);
                } else if a == p {
                    assert(r@[b] == old_r[ob]);
                    lemma_before_total(x@, old_r[ob]@);
                } else {
                    assert(r@[a] == old_r[oa]);
                    if before(x@, old_r[oa]@) {
                        assert(!before(x@, old_r[p - 1]@));
                        if oa < p - 1 {
                            assert(!before(old_r[p - 1]@, old_r[oa]@));
                            lemma_before_total(old_r[oa]@, old_r[p - 1]@);
                            if before(old_r[oa]@, old_r[p - 1]@) {
                                lemma_before_transitive(x@, old_r[oa]@, old_r[p - 1]@);
                            }
                        }
                    }
                }
            }
        }
        i += 1;
    }
    assert(v@.take(i as int) =~= v@);
    r
}

/// Trimming takes white space off both ends and nothing else: what is left stands in
/// the text, neither begins nor ends with white space, and all around it is white
/// space. Nothing is left exactly of a blank text.
pub proof fn law_trim(s: Seq<char>)
    ensures
        exists|a: int, b: int| #[trigger] is_trimmed(s, a, b) && trim(s) == s.subrange(a, b),
        trim(s).len() > 0 ==> !is_space(trim(s)[0]) && !is_space(trim(s).last()),
        trim(s).len() == 0 <==> forall|i: int| 0 <= i < s.len() ==> is_space(#[trigger] s[i]),
        s.len() > 0 && !is_space(s[0]) && !is_space(s.last()) ==> trim(s) == s,
{
    lemma_trim_start(s);
    let t = trim_start(s);
    lemma_trim_end(t);
    let a = s.len() - t.len();
    let b = a + trim(s).len();
    assert(trim(s) =~= s.subrange(a, b));
    assert forall|i: int| b <= i < s.len() implies is_space(#[trigger] s[i]) by {
        assert(s[i] == t[i - a]);
    }
    assert(is_trimmed(s, a, b));
    if trim(s).len() > 0 {
        assert(trim(s)[0] == t[0]);
        assert(trim(s)[0] == s[a]);
    }
}

/// Whether all of a text outside a part of it is white space.
pub open spec fn is_trimmed(s: Seq<char>, a: int, b: int) -> bool {
    &&& 0 <= a <= b <= s.len()
    &&& forall|i: int| 0 <= i < a ==> is_space(#[trigger] s[i])
    &&& forall|i: int| b <= i < s.len() ==> is_space(#[trigger] s[i])
}

proof fn lemma_trim_start(s: Seq<char>)
    ensures
        trim_start(s).len() <= s.len(),
        trim_start(s) == s.skip(s.len() - trim_start(s).len()),
        forall|i: int| 0 <= i < s.len() - trim_start(s).len() ==> is_space(#[trigger] s[i]),
        trim_start(s).len() > 0 ==> !is_space(trim_start(s)[0]),
    decreases s.len(),
{
    if s.len() > 0 && is_space(s[0]) {
        let t = s.drop_first();
        lemma_trim_start(t);
        assert(trim_start(s) =~= s.skip(s.len() - trim_start(s).len()));
        assert forall|i: int| 0 <= i < s.len() - trim_start(s).len() implies is_space(
            #[trigger] s[i],
        ) by {
            if i > 0 {
                assert(s[i] == t[i - 1]);
            }
        }
    } else {
        assert(trim_start(s) =~= s.skip(0));
    }
}

proof fn lemma_trim_end(s: Seq<char>)
    ensures
        trim_end(s).len() <= s.len(),
        trim_end(s) == s.take(trim_end(s).len() as int),
        forall|i: int| trim_end(s).len() <= i < s.len() ==> is_space(#[trigger] s[i]),
        trim_end(s).len() > 0 ==> !is_space(trim_end(s).last()),
    decreases s.len(),
{
    if s.len() > 0 && is_space(s.last()) {
        let t = s.drop_last();
        lemma_trim_end(t);
        assert(trim_end(s) =~= s.take(trim_end(s).len() as int));
        assert forall|i: int| trim_end(s).len() <= i < s.len() implies is_space(
            #[trigger] s[i],
        ) by {
            if i < s.len() - 1 {
                assert(s[i] == t[i]);
            }
        }
    } else {
        assert(trim_end(s) =~= s.take(s.len() as int));
    }
}

/// What is written of a number reads back as it, with a plus sign too, where it is
/// not too large.
pub proof fn law_written_number_reads_back(n: nat, max: nat)
    requires
        n <= max,
    ensures
        parsed_unsigned(decimal(n), max) == Some(n),
        parsed_unsigned(seq!['+'] + decimal(n), max) == Some(n),
{
    lemma_decimal_value(n);
    lemma_decimal_digits(n);
    assert(decimal(n)[0] != '+');
    assert((seq!['+'] + decimal(n)).drop_first() =~= decimal(n));
}

pub proof fn lemma_decimal_digits(n: nat)
    ensures
        decimal(n).len() > 0,
        all_digits(decimal(n)),
    decreases n,
{
    if n >= 10 {
        lemma_decimal_digits(n / 10);
        assert(is_digit(digit_char(n % 10)));
        assert forall|i: int| 0 <= i < decimal(n).len() implies is_digit(
            #[trigger] decimal(n)[i],
        ) by {
            if i < decimal(n / 10).len() {
                assert(decimal(n)[i] == decimal(n / 10)[i]);
            }
        }
    } else {
        assert(is_digit(digit_char(n)));
    }
}

/// A number is read of digits alone, behind a plus sign at most, and of one that is
/// not too large.
pub proof fn law_only_digits_are_read(s: Seq<char>, max: nat)
    requires
        parsed_unsigned(s, max) is Some,
    ensures
        parsed_unsigned(s, max).unwrap() <= max,
        s.len() > 0,
        s[0] == '+' || '0' <= s[0] <= '9',
        s[0] == '+' ==> s.len() > 1,
        forall|i: int| 1 <= i < s.len() ==> '0' <= #[trigger] s[i] <= '9',
{
    let d = if s[0] == '+' {
        s.drop_first()
    } else {
        s
    };
    assert forall|i: int| 1 <= i < s.len() implies '0' <= #[trigger] s[i] <= '9' by {
        let k = if s[0] == '+' {
            i - 1
        } else {
            i
        };
        assert(is_digit(d[k]));
    }
    assert(is_digit(d[0]));
}

/// The first place where a pattern stands is where it is found.
pub proof fn lemma_first_occurrence_is(s: Seq<char>, p: Seq<char>, i: int)
    requires
        0 <= i < s.len(),
        starts_with(s.skip(i), p),
        forall|j: int| 0 <= j < i ==> !starts_with(#[trigger] s.skip(j), p),
    ensures
        first_occurrence(s, p) == i,
    decreases i,
{
    assert(s.skip(0) =~= s);
    if i > 0 {
        let t = s.drop_first();
        assert(t.skip(i - 1) =~= s.skip(i));
        assert forall|j: int| 0 <= j < i - 1 implies !starts_with(#[trigger] t.skip(j), p) by {
            assert(t.skip(j) =~= s.skip(j + 1));
        }
        lemma_first_occurrence_is(t, p, i - 1);
    }
}

/// Lower case changes the capital letters of ASCII and nothing else, and no length;
/// upper case is the other way round.
pub proof fn law_case(s: Seq<char>, i: int)
    requires
        0 <= i < s.len(),
    ensures
        lower(s).len() == s.len(),
        upper(s).len() == s.len(),
        'A' <= s[i] <= 'Z' ==> lower(s)[i] as int == s[i] as int + 32 && upper(s)[i] == s[i],
        'a' <= s[i] <= 'z' ==> upper(s)[i] as int == s[i] as int - 32 && lower(s)[i] == s[i],
        !('A' <= s[i] <= 'Z') && !('a' <= s[i] <= 'z') ==> lower(s)[i] == s[i] && upper(s)[i]
            == s[i],
{
}

/// What has no white space at its ends is its own trimmed text, and a trimmed text has
/// none.
pub proof fn lemma_trimmed(s: Seq<char>)
    ensures
        s.len() > 0 && !is_space(s[0]) && !is_space(s.last()) ==> trim(s) == s,
        trim(s).len() > 0 ==> !is_space(trim(s)[0]) && !is_space(trim(s).last()),
        s.len() == 0 ==> trim(s) == s,
{
    law_trim(s);
}

/// A name in small letters, without white space, is its own trimmed lower case, and
/// doing both twice is doing them once.
pub proof fn lemma_lower_trim(s: Seq<char>)
    ensures
        lower(trim(lower(trim(s)))) == lower(trim(s)),
        s.len() > 0 && (forall|i: int| 0 <= i < s.len() ==> 'a' <= #[trigger] s[i] <= 'z') ==> lower(
            trim(s),
        ) == s,
{
    lemma_trimmed(s);
    let t = trim(s);
    let l = lower(t);
    lemma_lower_twice(t);
    lemma_trimmed(l);
    if t.len() > 0 {
        assert(l[0] == lower_char(t[0]) && l.last() == lower_char(t.last()));
        assert(trim(l) == l);
    } else {
        assert(l =~= t);
        assert(trim(l) == l);
    }
    if s.len() > 0 && forall|i: int| 0 <= i < s.len() ==> 'a' <= #[trigger] s[i] <= 'z' {
        assert('a' <= s[0] <= 'z');
        assert('a' <= s[s.len() - 1] <= 'z');
        assert(lower(s) =~= s);
    }
}

proof fn lemma_lower_twice(t: Seq<char>)
    ensures
        lower(lower(t)) == lower(t),
{
    assert(lower(lower(t)) =~= lower(t));
}

/// What is written of a number has no white space around it.
pub proof fn law_written_number_is_trimmed(n: nat)
    ensures
        trim(decimal(n)) == decimal(n),
{
    lemma_decimal_digits(n);
    law_trim(decimal(n));
    assert(is_digit(decimal(n)[0]));
    assert(is_digit(decimal(n)[decimal(n).len() - 1]));
}

/// What is split at a character joins to what it was, and no piece holds the
/// character: there is one piece more than there are separators.
pub proof fn law_split_joins(s: Seq<char>, c: char)
    ensures
        split(s, c).len() > 0,
        joined_from_left(split(s, c), c) == s,
        forall|i: int| 0 <= i < split(s, c).len() ==> !(#[trigger] split(s, c)[i]).contains(c),
    decreases s.len(),
{
    lemma_first_char(s, c);
    let i = first_char(s, c);
    let parts = split(s, c);
    if i < s.len() {
        let rest = s.skip(i + 1);
        law_split_joins(rest, c);
        assert(parts.drop_first() =~= split(rest, c));
        assert(s =~= s.take(i).push(c) + rest);
        assert forall|k: int| 0 <= k < parts.len() implies !(#[trigger] parts[k]).contains(c) by {
            if k == 0 {
                if s.take(i).contains(c) {
                    let j = choose|j: int| 0 <= j < i && s.take(i)[j] == c;
                    assert(s[j] == c);
                }
            } else {
                assert(parts[k] == split(rest, c)[k - 1]);
            }
        }
    } else {
        assert(!s.contains(c));
    }
}

/// The pieces one after another with a character between them, from the first on.
pub open spec fn joined_from_left(parts: Seq<Seq<char>>, c: char) -> Seq<char>
    decreases parts.len(),
{
    if parts.len() == 0 {
        Seq::empty()
    } else if parts.len() == 1 {
        parts[0]
    } else {
        parts[0].push(c) + joined_from_left(parts.drop_first(), c)
    }
}

/// Joining puts the separator between the texts and nowhere else: a text more adds the
/// separator and the text.
pub proof fn law_joining(parts: Seq<Seq<char>>, sep: Seq<char>, x: Seq<char>)
    ensures
        joined(Seq::empty(), sep) == Seq::<char>::empty(),
        joined(seq![x], sep) == x,
        parts.len() > 0 ==> joined(parts.push(x), sep) == joined(parts, sep) + sep + x,
{
    assert(parts.push(x).drop_last() =~= parts);
}

/// A character is taken off an end as often as it stands there, and nothing else is.
pub proof fn law_taken_off(s: Seq<char>, c: char)
    ensures
        trim_end_of(s, c).len() > 0 ==> trim_end_of(s, c).last() != c,
        trim_end_of(s, c).len() <= s.len(),
        s.take(trim_end_of(s, c).len() as int) == trim_end_of(s, c),
        forall|i: int| trim_end_of(s, c).len() <= i < s.len() ==> #[trigger] s[i] == c,
        trim_start_of(s, c).len() > 0 ==> trim_start_of(s, c)[0] != c,
        trim_start_of(s, c).len() <= s.len(),
        s.skip(s.len() - trim_start_of(s, c).len()) == trim_start_of(s, c),
        forall|i: int| 0 <= i < s.len() - trim_start_of(s, c).len() ==> #[trigger] s[i] == c,
    decreases s.len(),
{
    assert(s.take(s.len() as int) =~= s);
    assert(s.skip(0) =~= s);
    if s.len() > 0 && s.last() == c {
        let t = s.drop_last();
        law_taken_off(t, c);
        let n = trim_end_of(t, c).len() as int;
        assert(s.take(n) =~= t.take(n));
        assert forall|i: int| n <= i < s.len() implies #[trigger] s[i] == c by {
            if i < t.len() {
                assert(t[i] == s[i]);
            }
        }
    }
    if s.len() > 0 && s[0] == c {
        let t = s.drop_first();
        law_taken_off(t, c);
        let n = t.len() - trim_start_of(t, c).len();
        assert(s.skip(n + 1) =~= t.skip(n));
        assert forall|i: int| 0 <= i < n + 1 implies #[trigger] s[i] == c by {
            if i > 0 {
                assert(t[i - 1] == s[i]);
            }
        }
    }
}

/// The bytes of a text are those of its parts; a character of ASCII takes one.
pub proof fn law_bytes_add_up(a: Seq<char>, b: Seq<char>, c: char)
    ensures
        utf8_len(a + b) == utf8_len(a) + utf8_len(b),
        (c as int) < 128 ==> utf8_len(seq![c]) == 1,
        128 <= c as int && (c as int) < 2048 ==> utf8_len(seq![c]) == 2,
        2048 <= c as int && (c as int) < 65536 ==> utf8_len(seq![c]) == 3,
        c as int >= 65536 ==> utf8_len(seq![c]) == 4,
    decreases b.len(),
{
    assert(seq![c].drop_last() =~= Seq::empty());
    assert(utf8_len(Seq::<char>::empty()) == 0);
    if b.len() == 0 {
        assert(a + b =~= a);
    } else {
        law_bytes_add_up(a, b.drop_last(), c);
        assert((a + b).drop_last() =~= a + b.drop_last());
    }
}

/// White space parts words, and a text without it is one word.
pub proof fn law_words_are_counted(a: Seq<char>, c: char, b: Seq<char>)
    requires
        is_space(c),
    ensures
        word_count(a.push(c) + b) == word_count(a) + word_count(b),
        a.len() > 0 && (forall|i: int| 0 <= i < a.len() ==> !is_space(#[trigger] a[i]))
            ==> word_count(a) == 1,
        word_count(Seq::empty()) == 0,
    decreases b.len(), a.len(),
{
    if b.len() == 0 {
        assert(a.push(c) + b =~= a.push(c));
        assert(a.push(c).drop_last() =~= a);
    } else {
        let t = b.drop_last();
        law_words_are_counted(a, c, t);
        let s = a.push(c) + b;
        assert(s.drop_last() =~= a.push(c) + t);
        assert(s.last() == b.last());
        if b.len() == 1 {
            assert(s[s.len() - 2] == c);
        } else {
            assert(s[s.len() - 2] == b[b.len() - 2]);
        }
    }
    lemma_one_word(a);
}

proof fn lemma_one_word(a: Seq<char>)
    ensures
        a.len() > 0 && (forall|i: int| 0 <= i < a.len() ==> !is_space(#[trigger] a[i]))
            ==> word_count(a) == 1,
    decreases a.len(),
{
    if a.len() > 0 && (forall|i: int| 0 <= i < a.len() ==> !is_space(#[trigger] a[i])) {
        let t = a.drop_last();
        assert(!is_space(a[a.len() - 1]));
        assert forall|i: int| 0 <= i < t.len() implies !is_space(#[trigger] t[i]) by {
            assert(t[i] == a[i]);
        }
        lemma_one_word(t);
        if a.len() > 1 {
            assert(!is_space(a[a.len() - 2]));
        } else {
            assert(word_count(t) == 0);
        }
    }
}

/// A number with a sign reads back as it is written.
pub proof fn law_signed_number_reads_back(n: i64)
    ensures
        parsed_signed(signed_decimal(n as int)) == Some(n as int),
{
    if n < 0 {
        let m = (-(n as int)) as nat;
        let s = signed_decimal(n as int);
        lemma_decimal_value(m);
        lemma_decimal_digits(m);
        assert(s[0] == '-');
        assert(s.drop_first() =~= decimal(m));
    } else {
        let s = decimal(n as nat);
        lemma_decimal_digits(n as nat);
        assert(is_digit(s[0]));
        law_written_number_reads_back(n as nat, i64::MAX as nat);
    }
}

/// A path below a root has one slash between them; one from the top stays as it is.
pub proof fn law_paths(root: Seq<char>, rest: Seq<char>)
    ensures
        rest.len() > 0 && rest[0] == '/' ==> path_in(root, rest) == rest,
        !(rest.len() > 0 && rest[0] == '/') && root.len() > 0 && root.last() != '/' ==> path_in(
            root,
            rest,
        ) == root.push('/') + rest,
        !(rest.len() > 0 && rest[0] == '/') && root.len() > 0 && root.last() == '/' ==> path_in(
            root,
            rest,
        ) == root + rest,
        root.len() == 0 ==> path_in(root, rest) == rest,
{
    reveal_strlit("/");
    assert("/"@ =~= seq!['/']);
    assert(root + seq!['/'] =~= root.push('/'));
    assert(root.len() == 0 ==> root + rest =~= rest);
}

/// A text is found in another exactly if it is there between something and something.
pub proof fn law_has(s: Seq<char>, p: Seq<char>, a: Seq<char>, b: Seq<char>)
    ensures
        has(a + p + b, p),
        has(s, p) ==> p.len() <= s.len(),
        has(s, s),
        starts_with(p + b, p),
        ends_with(a + p, p),
{
    let t = a + p + b;
    assert(t.subrange(a.len() as int, a.len() as int + p.len()) =~= p);
    assert(occurs_at(t, p, a.len() as int));
    assert(s.subrange(0, 0int + s.len()) =~= s);
    assert(occurs_at(s, s, 0));
    assert((p + b).take(p.len() as int) =~= p);
    assert((a + p).skip(a.len() as int) =~= p);
}

/// Texts are ordered by the first character in which they differ, and a text stands
/// before what it begins; of two different ones exactly one stands before the other.
pub proof fn law_order_of_texts(head: Seq<char>, a: Seq<char>, b: Seq<char>, x: char, y: char)
    ensures
        x as int == y as int || (before(head + seq![x] + a, head + seq![y] + b) <==> (x as int) < (
        y as int)),
        a.len() > 0 ==> before(head, head + a),
        !before(a, a),
        a != b ==> (before(a, b) <==> !before(b, a)),
    decreases head.len(),
{
    lemma_before_total(a, b);
    let s = head + seq![x] + a;
    let t = head + seq![y] + b;
    if head.len() > 0 {
        let rest = head.drop_first();
        law_order_of_texts(rest, a, b, x, y);
        assert(s.drop_first() =~= rest + seq![x] + a);
        assert(t.drop_first() =~= rest + seq![y] + b);
        assert((head + a).drop_first() =~= rest + a);
        assert(s[0] == head[0] && t[0] == head[0] && (head + a)[0] == head[0]);
    } else {
        assert(s[0] == x && t[0] == y);
    }
}

/// In a list in order no text stands before an earlier one.
pub proof fn law_list_in_order(v: Seq<String>, i: int, j: int)
    requires
        in_text_order(v),
        0 <= i < j < v.len(),
    ensures
        v[i]@ == v[j]@ || before(v[i]@, v[j]@),
{
    lemma_before_total(v[i]@, v[j]@);
}

} // verus!
