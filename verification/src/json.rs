//! JSON values and how they are read.

use crate::text;
use vstd::prelude::*;

verus! {

/// A JSON value.
#[derive(Debug)]
pub enum Json {
    Null,
    Bool(bool),
    /// A number as it is written.
    Number(String),
    Text(String),
    List(Vec<Json>),
    Object(Vec<(String, Json)>),
}

/// What a JSON value holds.
pub enum JsonView {
    Null,
    Bool(bool),
    Number(Seq<char>),
    Text(Seq<char>),
    List(Seq<JsonView>),
    Object(Seq<(Seq<char>, JsonView)>),
}

pub open spec fn json_view(j: Json) -> JsonView
    decreases j,
{
    match j {
        Json::Null => JsonView::Null,
        Json::Bool(b) => JsonView::Bool(b),
        Json::Number(n) => JsonView::Number(n@),
        Json::Text(s) => JsonView::Text(s@),
        Json::List(v) => JsonView::List(
            Seq::new(
                v@.len(),
                |i: int|
                    if 0 <= i < v@.len() {
                        json_view(v@[i])
                    } else {
                        JsonView::Null
                    },
            ),
        ),
        Json::Object(v) => JsonView::Object(
            Seq::new(
                v@.len(),
                |i: int|
                    if 0 <= i < v@.len() {
                        (v@[i].0@, json_view(v@[i].1))
                    } else {
                        (Seq::empty(), JsonView::Null)
                    },
            ),
        ),
    }
}

impl View for Json {
    type V = JsonView;

    open spec fn view(&self) -> JsonView {
        json_view(*self)
    }
}

/// The first member of an object with a key.
pub open spec fn first_member(members: Seq<(Seq<char>, JsonView)>, key: Seq<char>) -> Option<JsonView>
    decreases members.len(),
{
    if members.len() == 0 {
        None
    } else if members[0].0 == key {
        Some(members[0].1)
    } else {
        first_member(members.drop_first(), key)
    }
}

/// The member of an object with a key.
pub open spec fn member(j: JsonView, key: Seq<char>) -> Option<JsonView> {
    match j {
        JsonView::Object(ms) => first_member(ms, key),
        _ => None,
    }
}

/// The element of a list at an index.
pub open spec fn element(j: JsonView, i: int) -> Option<JsonView> {
    match j {
        JsonView::List(v) => if 0 <= i < v.len() {
            Some(v[i])
        } else {
            None
        },
        _ => None,
    }
}

pub open spec fn text_of(j: Option<JsonView>) -> Option<Seq<char>> {
    match j {
        Some(JsonView::Text(s)) => Some(s),
        _ => None,
    }
}

/// A member of a member.
pub open spec fn member2(j: JsonView, a: Seq<char>, b: Seq<char>) -> Option<JsonView> {
    match member(j, a) {
        Some(x) => member(x, b),
        None => None,
    }
}

pub open spec fn opt_json(j: Option<&Json>) -> Option<JsonView> {
    match j {
        Some(x) => Some(x@),
        None => None,
    }
}

impl Json {
    /// The member with a key.
    pub fn get(&self, key: &str) -> (r: Option<&Json>)
        ensures
            opt_json(r) == member(self@, key@),
    {
        match self {
            Json::Object(v) => {
                let ghost ms = self@->Object_0;
                let mut i: usize = 0;
                assert(ms.skip(0) =~= ms);
                while i < v.len()
                    invariant
                        i <= v.len(),
                        self@ == JsonView::Object(ms),
                        ms.len() == v@.len(),
                        forall|j: int|
                            0 <= j < v@.len() ==> #[trigger] ms[j] == (v@[j].0@, v@[j].1@),
                        first_member(ms, key@) == first_member(ms.skip(i as int), key@),
                    decreases v.len() - i,
                {
                    assert(ms.skip(i as int)[0] == ms[i as int]);
                    if text::same(v[i].0.as_str(), key) {
                        return Some(&v[i].1);
                    }
                    assert(ms.skip(i as int).drop_first() =~= ms.skip(i + 1));
                    i += 1;
                }
                None
            },
            _ => None,
        }
    }

    /// The element at an index.
    pub fn at(&self, i: usize) -> (r: Option<&Json>)
        ensures
            opt_json(r) == element(self@, i as int),
    {
        match self {
            Json::List(v) => {
                if i < v.len() {
                    assert(self@->List_0[i as int] == v@[i as int]@);
                    Some(&v[i])
                } else {
                    None
                }
            },
            _ => None,
        }
    }

    pub fn as_str(&self) -> (r: Option<&str>)
        ensures
            match r {
                Some(s) => self@ == JsonView::Text(s@),
                None => !(self@ is Text),
            },
    {
        match self {
            Json::Text(s) => Some(s.as_str()),
            _ => None,
        }
    }

    pub fn as_bool(&self) -> (r: Option<bool>)
        ensures
            match r {
                Some(b) => self@ == JsonView::Bool(b),
                None => !(self@ is Bool),
            },
    {
        match self {
            Json::Bool(b) => Some(*b),
            _ => None,
        }
    }

    /// The text of a member.
    pub fn text_member(&self, key: &str) -> (r: Option<String>)
        ensures
            crate::registry::opt_view(r) == text_of(member(self@, key@)),
    {
        match self.get(key) {
            Some(j) => match j.as_str() {
                Some(s) => Some(String::from_str(s)),
                None => None,
            },
            None => None,
        }
    }

    /// The same value again.
    pub fn copy(&self) -> (r: Json)
        ensures
            r@ == self@,
        decreases *self,
    {
        match self {
            Json::Null => Json::Null,
            Json::Bool(b) => Json::Bool(*b),
            Json::Number(n) => Json::Number(n.clone()),
            Json::Text(s) => Json::Text(s.clone()),
            Json::List(v) => {
                let mut out: Vec<Json> = Vec::new();
                let mut i: usize = 0;
                while i < v.len()
                    invariant
                        *self == Json::List(*v),
                        i <= v@.len(),
                        out@.len() == i,
                        forall|k: int| 0 <= k < i ==> (#[trigger] out@[k])@ == v@[k]@,
                    decreases v.len() - i,
                {
                    assert(v@[i as int] == self->List_0@[i as int]);
                    assert(decreases_to!(*self => self->List_0));
                    assert(decreases_to!(self->List_0 => self->List_0@));
                    assert(decreases_to!(self->List_0@ => self->List_0@[i as int]));
                    out.push(v[i].copy());
                    i += 1;
                }
                let r: Json = Json::List(out);
                assert(r@->List_0 =~= self@->List_0);
                r
            },
            Json::Object(v) => {
                let mut out: Vec<(String, Json)> = Vec::new();
                let mut i: usize = 0;
                while i < v.len()
                    invariant
                        *self == Json::Object(*v),
                        i <= v@.len(),
                        out@.len() == i,
                        forall|k: int|
                            0 <= k < i ==> (#[trigger] out@[k]).0@ == v@[k].0@ && out@[k].1@
                                == v@[k].1@,
                    decreases v.len() - i,
                {
                    assert(v@[i as int].1 == self->Object_0@[i as int].1);
                    assert(decreases_to!(*self => self->Object_0));
                    assert(decreases_to!(self->Object_0 => self->Object_0@));
                    assert(decreases_to!(self->Object_0@ => self->Object_0@[i as int]));
                    assert(decreases_to!(self->Object_0@[i as int] => self->Object_0@[i as int].1));
                    out.push((v[i].0.clone(), v[i].1.copy()));
                    i += 1;
                }
                let r: Json = Json::Object(out);
                assert(r@->Object_0 =~= self@->Object_0);
                r
            },
        }
    }

    /// A text.
    pub fn text(s: &str) -> (r: Json)
        ensures
            r@ == JsonView::Text(s@),
    {
        Json::Text(String::from_str(s))
    }

    /// A whole number.
    pub fn number(n: u64) -> (r: Json)
        ensures
            r@ == JsonView::Number(text::decimal(n as nat)),
    {
        Json::Number(text::decimal_of(n))
    }
}

/// The view of the members of an object.
pub open spec fn members_view(v: Seq<(String, Json)>) -> Seq<(Seq<char>, JsonView)> {
    Seq::new(v.len(), |i: int| (v[i].0@, v[i].1@))
}

/// Adds a member to those of an object.
pub fn push_member(v: &mut Vec<(String, Json)>, key: &str, value: Json)
    ensures
        members_view(final(v)@) == members_view(old(v)@).push((key@, value@)),
{
    let ghost before = members_view(v@);
    v.push((String::from_str(key), value));
    assert(members_view(v@) =~= before.push((key@, value@)));
}

/// An object.
pub fn object(v: Vec<(String, Json)>) -> (r: Json)
    ensures
        r@ == JsonView::Object(members_view(v@)),
{
    let j: Json = Json::Object(v);
    assert(j@->Object_0 =~= members_view(v@));
    j
}

/// The view of the elements of a list.
pub open spec fn elements_view(v: Seq<Json>) -> Seq<JsonView> {
    Seq::new(v.len(), |i: int| v[i]@)
}

/// A list.
pub fn list(v: Vec<Json>) -> (r: Json)
    ensures
        r@ == JsonView::List(elements_view(v@)),
{
    let j: Json = Json::List(v);
    assert(j@->List_0 =~= elements_view(v@));
    j
}

// ---------------------------------------------------------------------------
// Texts
// ---------------------------------------------------------------------------

/// A JSON value of `serde_json`. What it holds is [`value_json`].
#[verifier::external_type_specification]
#[verifier::external_body]
pub struct ExValue(serde_json::Value);

/// What a JSON value of `serde_json` holds, its numbers as it writes them and the
/// members of its objects in the order in which it walks them.
pub uninterp spec fn value_json(value: serde_json::Value) -> JsonView;

/// What `serde_json` reads out of a text, where it accepts the text.
pub uninterp spec fn parsed_json(s: Seq<char>) -> Option<JsonView>;

/// The text that `serde_json` writes for a value that holds this.
pub uninterp spec fn written_json(j: JsonView) -> Seq<char>;

/// Calls `serde_json::from_str`. What is read, or that the text is refused, depends
/// on the text alone.
#[verifier::external_body]
fn read_value(s: &str) -> (r: Option<serde_json::Value>)
    ensures
        match r {
            Some(v) => parsed_json(s@) == Some(value_json(v)),
            None => parsed_json(s@) is None,
        },
{
    serde_json::from_str(s).ok()
}

/// Calls `to_string` on a `serde_json::Value`. The text depends alone on what the
/// value holds.
#[verifier::external_body]
fn write_value(value: &serde_json::Value) -> (r: String)
    ensures
        r@ == written_json(value_json(*value)),
{
    value.to_string()
}

/// One level of a value of `serde_json`.
enum Level {
    Null,
    Bool(bool),
    Number(String),
    Text(String),
    List(Vec<serde_json::Value>),
    Object(Vec<(String, serde_json::Value)>),
}

spec fn value_elements(v: Seq<serde_json::Value>) -> Seq<JsonView> {
    Seq::new(v.len(), |i: int| value_json(v[i]))
}

spec fn value_members(v: Seq<(String, serde_json::Value)>) -> Seq<(Seq<char>, JsonView)> {
    Seq::new(v.len(), |i: int| (v[i].0@, value_json(v[i].1)))
}

/// What a value with this level holds.
spec fn level_json(l: Level) -> JsonView {
    match l {
        Level::Null => JsonView::Null,
        Level::Bool(b) => JsonView::Bool(b),
        Level::Number(n) => JsonView::Number(n@),
        Level::Text(s) => JsonView::Text(s@),
        Level::List(v) => JsonView::List(value_elements(v@)),
        Level::Object(v) => JsonView::Object(value_members(v@)),
    }
}

/// Tells the variants of `serde_json::Value` apart and takes out what each holds.
#[verifier::external_body]
fn open_value(value: serde_json::Value) -> (r: Level)
    ensures
        level_json(r) == value_json(value),
{
    match value {
        serde_json::Value::Null => Level::Null,
        serde_json::Value::Bool(b) => Level::Bool(b),
        serde_json::Value::Number(n) => Level::Number(n.to_string()),
        serde_json::Value::String(s) => Level::Text(s),
        serde_json::Value::Array(v) => Level::List(v),
        serde_json::Value::Object(m) => Level::Object(m.into_iter().collect()),
    }
}

/// A value of `serde_json` as one of this library.
fn json_of(value: serde_json::Value) -> (r: Json)
    ensures
        r@ == value_json(value),
    decreases value_json(value),
{
    let ghost whole = value_json(value);
    match open_value(value) {
        Level::Null => Json::Null,
        Level::Bool(b) => Json::Bool(b),
        Level::Number(n) => Json::Number(n),
        Level::Text(s) => Json::Text(s),
        Level::List(v) => {
            let ghost all = v@;
            let mut out: Vec<Json> = Vec::new();
            for next in items: v
                invariant
                    whole == JsonView::List(value_elements(all)),
                    whole == value_json(value),
                    items.seq() == all,
                    out@.len() == items.index(),
                    forall|k: int|
                        0 <= k < out@.len() ==> (#[trigger] out@[k])@ == value_json(all[k]),
            {
                assert(whole->List_0[out@.len() as int] == value_json(next));
                out.push(json_of(next));
            }
            assert(elements_view(out@) =~= value_elements(all));
            list(out)
        },
        Level::Object(v) => {
            let ghost all = v@;
            let mut out: Vec<(String, Json)> = Vec::new();
            for next in items: v
                invariant
                    whole == JsonView::Object(value_members(all)),
                    whole == value_json(value),
                    items.seq() == all,
                    out@.len() == items.index(),
                    forall|k: int|
                        0 <= k < out@.len() ==> (#[trigger] out@[k]).0@ == all[k].0@ && out@[k].1@
                            == value_json(all[k].1),
            {
                assert(whole->Object_0[out@.len() as int].1 == value_json(next.1));
                out.push((next.0, json_of(next.1)));
            }
            assert(members_view(out@) =~= value_members(all));
            object(out)
        },
    }
}

/// Reads a JSON text; nothing where it is none.
pub fn parse_json(s: &str) -> (r: Option<Json>)
    ensures
        owned_json(r) == parsed_json(s@),
{
    match read_value(s) {
        Some(v) => Some(json_of(v)),
        None => None,
    }
}

pub open spec fn owned_json(j: Option<Json>) -> Option<JsonView> {
    match j {
        Some(x) => Some(x@),
        None => None,
    }
}

/// The members of a map with one more: in the order of their keys, each key once.
pub open spec fn with_member(
    members: Seq<(Seq<char>, JsonView)>,
    key: Seq<char>,
    value: JsonView,
) -> Seq<(Seq<char>, JsonView)>
    decreases members.len(),
{
    if members.len() == 0 || text::before(key, members[0].0) {
        seq![(key, value)] + members
    } else if members[0].0 == key {
        members.update(0, (key, value))
    } else {
        seq![members[0]] + with_member(members.drop_first(), key, value)
    }
}

/// The members as a map keeps them: in the order of their keys, and of those with
/// the same key the last.
pub open spec fn mapped(members: Seq<(Seq<char>, JsonView)>) -> Seq<(Seq<char>, JsonView)>
    decreases members.len(),
{
    if members.len() == 0 {
        Seq::empty()
    } else {
        with_member(mapped(members.drop_last()), members.last().0, members.last().1)
    }
}

/// What is written for a value: a number as it is read again, nothing where it is
/// none, and objects as maps keep their members.
pub open spec fn plain(j: JsonView) -> JsonView
    decreases j,
{
    match j {
        JsonView::Number(n) => match parsed_json(n) {
            Some(v) => v,
            None => JsonView::Null,
        },
        JsonView::List(v) => JsonView::List(
            Seq::new(
                v.len(),
                |i: int|
                    if 0 <= i < v.len() {
                        plain(v[i])
                    } else {
                        JsonView::Null
                    },
            ),
        ),
        JsonView::Object(v) => JsonView::Object(mapped(plain_members(v))),
        _ => j,
    }
}

pub open spec fn plain_members(v: Seq<(Seq<char>, JsonView)>) -> Seq<(Seq<char>, JsonView)>
    decreases v,
{
    Seq::new(
        v.len(),
        |i: int|
            if 0 <= i < v.len() {
                (v[i].0, plain(v[i].1))
            } else {
                (Seq::empty(), JsonView::Null)
            },
    )
}

/// A flat part of a value, or one level of lists and objects.
enum Part {
    Null,
    Bool(bool),
    Text(String),
    List(Vec<serde_json::Value>),
    Object(Vec<(String, serde_json::Value)>),
}

spec fn part_json(p: Part) -> JsonView {
    match p {
        Part::Null => JsonView::Null,
        Part::Bool(b) => JsonView::Bool(b),
        Part::Text(s) => JsonView::Text(s@),
        Part::List(v) => JsonView::List(value_elements(v@)),
        Part::Object(v) => JsonView::Object(mapped(value_members(v@))),
    }
}

/// Makes a `serde_json::Value`, an object by collecting its members into a
/// `serde_json::Map`, which sorts them by their keys and keeps the last of those
/// with the same key.
#[verifier::external_body]
fn close_value(part: Part) -> (r: serde_json::Value)
    ensures
        value_json(r) == part_json(part),
{
    match part {
        Part::Null => serde_json::Value::Null,
        Part::Bool(b) => serde_json::Value::Bool(b),
        Part::Text(s) => serde_json::Value::String(s),
        Part::List(v) => serde_json::Value::Array(v),
        Part::Object(v) => serde_json::Value::Object(v.into_iter().collect()),
    }
}

/// A value of this library as one of `serde_json`.
fn value_of(j: &Json) -> (r: serde_json::Value)
    ensures
        value_json(r) == plain(j@),
    decreases *j,
{
    match j {
        Json::Null => close_value(Part::Null),
        Json::Bool(b) => close_value(Part::Bool(*b)),
        Json::Number(n) => match read_value(n.as_str()) {
            Some(v) => v,
            None => close_value(Part::Null),
        },
        Json::Text(s) => close_value(Part::Text(s.clone())),
        Json::List(v) => {
            let mut out: Vec<serde_json::Value> = Vec::new();
            let mut i: usize = 0;
            while i < v.len()
                invariant
                    *j == Json::List(*v),
                    i <= v@.len(),
                    out@.len() == i,
                    forall|k: int| 0 <= k < i ==> value_json(#[trigger] out@[k]) == plain(v@[k]@),
                decreases v.len() - i,
            {
                assert(v@[i as int] == j->List_0@[i as int]);
                assert(decreases_to!(*j => j->List_0));
                assert(decreases_to!(j->List_0 => j->List_0@));
                assert(decreases_to!(j->List_0@ => j->List_0@[i as int]));
                out.push(value_of(&v[i]));
                i += 1;
            }
            assert(value_elements(out@) =~= plain(j@)->List_0);
            close_value(Part::List(out))
        },
        Json::Object(v) => {
            let mut out: Vec<(String, serde_json::Value)> = Vec::new();
            let mut i: usize = 0;
            while i < v.len()
                invariant
                    *j == Json::Object(*v),
                    i <= v@.len(),
                    out@.len() == i,
                    forall|k: int|
                        0 <= k < i ==> (#[trigger] out@[k]).0@ == v@[k].0@ && value_json(out@[k].1)
                            == plain(v@[k].1@),
                decreases v.len() - i,
            {
                assert(v@[i as int].1 == j->Object_0@[i as int].1);
                assert(decreases_to!(*j => j->Object_0));
                assert(decreases_to!(j->Object_0 => j->Object_0@));
                assert(decreases_to!(j->Object_0@ => j->Object_0@[i as int]));
                assert(decreases_to!(j->Object_0@[i as int] => j->Object_0@[i as int].1));
                out.push((v[i].0.clone(), value_of(&v[i].1)));
                i += 1;
            }
            assert(value_members(out@) =~= plain_members(j@->Object_0));
            close_value(Part::Object(out))
        },
    }
}

/// The text of a value.
pub fn json_text(j: &Json) -> (r: String)
    ensures
        r@ == written_json(plain(j@)),
{
    let v: serde_json::Value = value_of(j);
    write_value(&v)
}

/// The member with a key is the first that has it.
pub proof fn law_first_member(ms: Seq<(Seq<char>, JsonView)>, key: Seq<char>, i: int)
    ensures
        0 <= i < ms.len() && ms[i].0 == key && (forall|j: int|
            0 <= j < i ==> (#[trigger] ms[j]).0 != key) ==> first_member(ms, key) == Some(ms[i].1),
        (forall|j: int| 0 <= j < ms.len() ==> (#[trigger] ms[j]).0 != key) ==> first_member(ms, key)
            is None,
    decreases ms.len(),
{
    if ms.len() > 0 && ms[0].0 != key {
        let t = ms.drop_first();
        law_first_member(t, key, i - 1);
        assert(forall|j: int| 0 <= j < t.len() ==> #[trigger] t[j] == ms[j + 1]);
        if 0 < i < ms.len() {
            assert(t[i - 1] == ms[i]);
        }
    }
}

/// Setting a member sets it, and leaves the others.
pub proof fn law_set_member(
    ms: Seq<(Seq<char>, JsonView)>,
    key: Seq<char>,
    value: JsonView,
    other: Seq<char>,
)
    ensures
        first_member(with_member(ms, key, value), key) == Some(value),
        other != key ==> first_member(with_member(ms, key, value), other) == first_member(ms, other),
    decreases ms.len(),
{
    let r = with_member(ms, key, value);
    if ms.len() == 0 || text::before(key, ms[0].0) {
        assert(r.drop_first() =~= ms);
    } else if ms[0].0 == key {
        assert(r.drop_first() =~= ms.drop_first());
    } else {
        law_set_member(ms.drop_first(), key, value, other);
        assert(r.drop_first() =~= with_member(ms.drop_first(), key, value));
    }
}

/// Of members with the same key the last one counts.
pub proof fn law_last_member_counts(ms: Seq<(Seq<char>, JsonView)>, key: Seq<char>, i: int)
    ensures
        0 <= i < ms.len() && ms[i].0 == key && (forall|j: int|
            i < j < ms.len() ==> (#[trigger] ms[j]).0 != key) ==> first_member(mapped(ms), key)
            == Some(ms[i].1),
        (forall|j: int| 0 <= j < ms.len() ==> (#[trigger] ms[j]).0 != key) ==> first_member(
            mapped(ms),
            key,
        ) is None,
    decreases ms.len(),
{
    if ms.len() > 0 {
        let t = ms.drop_last();
        law_last_member_counts(t, key, i);
        law_set_member(mapped(t), ms.last().0, ms.last().1, key);
        assert(ms.last() == ms[ms.len() - 1]);
        assert(forall|j: int| 0 <= j < t.len() ==> #[trigger] t[j] == ms[j]);
        if 0 <= i < ms.len() - 1 {
            assert(t[i] == ms[i]);
        }
    }
}

} // verus!
