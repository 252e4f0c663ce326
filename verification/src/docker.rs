//! What the container engine is asked and what its answers mean.

use crate::json::{json_text, list, object, push_member, Json, JsonView};
use crate::lab::stage_label;
use crate::registry::{wrap, wrap2, BackendStage};
use crate::text;
use vstd::prelude::*;

verus! {

/// The upper-case hexadecimal digit for a number below sixteen.
pub open spec fn upper_hex_digit(n: int) -> char {
    if n < 10 {
        (('0' as int) + n) as char
    } else {
        (('A' as int) + n - 10) as char
    }
}

fn hex_digit_of(n: u8) -> (r: char)
    requires
        n < 16,
    ensures
        r == upper_hex_digit(n as int),
{
    if n < 10 {
        (48 + n) as char
    } else {
        (65 + (n - 10)) as char
    }
}

pub open spec fn is_unreserved(c: char) -> bool {
    text::is_ascii_alphanumeric(c) || c == '-' || c == '_' || c == '.' || c == '~'
}

pub open spec fn escaped(bytes: Seq<int>) -> Seq<char>
    decreases bytes.len(),
{
    if bytes.len() == 0 {
        Seq::empty()
    } else {
        escaped(bytes.drop_last()).push('%').push(upper_hex_digit(bytes.last() / 16)).push(
            upper_hex_digit(bytes.last() % 16),
        )
    }
}

/// A text as part of a URL: all but a few characters are escaped byte by byte.
pub open spec fn url_encoded(s: Seq<char>) -> Seq<char>
    decreases s.len(),
{
    if s.len() == 0 {
        Seq::empty()
    } else if is_unreserved(s.last()) {
        url_encoded(s.drop_last()).push(s.last())
    } else {
        url_encoded(s.drop_last()) + escaped(text::utf8_of(s.last()))
    }
}

fn push_escaped(out: &mut Vec<char>, c: char)
    ensures
        final(out)@ == old(out)@ + escaped(text::utf8_of(c)),
{
    let bytes: Vec<u8> = text::utf8_bytes(c);
    let ghost all = text::byte_values(bytes@);
    let ghost start = out@;
    let mut i: usize = 0;
    assert(all.take(0) =~= Seq::empty());
    assert(out@ =~= start + escaped(all.take(0)));
    while i < bytes.len()
        invariant
            i <= bytes.len(),
            all == text::byte_values(bytes@),
            out@ == start + escaped(all.take(i as int)),
        decreases bytes.len() - i,
    {
        assert(all.take(i + 1).drop_last() =~= all.take(i as int));
        out.push('%');
        out.push(hex_digit_of(bytes[i] / 16));
        out.push(hex_digit_of(bytes[i] % 16));
        assert(out@ =~= start + escaped(all.take(i + 1)));
        i += 1;
    }
    assert(all.take(i as int) =~= all);
}

pub fn urlencoding_encode(raw: &str) -> (r: String)
    ensures
        r@ == url_encoded(raw@),
{
    let v: Vec<char> = text::chars_of(raw);
    let mut out: Vec<char> = Vec::new();
    let mut i: usize = 0;
    assert(v@.take(0) =~= Seq::empty());
    while i < v.len()
        invariant
            i <= v.len(),
            out@ == url_encoded(v@.take(i as int)),
        decreases v.len() - i,
    {
        assert(v@.take(i + 1).drop_last() =~= v@.take(i as int));
        let c: char = v[i];
        if text::char_is_ascii_letter(c) || text::char_is_digit(c) || c == '-' || c == '_' || c
            == '.' || c == '~' {
            out.push(c);
        } else {
            push_escaped(&mut out, c);
        }
        i += 1;
    }
    assert(v@.take(i as int) =~= v@);
    text::string_of(out.as_slice())
}

/// Encoding leaves only characters that stand for themselves in a URL.
pub proof fn law_encoded_is_plain(s: Seq<char>, i: int)
    requires
        0 <= i < url_encoded(s).len(),
    ensures
        is_unreserved(url_encoded(s)[i]) || url_encoded(s)[i] == '%',
    decreases s.len(),
{
    if s.len() > 0 {
        let before = url_encoded(s.drop_last());
        if i < before.len() {
            law_encoded_is_plain(s.drop_last(), i);
        } else if !is_unreserved(s.last()) {
            lemma_utf8_are_bytes(s.last());
            lemma_escaped_is_plain(text::utf8_of(s.last()), i - before.len());
        }
    }
}

proof fn lemma_utf8_are_bytes(c: char)
    ensures
        forall|k: int|
            0 <= k < text::utf8_of(c).len() ==> 0 <= #[trigger] text::utf8_of(c)[k] < 256,
{
}

proof fn lemma_escaped_is_plain(bytes: Seq<int>, i: int)
    requires
        0 <= i < escaped(bytes).len(),
        forall|k: int| 0 <= k < bytes.len() ==> 0 <= #[trigger] bytes[k] < 256,
    ensures
        is_unreserved(escaped(bytes)[i]) || escaped(bytes)[i] == '%',
    decreases bytes.len(),
{
    if bytes.len() > 0 {
        let before = escaped(bytes.drop_last());
        let b = bytes[bytes.len() - 1];
        assert(0 <= b < 256);
        if i < before.len() {
            lemma_escaped_is_plain(bytes.drop_last(), i);
        }
    }
}

/// A member two levels down, as a text.
pub open spec fn text_at2(j: JsonView, a: Seq<char>, b: Seq<char>) -> Option<
    Seq<char>,
> {
    crate::json::text_of(crate::json::member2(j, a, b))
}

/// A label of a container.
pub open spec fn label_of(j: JsonView, key: Seq<char>) -> Option<Seq<char>> {
    match crate::json::member2(j, "Config"@, "Labels"@) {
        Some(labels) => crate::json::text_of(crate::json::member(labels, key)),
        None => None,
    }
}

pub open spec fn image_of(j: JsonView) -> Seq<char> {
    or_empty(text_at2(j, "Config"@, "Image"@))
}

pub open spec fn or_empty(s: Option<Seq<char>>) -> Seq<char> {
    match s {
        Some(t) => t,
        None => Seq::empty(),
    }
}

fn find_member2<'a>(j: &'a Json, a: &str, b: &str) -> (r: Option<&'a Json>)
    ensures
        crate::json::opt_json(r) == crate::json::member2(j@, a@, b@),
{
    match j.get(a) {
        Some(x) => x.get(b),
        None => None,
    }
}

fn find_label(j: &Json, key: &str) -> (r: Option<String>)
    ensures
        crate::registry::opt_view(r) == label_of(j@, key@),
{
    match find_member2(j, "Config", "Labels") {
        Some(labels) => labels.text_member(key),
        None => None,
    }
}

fn text_or_empty(s: Option<String>) -> (r: String)
    ensures
        r@ == or_empty(crate::registry::opt_view(s)),
{
    match s {
        Some(t) => t,
        None => String::new(),
    }
}

fn find_image(j: &Json) -> (r: String)
    ensures
        r@ == image_of(j@),
{
    match find_member2(j, "Config", "Image") {
        Some(x) => match x.as_str() {
            Some(s) => String::from_str(s),
            None => String::new(),
        },
        None => String::new(),
    }
}

pub open spec fn managed_fault(j: JsonView, container: Seq<char>) -> Option<Seq<char>> {
    if label_of(j, "s2s.lab.managed"@) == Some("true"@) && is_stage_text(
        label_of(j, "stage"@),
    ) && or_empty(label_of(j, "backend-id"@)).len() > 0 {
        None
    } else {
        Some(
            "refusing lifecycle action for '"@ + container
                + "': required s2s.lab.managed/stage/backend-id labels are missing"@,
        )
    }
}

pub open spec fn is_stage_text(s: Option<Seq<char>>) -> bool {
    s == Some("asr"@) || s == Some("tts"@) || s == Some("llm"@)
}

fn names_stage(s: &str) -> (r: bool)
    ensures
        r == is_stage_text(Some(s@)),
{
    text::same(s, "asr") || text::same(s, "tts") || text::same(s, "llm")
}

/// Checks that a container is one that this controller manages.
pub fn check_managed(value: &Json, container: &str) -> (r: Result<(), String>)
    ensures
        crate::registry::reports(r, managed_fault(value@, container@)),
{
    let managed: bool = match find_label(value, "s2s.lab.managed") {
        Some(s) => text::same(s.as_str(), "true"),
        None => false,
    };
    let staged: bool = match find_label(value, "stage") {
        Some(s) => names_stage(s.as_str()),
        None => false,
    };
    let id: String = text_or_empty(find_label(value, "backend-id"));
    if managed && staged && !id.as_str().is_empty() {
        Ok(())
    } else {
        Err(
            wrap(
                "refusing lifecycle action for '",
                container,
                "': required s2s.lab.managed/stage/backend-id labels are missing",
            ),
        )
    }
}

/// Why a container is not the one of a catalog variant.
pub open spec fn target_fault(
    j: JsonView,
    container: Seq<char>,
    stage: BackendStage,
    backend_id: Seq<char>,
    image: Seq<char>,
) -> Option<Seq<char>> {
    let want = crate::host_runtime::stage_text(stage);
    if label_of(j, "stage"@) == Some(want) && label_of(j, "backend-id"@) == Some(backend_id)
        && image_of(j) == image {
        None
    } else {
        Some(
            "refusing '"@ + container + "': expected stage="@ + want + " backend-id="@ + backend_id
                + " image="@ + image + ", got stage="@ + or_empty(label_of(j, "stage"@))
                + " backend-id="@ + or_empty(label_of(j, "backend-id"@)) + " image="@ + image_of(j),
        )
    }
}

/// Checks that a container has exactly the stage, the backend and the image that
/// the catalog says.
pub fn validate_managed_target(
    value: &Json,
    container: &str,
    stage: BackendStage,
    backend_id: &str,
    image: &str,
) -> (r: Result<(), String>)
    ensures
        crate::registry::reports(r, target_fault(value@, container@, stage, backend_id@, image@)),
{
    let want: &str = stage_label(stage);
    let got_stage: Option<String> = find_label(value, "stage");
    let got_id: Option<String> = find_label(value, "backend-id");
    let got_image: String = find_image(value);
    let stage_ok: bool = match &got_stage {
        Some(s) => text::same(s.as_str(), want),
        None => false,
    };
    let id_ok: bool = match &got_id {
        Some(s) => text::same(s.as_str(), backend_id),
        None => false,
    };
    if stage_ok && id_ok && text::same(got_image.as_str(), image) {
        return Ok(());
    }
    let mut m: String = wrap2("refusing '", container, "': expected stage=", want, " backend-id=");
    m.append(backend_id);
    m.append(" image=");
    m.append(image);
    m.append(", got stage=");
    let s: String = text_or_empty(got_stage);
    m.append(s.as_str());
    m.append(" backend-id=");
    let s: String = text_or_empty(got_id);
    m.append(s.as_str());
    m.append(" image=");
    m.append(got_image.as_str());
    Err(m)
}

/// Whether an inspected container runs.
pub fn is_running(value: &Json) -> (r: bool)
    ensures
        r == (crate::json::member2(value@, "State"@, "Running"@) == Some(
            JsonView::Bool(true),
        )),
{
    match find_member2(value, "State", "Running") {
        Some(x) => match x.as_bool() {
            Some(b) => b,
            None => false,
        },
        None => false,
    }
}

/// The name of a listed container if it is one of a stage.
pub open spec fn listed_name(j: JsonView) -> Option<Seq<char>> {
    let stage = text_at2(j, "Labels"@, "stage"@);
    let id = or_empty(text_at2(j, "Labels"@, "backend-id"@));
    let name = match crate::json::member(j, "Names"@) {
        Some(names) => or_empty(crate::json::text_of(crate::json::element(names, 0))),
        None => Seq::empty(),
    };
    let bare = text::trim_start_of(name, '/');
    if is_stage_text(stage) && id.len() > 0 && bare.len() > 0 {
        Some(bare)
    } else {
        None
    }
}

fn find_listed_name(j: &Json) -> (r: Option<String>)
    ensures
        crate::registry::opt_view(r) == listed_name(j@),
{
    let staged: bool = match find_member2(j, "Labels", "stage") {
        Some(x) => match x.as_str() {
            Some(s) => names_stage(s),
            None => false,
        },
        None => false,
    };
    let owned: bool = match find_member2(j, "Labels", "backend-id") {
        Some(x) => match x.as_str() {
            Some(s) => !s.is_empty(),
            None => false,
        },
        None => false,
    };
    let name: String = match j.get("Names") {
        Some(names) => match names.at(0) {
            Some(x) => match x.as_str() {
                Some(s) => text::without_leading(s, '/'),
                None => String::new(),
            },
            None => String::new(),
        },
        None => String::new(),
    };
    if staged && owned && !name.as_str().is_empty() {
        Some(name)
    } else {
        None
    }
}

pub open spec fn listed_names(v: Seq<Json>) -> Seq<Seq<char>>
    decreases v.len(),
{
    if v.len() == 0 {
        Seq::empty()
    } else {
        match listed_name(v.last()@) {
            Some(n) => listed_names(v.drop_last()).push(n),
            None => listed_names(v.drop_last()),
        }
    }
}

/// The names of the listed containers that belong to a stage.
pub fn managed_names(values: &Vec<Json>) -> (r: Vec<String>)
    ensures
        text::views(r@) == listed_names(values@),
{
    let mut out: Vec<String> = Vec::new();
    let mut i: usize = 0;
    assert(values@.take(0) =~= Seq::empty());
    assert(text::views(out@) =~= Seq::empty());
    while i < values.len()
        invariant
            i <= values.len(),
            text::views(out@) == listed_names(values@.take(i as int)),
        decreases values.len() - i,
    {
        assert(values@.take(i + 1).drop_last() =~= values@.take(i as int));
        match find_listed_name(&values[i]) {
            Some(n) => {
                let ghost before = text::views(out@);
                out.push(n);
                assert(text::views(out@) =~= before.push(n@));
            },
            None => {},
        }
        i += 1;
    }
    assert(values@.take(i as int) =~= values@);
    out
}

/// The action that stops a container, with the seconds it may take.
pub fn stop_action(timeout_secs: u64) -> (r: String)
    ensures
        r@ == "stop?t="@ + text::decimal(
            if timeout_secs == 0 {
                1
            } else {
                timeout_secs as nat
            },
        ),
{
    let n: String = text::decimal_of(
        if timeout_secs == 0 {
            1
        } else {
            timeout_secs
        },
    );
    text::joined_pair("stop?t=", n.as_str())
}

pub open spec fn is_success(status: u16) -> bool {
    200 <= status < 300
}

pub open spec fn no_such_container(container: Seq<char>) -> Seq<char> {
    "managed container '"@ + container + "' does not exist; create the lab profiles first"@
}

/// What an answer to a lifecycle action means. An action that changes nothing is
/// answered with 304.
pub fn check_action(container: &str, action: &str, status: u16, status_text: &str, body: &str) -> (r:
    Result<(), String>)
    ensures
        crate::registry::reports(
            r,
            if is_success(status) || status == 304 {
                None
            } else if status == 404 {
                Some(no_such_container(container@))
            } else {
                Some("Docker proxy "@ + action@ + " "@ + status_text@ + ": "@ + body@)
            },
        ),
{
    if (status >= 200 && status < 300) || status == 304 {
        return Ok(());
    }
    if status == 404 {
        return Err(
            wrap("managed container '", container, "' does not exist; create the lab profiles first"),
        );
    }
    let mut m: String = wrap2("Docker proxy ", action, " ", status_text, ": ");
    m.append(body);
    Err(m)
}

/// What an answer to an inspection means.
pub fn check_inspection(container: &str, status: u16, status_text: &str) -> (r: Result<(), String>)
    ensures
        crate::registry::reports(
            r,
            if is_success(status) {
                None
            } else if status == 404 {
                Some(no_such_container(container@))
            } else {
                Some("Docker inspect for '"@ + container@ + "' failed: "@ + status_text@)
            },
        ),
{
    if status >= 200 && status < 300 {
        return Ok(());
    }
    if status == 404 {
        return Err(
            wrap("managed container '", container, "' does not exist; create the lab profiles first"),
        );
    }
    let mut m: String = wrap("Docker inspect for '", container, "' failed: ");
    m.append(status_text);
    Err(m)
}

/// Whether a failed inspection means that a container does not run: it is not
/// there at all.
pub fn means_absent(error: &str) -> (r: bool)
    ensures
        r == text::has(error@, "does not exist"@),
{
    text::contains(error, "does not exist")
}

/// The address of a module of the controller.
pub fn module_url(base_url: &str, variant_id: &str, install: bool) -> (r: String)
    ensures
        r@ == base_url@ + "/s2s/modules/"@ + url_encoded(variant_id@) + (if install {
            "/install"@
        } else {
            ""@
        }),
{
    let id: String = urlencoding_encode(variant_id);
    let mut u: String = wrap(base_url, "/s2s/modules/", id.as_str());
    u.append(
        if install {
            "/install"
        } else {
            ""
        },
    );
    u
}

/// Which containers are asked for: those of this lab that run.
pub open spec fn running_filter() -> JsonView {
    JsonView::Object(
        seq![
            ("label"@, JsonView::List(seq![JsonView::Text("s2s.lab.managed=true"@)])),
            ("status"@, JsonView::List(seq![JsonView::Text("running"@)])),
        ],
    )
}

fn one_text(s: &str) -> (r: Json)
    ensures
        r@ == JsonView::List(seq![JsonView::Text(s@)]),
{
    let mut v: Vec<Json> = Vec::new();
    v.push(Json::text(s));
    assert(crate::json::elements_view(v@) =~= seq![JsonView::Text(s@)]);
    list(v)
}

/// The address that lists the containers of this lab that run.
pub fn running_url(base_url: &str) -> (r: String)
    ensures
        r@ == base_url@ + "/containers/json?filters="@ + url_encoded(
            crate::json::written_json(crate::json::plain(running_filter())),
        ),
{
    let mut m: Vec<(String, Json)> = Vec::new();
    assert(crate::json::members_view(m@) =~= Seq::empty());
    push_member(&mut m, "label", one_text("s2s.lab.managed=true"));
    push_member(&mut m, "status", one_text("running"));
    let filter: Json = object(m);
    assert(filter@->Object_0 =~= running_filter()->Object_0);
    let shown: String = json_text(&filter);
    let encoded: String = urlencoding_encode(shown.as_str());
    wrap(base_url, "/containers/json?filters=", encoded.as_str())
}

/// A container that matches a variant is accepted, and only such a one.
pub proof fn law_target_is_exact(
    j: JsonView,
    container: Seq<char>,
    stage: BackendStage,
    backend_id: Seq<char>,
    image: Seq<char>,
)
    ensures
        target_fault(j, container, stage, backend_id, image) is None <==> (label_of(j, "stage"@)
            == Some(crate::host_runtime::stage_text(stage)) && label_of(j, "backend-id"@) == Some(
            backend_id,
        ) && image_of(j) == image),
{
}

/// Encoding goes character by character: the plain ones stay, and any other of ASCII
/// becomes a percent sign with its code in two digits, the high one first, in
/// capitals.
pub proof fn law_url_encoding(a: Seq<char>, b: Seq<char>, c: char)
    ensures
        url_encoded(a + b) == url_encoded(a) + url_encoded(b),
        ('a' <= c <= 'z') || ('A' <= c <= 'Z') || ('0' <= c <= '9') || c == '-' || c == '_' || c
            == '.' || c == '~' ==> url_encoded(seq![c]) == seq![c],
        c == ' ' ==> url_encoded(seq![c]) == seq!['%', '2', '0'],
        c == '/' ==> url_encoded(seq![c]) == seq!['%', '2', 'F'],
        c == '{' ==> url_encoded(seq![c]) == seq!['%', '7', 'B'],
        c == '"' ==> url_encoded(seq![c]) == seq!['%', '2', '2'],
        c == '%' ==> url_encoded(seq![c]) == seq!['%', '2', '5'],
    decreases b.len(),
{
    assert(seq![c].drop_last() =~= Seq::empty());
    assert(url_encoded(Seq::empty()) =~= Seq::<char>::empty());
    if is_unreserved(c) {
        assert(url_encoded(seq![c]) =~= seq![c]);
    } else if (c as int) < 128 {
        lemma_escaped_one(c as int);
        assert(text::utf8_of(c) =~= seq![c as int]);
        assert(url_encoded(seq![c]) =~= escaped(seq![c as int]));
    }
    if b.len() == 0 {
        assert(a + b =~= a);
        assert(url_encoded(a) + url_encoded(b) =~= url_encoded(a));
    } else {
        law_url_encoding(a, b.drop_last(), c);
        assert((a + b).drop_last() =~= a + b.drop_last());
        assert(url_encoded(a + b) =~= url_encoded(a) + url_encoded(b));
    }
}

proof fn lemma_escaped_one(n: int)
    ensures
        escaped(seq![n]) == seq!['%', upper_hex_digit(n / 16), upper_hex_digit(n % 16)],
{
    assert(seq![n].drop_last() =~= Seq::empty());
    assert(escaped(Seq::empty()) =~= Seq::<char>::empty());
    assert(escaped(seq![n]) =~= seq!['%', upper_hex_digit(n / 16), upper_hex_digit(n % 16)]);
}

/// A container is touched only if its labels say that it is managed, for one of the
/// stages and for a backend.
pub proof fn law_only_managed_containers(j: JsonView, container: Seq<char>)
    requires
        crate::json::member2(j, "Config"@, "Labels"@) is Some,
    ensures
        ({
            let labels = crate::json::member2(j, "Config"@, "Labels"@).unwrap();
            let label = |key: Seq<char>| crate::json::text_of(crate::json::member(labels, key));
            &&& managed_fault(j, container) is None ==> label("s2s.lab.managed"@) == Some("true"@)
                && label("backend-id"@) is Some && (label("stage"@) == Some("asr"@) || label(
                "stage"@,
            ) == Some("tts"@) || label("stage"@) == Some("llm"@))
            &&& label("s2s.lab.managed"@) == Some("true"@) && label("stage"@) == Some("tts"@)
                && label("backend-id"@) is Some && label("backend-id"@).unwrap().len() > 0
                ==> managed_fault(j, container) is None
        }),
{
}

/// A container without labels is never touched.
pub proof fn law_unlabelled_container_is_refused(j: JsonView, container: Seq<char>)
    requires
        crate::json::member2(j, "Config"@, "Labels"@) is None,
    ensures
        managed_fault(j, container) is Some,
{
}

/// Of a list of containers exactly those that are labelled with a stage and a backend
/// and have a name are told, by their first name without a slash.
pub proof fn law_listed_containers(v: Seq<Json>, name: Seq<char>)
    ensures
        listed_names(v).contains(name) <==> exists|i: int|
            0 <= i < v.len() && listed_name((#[trigger] v[i])@) == Some(name),
    decreases v.len(),
{
    if v.len() > 0 {
        let t = v.drop_last();
        law_listed_containers(t, name);
        let all = listed_names(v);
        if all.contains(name) {
            let k = choose|k: int| 0 <= k < all.len() && all[k] == name;
            if k < listed_names(t).len() {
                assert(listed_names(t)[k] == name);
                let i = choose|i: int|
                    0 <= i < t.len() && listed_name((#[trigger] t[i])@) == Some(name);
                assert(v[i] == t[i]);
            } else {
                assert(v[v.len() - 1] == v.last());
            }
        }
        if exists|i: int| 0 <= i < v.len() && listed_name((#[trigger] v[i])@) == Some(name) {
            let i = choose|i: int|
                0 <= i < v.len() && listed_name((#[trigger] v[i])@) == Some(name);
            if i < t.len() {
                assert(t[i] == v[i]);
                let k = choose|k: int| 0 <= k < listed_names(t).len() && listed_names(t)[k] == name;
                assert(all[k] == name);
            } else {
                assert(all[all.len() - 1] == name);
            }
        }
    }
}

/// Only containers of this lab that run are asked for.
pub proof fn law_containers_that_are_asked_for()
    ensures
        crate::json::member(running_filter(), "label"@) == Some(
            JsonView::List(seq![JsonView::Text("s2s.lab.managed=true"@)]),
        ),
        crate::json::member(running_filter(), "status"@) == Some(
            JsonView::List(seq![JsonView::Text("running"@)]),
        ),
{
    reveal_strlit("label");
    reveal_strlit("status");
    assert("label"@[0] == 'l' && "status"@[0] == 's');
    let m = running_filter()->Object_0;
    assert(m[0].0 == "label"@ && m[1].0 == "status"@);
    crate::json::law_first_member(m, "label"@, 0);
    crate::json::law_first_member(m, "status"@, 1);
}

} // verus!
