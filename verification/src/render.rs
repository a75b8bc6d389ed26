use vstd::prelude::*;
use vstd::string::*;

use crate::api::TimeEntry;
use crate::dates::dec_chars;
use crate::error::Error;

verus! {

#[verifier::external_type_specification]
#[verifier::external_body]
pub struct ExJsonValue(serde_json::Value);

/// The canonical compact JSON text of a built value, as serde_json
/// serializes it. The serializer is named, not written out; the clauses
/// of the builders below fix it structurally.
pub uninterp spec fn jtext(v: serde_json::Value) -> Seq<char>;

/// The canonical JSON text of a string value: the quoted, escaped form
/// serde_json gives the given characters. A function of the characters
/// alone.
pub uninterp spec fn jstr_text(s: Seq<char>) -> Seq<char>;

/// The canonical JSON text of the object built from these key/text
/// pairs (serde_json holds keys in a sorted map and serializes
/// accordingly). A function of the pairs alone.
pub uninterp spec fn jobj_text(pairs: Seq<(Seq<char>, Seq<char>)>) -> Seq<char>;

/// What the template engine produces — or the message it fails with —
/// for a template and the canonical JSON text of its data. Rendering is
/// a pure function of the two: no I/O, no state between calls.
pub uninterp spec fn hb_of(template: Seq<char>, data: Seq<char>) -> Result<Seq<char>, Seq<char>>;

/// The key/text view of built object pairs.
pub open spec fn pairs_view(pairs: Seq<(String, serde_json::Value)>) -> Seq<
    (Seq<char>, Seq<char>),
> {
    pairs.map_values(|p: (String, serde_json::Value)| (p.0@, jtext(p.1)))
}

/// Texts joined with commas, as the items of a JSON array stand.
pub open spec fn comma_joined(texts: Seq<Seq<char>>) -> Seq<char>
    decreases texts.len(),
{
    if texts.len() == 0 {
        Seq::empty()
    } else if texts.len() == 1 {
        texts[0]
    } else {
        comma_joined(texts.drop_last()) + ","@ + texts.last()
    }
}

/// Relies on serde_json's `Value::String`: wraps text as a JSON string,
/// serialized as the quoted, escaped form of exactly these characters.
#[verifier::external_body]
fn json_string(s: &str) -> (r: serde_json::Value)
    ensures
        jtext(r) == jstr_text(s@),
{
    serde_json::Value::String(s.to_owned())
}

/// Relies on serde_json's `Value::from` for `u64`: a JSON number,
/// serialized as its plain decimal digits.
#[verifier::external_body]
fn json_u64(n: u64) -> (r: serde_json::Value)
    ensures
        jtext(r) == dec_chars(n as nat),
{
    serde_json::Value::from(n)
}

/// Relies on serde_json's `Value::Null`, serialized as `null`.
#[verifier::external_body]
fn json_null() -> (r: serde_json::Value)
    ensures
        jtext(r) == "null"@,
{
    serde_json::Value::Null
}

/// Relies on serde_json's `Value::Array`: a JSON array, serialized as
/// its items' texts joined with commas between brackets.
#[verifier::external_body]
fn json_array(items: Vec<serde_json::Value>) -> (r: serde_json::Value)
    ensures
        jtext(r) == "["@ + comma_joined(
            items@.map_values(|v: serde_json::Value| jtext(v)),
        ) + "]"@,
{
    serde_json::Value::Array(items)
}

/// Relies on serde_json's `Value::Object` and `Map`'s `FromIterator`:
/// collects the pairs into the key-sorted object map and wraps it. The
/// object's text is a function of the pairs alone.
#[verifier::external_body]
fn json_object_from_pairs(pairs: Vec<(String, serde_json::Value)>) -> (r: serde_json::Value)
    ensures
        jtext(r) == jobj_text(pairs_view(pairs@)),
{
    serde_json::Value::Object(pairs.into_iter().collect())
}

/// Relies on handlebars' `Registry::new` and `render_template`: compiles
/// the template once and renders it against the given data, with the
/// engine's built-in helpers available; what comes back — output or the
/// engine's error message — is a function of the template and the data.
#[verifier::external_body]
fn hb_render(template: &str, data: &serde_json::Value) -> (r: Result<String, String>)
    ensures
        match r {
            Ok(s) => hb_of(template@, jtext(*data)) matches Ok(o) && s@ == o,
            Err(m) => hb_of(template@, jtext(*data)) matches Err(em) && m@ == em,
        },
{
    let registry = handlebars::Handlebars::new();
    match registry.render_template(template, data) {
        Ok(s) => Ok(s),
        Err(e) => Err(format!("{}", e)),
    }
}

/// The canonical text of an optional text field: its JSON string, or
/// `null` where absent.
pub open spec fn opt_jtext(o: Option<String>) -> Seq<char> {
    match o {
        Some(s) => jstr_text(s@),
        None => "null"@,
    }
}

fn opt_text_json(o: &Option<String>) -> (r: serde_json::Value)
    ensures
        jtext(r) == opt_jtext(*o),
{
    match o {
        Some(s) => json_string(s.as_str()),
        None => json_null(),
    }
}

/// The JSON object one entry serializes to, fields named as the API
/// names them.
pub open spec fn entry_jtext(e: TimeEntry) -> Seq<char> {
    jobj_text(
        seq![
            ("id"@, dec_chars(e.id as nat)),
            ("spent_date"@, jstr_text(e.spent_date@)),
            ("hours"@, jstr_text(e.hours@)),
            ("rounded_hours"@, jstr_text(e.rounded_hours@)),
            ("created_at"@, jstr_text(e.created_at@)),
            ("user"@, jobj_text(seq![("id"@, dec_chars(e.user.id as nat))])),
            (
                "project"@,
                jobj_text(
                    seq![
                        ("id"@, dec_chars(e.project.id as nat)),
                        ("name"@, jstr_text(e.project.name@)),
                    ],
                ),
            ),
            (
                "task"@,
                match e.task {
                    Some(t) => jobj_text(
                        seq![("id"@, dec_chars(t.id as nat)), ("name"@, jstr_text(t.name@))],
                    ),
                    None => "null"@,
                },
            ),
            ("notes"@, jstr_text(e.notes@)),
            ("timer_started_at"@, opt_jtext(e.timer_started_at)),
            ("started_time"@, opt_jtext(e.started_time)),
            ("ended_time"@, opt_jtext(e.ended_time)),
        ],
    )
}

/// The JSON array the flat entry list serializes to: the entries'
/// objects, in page order.
pub open spec fn entries_jtext(entries: Seq<TimeEntry>) -> Seq<char> {
    "["@ + comma_joined(entries.map_values(|e: TimeEntry| entry_jtext(e))) + "]"@
}

/// One entry as the JSON object the template sees.
fn entry_to_json(e: &TimeEntry) -> (r: serde_json::Value)
    ensures
        jtext(r) == entry_jtext(*e),
{
    let mut user_pairs: Vec<(String, serde_json::Value)> = Vec::new();
    user_pairs.push((String::from_str("id"), json_u64(e.user.id as u64)));
    let user = json_object_from_pairs(user_pairs);
    proof {
        assert(pairs_view(user_pairs@) =~= seq![("id"@, dec_chars(e.user.id as nat))]);
    }
    let mut project_pairs: Vec<(String, serde_json::Value)> = Vec::new();
    project_pairs.push((String::from_str("id"), json_u64(e.project.id as u64)));
    project_pairs.push((String::from_str("name"), json_string(e.project.name.as_str())));
    let project = json_object_from_pairs(project_pairs);
    proof {
        assert(pairs_view(project_pairs@) =~= seq![
            ("id"@, dec_chars(e.project.id as nat)),
            ("name"@, jstr_text(e.project.name@)),
        ]);
    }
    let task = match &e.task {
        Some(t) => {
            let mut task_pairs: Vec<(String, serde_json::Value)> = Vec::new();
            task_pairs.push((String::from_str("id"), json_u64(t.id as u64)));
            task_pairs.push((String::from_str("name"), json_string(t.name.as_str())));
            let task = json_object_from_pairs(task_pairs);
            proof {
                assert(pairs_view(task_pairs@) =~= seq![
                    ("id"@, dec_chars(t.id as nat)),
                    ("name"@, jstr_text(t.name@)),
                ]);
            }
            task
        },
        None => json_null(),
    };
    let mut pairs: Vec<(String, serde_json::Value)> = Vec::new();
    pairs.push((String::from_str("id"), json_u64(e.id as u64)));
    pairs.push((String::from_str("spent_date"), json_string(e.spent_date.as_str())));
    pairs.push((String::from_str("hours"), json_string(e.hours.as_str())));
    pairs.push((String::from_str("rounded_hours"), json_string(e.rounded_hours.as_str())));
    pairs.push((String::from_str("created_at"), json_string(e.created_at.as_str())));
    pairs.push((String::from_str("user"), user));
    pairs.push((String::from_str("project"), project));
    pairs.push((String::from_str("task"), task));
    pairs.push((String::from_str("notes"), json_string(e.notes.as_str())));
    pairs.push((String::from_str("timer_started_at"), opt_text_json(&e.timer_started_at)));
    pairs.push((String::from_str("started_time"), opt_text_json(&e.started_time)));
    pairs.push((String::from_str("ended_time"), opt_text_json(&e.ended_time)));
    let r = json_object_from_pairs(pairs);
    proof {
        assert(pairs_view(pairs@) =~= seq![
            ("id"@, dec_chars(e.id as nat)),
            ("spent_date"@, jstr_text(e.spent_date@)),
            ("hours"@, jstr_text(e.hours@)),
            ("rounded_hours"@, jstr_text(e.rounded_hours@)),
            ("created_at"@, jstr_text(e.created_at@)),
            ("user"@, jobj_text(seq![("id"@, dec_chars(e.user.id as nat))])),
            (
                "project"@,
                jobj_text(
                    seq![
                        ("id"@, dec_chars(e.project.id as nat)),
                        ("name"@, jstr_text(e.project.name@)),
                    ],
                ),
            ),
            (
                "task"@,
                match e.task {
                    Some(t) => jobj_text(
                        seq![("id"@, dec_chars(t.id as nat)), ("name"@, jstr_text(t.name@))],
                    ),
                    None => "null"@,
                },
            ),
            ("notes"@, jstr_text(e.notes@)),
            ("timer_started_at"@, opt_jtext(e.timer_started_at)),
            ("started_time"@, opt_jtext(e.started_time)),
            ("ended_time"@, opt_jtext(e.ended_time)),
        ]);
    }
    r
}

/// The flat entry list as the JSON array handed to the template engine
/// as the root of its data: the entries' objects in page order.
pub fn entries_to_json(entries: &Vec<TimeEntry>) -> (r: serde_json::Value)
    ensures
        jtext(r) == entries_jtext(entries@),
{
    let mut items: Vec<serde_json::Value> = Vec::new();
    let mut i: usize = 0;
    while i < entries.len()
        invariant
            i <= entries@.len(),
            items@.len() == i,
            forall|j: int|
                0 <= j < i ==> jtext(#[trigger] items@[j]) == entry_jtext(entries@[j]),
        decreases entries@.len() - i,
    {
        items.push(entry_to_json(&entries[i]));
        i = i + 1;
    }
    let r = json_array(items);
    proof {
        assert(items@.map_values(|v: serde_json::Value| jtext(v)) =~= entries@.map_values(
            |e: TimeEntry| entry_jtext(e),
        ));
    }
    r
}

/// Compiles and renders the template once against the flat entry list —
/// the engine's root data is the entries' array, not the grouped
/// structure. Succeeds exactly when the engine renders the template
/// against that data, with the engine's output; any engine failure
/// surfaces as `TemplateRenderError` carrying the engine's message.
/// Nothing is retried and nothing is kept between calls.
pub fn render_entries(entries: &Vec<TimeEntry>, template: &str) -> (r: Result<String, Error>)
    ensures
        match r {
            Ok(s) => hb_of(template@, entries_jtext(entries@)) matches Ok(o) && s@ == o,
            Err(e) => e matches Error::TemplateRenderError { message } && (hb_of(
                template@,
                entries_jtext(entries@),
            ) matches Err(m) && message@ == m),
        },
{
    let data = entries_to_json(entries);
    match hb_render(template, &data) {
        Ok(s) => Ok(s),
        Err(message) => Err(Error::TemplateRenderError { message }),
    }
}

} // verus!
