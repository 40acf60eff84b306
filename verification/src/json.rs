//! JSON as DuckDB's `-json` mode prints it, read through `serde_json`.
//!
//! A `serde_json::Value` is opaque here: what it holds is named by
//! [`json_model`], as a plain [`JsonModel`], and the texts that
//! `serde_json` writes for a value are named by [`json_compact_text`] and
//! [`json_pretty_text`] of that model.  The verified functions below decide,
//! from those names, what every cell of a result grid shows.
use vstd::prelude::*;
use crate::text::{chars_of, str_eq, to_owned_string, trim, trim_str};

verus! {

#[verifier::external_type_specification]
#[verifier::external_body]
pub struct ExJsonValue(serde_json::Value);

/// A JSON value as plain data: the scalars as the texts `serde_json` keeps
/// for them, arrays and objects by their members.  Object members come in
/// the order in which `serde_json`'s map walks them.
pub enum JsonModel {
    Null,
    Bool(bool),
    Number(Seq<char>),
    Str(Seq<char>),
    Array(Seq<JsonModel>),
    Object(Seq<(Seq<char>, JsonModel)>),
}

/// What a `serde_json::Value` holds.
pub uninterp spec fn json_model(v: serde_json::Value) -> JsonModel;

/// What `serde_json::from_str::<Value>` gives for a text: the value, or the
/// text of the error.
pub uninterp spec fn json_parse_result(text: Seq<char>) -> Result<JsonModel, Seq<char>>;

/// The compact text that `Value`'s `Display` writes for a value.
pub uninterp spec fn json_compact_text(m: JsonModel) -> Seq<char>;

/// What `serde_json::to_string_pretty` gives for a value (`None` for its
/// error).
pub uninterp spec fn json_pretty_text(m: JsonModel) -> Option<Seq<char>>;

/// The members of an object as plain data.
pub open spec fn entry_models(es: Seq<(String, serde_json::Value)>) -> Seq<(Seq<char>, JsonModel)> {
    es.map_values(|e: (String, serde_json::Value)| (e.0@, json_model(e.1)))
}

/// The members of an array as plain data.
pub open spec fn value_models(items: Seq<serde_json::Value>) -> Seq<JsonModel> {
    items.map_values(|x: serde_json::Value| json_model(x))
}

/// One level of a JSON value, as executable data: the members of arrays
/// and objects stay `serde_json` values.
pub enum JsonNode {
    Null,
    Bool(bool),
    Number(String),
    Str(String),
    Array(Vec<serde_json::Value>),
    Object(Vec<(String, serde_json::Value)>),
}

impl JsonNode {
    pub open spec fn model(self) -> JsonModel {
        match self {
            JsonNode::Null => JsonModel::Null,
            JsonNode::Bool(b) => JsonModel::Bool(b),
            JsonNode::Number(t) => JsonModel::Number(t@),
            JsonNode::Str(s) => JsonModel::Str(s@),
            JsonNode::Array(items) => JsonModel::Array(value_models(items@)),
            JsonNode::Object(entries) => JsonModel::Object(entry_models(entries@)),
        }
    }
}

/// Calls `serde_json::from_str::<serde_json::Value>`; an error becomes its
/// `Display` text.  Claims that the outcome is [`json_parse_result`] of the
/// text, a function of the text alone.
#[verifier::external_body]
pub(crate) fn json_parse(text: &str) -> (r: Result<serde_json::Value, String>)
    ensures
        match r {
            Ok(v) => json_parse_result(text@) == Ok::<JsonModel, Seq<char>>(json_model(v)),
            Err(e) => json_parse_result(text@) == Err::<JsonModel, Seq<char>>(e@),
        },
{
    serde_json::from_str::<serde_json::Value>(text).map_err(|e| e.to_string())
}

/// Tells the variants of `serde_json::Value` apart (one arm each); a number
/// becomes the text of `serde_json::Number`'s `Display`, an object its
/// entries in the map's order.  Claims that the node, with its members read
/// through [`json_model`], is the value's model.
#[verifier::external_body]
pub(crate) fn json_node(v: &serde_json::Value) -> (r: JsonNode)
    ensures
        r.model() == json_model(*v),
{
    match v.clone() {
        serde_json::Value::Null => JsonNode::Null,
        serde_json::Value::Bool(b) => JsonNode::Bool(b),
        serde_json::Value::Number(n) => JsonNode::Number(n.to_string()),
        serde_json::Value::String(s) => JsonNode::Str(s),
        serde_json::Value::Array(a) => JsonNode::Array(a),
        serde_json::Value::Object(m) => JsonNode::Object(m.into_iter().collect()),
    }
}

/// Calls `Value`'s `Display` (`to_string`), which writes compact JSON.
/// Claims the text is [`json_compact_text`] of the value's model.
#[verifier::external_body]
pub(crate) fn json_compact(v: &serde_json::Value) -> (r: String)
    ensures
        r@ == json_compact_text(json_model(*v)),
{
    v.to_string()
}

/// Calls `serde_json::to_string_pretty`.  Claims the outcome (`None` for an
/// error) is [`json_pretty_text`] of the value's model.
#[verifier::external_body]
pub(crate) fn json_pretty(v: &serde_json::Value) -> (r: Option<String>)
    ensures
        match r {
            Some(s) => json_pretty_text(json_model(*v)) == Some(s@),
            None => json_pretty_text(json_model(*v)) is None,
        },
{
    serde_json::to_string_pretty(v).ok()
}

// ---------------------------------------------------------------------------
// Cells
// ---------------------------------------------------------------------------

/// The text a result cell starts from: empty for `null`, the characters of a
/// string, `true`/`false`, the number's text, and compact JSON for arrays and
/// objects.
pub open spec fn cell_text(m: JsonModel) -> Seq<char> {
    match m {
        JsonModel::Null => Seq::empty(),
        JsonModel::Str(s) => s,
        JsonModel::Bool(b) => if b {
            "true"@
        } else {
            "false"@
        },
        JsonModel::Number(t) => t,
        _ => json_compact_text(m),
    }
}

/// A text that, trimmed, is wrapped in `{ }` or `[ ]`.
pub open spec fn looks_like_container(t: Seq<char>) -> bool {
    ||| (t.len() > 0 && t[0] == '{' && t.last() == '}')
    ||| (t.len() > 0 && t[0] == '[' && t.last() == ']')
}

/// A cell as shown: a JSON object or array written in it is re-indented by
/// `serde_json`'s pretty printer; anything else stays as it is.
pub open spec fn pretty_cell_text(s: Seq<char>) -> Seq<char> {
    let t = trim(s);
    if looks_like_container(t) {
        match json_parse_result(t) {
            Ok(m) => match json_pretty_text(m) {
                Some(p) => p,
                None => s,
            },
            Err(_) => s,
        }
    } else {
        s
    }
}

pub fn bool_text(b: bool) -> (r: String)
    ensures
        r@ == (if b {
            "true"@
        } else {
            "false"@
        }),
{
    if b {
        to_owned_string("true")
    } else {
        to_owned_string("false")
    }
}

/// The text a JSON value gives a result cell before pretty-printing.
pub fn json_cell(v: &serde_json::Value) -> (r: String)
    ensures
        r@ == cell_text(json_model(*v)),
{
    match json_node(v) {
        JsonNode::Null => String::new(),
        JsonNode::Str(s) => s,
        JsonNode::Bool(b) => bool_text(b),
        JsonNode::Number(t) => t,
        JsonNode::Array(_) => json_compact(v),
        JsonNode::Object(_) => json_compact(v),
    }
}

/// Pretty-prints a cell that holds a JSON object or array; leaves any other
/// cell unchanged.
pub fn pretty_cell(s: &str) -> (r: String)
    ensures
        r@ == pretty_cell_text(s@),
{
    let t = trim_str(s);
    let tc = chars_of(t.as_str());
    let n = tc.len();
    let container = n > 0 && ((tc[0] == '{' && tc[n - 1] == '}') || (tc[0] == '[' && tc[n - 1]
        == ']'));
    if container {
        match json_parse(t.as_str()) {
            Ok(v) => match json_pretty(&v) {
                Some(p) => p,
                None => to_owned_string(s),
            },
            Err(_) => to_owned_string(s),
        }
    } else {
        to_owned_string(s)
    }
}

// ---------------------------------------------------------------------------
// Objects
// ---------------------------------------------------------------------------

/// The value stored under `key` (the first entry with that key).
pub open spec fn lookup(entries: Seq<(Seq<char>, JsonModel)>, key: Seq<char>) -> Option<JsonModel>
    decreases entries.len(),
{
    if entries.len() == 0 {
        None
    } else if entries[0].0 == key {
        Some(entries[0].1)
    } else {
        lookup(entries.drop_first(), key)
    }
}

/// The entries of an object value; `None` for any other value.
pub open spec fn object_entries(m: JsonModel) -> Option<Seq<(Seq<char>, JsonModel)>> {
    match m {
        JsonModel::Object(es) => Some(es),
        _ => None,
    }
}

/// The items of an array value; `None` for any other value.
pub open spec fn array_items(m: JsonModel) -> Option<Seq<JsonModel>> {
    match m {
        JsonModel::Array(items) => Some(items),
        _ => None,
    }
}

pub open spec fn entry_keys(entries: Seq<(Seq<char>, JsonModel)>) -> Seq<Seq<char>> {
    entries.map_values(|e: (Seq<char>, JsonModel)| e.0)
}

/// Finds the value stored under `key` among an object's entries.
pub fn lookup_entry<'a>(entries: &'a Vec<(String, serde_json::Value)>, key: &str) -> (r: Option<
    &'a serde_json::Value,
>)
    ensures
        match r {
            Some(v) => lookup(entry_models(entries@), key@) == Some(json_model(*v)),
            None => lookup(entry_models(entries@), key@) is None,
        },
{
    let ghost es = entry_models(entries@);
    let mut i: usize = 0;
    assert(es.skip(0) =~= es);
    while i < entries.len()
        invariant
            i <= entries@.len(),
            es == entry_models(entries@),
            lookup(es, key@) == lookup(es.skip(i as int), key@),
        decreases entries.len() - i,
    {
        let ghost rest = es.skip(i as int);
        assert(rest[0] == (entries@[i as int].0@, json_model(entries@[i as int].1)));
        if str_eq(entries[i].0.as_str(), key) {
            return Some(&entries[i].1);
        }
        assert(rest.drop_first() =~= es.skip(i + 1));
        i += 1;
    }
    assert(es.skip(i as int).len() == 0);
    None
}

/// The keys of an object's entries, in order.
pub fn keys_of(entries: &Vec<(String, serde_json::Value)>) -> (r: Vec<String>)
    ensures
        r@.map_values(|s: String| s@) == entry_keys(entry_models(entries@)),
{
    let mut out: Vec<String> = Vec::new();
    let mut i: usize = 0;
    while i < entries.len()
        invariant
            i <= entries@.len(),
            out@.len() == i,
            forall|k: int| 0 <= k < i ==> (#[trigger] out@[k])@ == entries@[k].0@,
        decreases entries.len() - i,
    {
        out.push(entries[i].0.clone());
        i += 1;
    }
    assert(out@.map_values(|s: String| s@) =~= entry_keys(entry_models(entries@)));
    out
}

// ---------------------------------------------------------------------------
// Laws of the cells
// ---------------------------------------------------------------------------

/// A JSON boolean reads as its literal text, `true` or `false`: never empty,
/// so never shown like a null, and left as it is by the pretty-printing of
/// cells.  A null reads as the empty text, a string as its characters and a
/// number as its text.
pub proof fn lemma_scalar_cells(b: bool, s: Seq<char>)
    ensures
        cell_text(JsonModel::Bool(b)) == (if b {
            "true"@
        } else {
            "false"@
        }),
        cell_text(JsonModel::Bool(b)).len() > 0,
        pretty_cell_text(cell_text(JsonModel::Bool(b))) == cell_text(JsonModel::Bool(b)),
        cell_text(JsonModel::Null).len() == 0,
        cell_text(JsonModel::Str(s)) == s,
        cell_text(JsonModel::Number(s)) == s,
{
    reveal_strlit("true");
    reveal_strlit("false");
    let t = if b {
        "true"@
    } else {
        "false"@
    };
    assert(!crate::text::is_ws(t[0]));
    assert(!crate::text::is_ws(t.last()));
    assert(trim(t) == t);
    assert(!looks_like_container(t));
}

} // verus!
