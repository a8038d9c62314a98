//! JSON values as plain data, and the two calls into `serde_json` that turn
//! text into values and values into text. Everything the library reads out
//! of or builds into JSON goes through these; the shapes of the messages
//! themselves are verified logic elsewhere.

use vstd::prelude::*;

verus! {

/// A JSON value. A number is kept as the text `serde_json` prints for it.
#[derive(Debug, PartialEq, Eq)]
pub enum JsonValue {
    Null,
    Bool(bool),
    Number(String),
    Str(String),
    Array(Vec<JsonValue>),
    Object(Vec<(String, JsonValue)>),
}

/// The value a [`JsonValue`] denotes.
pub ghost enum Json {
    Null,
    Bool(bool),
    Number(Seq<char>),
    Str(Seq<char>),
    Array(Seq<Json>),
    Object(Seq<(Seq<char>, Json)>),
}

impl View for JsonValue {
    type V = Json;

    open spec fn view(&self) -> Json {
        self.model()
    }
}

impl JsonValue {
    /// The value this JSON value denotes.
    pub open spec fn model(&self) -> Json
        decreases self,
    {
        match self {
            JsonValue::Null => Json::Null,
            JsonValue::Bool(b) => Json::Bool(*b),
            JsonValue::Number(n) => Json::Number(n@),
            JsonValue::Str(s) => Json::Str(s@),
            JsonValue::Array(items) => Json::Array(
                Seq::new(
                    items@.len(),
                    |i: int|
                        if 0 <= i < items@.len() {
                            items@[i].model()
                        } else {
                            Json::Null
                        },
                ),
            ),
            JsonValue::Object(entries) => Json::Object(
                Seq::new(
                    entries@.len(),
                    |i: int|
                        if 0 <= i < entries@.len() {
                            (entries@[i].0@, entries@[i].1.model())
                        } else {
                            (Seq::empty(), Json::Null)
                        },
                ),
            ),
        }
    }
}

/// What `serde_json` parses `text` into, or `None` when `text` is not a
/// single well-formed JSON document.
pub uninterp spec fn json_text_parse(text: Seq<char>) -> Option<Json>;

/// The compact text `serde_json` prints for `value`.
pub uninterp spec fn json_text_render(value: Json) -> Seq<char>;

/// What `serde_json` parses the bytes `bytes` into, or `None` when they are
/// not one well-formed UTF-8 JSON document.
pub uninterp spec fn json_bytes_parse(bytes: Seq<u8>) -> Option<Json>;

/// The compact UTF-8 bytes `serde_json` prints for `value`.
pub uninterp spec fn json_bytes_render(value: Json) -> Seq<u8>;

/// `serde_json::Value`, handled only inside the two calls below.
#[verifier::external_type_specification]
#[verifier::external_body]
pub struct ExSerdeJsonValue(serde_json::Value);

/// Converts a `serde_json::Value` into a [`JsonValue`], variant for variant;
/// a number becomes the text `serde_json` prints for it.
#[verifier::external_body]
fn value_from_serde(v: serde_json::Value) -> JsonValue {
    match v {
        serde_json::Value::Null => JsonValue::Null,
        serde_json::Value::Bool(b) => JsonValue::Bool(b),
        serde_json::Value::Number(n) => JsonValue::Number(n.to_string()),
        serde_json::Value::String(s) => JsonValue::Str(s),
        serde_json::Value::Array(a) => JsonValue::Array(a.into_iter().map(value_from_serde).collect()),
        serde_json::Value::Object(m) => JsonValue::Object(m.into_iter().map(|(k, v)| (k, value_from_serde(v))).collect()),
    }
}

/// Converts a [`JsonValue`] into a `serde_json::Value`, variant for variant;
/// a number's text is read back with `serde_json`'s own number parser.
#[verifier::external_body]
fn value_to_serde(v: &JsonValue) -> serde_json::Value {
    match v {
        JsonValue::Null => serde_json::Value::Null,
        JsonValue::Bool(b) => serde_json::Value::Bool(*b),
        JsonValue::Number(n) => n.parse::<serde_json::Number>().map(serde_json::Value::Number).unwrap_or(serde_json::Value::Null),
        JsonValue::Str(s) => serde_json::Value::String(s.clone()),
        JsonValue::Array(a) => serde_json::Value::Array(a.iter().map(value_to_serde).collect()),
        JsonValue::Object(m) => serde_json::Value::Object(m.iter().map(|(k, v)| (k.clone(), value_to_serde(v))).collect()),
    }
}

/// `serde_json::from_str::<serde_json::Value>`: parses one JSON document.
/// The contract says only that the result is what `serde_json` makes of the
/// text (named by `json_text_parse`); JSON's grammar is not restated here.
#[verifier::external_body]
pub(crate) fn parse_json(text: &str) -> (r: Option<JsonValue>)
    ensures
        match r {
            Some(v) => json_text_parse(text@) == Some(v@),
            None => json_text_parse(text@) is None,
        },
{
    serde_json::from_str::<serde_json::Value>(text).ok().map(value_from_serde)
}

/// `serde_json::from_slice::<serde_json::Value>`: parses one JSON document
/// from UTF-8 bytes. The result is what `serde_json` makes of the bytes
/// (named by `json_bytes_parse`).
#[verifier::external_body]
pub(crate) fn parse_json_bytes(bytes: &[u8]) -> (r: Option<JsonValue>)
    ensures
        match r {
            Some(v) => json_bytes_parse(bytes@) == Some(v@),
            None => json_bytes_parse(bytes@) is None,
        },
{
    serde_json::from_slice::<serde_json::Value>(bytes).ok().map(value_from_serde)
}

/// `serde_json::to_vec` on a value: its compact JSON text as UTF-8 bytes
/// (named by `json_bytes_render`), never empty. As for
/// [`render_json`], reading the bytes back with `serde_json` gives the value
/// again whenever it prints its numbers as their own text, repeats no key
/// and nests at most [`MAX_JSON_DEPTH`] deep.
#[verifier::external_body]
pub(crate) fn render_json_bytes(value: &JsonValue) -> (bytes: Vec<u8>)
    ensures
        bytes@ == json_bytes_render(value@),
        bytes@.len() > 0,
        reads_back(value@, MAX_JSON_DEPTH as nat) ==> json_bytes_parse(bytes@) == Some(value@),
{
    serde_json::to_vec(&value_to_serde(value)).unwrap_or_default()
}

/// Whether `t` is a number's text exactly as `serde_json` prints it: the
/// decimal digits of a 64-bit unsigned integer, or a text that `serde_json`
/// reads, as a whole document, as the number printed `t`.
pub open spec fn number_prints_back(t: Seq<char>) -> bool {
    ||| exists|n: nat| n < 0x1_0000_0000_0000_0000 && t == #[trigger] decimal_text(n)
    ||| json_text_parse(t) == Some(Json::Number(t))
}

/// Whether no two entries of an object have the same key.
pub open spec fn keys_distinct(entries: Seq<(Seq<char>, Json)>) -> bool {
    forall|i: int, k: int| 0 <= i < k < entries.len() ==> entries[i].0 != entries[k].0
}

/// Whether `serde_json` reads the text it prints for `j` back as `j`: every
/// number is printed as its own text, no object repeats a key, and arrays
/// and objects nest at most `depth` deep (`serde_json`'s parser refuses a
/// document nested 128 deep).
pub open spec fn reads_back(j: Json, depth: nat) -> bool
    decreases j,
{
    match j {
        Json::Number(t) => number_prints_back(t),
        Json::Array(items) => depth > 0 && forall|i: int|
            0 <= i < items.len() ==> reads_back(#[trigger] items[i], (depth - 1) as nat),
        Json::Object(entries) => depth > 0 && keys_distinct(entries) && forall|i: int|
            0 <= i < entries.len() ==> reads_back(#[trigger] entries[i].1, (depth - 1) as nat),
        _ => true,
    }
}

/// The deepest nesting `serde_json` parses.
pub const MAX_JSON_DEPTH: u64 = 127;

/// `serde_json::to_string` on a value: its compact JSON text (named by
/// `json_text_render`). With object keys kept in insertion order, reading
/// that text back with `serde_json` gives the value again whenever it prints
/// its numbers as their own text, repeats no key and nests at most
/// [`MAX_JSON_DEPTH`] deep.
#[verifier::external_body]
pub(crate) fn render_json(value: &JsonValue) -> (text: String)
    ensures
        text@ == json_text_render(value@),
        reads_back(value@, MAX_JSON_DEPTH as nat) ==> json_text_parse(text@) == Some(value@),
{
    serde_json::to_string(&value_to_serde(value)).unwrap_or_default()
}

/// The decimal digits of `n`, most significant first, as `serde_json` prints
/// a non-negative integer.
pub open spec fn decimal_text(n: nat) -> Seq<char>
    decreases n,
{
    if n < 10 {
        seq![(48 + n) as char]
    } else {
        decimal_text(n / 10).push((48 + n % 10) as char)
    }
}

/// The decimal text of `n`.
pub fn u32_text(n: u32) -> (s: String)
    ensures
        s@ == decimal_text(n as nat),
    decreases n,
{
    if n < 10 {
        let mut s = String::new();
        crate::text::string_push(&mut s, ((48 + n) as u8) as char);
        s
    } else {
        let mut s = u32_text(n / 10);
        crate::text::string_push(&mut s, ((48 + n % 10) as u8) as char);
        s
    }
}

/// The decimal text of `n`.
pub fn u64_text(n: u64) -> (s: String)
    ensures
        s@ == decimal_text(n as nat),
    decreases n,
{
    if n < 10 {
        let mut s = String::new();
        crate::text::string_push(&mut s, ((48 + n) as u8) as char);
        s
    } else {
        let mut s = u64_text(n / 10);
        crate::text::string_push(&mut s, ((48 + n % 10) as u8) as char);
        s
    }
}

/// The decimal text of a signed integer: a minus sign before the digits of
/// a negative one.
pub open spec fn signed_decimal_text(n: int) -> Seq<char> {
    if n < 0 {
        seq!['-'] + decimal_text((-n) as nat)
    } else {
        decimal_text(n as nat)
    }
}

/// The decimal text of `n`.
pub fn i32_text(n: i32) -> (s: String)
    ensures
        s@ == signed_decimal_text(n as int),
{
    if n < 0 {
        let magnitude: u32 = (-(n as i64)) as u32;
        let digits = u32_text(magnitude);
        proof {
            reveal_strlit("-");
            assert("-"@ =~= seq!['-']);
        }
        crate::text::concat("-", digits.as_str())
    } else {
        u32_text(n as u32)
    }
}

/// The object entry `key` maps to: the first entry whose key is `key`.
pub open spec fn spec_field(entries: Seq<(Seq<char>, Json)>, key: Seq<char>) -> Option<Json>
    decreases entries.len(),
{
    if entries.len() == 0 {
        None
    } else if entries[0].0 == key {
        Some(entries[0].1)
    } else {
        spec_field(entries.drop_first(), key)
    }
}

/// The value the object entry `key` maps to: the first entry with that key.
pub fn field<'a>(entries: &'a [(String, JsonValue)], key: &str) -> (r: Option<&'a JsonValue>)
    ensures
        match r {
            Some(v) => spec_field(object_view(entries@), key@) == Some(v@),
            None => spec_field(object_view(entries@), key@) is None,
        },
{
    let mut i: usize = 0;
    assert(object_view(entries@).skip(0) == object_view(entries@));
    while i < entries.len()
        invariant
            i <= entries@.len(),
            spec_field(object_view(entries@), key@) == spec_field(object_view(entries@).skip(i as int), key@),
        decreases entries@.len() - i,
    {
        assert(object_view(entries@).skip(i as int).drop_first() == object_view(entries@).skip(i + 1));
        if crate::text::str_equal(entries[i].0.as_str(), key) {
            return Some(&entries[i].1);
        }
        i = i + 1;
    }
    None
}

/// The entries of an object, as values.
pub open spec fn object_view(entries: Seq<(String, JsonValue)>) -> Seq<(Seq<char>, Json)> {
    Seq::new(entries.len(), |i: int| (entries[i].0@, entries[i].1@))
}

} // verus!

verus! {

/// An object's value is its entries' values.
pub proof fn lemma_object_view(entries: Vec<(String, JsonValue)>)
    ensures
        JsonValue::Object(entries)@ == Json::Object(object_view(entries@)),
{
    let v = JsonValue::Object(entries);
    reveal_with_fuel(JsonValue::model, 2);
    if let Json::Object(es) = v@ {
        assert(es.len() == entries@.len());
        assert forall|i: int| 0 <= i < es.len() implies es[i] == object_view(entries@)[i] by {}
        assert(es =~= object_view(entries@));
    }
}

/// The values of a list of JSON values.
pub open spec fn array_view(items: Seq<JsonValue>) -> Seq<Json> {
    Seq::new(items.len(), |i: int| items[i]@)
}

/// An array's value is its items' values.
pub proof fn lemma_array_view(items: Vec<JsonValue>)
    ensures
        JsonValue::Array(items)@ == Json::Array(array_view(items@)),
{
    let v = JsonValue::Array(items);
    reveal_with_fuel(JsonValue::model, 2);
    if let Json::Array(es) = v@ {
        assert(es.len() == items@.len());
        assert forall|i: int| 0 <= i < es.len() implies es[i] == array_view(items@)[i] by {}
        assert(es =~= array_view(items@));
    }
}

/// The JSON string `s`.
pub fn json_str(s: &str) -> (v: JsonValue)
    ensures
        v@ == Json::Str(s@),
{
    JsonValue::Str(String::from_str(s))
}

/// The object with entries `entries`, in order.
pub fn json_object(entries: Vec<(String, JsonValue)>) -> (v: JsonValue)
    ensures
        v@ == Json::Object(object_view(entries@)),
{
    proof {
        lemma_object_view(entries);
    }
    JsonValue::Object(entries)
}

/// The array with items `items`, in order.
pub fn json_array(items: Vec<JsonValue>) -> (v: JsonValue)
    ensures
        v@ == Json::Array(array_view(items@)),
{
    proof {
        lemma_array_view(items);
    }
    JsonValue::Array(items)
}

/// Appends the entry `key: value` to `entries`.
pub fn push_entry(entries: &mut Vec<(String, JsonValue)>, key: &str, value: JsonValue)
    ensures
        object_view(final(entries)@) == object_view(old(entries)@).push((key@, value@)),
{
    entries.push((String::from_str(key), value));
    assert(object_view(entries@) =~= object_view(old(entries)@).push((key@, value@)));
}

/// The object with the one entry `key: value`.
pub fn json_object1(key: &str, value: JsonValue) -> (v: JsonValue)
    ensures
        v@ == Json::Object(seq![(key@, value@)]),
{
    let mut entries: Vec<(String, JsonValue)> = Vec::new();
    push_entry(&mut entries, key, value);
    assert(object_view(entries@) =~= seq![(key@, value@)]);
    json_object(entries)
}

} // verus!
