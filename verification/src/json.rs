//! A plain model of JSON values, so that the logic that reads vendor
//! messages can be verified.
//!
//! Parsing itself is done by `serde_json` behind a trusted wrapper; the
//! resulting tree is converted into [`JsonValue`], which holds only plain
//! data.  Every lookup and extraction step after the parse is verified.

use vstd::prelude::*;

verus! {

/// A parsed JSON value.  Numbers that have no exact 64-bit integer value are
/// kept only as the marker [`JsonValue::Frac`]: no reader of vendor messages
/// looks at them.  An object holds each key once, in the order the parser
/// yields its entries.
pub enum JsonValue {
    Null,
    Bool(bool),
    Int(i64),
    Frac,
    Text(String),
    Arr(Vec<JsonValue>),
    Obj(Vec<(String, JsonValue)>),
}

/// What a JSON text parses to: `None` where the text is not valid JSON.
/// The result depends on the text alone.
pub uninterp spec fn parsed_json(text: Seq<char>) -> Option<JsonValue>;

/// What `str::trim` leaves of a string: the text without its leading and
/// trailing Unicode whitespace.  The result depends on the characters alone.
pub uninterp spec fn unicode_trimmed(text: Seq<char>) -> Seq<char>;

#[verifier::external_type_specification]
#[verifier::external_body]
pub struct ExSerdeValue(serde_json::Value);

/// The conversion half of [`parse_json`]'s trusted boundary: one arm per
/// `serde_json::Value` variant, moving the data across.  Only `parse_json`
/// calls it.
#[verifier::external_body]
fn json_model(v: &serde_json::Value) -> JsonValue {
    match v {
        serde_json::Value::Null => JsonValue::Null,
        serde_json::Value::Bool(b) => JsonValue::Bool(*b),
        serde_json::Value::Number(n) => match n.as_i64() {
            Some(i) => JsonValue::Int(i),
            None => JsonValue::Frac,
        },
        serde_json::Value::String(s) => JsonValue::Text(s.clone()),
        serde_json::Value::Array(items) => JsonValue::Arr(
            items.iter().map(|item| json_model(item)).collect(),
        ),
        serde_json::Value::Object(entries) => JsonValue::Obj(
            entries.iter().map(|(k, item)| (k.clone(), json_model(item))).collect(),
        ),
    }
}

/// Relies on `serde_json::from_str`: whether a text is valid JSON, and what
/// document it denotes, depend on the text alone.  The parsed tree is
/// converted variant for variant by `json_model` above.
#[verifier::external_body]
pub fn parse_json(payload: &str) -> (r: Option<JsonValue>)
    ensures
        r == parsed_json(payload@),
{
    match serde_json::from_str::<serde_json::Value>(payload) {
        Ok(v) => Some(json_model(&v)),
        Err(_) => None,
    }
}

/// Relies on `str::trim`: removes leading and trailing whitespace; the result
/// depends on the characters alone.
#[verifier::external_body]
pub fn trim_str(s: &str) -> (r: &str)
    ensures
        r@ == unicode_trimmed(s@),
{
    s.trim()
}

/// The first entry of an object with the given key, scanning in document
/// order.
pub open spec fn spec_lookup(entries: Seq<(String, JsonValue)>, key: Seq<char>) -> Option<
    JsonValue,
>
    decreases entries.len(),
{
    if entries.len() == 0 {
        None
    } else if entries[0].0@ == key {
        Some(entries[0].1)
    } else {
        spec_lookup(entries.drop_first(), key)
    }
}

/// The value under `key` when the value is an object holding it.
pub open spec fn spec_get(v: JsonValue, key: Seq<char>) -> Option<JsonValue> {
    match v {
        JsonValue::Obj(entries) => spec_lookup(entries@, key),
        _ => None,
    }
}

/// The characters of a value when it is a string.
pub open spec fn spec_as_text(v: JsonValue) -> Option<Seq<char>> {
    match v {
        JsonValue::Text(s) => Some(s@),
        _ => None,
    }
}

/// The boolean of a value when it is one.
pub open spec fn spec_as_bool(v: JsonValue) -> Option<bool> {
    match v {
        JsonValue::Bool(b) => Some(b),
        _ => None,
    }
}

/// The elements of a value when it is an array.
pub open spec fn spec_as_arr(v: JsonValue) -> Option<Seq<JsonValue>> {
    match v {
        JsonValue::Arr(items) => Some(items@),
        _ => None,
    }
}

proof fn lemma_lookup_skip(entries: Seq<(String, JsonValue)>, key: Seq<char>, i: int)
    requires
        0 <= i <= entries.len(),
        forall|j: int| 0 <= j < i ==> #[trigger] entries[j].0@ != key,
    ensures
        spec_lookup(entries, key) == spec_lookup(entries.skip(i), key),
    decreases i,
{
    if i > 0 {
        assert(entries.skip(0) =~= entries);
        assert(entries.drop_first() =~= entries.skip(1));
        lemma_lookup_skip(entries.skip(1), key, i - 1);
        assert(entries.skip(1).skip(i - 1) =~= entries.skip(i));
        assert(forall|j: int|
            0 <= j < i - 1 ==> #[trigger] entries.skip(1)[j].0@ == entries[j + 1].0@);
    } else {
        assert(entries.skip(0) =~= entries);
    }
}

impl JsonValue {
    /// Looks a key up when this value is an object; `None` otherwise or when
    /// the key is absent.
    #[verifier::loop_isolation(false)]
    pub fn get<'a>(&'a self, key: &str) -> (r: Option<&'a JsonValue>)
        ensures
            match r {
                Some(found) => spec_get(*self, key@) == Some(*found),
                None => spec_get(*self, key@) is None,
            },
    {
        match self {
            JsonValue::Obj(entries) => {
                let wanted: String = key.to_owned();
                let mut i: usize = 0;
                while i < entries.len()
                    invariant
                        i <= entries@.len(),
                        wanted@ == key@,
                        forall|j: int| 0 <= j < i ==> #[trigger] entries@[j].0@ != key@,
                    decreases entries@.len() - i,
                {
                    if entries[i].0 == wanted {
                        proof {
                            lemma_lookup_skip(entries@, key@, i as int);
                            assert(entries@.skip(i as int)[0] == entries@[i as int]);
                            assert(spec_lookup(entries@.skip(i as int), key@) == Some(
                                entries@[i as int].1,
                            ));
                        }
                        return Some(&entries[i].1);
                    }
                    i = i + 1;
                }
                proof {
                    lemma_lookup_skip(entries@, key@, i as int);
                }
                None
            },
            _ => None,
        }
    }

    /// The string slice of this value when it is a string.
    pub fn as_text<'a>(&'a self) -> (r: Option<&'a String>)
        ensures
            match r {
                Some(s) => spec_as_text(*self) == Some(s@),
                None => spec_as_text(*self) is None,
            },
    {
        match self {
            JsonValue::Text(s) => Some(s),
            _ => None,
        }
    }

    /// The boolean of this value when it is one.
    pub fn as_bool(&self) -> (r: Option<bool>)
        ensures
            r == spec_as_bool(*self),
    {
        match self {
            JsonValue::Bool(b) => Some(*b),
            _ => None,
        }
    }

    /// The elements of this value when it is an array.
    pub fn as_arr<'a>(&'a self) -> (r: Option<&'a Vec<JsonValue>>)
        ensures
            match r {
                Some(items) => spec_as_arr(*self) == Some(items@),
                None => spec_as_arr(*self) is None,
            },
    {
        match self {
            JsonValue::Arr(items) => Some(items),
            _ => None,
        }
    }
}

} // verus!
