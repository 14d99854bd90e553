//! Reading Rev AI's streaming messages and building its streaming query:
//! partial and final element lists, the error payload, and the
//! percent-encoded connection parameters.

use vstd::prelude::*;

use crate::json::{
    parse_json, parsed_json, spec_as_arr, spec_as_text, spec_get, trim_str, unicode_trimmed,
    JsonValue,
};
use crate::text::{
    ascii_chars_of, ascii_lower, bytes_eq, dec_chars, enc_bytes, lemma_enc_bytes_ascii,
    lower_bytes, percent_encode_bytes, str_eq, string_from_ascii, u32_to_string,
};
use crate::transcript_vendors::ReceiveOutcome;

verus! {

use vstd::string::StringSliceAdditionalSpecFns;
use vstd::string::StringExecFns;
use vstd::utf8::encode_utf8;

/// Whether a transcript is an in-progress hypothesis or a settled result.
#[derive(Debug)]
pub enum TranscriptKind {
    Partial,
    Final,
}

/// The percent-encoding of a text's UTF-8 bytes, as characters.
pub open spec fn enc_chars(s: Seq<char>) -> Seq<char> {
    ascii_chars_of(enc_bytes(encode_utf8(s)))
}

/// Percent-encodes a query component: unreserved ASCII stays, every other
/// byte becomes `%` and two uppercase hexadecimal digits.
pub fn encode_component(value: &str) -> (r: String)
    ensures
        r@ == enc_chars(value@),
{
    let encoded = percent_encode_bytes(value.as_bytes());
    proof {
        lemma_enc_bytes_ascii(value.spec_bytes());
    }
    string_from_ascii(encoded)
}

/// The concatenation of the `value` strings of an element list, in order;
/// an element without a string `value` contributes nothing.
pub open spec fn spec_concat_values(items: Seq<JsonValue>) -> Seq<char>
    decreases items.len(),
{
    if items.len() == 0 {
        Seq::empty()
    } else {
        let head = match spec_get(items[0], "value"@) {
            Some(e) => match spec_as_text(e) {
                Some(s) => s,
                None => Seq::<char>::empty(),
            },
            None => Seq::<char>::empty(),
        };
        head + spec_concat_values(items.drop_first())
    }
}

/// The trimmed concatenation of an element list, when anything is left.
pub open spec fn spec_collect_elements(items: Seq<JsonValue>) -> Option<Seq<char>> {
    let t = unicode_trimmed(spec_concat_values(items));
    if t.len() == 0 {
        None
    } else {
        Some(t)
    }
}

proof fn lemma_concat_values_take(items: Seq<JsonValue>, i: int)
    requires
        0 <= i < items.len(),
    ensures
        spec_concat_values(items.take(i + 1)) == spec_concat_values(items.take(i)) + (
        match spec_get(items[i], "value"@) {
            Some(e) => match spec_as_text(e) {
                Some(s) => s,
                None => Seq::<char>::empty(),
            },
            None => Seq::<char>::empty(),
        }),
    decreases i + 1,
{
    if i == 0 {
        assert(items.take(1).drop_first() =~= items.take(0));
        assert(spec_concat_values(items.take(0)) =~= Seq::<char>::empty());
        assert(items.take(1)[0] == items[0]);
        assert(spec_concat_values(items.take(1)) =~= spec_concat_values(items.take(0)) + (
        match spec_get(items[0], "value"@) {
            Some(e) => match spec_as_text(e) {
                Some(s) => s,
                None => Seq::<char>::empty(),
            },
            None => Seq::<char>::empty(),
        }));
    } else {
        lemma_concat_values_take(items.drop_first(), i - 1);
        assert(items.take(i + 1).drop_first() =~= items.drop_first().take(i));
        assert(items.take(i).drop_first() =~= items.drop_first().take(i - 1));
        assert(items.take(i + 1)[0] == items[0]);
        assert(items.take(i)[0] == items[0]);
        assert(items.drop_first()[i - 1] == items[i]);
    }
}

/// Joins an element list's `value` strings and trims the result; an
/// all-whitespace join is nothing.
#[verifier::loop_isolation(false)]
pub fn collect_elements_text(elements: &Vec<JsonValue>) -> (r: Option<String>)
    ensures
        match r {
            Some(s) => spec_collect_elements(elements@) == Some(s@),
            None => spec_collect_elements(elements@) is None,
        },
{
    let mut buffer = String::new();
    proof {
        assert(buffer@ =~= spec_concat_values(elements@.take(0)));
    }
    let mut i: usize = 0;
    while i < elements.len()
        invariant
            i <= elements@.len(),
            buffer@ == spec_concat_values(elements@.take(i as int)),
        decreases elements@.len() - i,
    {
        match elements[i].get("value") {
            Some(e) => {
                match e.as_text() {
                    Some(s) => {
                        buffer.append(s.as_str());
                    },
                    None => {},
                }
            },
            None => {},
        }
        proof {
            lemma_concat_values_take(elements@, i as int);
            assert(buffer@ =~= spec_concat_values(elements@.take(i + 1)));
        }
        i = i + 1;
    }
    proof {
        assert(elements@.take(elements@.len() as int) =~= elements@);
    }
    let trimmed = trim_str(buffer.as_str());
    if trimmed.is_empty() {
        None
    } else {
        Some(trimmed.to_owned())
    }
}

/// The text of a final message: the join of its element list.
pub open spec fn spec_extract_final_text(v: JsonValue) -> Option<Seq<char>> {
    match spec_get(v, "elements"@) {
        Some(e) => match spec_as_arr(e) {
            Some(items) => spec_collect_elements(items),
            None => None,
        },
        None => None,
    }
}

/// Reads the text of a final message.
pub fn extract_final_text(value: &JsonValue) -> (r: Option<String>)
    ensures
        match r {
            Some(s) => spec_extract_final_text(*value) == Some(s@),
            None => spec_extract_final_text(*value) is None,
        },
{
    match value.get("elements") {
        Some(e) => match e.as_arr() {
            Some(items) => collect_elements_text(items),
            None => None,
        },
        None => None,
    }
}

/// The text of a partial message: its element list if that joins to
/// anything, else the first of `value`, `text`, `transcript` holding
/// non-whitespace text.
pub open spec fn spec_extract_partial_text(v: JsonValue) -> Option<Seq<char>> {
    match spec_extract_final_text(v) {
        Some(t) => Some(t),
        None => {
            let from_value = spec_trimmed_field(v, "value"@);
            if from_value is Some {
                from_value
            } else {
                let from_text = spec_trimmed_field(v, "text"@);
                if from_text is Some {
                    from_text
                } else {
                    spec_trimmed_field(v, "transcript"@)
                }
            }
        },
    }
}

/// The trimmed text of a field, when it is a string with content.
pub open spec fn spec_trimmed_field(v: JsonValue, field: Seq<char>) -> Option<Seq<char>> {
    match spec_get(v, field) {
        Some(e) => match spec_as_text(e) {
            Some(s) => {
                let t = unicode_trimmed(s);
                if t.len() > 0 {
                    Some(t)
                } else {
                    None
                }
            },
            None => None,
        },
        None => None,
    }
}

/// Reads one trimmed, non-empty string field.
fn trimmed_field(value: &JsonValue, field: &str) -> (r: Option<String>)
    ensures
        match r {
            Some(s) => spec_trimmed_field(*value, field@) == Some(s@),
            None => spec_trimmed_field(*value, field@) is None,
        },
{
    match value.get(field) {
        Some(e) => match e.as_text() {
            Some(s) => {
                let trimmed = trim_str(s.as_str());
                if !trimmed.is_empty() {
                    Some(trimmed.to_owned())
                } else {
                    None
                }
            },
            None => None,
        },
        None => None,
    }
}

/// Reads the text of a partial message.
pub fn extract_partial_text(value: &JsonValue) -> (r: Option<String>)
    ensures
        match r {
            Some(s) => spec_extract_partial_text(*value) == Some(s@),
            None => spec_extract_partial_text(*value) is None,
        },
{
    match extract_final_text(value) {
        Some(text) => {
            return Some(text);
        },
        None => {},
    }
    match trimmed_field(value, "value") {
        Some(text) => {
            return Some(text);
        },
        None => {},
    }
    match trimmed_field(value, "text") {
        Some(text) => {
            return Some(text);
        },
        None => {},
    }
    trimmed_field(value, "transcript")
}

/// What a payload parses to: a `partial` or `final` message and its text.
pub open spec fn spec_parse_transcript(payload: Seq<char>) -> Option<(TranscriptKind, Seq<char>)> {
    match parsed_json(payload) {
        None => None,
        Some(v) => {
            let event_type = match spec_get(v, "type"@) {
                Some(e) => spec_as_text(e),
                None => None,
            };
            if event_type == Some("partial"@) {
                match spec_extract_partial_text(v) {
                    Some(t) => Some((TranscriptKind::Partial, t)),
                    None => None,
                }
            } else if event_type == Some("final"@) {
                match spec_extract_final_text(v) {
                    Some(t) => Some((TranscriptKind::Final, t)),
                    None => None,
                }
            } else {
                None
            }
        },
    }
}

/// Parses one payload into a transcript.
pub fn parse_transcript(payload: &str) -> (r: Option<(TranscriptKind, String)>)
    ensures
        match r {
            Some(pair) => spec_parse_transcript(payload@) matches Some(spair) && spair.0 == pair.0
                && spair.1 == pair.1@,
            None => spec_parse_transcript(payload@) is None,
        },
{
    let v = match parse_json(payload) {
        Some(v) => v,
        None => {
            return None;
        },
    };
    let event_type = match v.get("type") {
        Some(e) => match e.as_text() {
            Some(s) => s.as_str().to_owned(),
            None => {
                return None;
            },
        },
        None => {
            return None;
        },
    };
    if str_eq(event_type.as_str(), "partial") {
        match extract_partial_text(&v) {
            Some(text) => Some((TranscriptKind::Partial, text)),
            None => None,
        }
    } else if str_eq(event_type.as_str(), "final") {
        match extract_final_text(&v) {
            Some(text) => Some((TranscriptKind::Final, text)),
            None => None,
        }
    } else {
        None
    }
}

/// A payload whose `type` names an error, compared without regard to ASCII
/// case.
pub open spec fn spec_is_revai_error(payload: Seq<char>) -> bool {
    match parsed_json(payload) {
        Some(v) => match spec_get(v, "type"@) {
            Some(e) => match spec_as_text(e) {
                Some(s) => lower_bytes(encode_utf8(s)) == "error".spec_bytes(),
                None => false,
            },
            None => false,
        },
        None => false,
    }
}

/// Whether a payload announces a server-side error.
pub fn is_revai_error(payload: &str) -> (r: bool)
    ensures
        r == spec_is_revai_error(payload@),
{
    match parse_json(payload) {
        Some(v) => match v.get("type") {
            Some(e) => match e.as_text() {
                Some(s) => {
                    let lowered = ascii_lower(s.as_str().as_bytes());
                    bytes_eq(lowered.as_slice(), "error".as_bytes())
                },
                None => false,
            },
            None => false,
        },
        None => false,
    }
}

/// Classifies one server text frame: a partial transcript with content is
/// emitted (final frames repeat text already delivered and are dropped, as
/// this vendor's session does), an error payload ends the session with its
/// text, anything else is ignored.
pub fn handle_text_message(payload: &str) -> (r: ReceiveOutcome)
    ensures
        match spec_parse_transcript(payload@) {
            Some(pair) => if pair.0 is Partial && pair.1.len() > 0 {
                r matches ReceiveOutcome::Emit(texts) && texts@.len() == 1 && texts@[0]@ == pair.1
            } else {
                r is Ignore
            },
            None => if spec_is_revai_error(payload@) {
                r matches ReceiveOutcome::VendorError(msg) && msg@ == "RevAI returned error payload: "@
                    + payload@
            } else {
                r is Ignore
            },
        },
{
    match parse_transcript(payload) {
        Some((kind, text)) => {
            let is_partial = match kind {
                TranscriptKind::Partial => true,
                TranscriptKind::Final => false,
            };
            if is_partial && !text.as_str().is_empty() {
                let mut texts: Vec<String> = Vec::new();
                texts.push(text);
                ReceiveOutcome::Emit(texts)
            } else {
                ReceiveOutcome::Ignore
            }
        },
        None => {
            if is_revai_error(payload) {
                let msg = String::from_str("RevAI returned error payload: ").concat(payload);
                ReceiveOutcome::VendorError(msg)
            } else {
                ReceiveOutcome::Ignore
            }
        },
    }
}

/// The content-type parameter of a stream at the given rate: interleaved
/// signed 16-bit little-endian mono.
pub open spec fn spec_content_type(sample_rate: u32) -> Seq<char> {
    "audio/x-raw;layout=interleaved;rate="@ + dec_chars(sample_rate as nat)
        + ";format=S16LE;channels=1;max_connection_wait_seconds=540"@
}

/// Builds the content-type parameter for a stream.
pub fn content_type_param(sample_rate: u32) -> (r: String)
    ensures
        r@ == spec_content_type(sample_rate),
{
    String::from_str("audio/x-raw;layout=interleaved;rate=").concat(
        u32_to_string(sample_rate).as_str(),
    ).concat(";format=S16LE;channels=1;max_connection_wait_seconds=540")
}

/// The streaming query string: access token, content type and sample rate,
/// each percent-encoded, then the optional language and metadata (skipped
/// when blank, sent untrimmed otherwise).
pub open spec fn spec_stream_query(
    api_key: Seq<char>,
    sample_rate: u32,
    language: Option<Seq<char>>,
    metadata: Option<Seq<char>>,
) -> Seq<char> {
    let base = "access_token="@ + enc_chars(api_key) + "&content_type="@ + enc_chars(
        spec_content_type(sample_rate),
    ) + "&sample_rate="@ + enc_chars(dec_chars(sample_rate as nat));
    let with_lang = match language {
        Some(l) => if unicode_trimmed(l).len() > 0 {
            base + "&language="@ + enc_chars(l)
        } else {
            base
        },
        None => base,
    };
    match metadata {
        Some(m) => if unicode_trimmed(m).len() > 0 {
            with_lang + "&metadata="@ + enc_chars(m)
        } else {
            with_lang
        },
        None => with_lang,
    }
}

/// Builds the streaming connection's query string.
pub fn stream_query(
    api_key: &str,
    sample_rate: u32,
    language: Option<&str>,
    metadata: Option<&str>,
) -> (r: String)
    ensures
        r@ == spec_stream_query(
            api_key@,
            sample_rate,
            match language {
                Some(l) => Some(l@),
                None => None,
            },
            match metadata {
                Some(m) => Some(m@),
                None => None,
            },
        ),
{
    let rate = u32_to_string(sample_rate);
    let mut query = String::from_str("access_token=").concat(encode_component(api_key).as_str())
        .concat("&content_type=").concat(
        encode_component(content_type_param(sample_rate).as_str()).as_str(),
    ).concat("&sample_rate=").concat(encode_component(rate.as_str()).as_str());
    match language {
        Some(l) => {
            let trimmed = trim_str(l);
            if !trimmed.is_empty() {
                query = query.concat("&language=").concat(encode_component(l).as_str());
            }
        },
        None => {},
    }
    match metadata {
        Some(m) => {
            let trimmed = trim_str(m);
            if !trimmed.is_empty() {
                query = query.concat("&metadata=").concat(encode_component(m).as_str());
            }
        },
        None => {},
    }
    query
}

} // verus!
