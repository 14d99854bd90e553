//! Reading Gladia's streaming messages: current and legacy transcript
//! shapes, the error payload, and the live-session request plan.

use vstd::prelude::*;

use crate::json::{
    parse_json, parsed_json, spec_as_arr, spec_as_bool, spec_as_text, spec_get, trim_str,
    unicode_trimmed, JsonValue,
};
use crate::text::{ascii_lower, bytes_contains, bytes_eq, contains_seq, lower_bytes, str_eq};
use crate::transcript_vendors::ReceiveOutcome;

verus! {

use vstd::string::StringSliceAdditionalSpecFns;
use vstd::string::StringExecFns;
use vstd::utf8::encode_utf8;

/// Whether a transcript is an in-progress hypothesis or a settled result.
#[derive(Debug)]
pub enum TranscriptKind {
    Partial,
    Final,
}

/// Gladia delivers partial transcripts only on request; this session does
/// not ask for them.
pub const RECEIVE_PARTIAL_TRANSCRIPTS: bool = false;

/// Final transcripts are always wanted.
pub const RECEIVE_FINAL_TRANSCRIPTS: bool = true;

/// The trimmed text of an entry, when it is a string.
pub open spec fn spec_trimmed_text(entry: JsonValue) -> Option<Seq<char>> {
    match spec_as_text(entry) {
        Some(s) => Some(unicode_trimmed(s)),
        None => None,
    }
}

/// The kind a message declares: a `type` string naming or containing
/// `final` (or equal to `partial` up to ASCII case); else the `is_final` or
/// `final` boolean; else partial.
pub open spec fn spec_transcript_kind(v: JsonValue) -> TranscriptKind {
    let flag_entry = if spec_get(v, "is_final"@) is Some {
        spec_get(v, "is_final"@)
    } else {
        spec_get(v, "final"@)
    };
    let by_flags = match flag_entry {
        Some(e) => match spec_as_bool(e) {
            Some(true) => TranscriptKind::Final,
            _ => TranscriptKind::Partial,
        },
        None => TranscriptKind::Partial,
    };
    match spec_get(v, "type"@) {
        Some(e) => match spec_as_text(e) {
            Some(s) => {
                let b = encode_utf8(s);
                if lower_bytes(b) == "final".spec_bytes() || contains_seq(
                    b,
                    "final".spec_bytes(),
                ) {
                    TranscriptKind::Final
                } else if lower_bytes(b) == "partial".spec_bytes() {
                    TranscriptKind::Partial
                } else {
                    by_flags
                }
            },
            None => by_flags,
        },
        None => by_flags,
    }
}

/// Decides whether a message is a final or a partial transcript.
pub fn transcript_kind(value: &JsonValue) -> (r: TranscriptKind)
    ensures
        r == spec_transcript_kind(*value),
{
    match value.get("type") {
        Some(e) => {
            match e.as_text() {
                Some(s) => {
                    let lowered = ascii_lower(s.as_str().as_bytes());
                    if bytes_eq(lowered.as_slice(), "final".as_bytes()) || bytes_contains(
                        s.as_str().as_bytes(),
                        "final".as_bytes(),
                    ) {
                        return TranscriptKind::Final;
                    }
                    if bytes_eq(lowered.as_slice(), "partial".as_bytes()) {
                        return TranscriptKind::Partial;
                    }
                },
                None => {},
            }
        },
        None => {},
    }
    let flag_entry = match value.get("is_final") {
        Some(e) => Some(e),
        None => value.get("final"),
    };
    let flag = match flag_entry {
        Some(e) => match e.as_bool() {
            Some(b) => b,
            None => false,
        },
        None => false,
    };
    if flag {
        TranscriptKind::Final
    } else {
        TranscriptKind::Partial
    }
}

/// The text a `data` object carries, tried shape by shape: the utterance's
/// text, the plain `text`, the full transcript (flat or nested under
/// `transcription`), the `transcript`, and last the first alternative's
/// transcript (taken even when blank, as the wire format promises one).
pub open spec fn spec_extract_text_from_data(data: JsonValue) -> Option<Seq<char>> {
    let from_utterance = match spec_get(data, "utterance"@) {
        Some(u) => match spec_get(u, "text"@) {
            Some(t) => spec_trimmed_text(t),
            None => None,
        },
        None => None,
    };
    if from_utterance matches Some(t) && t.len() > 0 {
        Some(from_utterance->Some_0)
    } else {
        let plain = match spec_get(data, "text"@) {
            Some(t) => spec_trimmed_text(t),
            None => None,
        };
        if plain matches Some(t) && t.len() > 0 {
            Some(plain->Some_0)
        } else {
            let full = match spec_get(data, "full_transcript"@) {
                Some(t) => spec_trimmed_text(t),
                None => None,
            };
            if full matches Some(t) && t.len() > 0 {
                Some(full->Some_0)
            } else {
                let nested = match spec_get(data, "transcription"@) {
                    Some(tr) => match spec_get(tr, "full_transcript"@) {
                        Some(t) => spec_trimmed_text(t),
                        None => None,
                    },
                    None => None,
                };
                if nested matches Some(t) && t.len() > 0 {
                    Some(nested->Some_0)
                } else {
                    let transcript = match spec_get(data, "transcript"@) {
                        Some(t) => spec_trimmed_text(t),
                        None => None,
                    };
                    if transcript matches Some(t) && t.len() > 0 {
                        Some(transcript->Some_0)
                    } else {
                        match spec_get(data, "alternatives"@) {
                            Some(alts) => match spec_as_arr(alts) {
                                Some(items) => if items.len() > 0 {
                                    match spec_get(items[0], "transcript"@) {
                                        Some(t) => spec_trimmed_text(t),
                                        None => None,
                                    }
                                } else {
                                    None
                                },
                                None => None,
                            },
                            None => None,
                        }
                    }
                }
            }
        }
    }
}

/// Reads the transcript text out of a `data` object.
pub fn extract_text_from_data(data: &JsonValue) -> (r: Option<String>)
    ensures
        match r {
            Some(s) => spec_extract_text_from_data(*data) == Some(s@),
            None => spec_extract_text_from_data(*data) is None,
        },
{
    match data.get("utterance") {
        Some(u) => match u.get("text") {
            Some(t) => match t.as_text() {
                Some(s) => {
                    let trimmed = trim_str(s.as_str());
                    if !trimmed.is_empty() {
                        return Some(trimmed.to_owned());
                    }
                },
                None => {},
            },
            None => {},
        },
        None => {},
    }
    match data.get("text") {
        Some(t) => match t.as_text() {
            Some(s) => {
                let trimmed = trim_str(s.as_str());
                if !trimmed.is_empty() {
                    return Some(trimmed.to_owned());
                }
            },
            None => {},
        },
        None => {},
    }
    match data.get("full_transcript") {
        Some(t) => match t.as_text() {
            Some(s) => {
                let trimmed = trim_str(s.as_str());
                if !trimmed.is_empty() {
                    return Some(trimmed.to_owned());
                }
            },
            None => {},
        },
        None => {},
    }
    match data.get("transcription") {
        Some(tr) => match tr.get("full_transcript") {
            Some(t) => match t.as_text() {
                Some(s) => {
                    let trimmed = trim_str(s.as_str());
                    if !trimmed.is_empty() {
                        return Some(trimmed.to_owned());
                    }
                },
                None => {},
            },
            None => {},
        },
        None => {},
    }
    match data.get("transcript") {
        Some(t) => match t.as_text() {
            Some(s) => {
                let trimmed = trim_str(s.as_str());
                if !trimmed.is_empty() {
                    return Some(trimmed.to_owned());
                }
            },
            None => {},
        },
        None => {},
    }
    match data.get("alternatives") {
        Some(alts) => match alts.as_arr() {
            Some(items) => {
                if items.len() > 0 {
                    match items[0].get("transcript") {
                        Some(t) => match t.as_text() {
                            Some(s) => {
                                let trimmed = trim_str(s.as_str());
                                return Some(trimmed.to_owned());
                            },
                            None => {},
                        },
                        None => {},
                    }
                }
            },
            None => {},
        },
        None => {},
    }
    None
}

/// The legacy transcript shape: a `transcript` message with its text in a
/// flat `transcript` field, or in the first alternative (taken even when
/// blank).
pub open spec fn spec_parse_legacy(v: JsonValue) -> Option<(TranscriptKind, Seq<char>)> {
    let type_ok = match spec_get(v, "type"@) {
        Some(e) => spec_as_text(e) == Some("transcript"@),
        None => false,
    };
    if !type_ok {
        None
    } else {
        let kind = spec_transcript_kind(v);
        let flat = match spec_get(v, "transcript"@) {
            Some(t) => spec_trimmed_text(t),
            None => None,
        };
        if flat matches Some(t) && t.len() > 0 {
            Some((kind, flat->Some_0))
        } else {
            match spec_get(v, "alternatives"@) {
                Some(alts) => match spec_as_arr(alts) {
                    Some(items) => if items.len() > 0 {
                        match spec_get(items[0], "transcript"@) {
                            Some(t) => match spec_trimmed_text(t) {
                                Some(text) => Some((kind, text)),
                                None => None,
                            },
                            None => None,
                        }
                    } else {
                        None
                    },
                    None => None,
                },
                None => None,
            }
        }
    }
}

/// Parses the legacy transcript shape.
pub fn parse_legacy_transcript(value: &JsonValue) -> (r: Option<(TranscriptKind, String)>)
    ensures
        match r {
            Some(pair) => spec_parse_legacy(*value) matches Some(spair) && spair.0 == pair.0
                && spair.1 == pair.1@,
            None => spec_parse_legacy(*value) is None,
        },
{
    let type_ok = match value.get("type") {
        Some(e) => match e.as_text() {
            Some(s) => str_eq(s.as_str(), "transcript"),
            None => false,
        },
        None => false,
    };
    if !type_ok {
        return None;
    }
    let kind = transcript_kind(value);
    match value.get("transcript") {
        Some(t) => match t.as_text() {
            Some(s) => {
                let trimmed = trim_str(s.as_str());
                if !trimmed.is_empty() {
                    return Some((kind, trimmed.to_owned()));
                }
            },
            None => {},
        },
        None => {},
    }
    match value.get("alternatives") {
        Some(alts) => match alts.as_arr() {
            Some(items) => {
                if items.len() > 0 {
                    match items[0].get("transcript") {
                        Some(t) => match t.as_text() {
                            Some(s) => {
                                let trimmed = trim_str(s.as_str());
                                return Some((kind, trimmed.to_owned()));
                            },
                            None => {},
                        },
                        None => {},
                    }
                }
            },
            None => {},
        },
        None => {},
    }
    None
}

/// What a payload parses to: a current-shape `transcript` message (its
/// `data` object decides kind and text), a `post_final_transcript` (always
/// final), or the legacy shape; anything else is no transcript.
pub open spec fn spec_parse_transcript(payload: Seq<char>) -> Option<(TranscriptKind, Seq<char>)> {
    match parsed_json(payload) {
        None => None,
        Some(v) => {
            let event_type = match spec_get(v, "type"@) {
                Some(e) => spec_as_text(e),
                None => None,
            };
            if event_type is None {
                None
            } else if event_type == Some("transcript"@) {
                match spec_get(v, "data"@) {
                    Some(data) => match spec_extract_text_from_data(data) {
                        Some(text) => Some((spec_transcript_kind(data), text)),
                        None => None,
                    },
                    None => spec_parse_legacy(v),
                }
            } else if event_type == Some("post_final_transcript"@) {
                match spec_get(v, "data"@) {
                    Some(data) => match spec_extract_text_from_data(data) {
                        Some(text) => Some((TranscriptKind::Final, text)),
                        None => None,
                    },
                    None => None,
                }
            } else {
                None
            }
        },
    }
}

/// Parses one payload into a transcript, current or legacy shape.
pub fn parse_transcript(payload: &str) -> (r: Option<(TranscriptKind, String)>)
    ensures
        match r {
            Some(pair) => spec_parse_transcript(payload@) matches Some(spair) && spair.0 == pair.0
                && spair.1 == pair.1@,
            None => spec_parse_transcript(payload@) is None,
        },
{
    let v = match parse_json(payload) {
        Some(v) => v,
        None => {
            return None;
        },
    };
    let event_type = match v.get("type") {
        Some(e) => match e.as_text() {
            Some(s) => s.as_str().to_owned(),
            None => {
                return None;
            },
        },
        None => {
            return None;
        },
    };
    if str_eq(event_type.as_str(), "transcript") {
        match v.get("data") {
            Some(data) => {
                match extract_text_from_data(data) {
                    Some(text) => {
                        let kind = transcript_kind(data);
                        Some((kind, text))
                    },
                    None => None,
                }
            },
            None => parse_legacy_transcript(&v),
        }
    } else if str_eq(event_type.as_str(), "post_final_transcript") {
        match v.get("data") {
            Some(data) => {
                match extract_text_from_data(data) {
                    Some(text) => Some((TranscriptKind::Final, text)),
                    None => None,
                }
            },
            None => None,
        }
    } else {
        None
    }
}

/// A payload announcing a server-side error.
pub open spec fn spec_is_error_payload(payload: Seq<char>) -> bool {
    match parsed_json(payload) {
        Some(v) => match spec_get(v, "type"@) {
            Some(e) => spec_as_text(e) == Some("error"@),
            None => false,
        },
        None => false,
    }
}

/// Whether a payload announces a server-side error.
pub fn is_error_payload(payload: &str) -> (r: bool)
    ensures
        r == spec_is_error_payload(payload@),
{
    match parse_json(payload) {
        Some(v) => match v.get("type") {
            Some(e) => match e.as_text() {
                Some(s) => str_eq(s.as_str(), "error"),
                None => false,
            },
            None => false,
        },
        None => false,
    }
}

/// Classifies one server text frame: a final transcript with content is
/// emitted, a partial one is dropped (this session asked for none), an
/// error payload ends the session with its text, anything else is ignored.
pub fn handle_text_message(payload: &str) -> (r: ReceiveOutcome)
    ensures
        match spec_parse_transcript(payload@) {
            Some(pair) => if pair.0 is Final && pair.1.len() > 0 {
                r matches ReceiveOutcome::Emit(texts) && texts@.len() == 1 && texts@[0]@ == pair.1
            } else {
                r is Ignore
            },
            None => if spec_is_error_payload(payload@) {
                r matches ReceiveOutcome::VendorError(msg) && msg@ == "Gladia returned error payload: "@
                    + payload@
            } else {
                r is Ignore
            },
        },
{
    match parse_transcript(payload) {
        Some((kind, text)) => {
            let emit = match kind {
                TranscriptKind::Final => RECEIVE_FINAL_TRANSCRIPTS,
                TranscriptKind::Partial => RECEIVE_PARTIAL_TRANSCRIPTS,
            };
            if emit && !text.as_str().is_empty() {
                let mut texts: Vec<String> = Vec::new();
                texts.push(text);
                ReceiveOutcome::Emit(texts)
            } else {
                ReceiveOutcome::Ignore
            }
        },
        None => {
            if is_error_payload(payload) {
                let msg = String::from_str("Gladia returned error payload: ").concat(payload);
                ReceiveOutcome::VendorError(msg)
            } else {
                ReceiveOutcome::Ignore
            }
        },
    }
}

/// The live-session request that opens a Gladia stream: raw 16-bit mono
/// PCM at the given rate, endpointing at 400 ms, at most a minute without
/// an endpoint, and partial transcripts only when asked for.
pub struct LiveSessionPlan {
    pub bit_depth: u8,
    pub sample_rate: u32,
    pub channels: u8,
    pub endpointing_millis: u32,
    pub maximum_duration_without_endpointing: u32,
    pub model: String,
    pub language: Option<String>,
    pub receive_partial_transcripts: bool,
    pub receive_final_transcripts: bool,
}

/// Plans the live-session request for a stream at the given rate.
pub fn live_session_plan(sample_rate: u32, model: String, language: Option<String>) -> (r:
    LiveSessionPlan)
    ensures
        r.bit_depth == 16,
        r.sample_rate == sample_rate,
        r.channels == 1,
        r.endpointing_millis == 400,
        r.maximum_duration_without_endpointing == 60,
        r.model == model,
        r.language == language,
        r.receive_partial_transcripts == RECEIVE_PARTIAL_TRANSCRIPTS,
        r.receive_final_transcripts == RECEIVE_FINAL_TRANSCRIPTS,
{
    LiveSessionPlan {
        bit_depth: 16,
        sample_rate,
        channels: 1,
        endpointing_millis: 400,
        maximum_duration_without_endpointing: 60,
        model,
        language,
        receive_partial_transcripts: RECEIVE_PARTIAL_TRANSCRIPTS,
        receive_final_transcripts: RECEIVE_FINAL_TRANSCRIPTS,
    }
}

} // verus!
