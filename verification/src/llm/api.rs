//! The model-API response handling: the error taxonomy, HTTP status
//! classification, and the server-sent-event stream processor that
//! accumulates streamed chat content.

use vstd::prelude::*;

use crate::json::{
    parse_json, parsed_json, spec_as_arr, spec_as_text, spec_get, trim_str, unicode_trimmed,
    JsonValue,
};
use crate::text::{
    bytes_contains, bytes_range, bytes_starts_with, contains_seq, starts_with_seq, str_eq,
    string_from_utf8,
};

verus! {

use vstd::string::StringSliceAdditionalSpecFns;
use vstd::string::StringExecFns;
use vstd::utf8::{decode_utf8, encode_utf8, valid_utf8};

/// Why a model call failed.
pub enum ModelError {
    NetworkError(String),
    InvalidResponse(String),
    Timeout,
    RateLimited,
    Unauthorized,
    InternalServerError,
    StreamingError(String),
    JsonParseError(String),
}

impl ModelError {
    /// The user-facing description of this error.
    pub fn message(&self) -> (r: String)
        ensures
            match *self {
                ModelError::NetworkError(msg) => r@ == "网络连接错误: "@ + msg@,
                ModelError::InvalidResponse(msg) => r@ == "服务器响应无效: "@ + msg@,
                ModelError::Timeout => r@ == "请求超时"@,
                ModelError::RateLimited => r@ == "请求频率限制，请稍后重试"@,
                ModelError::Unauthorized => r@ == "API密钥无效或未授权"@,
                ModelError::InternalServerError => r@ == "服务器内部错误"@,
                ModelError::StreamingError(msg) => r@ == "流式传输错误: "@ + msg@,
                ModelError::JsonParseError(msg) => r@ == "JSON解析错误: "@ + msg@,
            },
    {
        match self {
            ModelError::NetworkError(msg) => String::from_str("网络连接错误: ").concat(
                msg.as_str(),
            ),
            ModelError::InvalidResponse(msg) => String::from_str("服务器响应无效: ").concat(
                msg.as_str(),
            ),
            ModelError::Timeout => String::from_str("请求超时"),
            ModelError::RateLimited => String::from_str("请求频率限制，请稍后重试"),
            ModelError::Unauthorized => String::from_str("API密钥无效或未授权"),
            ModelError::InternalServerError => String::from_str("服务器内部错误"),
            ModelError::StreamingError(msg) => String::from_str("流式传输错误: ").concat(
                msg.as_str(),
            ),
            ModelError::JsonParseError(msg) => String::from_str("JSON解析错误: ").concat(
                msg.as_str(),
            ),
        }
    }
}

/// Classifies a non-success HTTP status: unauthorized, rate-limited, a
/// server-side failure, or an invalid response naming the code.
pub fn classify_status(code: u16) -> (r: ModelError)
    ensures
        code == 401 ==> r is Unauthorized,
        code == 429 ==> r is RateLimited,
        500 <= code <= 599 ==> r is InternalServerError,
        !(code == 401 || code == 429 || 500 <= code <= 599) ==> (
        r matches ModelError::InvalidResponse(msg) && msg@ == "HTTP状态码: "@ + crate::text::dec_chars(
            code as nat,
        )),
{
    if code == 401 {
        ModelError::Unauthorized
    } else if code == 429 {
        ModelError::RateLimited
    } else if 500 <= code && code <= 599 {
        ModelError::InternalServerError
    } else {
        let msg = String::from_str("HTTP状态码: ").concat(
            crate::text::u32_to_string(code as u32).as_str(),
        );
        ModelError::InvalidResponse(msg)
    }
}

/// A streamed response must declare a plain-text or event-stream content
/// type.
pub fn content_type_is_streaming(content_type: &str) -> (r: bool)
    ensures
        r == (contains_seq(encode_utf8(content_type@), "text/plain".spec_bytes()) || contains_seq(
            encode_utf8(content_type@),
            "text/event-stream".spec_bytes(),
        )),
{
    bytes_contains(content_type.as_bytes(), "text/plain".as_bytes()) || bytes_contains(
        content_type.as_bytes(),
        "text/event-stream".as_bytes(),
    )
}

/// The streamed content one event line carries, if any.
pub enum SseLineOutcome {
    /// Nothing on this line; keep reading.
    Resume,
    /// The stream is done; the accumulated result stands.
    Done,
    /// Content arrived: it was appended to the result and should also go
    /// out to the live listener.
    Content(String),
    /// The server put an error object on the stream; its payload rides
    /// along.
    ApiError(String),
    /// Too many lines in a row would not parse.
    TooManyParseErrors,
}

/// How many unparsable lines in a row end the stream.
pub const MAX_CONSECUTIVE_ERRORS: usize = 5;

/// The running state of one streamed response.
pub struct SseState {
    /// The content accumulated so far.
    pub result: String,
    /// How many lines in a row failed to parse.
    pub consecutive_errors: usize,
}

/// The `data: ` payload of a trimmed event line, if it carries one.
pub open spec fn spec_sse_payload(lt: Seq<char>) -> Option<Seq<char>> {
    let b = encode_utf8(lt);
    let p = "data: ".spec_bytes();
    if starts_with_seq(b, p) && valid_utf8(b.skip(p.len() as int)) {
        Some(decode_utf8(b.skip(p.len() as int)))
    } else {
        None
    }
}

/// The streamed content of a data payload: the first choice's delta
/// content.
pub open spec fn spec_sse_content(v: JsonValue) -> Option<Seq<char>> {
    match spec_get(v, "choices"@) {
        Some(choices) => match spec_as_arr(choices) {
            Some(items) => if items.len() > 0 {
                match spec_get(items[0], "delta"@) {
                    Some(delta) => match spec_get(delta, "content"@) {
                        Some(c) => spec_as_text(c),
                        None => None,
                    },
                    None => None,
                }
            } else {
                None
            },
            None => None,
        },
        None => None,
    }
}

impl SseState {
    pub fn new() -> (r: Self)
        ensures
            r.result@ == Seq::<char>::empty(),
            r.consecutive_errors == 0,
    {
        let r = SseState { result: String::new(), consecutive_errors: 0 };
        assert(r.result@ =~= Seq::<char>::empty());
        r
    }

    /// Takes one line of the event stream.  Blank lines, comments and
    /// non-data lines pass; `[DONE]` ends the stream; an error object ends
    /// it with the payload; parsed content is appended to the result; an
    /// unparsable payload counts toward the give-up limit, and any parsed
    /// one resets the count.
    pub fn process_line(&mut self, line: &str) -> (r: SseLineOutcome)
        ensures
            ({
                let lt = unicode_trimmed(line@);
                match spec_sse_payload(lt) {
                    None => r is Resume && *final(self) == *old(self),
                    Some(payload) => if payload == "[DONE]"@ {
                        r is Done && *final(self) == *old(self)
                    } else {
                        match parsed_json(payload) {
                            None => if old(self).consecutive_errors + 1
                                >= MAX_CONSECUTIVE_ERRORS {
                                r is TooManyParseErrors
                            } else {
                                r is Resume && final(self).consecutive_errors == old(self).consecutive_errors + 1 && final(self).result == old(self).result
                            },
                            Some(v) => if spec_get(v, "error"@) is Some {
                                (r matches SseLineOutcome::ApiError(msg) && msg@ == payload)
                            } else {
                                final(self).consecutive_errors == 0 && match spec_sse_content(
                                    v,
                                ) {
                                    Some(content) => (
                                    r matches SseLineOutcome::Content(c) && c@ == content) && final(self).result@ == old(self).result@ + content,
                                    None => r is Resume && final(self).result == old(self).result,
                                }
                            },
                        }
                    },
                }
            }),
    {
        let trimmed = trim_str(line);
        let tb = trimmed.as_bytes();
        let prefix = "data: ".as_bytes();
        if !bytes_starts_with(tb, prefix) {
            return SseLineOutcome::Resume;
        }
        let payload_bytes = bytes_range(tb, prefix.len(), tb.len());
        proof {
            assert(payload_bytes@ =~= trimmed.spec_bytes().skip(
                "data: ".spec_bytes().len() as int,
            ));
        }
        let payload = match string_from_utf8(payload_bytes) {
            Some(p) => p,
            None => {
                return SseLineOutcome::Resume;
            },
        };
        proof {
            vstd::utf8::encode_utf8_decode_utf8(payload@);
        }
        if str_eq(payload.as_str(), "[DONE]") {
            return SseLineOutcome::Done;
        }
        match parse_json(payload.as_str()) {
            None => {
                if self.consecutive_errors >= MAX_CONSECUTIVE_ERRORS - 1 {
                    SseLineOutcome::TooManyParseErrors
                } else {
                    self.consecutive_errors = self.consecutive_errors + 1;
                    SseLineOutcome::Resume
                }
            },
            Some(v) => {
                match v.get("error") {
                    Some(_) => SseLineOutcome::ApiError(payload),
                    None => {
                        self.consecutive_errors = 0;
                        let content: Option<&String> = match v.get("choices") {
                            Some(choices) => match choices.as_arr() {
                                Some(items) => {
                                    if items.len() > 0 {
                                        match items[0].get("delta") {
                                            Some(delta) => match delta.get("content") {
                                                Some(c) => c.as_text(),
                                                None => None,
                                            },
                                            None => None,
                                        }
                                    } else {
                                        None
                                    }
                                },
                                None => None,
                            },
                            None => None,
                        };
                        match content {
                            Some(c) => {
                                let piece: String = c.as_str().to_owned();
                                self.result.append(piece.as_str());
                                SseLineOutcome::Content(piece)
                            },
                            None => SseLineOutcome::Resume,
                        }
                    },
                }
            },
        }
    }
}

} // verus!
