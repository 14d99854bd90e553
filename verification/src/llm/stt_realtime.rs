//! The realtime ASR client: signed connection parameters, the framing
//! schedule for streamed audio, and the reading of recognition results.
//!
//! Only the signature digest, the identifier and the clock come from
//! outside crates, each behind a trusted wrapper; everything that arranges,
//! encodes and joins them is verified.

use vstd::prelude::*;

use crate::json::{parse_json, parsed_json, spec_as_arr, spec_as_text, spec_get, JsonValue};
use crate::text::bytes_range;
use crate::transcript::TranscriptionError;
use crate::transcript_vendors::revai::{enc_chars, encode_component};
use base64::Engine;
use hmac::{KeyInit, Mac};

verus! {

use vstd::string::StringSliceAdditionalSpecFns;
use vstd::string::StringExecFns;
use vstd::utf8::encode_utf8;

/// The sample rate the realtime service expects, in Hz.
pub const RTASR_SAMPLE_RATE: u64 = 16000;

/// The pacing interval between audio frames, in milliseconds.
pub const FRAME_INTERVAL_MS: u64 = 40;

/// One frame of streamed audio: the bytes of forty milliseconds at the
/// service rate.
pub const AUDIO_FRAME_SIZE: usize = 1280;

/// The HMAC-SHA1 digest: a function of key and message alone.
pub uninterp spec fn hmac_sha1_of(key: Seq<u8>, msg: Seq<u8>) -> Seq<u8>;

/// Relies on the `hmac` crate's `Hmac` over `sha1`: the digest depends on
/// key and message alone and is twenty bytes, SHA-1's output size.  HMAC
/// accepts keys of any length, so the construction cannot fail; the error
/// arm is unreachable.
#[verifier::external_body]
fn hmac_sha1(key: &[u8], msg: &[u8]) -> (r: Vec<u8>)
    ensures
        r@ == hmac_sha1_of(key@, msg@),
        r@.len() == 20,
{
    let mut mac = match hmac::Hmac::<sha1::Sha1>::new_from_slice(key) {
        Ok(mac) => mac,
        Err(_) => return vec![0u8; 20],
    };
    mac.update(msg);
    mac.finalize().into_bytes().to_vec()
}

/// The standard base64 encoding of a byte sequence: a function of the
/// bytes alone.
pub uninterp spec fn base64_of(bytes: Seq<u8>) -> Seq<char>;

/// Relies on the `base64` crate's standard engine: the encoding depends on
/// the bytes alone and is four characters for every started group of three
/// bytes, padding included.
#[verifier::external_body]
fn base64_encode(bytes: &[u8]) -> (r: String)
    ensures
        r@ == base64_of(bytes@),
        r@.len() == 4 * ((bytes@.len() + 2) / 3),
{
    base64::engine::general_purpose::STANDARD.encode(bytes)
}

/// Relies on `uuid::Uuid::new_v4` and its hyphenated display: a random
/// identifier of thirty-six characters; nothing more holds of any outcome.
#[verifier::external_body]
fn new_uuid_string() -> (r: String)
    ensures
        r@.len() == 36,
{
    uuid::Uuid::new_v4().to_string()
}

/// Relies on `chrono`'s local clock and fixed-offset formatting: the
/// current time rendered in UTC+8; the outcome depends on the clock, so
/// nothing holds of it.
#[verifier::external_body]
fn now_utc8_string() -> String {
    let offset = chrono::offset::FixedOffset::east_opt(8 * 3600).unwrap();
    chrono::Local::now().with_timezone(&offset).format("%Y-%m-%dT%H:%M:%S%z").to_string()
}

/// The fixed per-session parameters of the realtime service.
pub struct FixedParams {
    pub audio_encode: String,
    pub lang: String,
    pub samplerate: String,
}

/// A client of the realtime transcription service.
pub struct RTASRClient {
    app_id: String,
    access_key_id: String,
    access_key_secret: String,
    pub(crate) base_ws_url: String,
    fixed_params: FixedParams,
}

/// One signed parameter rendered for the signature base and the query:
/// percent-encoded key, `=`, percent-encoded value.
pub open spec fn spec_param_piece(k: Seq<char>, v: Seq<char>) -> Seq<char> {
    enc_chars(k) + "="@ + enc_chars(v)
}

/// The parameters joined with `&`, each percent-encoded, in list order.
pub open spec fn spec_auth_query(params: Seq<(String, String)>) -> Seq<char>
    decreases params.len(),
{
    if params.len() == 0 {
        Seq::empty()
    } else if params.len() == 1 {
        spec_param_piece(params[0].0@, params[0].1@)
    } else {
        spec_auth_query(params.drop_last()) + "&"@ + spec_param_piece(
            params.last().0@,
            params.last().1@,
        )
    }
}

/// Joins signed parameters into a query string, percent-encoding each key
/// and value.
pub fn auth_query_string(params: &Vec<(String, String)>) -> (r: String)
    ensures
        r@ == spec_auth_query(params@),
{
    let mut out = String::new();
    proof {
        assert(out@ =~= spec_auth_query(params@.take(0)));
    }
    let mut i: usize = 0;
    while i < params.len()
        invariant
            i <= params@.len(),
            out@ == spec_auth_query(params@.take(i as int)),
        decreases params@.len() - i,
    {
        if i > 0 {
            out.append("&");
        }
        out.append(encode_component(params[i].0.as_str()).as_str());
        out.append("=");
        out.append(encode_component(params[i].1.as_str()).as_str());
        proof {
            assert(params@.take(i + 1).drop_last() =~= params@.take(i as int));
            assert(params@.take(i + 1).last() == params@[i as int]);
            assert(out@ =~= spec_auth_query(params@.take(i + 1)));
        }
        i = i + 1;
    }
    proof {
        assert(params@.take(params@.len() as int) =~= params@);
    }
    out
}

/// The signed parameter list is exactly these eight entries: the seven
/// session parameters in ascending key order, then the signature over
/// their joined encoding.
pub open spec fn spec_auth_params_ok(
    r: Seq<(String, String)>,
    app_id: Seq<char>,
    access_key_id: Seq<char>,
    access_key_secret: Seq<char>,
    uuid_value: Seq<char>,
    utc: Seq<char>,
) -> bool {
    r.len() == 8 && r[0].0@ == "accessKeyId"@ && r[0].1@ == access_key_id && r[1].0@ == "appId"@
        && r[1].1@ == app_id && r[2].0@ == "audio_encode"@ && r[2].1@ == "pcm_s16le"@ && r[3].0@
        == "lang"@ && r[3].1@ == "autodialect"@ && r[4].0@ == "samplerate"@ && r[4].1@ == "16000"@
        && r[5].0@ == "utc"@ && r[5].1@ == utc && r[6].0@ == "uuid"@ && r[6].1@ == uuid_value
        && r[7].0@ == "signature"@ && r[7].1@ == base64_of(
        hmac_sha1_of(encode_utf8(access_key_secret), encode_utf8(spec_auth_query(r.take(7)))),
    )
}

impl RTASRClient {
    pub closed spec fn spec_app_id(&self) -> Seq<char> {
        self.app_id@
    }

    pub closed spec fn spec_access_key_id(&self) -> Seq<char> {
        self.access_key_id@
    }

    pub closed spec fn spec_access_key_secret(&self) -> Seq<char> {
        self.access_key_secret@
    }

    pub closed spec fn spec_base_ws_url(&self) -> Seq<char> {
        self.base_ws_url@
    }

    /// The service endpoint this client connects to.
    pub fn base_url(&self) -> (r: &str)
        ensures
            r@ == self.spec_base_ws_url(),
    {
        self.base_ws_url.as_str()
    }

    /// The fixed session parameters hold their protocol values.
    pub closed spec fn wf(&self) -> bool {
        self.fixed_params.audio_encode@ == "pcm_s16le"@ && self.fixed_params.lang@
            == "autodialect"@ && self.fixed_params.samplerate@ == "16000"@
    }

    /// Builds a client for the realtime service endpoint, streaming signed
    /// 16-bit little-endian PCM at 16 kHz with automatic dialect handling.
    pub fn new(app_id: &str, access_key_id: &str, access_key_secret: &str) -> (r: Self)
        ensures
            r.wf(),
            r.spec_app_id() == app_id@,
            r.spec_access_key_id() == access_key_id@,
            r.spec_access_key_secret() == access_key_secret@,
            r.spec_base_ws_url() == "wss://office-api-ast-dx.iflyaisol.com/ast/communicate/v1"@,
    {
        RTASRClient {
            app_id: app_id.to_owned(),
            access_key_id: access_key_id.to_owned(),
            access_key_secret: access_key_secret.to_owned(),
            base_ws_url: String::from_str(
                "wss://office-api-ast-dx.iflyaisol.com/ast/communicate/v1",
            ),
            fixed_params: FixedParams {
                audio_encode: String::from_str("pcm_s16le"),
                lang: String::from_str("autodialect"),
                samplerate: String::from_str("16000"),
            },
        }
    }

    /// Assembles the signed parameters for one connection from the given
    /// identifier and timestamp: the seven session parameters in ascending
    /// key order, then their signature.
    pub fn auth_params_with(&self, uuid_value: &str, utc: &str) -> (r: Vec<(String, String)>)
        requires
            self.wf(),
        ensures
            spec_auth_params_ok(
                r@,
                self.spec_app_id(),
                self.spec_access_key_id(),
                self.spec_access_key_secret(),
                uuid_value@,
                utc@,
            ),
    {
        let mut params: Vec<(String, String)> = Vec::new();
        params.push((String::from_str("accessKeyId"), self.access_key_id.clone()));
        params.push((String::from_str("appId"), self.app_id.clone()));
        params.push((String::from_str("audio_encode"), self.fixed_params.audio_encode.clone()));
        params.push((String::from_str("lang"), self.fixed_params.lang.clone()));
        params.push((String::from_str("samplerate"), self.fixed_params.samplerate.clone()));
        params.push((String::from_str("utc"), utc.to_owned()));
        params.push((String::from_str("uuid"), uuid_value.to_owned()));
        let ghost seven = params@;
        let base = auth_query_string(&params);
        let digest = hmac_sha1(self.access_key_secret.as_str().as_bytes(), base.as_str().as_bytes());
        let signature = base64_encode(digest.as_slice());
        params.push((String::from_str("signature"), signature));
        proof {
            assert(params@.take(7) =~= seven);
        }
        params
    }

    /// Assembles the signed parameters for one connection, drawing a fresh
    /// identifier and the current time; whatever those come out as, the
    /// list has the same shape and its signature matches them.
    pub fn generate_auth_params(&self) -> (r: Vec<(String, String)>)
        requires
            self.wf(),
        ensures
            spec_auth_params_ok(
                r@,
                self.spec_app_id(),
                self.spec_access_key_id(),
                self.spec_access_key_secret(),
                r@[6].1@,
                r@[5].1@,
            ),
            r@.len() == 8 ==> r@[6].1@.len() == 36,
    {
        let uuid_value = new_uuid_string();
        let utc = now_utc8_string();
        self.auth_params_with(uuid_value.as_str(), utc.as_str())
    }

    /// Reads the recognized text out of a result payload: over all
    /// segments, the `w` strings of their `ws` word lists, concatenated in
    /// order; a payload that is valid JSON but no array holds no text.
    pub fn extract_text_from_asr_result_fixed(content: &str) -> (r: Result<
        String,
        TranscriptionError,
    >)
        ensures
            match parsed_json(content@) {
                None => r matches Err(e) && e is ParseError,
                Some(v) => r matches Ok(text) && text@ == (match spec_as_arr(v) {
                    Some(segments) => spec_segments_text(segments),
                    None => Seq::<char>::empty(),
                }),
            },
    {
        let v = match parse_json(content) {
            Some(v) => v,
            None => {
                return Err(
                    TranscriptionError::ParseError(String::from_str("invalid result payload")),
                );
            },
        };
        let mut text = String::new();
        let segments = match v.as_arr() {
            Some(segments) => segments,
            None => {
                assert(text@ =~= Seq::<char>::empty());
                return Ok(text);
            },
        };
        proof {
            assert(text@ =~= spec_segments_text(segments@.take(0)));
        }
        let mut i: usize = 0;
        while i < segments.len()
            invariant
                i <= segments@.len(),
                text@ == spec_segments_text(segments@.take(i as int)),
            decreases segments@.len() - i,
        {
            match segments[i].get("ws") {
                Some(ws_entry) => {
                    match ws_entry.as_arr() {
                        Some(words) => {
                            let ghost before = text@;
                            let mut j: usize = 0;
                            while j < words.len()
                                invariant
                                    j <= words@.len(),
                                    text@ == before + spec_words_text(words@.take(j as int)),
                                decreases words@.len() - j,
                            {
                                match words[j].get("w") {
                                    Some(w_entry) => {
                                        match w_entry.as_text() {
                                            Some(word) => {
                                                text.append(word.as_str());
                                            },
                                            None => {},
                                        }
                                    },
                                    None => {},
                                }
                                proof {
                                    lemma_words_text_take(words@, j as int);
                                    assert(text@ =~= before + spec_words_text(
                                        words@.take(j + 1),
                                    ));
                                }
                                j = j + 1;
                            }
                            proof {
                                assert(words@.take(words@.len() as int) =~= words@);
                            }
                        },
                        None => {},
                    }
                },
                None => {},
            }
            proof {
                lemma_segments_text_take(segments@, i as int);
                assert(text@ =~= spec_segments_text(segments@.take(i + 1)));
            }
            i = i + 1;
        }
        proof {
            assert(segments@.take(segments@.len() as int) =~= segments@);
        }
        Ok(text)
    }
}

/// The `w` string of one word entry, or nothing.
pub open spec fn spec_word_of(w: JsonValue) -> Seq<char> {
    match spec_get(w, "w"@) {
        Some(e) => match spec_as_text(e) {
            Some(s) => s,
            None => Seq::<char>::empty(),
        },
        None => Seq::<char>::empty(),
    }
}

/// The concatenated words of a word list.
pub open spec fn spec_words_text(words: Seq<JsonValue>) -> Seq<char>
    decreases words.len(),
{
    if words.len() == 0 {
        Seq::empty()
    } else {
        spec_words_text(words.drop_last()) + spec_word_of(words.last())
    }
}

/// The word text of one segment: its `ws` word list, or nothing.
pub open spec fn spec_segment_text(seg: JsonValue) -> Seq<char> {
    match spec_get(seg, "ws"@) {
        Some(e) => match spec_as_arr(e) {
            Some(words) => spec_words_text(words),
            None => Seq::<char>::empty(),
        },
        None => Seq::<char>::empty(),
    }
}

/// The concatenated text of all segments.
pub open spec fn spec_segments_text(segments: Seq<JsonValue>) -> Seq<char>
    decreases segments.len(),
{
    if segments.len() == 0 {
        Seq::empty()
    } else {
        spec_segments_text(segments.drop_last()) + spec_segment_text(segments.last())
    }
}

proof fn lemma_words_text_take(words: Seq<JsonValue>, j: int)
    requires
        0 <= j < words.len(),
    ensures
        spec_words_text(words.take(j + 1)) == spec_words_text(words.take(j)) + spec_word_of(
            words[j],
        ),
{
    assert(words.take(j + 1).drop_last() =~= words.take(j));
    assert(words.take(j + 1).last() == words[j]);
}

proof fn lemma_segments_text_take(segments: Seq<JsonValue>, i: int)
    requires
        0 <= i < segments.len(),
    ensures
        spec_segments_text(segments.take(i + 1)) == spec_segments_text(segments.take(i))
            + spec_segment_text(segments[i]),
{
    assert(segments.take(i + 1).drop_last() =~= segments.take(i));
    assert(segments.take(i + 1).last() == segments[i]);
}

/// The end-of-stream marker of the realtime service.
pub fn end_marker() -> (r: String)
    ensures
        r@ == "{\"end\":true}"@,
{
    String::from_str("{\"end\":true}")
}

/// How many frames a byte buffer streams as: whole frames, and one more
/// for a trailing remainder.
pub fn frame_count(total_bytes: usize) -> (r: usize)
    ensures
        r == (total_bytes + (AUDIO_FRAME_SIZE - 1)) as nat / AUDIO_FRAME_SIZE as nat,
{
    if total_bytes > usize::MAX - (AUDIO_FRAME_SIZE - 1) {
        // Cannot happen for real buffers; stay total anyway.
        (total_bytes / AUDIO_FRAME_SIZE) + (
        if total_bytes % AUDIO_FRAME_SIZE != 0 {
            1
        } else {
            0
        })
    } else {
        (total_bytes + (AUDIO_FRAME_SIZE - 1)) / AUDIO_FRAME_SIZE
    }
}

/// When a frame is due on the pacing schedule: frames leave every
/// interval.
pub fn frame_delay_millis(index: u64) -> (r: u64)
    requires
        index <= u64::MAX / FRAME_INTERVAL_MS,
    ensures
        r == index * FRAME_INTERVAL_MS,
{
    index * FRAME_INTERVAL_MS
}

/// The bytes of one frame: a full window, or whatever is left at the end.
pub fn frame_at(bytes: &[u8], index: usize) -> (r: Vec<u8>)
    requires
        index * AUDIO_FRAME_SIZE < bytes@.len(),
    ensures
        r@ == bytes@.subrange(
            (index * AUDIO_FRAME_SIZE) as int,
            if (index + 1) * AUDIO_FRAME_SIZE <= bytes@.len() {
                ((index + 1) * AUDIO_FRAME_SIZE) as int
            } else {
                bytes@.len() as int
            },
        ),
{
    let n = bytes.len();
    let start = index * AUDIO_FRAME_SIZE;
    let rest = n - start;
    let len = if rest < AUDIO_FRAME_SIZE {
        rest
    } else {
        AUDIO_FRAME_SIZE
    };
    bytes_range(bytes, start, start + len)
}

} // verus!
