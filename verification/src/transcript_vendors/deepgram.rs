//! Deepgram stream options: language normalization and extra query
//! parameters, decided from configuration values the application reads from
//! the environment.

use vstd::prelude::*;

use crate::json::{trim_str, unicode_trimmed};
use crate::text::{
    bytes_eq, bytes_range, find_byte, find_byte_pos, lower_byte, lower_bytes, split_bytes,
    split_on_byte, string_from_utf8,
};

pub use crate::samples::pcm_chunk_to_bytes;

verus! {

use vstd::string::StringSliceAdditionalSpecFns;
use vstd::utf8::{decode_utf8, encode_utf8, valid_utf8};

/// A recognizer language, normalized from a configuration value.
pub enum LanguageTag {
    En,
    Zh,
    ZhCn,
    Other(String),
}

/// A configuration value cleaned for matching: hyphens and spaces become
/// underscores, ASCII letters lose their case.
pub open spec fn clean_bytes(b: Seq<u8>) -> Seq<u8> {
    lower_bytes(
        Seq::new(
            b.len(),
            |i: int|
                if b[i] == 45 || b[i] == 32 {
                    95u8
                } else {
                    b[i]
                },
        ),
    )
}

/// Normalizes a language value: trimmed and cleaned, `en`, `zh` and the two
/// spellings of `zh_cn` map to their tags, anything else rides along as the
/// trimmed original.
pub fn match_language(value: &str) -> (r: LanguageTag)
    ensures
        ({
            let t = unicode_trimmed(value@);
            let c = clean_bytes(encode_utf8(t));
            if c == "en".spec_bytes() {
                r is En
            } else if c == "zh".spec_bytes() {
                r is Zh
            } else if c == "zh_cn".spec_bytes() || c == "zhcn".spec_bytes() {
                r is ZhCn
            } else {
                r matches LanguageTag::Other(s) && s@ == t
            }
        }),
{
    let trimmed = trim_str(value);
    let bytes = trimmed.as_bytes();
    let mut cleaned: Vec<u8> = Vec::new();
    let mut i: usize = 0;
    while i < bytes.len()
        invariant
            i <= bytes@.len(),
            cleaned@.len() == i,
            forall|j: int|
                0 <= j < i ==> cleaned@[j] == lower_byte(
                    if bytes@[j] == 45 || bytes@[j] == 32 {
                        95u8
                    } else {
                        bytes@[j]
                    },
                ),
        decreases bytes@.len() - i,
    {
        let b = bytes[i];
        let replaced: u8 = if b == 45 || b == 32 {
            95
        } else {
            b
        };
        if 65 <= replaced && replaced <= 90 {
            cleaned.push(replaced + 32);
        } else {
            cleaned.push(replaced);
        }
        i = i + 1;
    }
    proof {
        assert(cleaned@ =~= clean_bytes(trimmed.spec_bytes()));
    }
    if bytes_eq(cleaned.as_slice(), "en".as_bytes()) {
        LanguageTag::En
    } else if bytes_eq(cleaned.as_slice(), "zh".as_bytes()) {
        LanguageTag::Zh
    } else if bytes_eq(cleaned.as_slice(), "zh_cn".as_bytes()) || bytes_eq(
        cleaned.as_slice(),
        "zhcn".as_bytes(),
    ) {
        LanguageTag::ZhCn
    } else {
        LanguageTag::Other(trimmed.to_owned())
    }
}

/// The language a configuration value selects: none when the value is
/// absent or blank.
pub fn language_of(env_value: Option<&str>) -> (r: Option<LanguageTag>)
    ensures
        env_value is None ==> r is None,
        env_value matches Some(v) && unicode_trimmed(v@).len() == 0 ==> r is None,
        env_value matches Some(v) && unicode_trimmed(v@).len() > 0 ==> r is Some,
{
    match env_value {
        Some(v) => {
            let trimmed = trim_str(v);
            if trimmed.is_empty() {
                None
            } else {
                Some(match_language(v))
            }
        },
        None => None,
    }
}

/// The key and value of one `key=value` segment: cut at the first `=`,
/// kept only when both sides are valid UTF-8; a segment without `=` is
/// dropped.
pub open spec fn spec_pair_of(seg: Seq<u8>) -> Option<(Seq<char>, Seq<char>)> {
    match find_byte(seg, 61) {
        Some(i) => {
            let k = seg.take(i);
            let v = seg.skip(i + 1);
            if valid_utf8(k) && valid_utf8(v) {
                Some((decode_utf8(k), decode_utf8(v)))
            } else {
                None
            }
        },
        None => None,
    }
}

/// The pairs of a segment list, in order, segments without one skipped.
pub open spec fn spec_pairs(segments: Seq<Seq<u8>>) -> Seq<(Seq<char>, Seq<char>)>
    decreases segments.len(),
{
    if segments.len() == 0 {
        Seq::empty()
    } else {
        (match spec_pair_of(segments[0]) {
            Some(p) => seq![p],
            None => Seq::<(Seq<char>, Seq<char>)>::empty(),
        }) + spec_pairs(segments.drop_first())
    }
}

/// The `key=value` pairs of an `&`-separated query value.
pub open spec fn spec_query_params(value: Seq<char>) -> Seq<(Seq<char>, Seq<char>)> {
    spec_pairs(split_bytes(encode_utf8(value), 38))
}

proof fn lemma_pairs_take(segments: Seq<Seq<u8>>, i: int)
    requires
        0 <= i < segments.len(),
    ensures
        spec_pairs(segments.take(i + 1)) == spec_pairs(segments.take(i)) + (
        match spec_pair_of(segments[i]) {
            Some(p) => seq![p],
            None => Seq::<(Seq<char>, Seq<char>)>::empty(),
        }),
    decreases i + 1,
{
    if i == 0 {
        assert(segments.take(1).drop_first() =~= segments.take(0));
        assert(spec_pairs(segments.take(0)) =~= Seq::<(Seq<char>, Seq<char>)>::empty());
        assert(segments.take(1)[0] == segments[0]);
        assert(spec_pairs(segments.take(1)) =~= spec_pairs(segments.take(0)) + (
        match spec_pair_of(segments[0]) {
            Some(p) => seq![p],
            None => Seq::<(Seq<char>, Seq<char>)>::empty(),
        }));
    } else {
        lemma_pairs_take(segments.drop_first(), i - 1);
        assert(segments.take(i + 1).drop_first() =~= segments.drop_first().take(i));
        assert(segments.take(i).drop_first() =~= segments.drop_first().take(i - 1));
        assert(segments.take(i + 1)[0] == segments[0]);
        assert(segments.take(i)[0] == segments[0]);
        assert(segments.drop_first()[i - 1] == segments[i]);
    }
}

/// Parses an `&`-separated list of `key=value` query parameters.
#[verifier::loop_isolation(false)]
pub fn parse_query_params(value: &str) -> (r: Vec<(String, String)>)
    ensures
        Seq::new(r@.len(), |i: int| (r@[i].0@, r@[i].1@)) == spec_query_params(value@),
{
    let segments = split_on_byte(value.as_bytes(), 38);
    let ghost seg_views = Seq::new(segments@.len(), |k: int| segments@[k]@);
    let mut r: Vec<(String, String)> = Vec::new();
    proof {
        assert(Seq::new(r@.len(), |i: int| (r@[i].0@, r@[i].1@)) =~= spec_pairs(
            seg_views.take(0),
        ));
    }
    let mut i: usize = 0;
    while i < segments.len()
        invariant
            i <= segments@.len(),
            seg_views == Seq::new(segments@.len(), |k: int| segments@[k]@),
            Seq::new(r@.len(), |k: int| (r@[k].0@, r@[k].1@)) == spec_pairs(
                seg_views.take(i as int),
            ),
        decreases segments@.len() - i,
    {
        let seg = &segments[i];
        match find_byte_pos(seg.as_slice(), 61) {
            Some(cut) => {
                proof {
                    crate::text::lemma_find_byte_bound(seg@, 61);
                }
                let seg_len = seg.len();
                let key_bytes = bytes_range(seg.as_slice(), 0, cut);
                let val_bytes = bytes_range(seg.as_slice(), cut + 1, seg_len);
                proof {
                    assert(key_bytes@ =~= seg@.take(cut as int));
                    assert(val_bytes@ =~= seg@.skip(cut + 1));
                }
                match string_from_utf8(key_bytes) {
                    Some(key) => {
                        match string_from_utf8(val_bytes) {
                            Some(val) => {
                                proof {
                                    vstd::utf8::encode_utf8_decode_utf8(key@);
                                    vstd::utf8::encode_utf8_decode_utf8(val@);
                                }
                                r.push((key, val));
                            },
                            None => {},
                        }
                    },
                    None => {},
                }
            },
            None => {},
        }
        proof {
            lemma_pairs_take(seg_views, i as int);
            assert(seg_views[i as int] == segments@[i as int]@);
            assert(Seq::new(r@.len(), |k: int| (r@[k].0@, r@[k].1@)) =~= spec_pairs(
                seg_views.take(i + 1),
            ));
        }
        i = i + 1;
    }
    proof {
        assert(seg_views.take(seg_views.len() as int) =~= seg_views);
    }
    r
}

/// This session asks its client to keep delivering in-progress transcripts
/// alongside final ones.
pub const EMIT_PARTIALS: bool = true;

/// Decides what of one transcript response reaches the result stream: its
/// trimmed text, when that has content and the response is final or
/// partials are wanted.
pub fn transcript_emission(text: &str, is_final: bool) -> (r: Option<String>)
    ensures
        if unicode_trimmed(text@).len() > 0 && (is_final || EMIT_PARTIALS) {
            r matches Some(s) && s@ == unicode_trimmed(text@)
        } else {
            r is None
        },
{
    let trimmed = trim_str(text);
    if trimmed.is_empty() {
        return None;
    }
    if is_final || EMIT_PARTIALS {
        Some(trimmed.to_owned())
    } else {
        None
    }
}

/// The options a Deepgram stream opens with.
pub struct StreamOptionsPlan {
    pub language: Option<LanguageTag>,
    pub smart_format: bool,
    pub dictation: bool,
    pub punctuate: bool,
    pub query_params: Vec<(String, String)>,
}

/// Plans the stream options: formatting on, the language from its
/// configuration value, and extra query parameters parsed from theirs when
/// it is not blank.
pub fn build_stream_options(language_env: Option<&str>, query_env: Option<&str>) -> (r:
    StreamOptionsPlan)
    ensures
        r.smart_format && r.dictation && r.punctuate,
        language_env is None ==> r.language is None,
        language_env matches Some(v) && unicode_trimmed(v@).len() == 0 ==> r.language is None,
        language_env matches Some(v) && unicode_trimmed(v@).len() > 0 ==> r.language is Some,
        match query_env {
            Some(q) => if unicode_trimmed(q@).len() > 0 {
                Seq::new(r.query_params@.len(), |i: int| (r.query_params@[i].0@, r.query_params@[i].1@))
                    == spec_query_params(q@)
            } else {
                r.query_params@.len() == 0
            },
            None => r.query_params@.len() == 0,
        },
{
    let language = language_of(language_env);
    let query_params: Vec<(String, String)> = match query_env {
        Some(q) => {
            let trimmed = trim_str(q);
            if !trimmed.is_empty() {
                parse_query_params(q)
            } else {
                Vec::new()
            }
        },
        None => Vec::new(),
    };
    StreamOptionsPlan { language, smart_format: true, dictation: true, punctuate: true, query_params }
}

} // verus!
