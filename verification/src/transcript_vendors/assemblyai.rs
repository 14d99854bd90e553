//! Reading AssemblyAI's streaming messages: turn events, plain transcript
//! events, nested turn lists, and the server's termination notice.

use vstd::prelude::*;

use crate::json::{
    parse_json, parsed_json, spec_as_arr, spec_as_bool, spec_as_text, spec_get, trim_str,
    unicode_trimmed, JsonValue,
};
use crate::text::{dec_chars, str_eq, u32_to_string};
use crate::transcript_vendors::ReceiveOutcome;

verus! {

use vstd::string::StringExecFns;

/// The streaming connection's query: the sample rate, formatted turns, and
/// the end-of-turn silence threshold.
pub fn stream_query(sample_rate: u32) -> (r: String)
    ensures
        r@ == "sample_rate="@ + dec_chars(sample_rate as nat)
            + "&format_turns=true&min_end_of_turn_silence_when_confident=900"@,
{
    String::from_str("sample_rate=").concat(u32_to_string(sample_rate).as_str()).concat(
        "&format_turns=true&min_end_of_turn_silence_when_confident=900",
    )
}

/// The view sequences of a list of key names.
pub open spec fn views_of(keys: Seq<&str>) -> Seq<Seq<char>> {
    Seq::new(keys.len(), |i: int| keys[i]@)
}

/// The event type of a message: its `type` entry if present, else its
/// `message_type` entry, read as a string.
pub open spec fn spec_resolve_event_type(v: JsonValue) -> Option<Seq<char>> {
    let entry = if spec_get(v, "type"@) is Some {
        spec_get(v, "type"@)
    } else {
        spec_get(v, "message_type"@)
    };
    match entry {
        Some(e) => spec_as_text(e),
        None => None,
    }
}

/// The event type of a message.
pub fn resolve_event_type<'a>(value: &'a JsonValue) -> (r: Option<&'a String>)
    ensures
        match r {
            Some(s) => spec_resolve_event_type(*value) == Some(s@),
            None => spec_resolve_event_type(*value) is None,
        },
{
    let entry = match value.get("type") {
        Some(e) => Some(e),
        None => value.get("message_type"),
    };
    match entry {
        Some(e) => e.as_text(),
        None => None,
    }
}

/// The first of the given keys whose entry is a boolean decides; without
/// one, the default holds.
pub open spec fn spec_bool_flag(v: JsonValue, keys: Seq<Seq<char>>, default: bool) -> bool
    decreases keys.len(),
{
    if keys.len() == 0 {
        default
    } else {
        match spec_get(v, keys[0]) {
            Some(entry) => match spec_as_bool(entry) {
                Some(b) => b,
                None => spec_bool_flag(v, keys.drop_first(), default),
            },
            None => spec_bool_flag(v, keys.drop_first(), default),
        }
    }
}

proof fn lemma_bool_flag_skip(v: JsonValue, keys: Seq<Seq<char>>, default: bool, i: int)
    requires
        0 <= i <= keys.len(),
        forall|j: int|
            0 <= j < i ==> match spec_get(v, #[trigger] keys[j]) {
                Some(entry) => spec_as_bool(entry) is None,
                None => true,
            },
    ensures
        spec_bool_flag(v, keys, default) == spec_bool_flag(v, keys.skip(i), default),
    decreases i,
{
    if i > 0 {
        assert(keys.skip(0) =~= keys);
        assert(keys.drop_first() =~= keys.skip(1));
        lemma_bool_flag_skip(v, keys.skip(1), default, i - 1);
        assert(keys.skip(1).skip(i - 1) =~= keys.skip(i));
        assert(forall|j: int| 0 <= j < i - 1 ==> #[trigger] keys.skip(1)[j] == keys[j + 1]);
    } else {
        assert(keys.skip(0) =~= keys);
    }
}

/// Reads the first boolean among the given keys, with a default.
#[verifier::loop_isolation(false)]
pub fn bool_flag(value: &JsonValue, keys: &[&str], default: bool) -> (r: bool)
    ensures
        r == spec_bool_flag(*value, views_of(keys@), default),
{
    let ghost kviews = views_of(keys@);
    let mut i: usize = 0;
    while i < keys.len()
        invariant
            i <= keys@.len(),
            forall|j: int|
                0 <= j < i ==> match spec_get(*value, #[trigger] kviews[j]) {
                    Some(entry) => spec_as_bool(entry) is None,
                    None => true,
                },
        decreases keys@.len() - i,
    {
        match value.get(keys[i]) {
            Some(entry) => {
                match entry.as_bool() {
                    Some(b) => {
                        proof {
                            lemma_bool_flag_skip(*value, kviews, default, i as int);
                            assert(kviews.skip(i as int)[0] == kviews[i as int]);
                        }
                        return b;
                    },
                    None => {},
                }
            },
            None => {},
        }
        i = i + 1;
    }
    proof {
        lemma_bool_flag_skip(*value, kviews, default, keys@.len() as int);
    }
    default
}

/// The trimmed text of the first of the given fields that holds a string
/// with non-whitespace content.
pub open spec fn spec_first_non_empty_text(v: JsonValue, fields: Seq<Seq<char>>) -> Option<
    Seq<char>,
>
    decreases fields.len(),
{
    if fields.len() == 0 {
        None
    } else {
        let trimmed = match spec_get(v, fields[0]) {
            Some(entry) => match spec_as_text(entry) {
                Some(s) => Some(unicode_trimmed(s)),
                None => None,
            },
            None => None,
        };
        match trimmed {
            Some(t) => if t.len() > 0 {
                Some(t)
            } else {
                spec_first_non_empty_text(v, fields.drop_first())
            },
            None => spec_first_non_empty_text(v, fields.drop_first()),
        }
    }
}

proof fn lemma_first_text_skip(v: JsonValue, fields: Seq<Seq<char>>, i: int)
    requires
        0 <= i <= fields.len(),
        forall|j: int|
            0 <= j < i ==> match spec_get(v, #[trigger] fields[j]) {
                Some(entry) => match spec_as_text(entry) {
                    Some(s) => unicode_trimmed(s).len() == 0,
                    None => true,
                },
                None => true,
            },
    ensures
        spec_first_non_empty_text(v, fields) == spec_first_non_empty_text(v, fields.skip(i)),
    decreases i,
{
    if i > 0 {
        assert(fields.skip(0) =~= fields);
        assert(fields.drop_first() =~= fields.skip(1));
        lemma_first_text_skip(v, fields.skip(1), i - 1);
        assert(fields.skip(1).skip(i - 1) =~= fields.skip(i));
        assert(forall|j: int| 0 <= j < i - 1 ==> #[trigger] fields.skip(1)[j] == fields[j + 1]);
    } else {
        assert(fields.skip(0) =~= fields);
    }
}

/// Finds the first field holding non-whitespace text and returns it
/// trimmed.
#[verifier::loop_isolation(false)]
pub fn first_non_empty_text(value: &JsonValue, fields: &[&str]) -> (r: Option<String>)
    ensures
        match r {
            Some(s) => spec_first_non_empty_text(*value, views_of(fields@)) == Some(s@),
            None => spec_first_non_empty_text(*value, views_of(fields@)) is None,
        },
{
    let ghost fviews = views_of(fields@);
    let mut i: usize = 0;
    while i < fields.len()
        invariant
            i <= fields@.len(),
            forall|j: int|
                0 <= j < i ==> match spec_get(*value, #[trigger] fviews[j]) {
                    Some(entry) => match spec_as_text(entry) {
                        Some(s) => unicode_trimmed(s).len() == 0,
                        None => true,
                    },
                    None => true,
                },
        decreases fields@.len() - i,
    {
        match value.get(fields[i]) {
            Some(entry) => {
                match entry.as_text() {
                    Some(text) => {
                        let trimmed = trim_str(text.as_str());
                        if !trimmed.is_empty() {
                            proof {
                                lemma_first_text_skip(*value, fviews, i as int);
                                assert(fviews.skip(i as int)[0] == fviews[i as int]);
                            }
                            return Some(trimmed.to_owned());
                        }
                    },
                    None => {},
                }
            },
            None => {},
        }
        i = i + 1;
    }
    proof {
        lemma_first_text_skip(*value, fviews, fields@.len() as int);
    }
    None
}

/// The transcript of a finished turn: only a turn marked final (or
/// formatted) speaks, through its first non-empty text field.
pub open spec fn spec_turn_transcripts(v: JsonValue) -> Seq<Seq<char>> {
    if !spec_bool_flag(
        v,
        seq!["end_of_turn"@, "turn_is_final"@, "turn_is_formatted"@],
        false,
    ) {
        Seq::empty()
    } else {
        match spec_first_non_empty_text(v, seq!["utterance"@, "transcript"@]) {
            Some(t) => seq![t],
            None => Seq::empty(),
        }
    }
}

/// Extracts the transcript of a turn event.
pub fn extract_turn_transcripts(value: &JsonValue) -> (r: Vec<String>)
    ensures
        Seq::new(r@.len(), |i: int| r@[i]@) == spec_turn_transcripts(*value),
{
    let keys: [&str; 3] = ["end_of_turn", "turn_is_final", "turn_is_formatted"];
    proof {
        assert(views_of(keys@) =~= seq!["end_of_turn"@, "turn_is_final"@, "turn_is_formatted"@]);
    }
    if !bool_flag(value, keys.as_slice(), false) {
        let r: Vec<String> = Vec::new();
        proof {
            assert(Seq::new(r@.len(), |i: int| r@[i]@) =~= Seq::<Seq<char>>::empty());
        }
        return r;
    }
    let fields: [&str; 2] = ["utterance", "transcript"];
    proof {
        assert(views_of(fields@) =~= seq!["utterance"@, "transcript"@]);
    }
    let mut r: Vec<String> = Vec::new();
    match first_non_empty_text(value, fields.as_slice()) {
        Some(text) => {
            r.push(text);
            proof {
                assert(Seq::new(r@.len(), |i: int| r@[i]@) =~= spec_turn_transcripts(*value));
            }
        },
        None => {
            proof {
                assert(Seq::new(r@.len(), |i: int| r@[i]@) =~= spec_turn_transcripts(*value));
            }
        },
    }
    r
}

/// The transcript of a plain event: only one marked final speaks (or any,
/// when the event type itself already means final).
pub open spec fn spec_plain_transcripts(v: JsonValue, treat_type_as_final: bool) -> Seq<
    Seq<char>,
> {
    let is_final = treat_type_as_final || spec_bool_flag(
        v,
        seq!["is_final"@, "final"@, "end_of_turn"@, "turn_is_final"@, "turn_is_formatted"@],
        false,
    );
    if !is_final {
        Seq::empty()
    } else {
        match spec_first_non_empty_text(v, seq!["text"@, "transcript"@, "utterance"@]) {
            Some(t) => seq![t],
            None => Seq::empty(),
        }
    }
}

/// Extracts the transcript of a plain transcript event.
pub fn extract_plain_transcripts(value: &JsonValue, treat_type_as_final: bool) -> (r: Vec<String>)
    ensures
        Seq::new(r@.len(), |i: int| r@[i]@) == spec_plain_transcripts(
            *value,
            treat_type_as_final,
        ),
{
    let keys: [&str; 5] = [
        "is_final",
        "final",
        "end_of_turn",
        "turn_is_final",
        "turn_is_formatted",
    ];
    proof {
        assert(views_of(keys@) =~= seq![
            "is_final"@,
            "final"@,
            "end_of_turn"@,
            "turn_is_final"@,
            "turn_is_formatted"@,
        ]);
    }
    let is_final = if treat_type_as_final {
        true
    } else {
        bool_flag(value, keys.as_slice(), false)
    };
    let mut r: Vec<String> = Vec::new();
    if !is_final {
        proof {
            assert(Seq::new(r@.len(), |i: int| r@[i]@) =~= Seq::<Seq<char>>::empty());
        }
        return r;
    }
    let fields: [&str; 3] = ["text", "transcript", "utterance"];
    proof {
        assert(views_of(fields@) =~= seq!["text"@, "transcript"@, "utterance"@]);
    }
    match first_non_empty_text(value, fields.as_slice()) {
        Some(text) => {
            r.push(text);
            proof {
                assert(Seq::new(r@.len(), |i: int| r@[i]@) =~= spec_plain_transcripts(
                    *value,
                    treat_type_as_final,
                ));
            }
        },
        None => {
            proof {
                assert(Seq::new(r@.len(), |i: int| r@[i]@) =~= spec_plain_transcripts(
                    *value,
                    treat_type_as_final,
                ));
            }
        },
    }
    r
}

/// The texts of the qualifying turns in a list, in order: a turn qualifies
/// unless a flag marks it unfinished, and speaks through its first
/// non-empty text field.
pub open spec fn spec_collect_turns(items: Seq<JsonValue>) -> Seq<Seq<char>>
    decreases items.len(),
{
    if items.len() == 0 {
        Seq::empty()
    } else {
        let head = if spec_bool_flag(
            items[0],
            seq!["turn_is_final"@, "turn_is_formatted"@, "is_final"@, "end_of_turn"@],
            true,
        ) {
            match spec_first_non_empty_text(
                items[0],
                seq![
                    "utterance"@,
                    "transcript"@,
                    "formatted_text"@,
                    "formatted_transcript"@,
                    "text"@,
                ],
            ) {
                Some(t) => seq![t],
                None => Seq::<Seq<char>>::empty(),
            }
        } else {
            Seq::<Seq<char>>::empty()
        };
        head + spec_collect_turns(items.drop_first())
    }
}

/// The transcripts hidden in a message's `conversation` or `turns` list.
pub open spec fn spec_nested_turns(v: JsonValue) -> Seq<Seq<char>> {
    let entry = if spec_get(v, "conversation"@) is Some {
        spec_get(v, "conversation"@)
    } else {
        spec_get(v, "turns"@)
    };
    match entry {
        Some(e) => match spec_as_arr(e) {
            Some(items) => spec_collect_turns(items),
            None => Seq::empty(),
        },
        None => Seq::empty(),
    }
}

proof fn lemma_collect_turns_take(items: Seq<JsonValue>, i: int)
    requires
        0 <= i < items.len(),
    ensures
        spec_collect_turns(items.take(i + 1)) == spec_collect_turns(items.take(i)) + (
        if spec_bool_flag(
            items[i],
            seq!["turn_is_final"@, "turn_is_formatted"@, "is_final"@, "end_of_turn"@],
            true,
        ) {
            match spec_first_non_empty_text(
                items[i],
                seq![
                    "utterance"@,
                    "transcript"@,
                    "formatted_text"@,
                    "formatted_transcript"@,
                    "text"@,
                ],
            ) {
                Some(t) => seq![t],
                None => Seq::<Seq<char>>::empty(),
            }
        } else {
            Seq::<Seq<char>>::empty()
        }),
    decreases i + 1,
{
    if i == 0 {
        assert(items.take(1).drop_first() =~= items.take(0));
        assert(spec_collect_turns(items.take(0)) =~= Seq::<Seq<char>>::empty());
        assert(items.take(1)[0] == items[0]);
        assert(spec_collect_turns(items.take(1)) =~= spec_collect_turns(items.take(0)) + (
        if spec_bool_flag(
            items[0],
            seq!["turn_is_final"@, "turn_is_formatted"@, "is_final"@, "end_of_turn"@],
            true,
        ) {
            match spec_first_non_empty_text(
                items[0],
                seq![
                    "utterance"@,
                    "transcript"@,
                    "formatted_text"@,
                    "formatted_transcript"@,
                    "text"@,
                ],
            ) {
                Some(t) => seq![t],
                None => Seq::<Seq<char>>::empty(),
            }
        } else {
            Seq::<Seq<char>>::empty()
        }));
    } else {
        lemma_collect_turns_take(items.drop_first(), i - 1);
        assert(items.take(i + 1).drop_first() =~= items.drop_first().take(i));
        assert(items.take(i).drop_first() =~= items.drop_first().take(i - 1));
        assert(items.take(i + 1)[0] == items[0]);
        assert(items.take(i)[0] == items[0]);
        assert(items.drop_first()[i - 1] == items[i]);
    }
}

/// Collects the qualifying turns of a nested turn list.
#[verifier::loop_isolation(false)]
pub fn extract_nested_turns(value: &JsonValue) -> (r: Vec<String>)
    ensures
        Seq::new(r@.len(), |i: int| r@[i]@) == spec_nested_turns(*value),
{
    let entry = match value.get("conversation") {
        Some(e) => Some(e),
        None => value.get("turns"),
    };
    let mut r: Vec<String> = Vec::new();
    proof {
        assert(Seq::new(r@.len(), |i: int| r@[i]@) =~= Seq::<Seq<char>>::empty());
    }
    let items = match entry {
        Some(e) => match e.as_arr() {
            Some(items) => items,
            None => {
                return r;
            },
        },
        None => {
            return r;
        },
    };
    let flag_keys: [&str; 4] = ["turn_is_final", "turn_is_formatted", "is_final", "end_of_turn"];
    let text_fields: [&str; 5] = [
        "utterance",
        "transcript",
        "formatted_text",
        "formatted_transcript",
        "text",
    ];
    proof {
        assert(views_of(flag_keys@) =~= seq![
            "turn_is_final"@,
            "turn_is_formatted"@,
            "is_final"@,
            "end_of_turn"@,
        ]);
        assert(views_of(text_fields@) =~= seq![
            "utterance"@,
            "transcript"@,
            "formatted_text"@,
            "formatted_transcript"@,
            "text"@,
        ]);
    }
    let mut i: usize = 0;
    while i < items.len()
        invariant
            i <= items@.len(),
            Seq::new(r@.len(), |k: int| r@[k]@) == spec_collect_turns(items@.take(i as int)),
        decreases items@.len() - i,
    {
        let ghost r_pre = Seq::new(r@.len(), |k: int| r@[k]@);
        let turn = &items[i];
        if bool_flag(turn, flag_keys.as_slice(), true) {
            match first_non_empty_text(turn, text_fields.as_slice()) {
                Some(text) => {
                    r.push(text);
                },
                None => {},
            }
        }
        proof {
            lemma_collect_turns_take(items@, i as int);
            assert(Seq::new(r@.len(), |k: int| r@[k]@) =~= spec_collect_turns(
                items@.take(i + 1),
            ));
        }
        i = i + 1;
    }
    proof {
        assert(items@.take(items@.len() as int) =~= items@);
    }
    r
}

/// Every transcript a message carries: by event type first, and out of the
/// nested turn list when the event itself gave none.
pub open spec fn spec_extract_final_transcripts(v: JsonValue) -> Seq<Seq<char>> {
    let et = spec_resolve_event_type(v);
    let primary = if et == Some("Turn"@) {
        spec_turn_transcripts(v)
    } else if et == Some("FinalTranscript"@) {
        spec_plain_transcripts(v, true)
    } else {
        spec_plain_transcripts(v, false)
    };
    if primary.len() == 0 {
        spec_nested_turns(v)
    } else {
        primary
    }
}

/// Extracts every transcript a message carries.
pub fn extract_final_transcripts(value: &JsonValue) -> (r: Vec<String>)
    ensures
        Seq::new(r@.len(), |i: int| r@[i]@) == spec_extract_final_transcripts(*value),
{
    let primary: Vec<String> = match resolve_event_type(value) {
        Some(event_type) => {
            if str_eq(event_type.as_str(), "Turn") {
                extract_turn_transcripts(value)
            } else if str_eq(event_type.as_str(), "FinalTranscript") {
                extract_plain_transcripts(value, true)
            } else {
                extract_plain_transcripts(value, false)
            }
        },
        None => extract_plain_transcripts(value, false),
    };
    if primary.len() == 0 {
        extract_nested_turns(value)
    } else {
        primary
    }
}

/// Classifies one server text frame: a `Termination` event stops the
/// session, everything else emits whatever transcripts it carries (none for
/// text that is not JSON).
pub fn handle_text_message(payload: &str) -> (r: ReceiveOutcome)
    ensures
        parsed_json(payload@) is None ==> r is Ignore,
        parsed_json(payload@) matches Some(v) ==> if spec_resolve_event_type(v) == Some(
            "Termination"@,
        ) {
            r is Terminate
        } else {
            r matches ReceiveOutcome::Emit(texts) && Seq::new(texts@.len(), |i: int| texts@[i]@)
                == spec_extract_final_transcripts(v)
        },
{
    match parse_json(payload) {
        None => ReceiveOutcome::Ignore,
        Some(v) => {
            let is_termination = match resolve_event_type(&v) {
                Some(event_type) => str_eq(event_type.as_str(), "Termination"),
                None => false,
            };
            if is_termination {
                ReceiveOutcome::Terminate
            } else {
                ReceiveOutcome::Emit(extract_final_transcripts(&v))
            }
        },
    }
}

} // verus!
