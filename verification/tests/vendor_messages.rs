//! Vendor wire messages: real JSON in, classified outcomes and texts out.

use audio_courier::json::{parse_json, JsonValue};
use audio_courier::transcript_vendors::{assemblyai, deepgram, gladia, revai, speechmatics};
use audio_courier::transcript_vendors::{classify_for, ReceiveOutcome, TranscriptVendors};

fn parsed(payload: &str) -> JsonValue {
    parse_json(payload).expect("test payload is valid JSON")
}

#[test]
fn assemblyai_turn_event_emits_trimmed_text() {
    let outcome = assemblyai::handle_text_message(
        "{\"type\":\"Turn\",\"end_of_turn\":true,\"transcript\":\"  hello there \"}",
    );
    match outcome {
        ReceiveOutcome::Emit(texts) => assert_eq!(texts, vec![String::from("hello there")]),
        _ => panic!("a finished turn is emitted"),
    }
}

#[test]
fn assemblyai_unfinished_turn_stays_silent() {
    let outcome = assemblyai::handle_text_message(
        "{\"type\":\"Turn\",\"end_of_turn\":false,\"transcript\":\"partial words\"}",
    );
    match outcome {
        ReceiveOutcome::Emit(texts) => assert!(texts.is_empty()),
        _ => panic!("an unfinished turn emits nothing"),
    }
}

#[test]
fn assemblyai_termination_stops_the_session() {
    let outcome = assemblyai::handle_text_message("{\"type\":\"Termination\"}");
    assert!(matches!(outcome, ReceiveOutcome::Terminate));
    let legacy = assemblyai::handle_text_message("{\"message_type\":\"Termination\"}");
    assert!(matches!(legacy, ReceiveOutcome::Terminate));
}

#[test]
fn assemblyai_final_transcript_event_emits() {
    let value = parsed("{\"type\":\"FinalTranscript\",\"text\":\"done now\"}");
    let texts = assemblyai::extract_final_transcripts(&value);
    assert_eq!(texts, vec![String::from("done now")]);
    // A plain transcript event needs a final flag.
    let partial = parsed("{\"type\":\"Transcript\",\"text\":\"not yet\"}");
    assert!(assemblyai::extract_final_transcripts(&partial).is_empty());
    let flagged = parsed("{\"type\":\"Transcript\",\"is_final\":true,\"text\":\"yes\"}");
    assert_eq!(assemblyai::extract_final_transcripts(&flagged), vec![String::from("yes")]);
}

#[test]
fn assemblyai_nested_turns_collect_in_order() {
    let value = parsed(
        "{\"conversation\":[\
          {\"turn_is_final\":true,\"utterance\":\"first\"},\
          {\"turn_is_final\":false,\"utterance\":\"skipped\"},\
          {\"transcript\":\"second\"}\
        ]}",
    );
    let texts = assemblyai::extract_nested_turns(&value);
    assert_eq!(texts, vec![String::from("first"), String::from("second")]);
}

#[test]
fn assemblyai_flags_and_fields_resolve_in_order() {
    let value = parsed("{\"end_of_turn\":\"not-a-bool\",\"turn_is_final\":true}");
    assert!(assemblyai::bool_flag(&value, &["end_of_turn", "turn_is_final"], false));
    assert!(!assemblyai::bool_flag(&value, &["absent"], false));
    assert!(assemblyai::bool_flag(&value, &["absent"], true));
    let text = parsed("{\"text\":\"  \",\"transcript\":\"kept\"}");
    assert_eq!(
        assemblyai::first_non_empty_text(&text, &["text", "transcript"]),
        Some(String::from("kept"))
    );
}

#[test]
fn assemblyai_ignores_text_that_is_not_json() {
    assert!(matches!(assemblyai::handle_text_message("not json"), ReceiveOutcome::Ignore));
}

#[test]
fn assemblyai_query_carries_the_rate() {
    assert_eq!(
        assemblyai::stream_query(16000),
        "sample_rate=16000&format_turns=true&min_end_of_turn_silence_when_confident=900"
    );
}

#[test]
fn gladia_transcript_shapes_parse() {
    let (kind, text) = gladia::parse_transcript(
        "{\"type\":\"transcript\",\"data\":{\"is_final\":true,\"utterance\":{\"text\":\" hi \"}}}",
    )
    .expect("current shape parses");
    assert!(matches!(kind, gladia::TranscriptKind::Final));
    assert_eq!(text, "hi");

    let (kind, text) = gladia::parse_transcript(
        "{\"type\":\"post_final_transcript\",\"data\":{\"full_transcript\":\"all of it\"}}",
    )
    .expect("post-final shape parses");
    assert!(matches!(kind, gladia::TranscriptKind::Final));
    assert_eq!(text, "all of it");

    let (kind, text) = gladia::parse_transcript(
        "{\"type\":\"transcript\",\"transcript\":\"legacy text\",\"is_final\":false}",
    )
    .expect("legacy shape parses");
    assert!(matches!(kind, gladia::TranscriptKind::Partial));
    assert_eq!(text, "legacy text");
}

#[test]
fn gladia_kind_reads_type_then_flags() {
    let final_by_name = parsed("{\"type\":\"post_final\"}");
    assert!(matches!(gladia::transcript_kind(&final_by_name), gladia::TranscriptKind::Final));
    let partial_by_name = parsed("{\"type\":\"PARTIAL\",\"is_final\":true}");
    assert!(matches!(gladia::transcript_kind(&partial_by_name), gladia::TranscriptKind::Partial));
    let by_flag = parsed("{\"type\":\"other\",\"final\":true}");
    assert!(matches!(gladia::transcript_kind(&by_flag), gladia::TranscriptKind::Final));
}

#[test]
fn gladia_partials_are_suppressed_and_errors_surface() {
    let partial = gladia::handle_text_message(
        "{\"type\":\"transcript\",\"data\":{\"is_final\":false,\"text\":\"shh\"}}",
    );
    assert!(matches!(partial, ReceiveOutcome::Ignore));

    let finals = gladia::handle_text_message(
        "{\"type\":\"transcript\",\"data\":{\"is_final\":true,\"text\":\"loud\"}}",
    );
    match finals {
        ReceiveOutcome::Emit(texts) => assert_eq!(texts, vec![String::from("loud")]),
        _ => panic!("a final transcript is emitted"),
    }

    let error = gladia::handle_text_message("{\"type\":\"error\",\"message\":\"bad\"}");
    match error {
        ReceiveOutcome::VendorError(msg) => assert_eq!(
            msg,
            "Gladia returned error payload: {\"type\":\"error\",\"message\":\"bad\"}"
        ),
        _ => panic!("an error payload surfaces as a vendor error"),
    }
}

#[test]
fn gladia_session_plan_pins_the_request() {
    let plan = gladia::live_session_plan(16000, String::from("solaria-1"), None);
    assert_eq!(plan.bit_depth, 16);
    assert_eq!(plan.sample_rate, 16000);
    assert_eq!(plan.channels, 1);
    assert_eq!(plan.endpointing_millis, 400);
    assert_eq!(plan.maximum_duration_without_endpointing, 60);
    assert!(!plan.receive_partial_transcripts);
    assert!(plan.receive_final_transcripts);
}

#[test]
fn revai_elements_join_and_trim() {
    let (kind, text) = revai::parse_transcript(
        "{\"type\":\"final\",\"elements\":[{\"value\":\"Hello \"},{\"value\":\"world\"},{\"confidence\":1}]}",
    )
    .expect("a final message parses");
    assert!(matches!(kind, revai::TranscriptKind::Final));
    assert_eq!(text, "Hello world");
}

#[test]
fn revai_partial_falls_back_to_plain_fields() {
    let (kind, text) = revai::parse_transcript(
        "{\"type\":\"partial\",\"elements\":[],\"value\":\" partial words \"}",
    )
    .expect("a partial message parses");
    assert!(matches!(kind, revai::TranscriptKind::Partial));
    assert_eq!(text, "partial words");
    assert!(revai::parse_transcript("{\"type\":\"connected\"}").is_none());
}

#[test]
fn revai_error_detection_ignores_case() {
    assert!(revai::is_revai_error("{\"type\":\"ERROR\"}"));
    assert!(!revai::is_revai_error("{\"type\":\"final\"}"));
    assert!(!revai::is_revai_error("not json"));
}

#[test]
fn revai_query_is_percent_encoded() {
    assert_eq!(revai::encode_component("a b/c~"), "a%20b%2Fc~");
    assert_eq!(revai::encode_component("é"), "%C3%A9");
    assert_eq!(
        revai::content_type_param(16000),
        "audio/x-raw;layout=interleaved;rate=16000;format=S16LE;channels=1;max_connection_wait_seconds=540"
    );
    let query = revai::stream_query("se/cret", 16000, Some("en"), None);
    assert_eq!(
        query,
        "access_token=se%2Fcret&content_type=audio%2Fx-raw%3Blayout%3Dinterleaved%3Brate%3D16000%3Bformat%3DS16LE%3Bchannels%3D1%3Bmax_connection_wait_seconds%3D540&sample_rate=16000&language=en"
    );
    let blank_lang = revai::stream_query("k", 8000, Some("   "), Some("meta data"));
    assert!(blank_lang.contains("&metadata=meta%20data"));
    assert!(!blank_lang.contains("language"));
}

#[test]
fn deepgram_language_normalizes() {
    assert!(matches!(deepgram::match_language(" EN "), deepgram::LanguageTag::En));
    assert!(matches!(deepgram::match_language("zh"), deepgram::LanguageTag::Zh));
    assert!(matches!(deepgram::match_language("zh-CN"), deepgram::LanguageTag::ZhCn));
    assert!(matches!(deepgram::match_language("ZH CN"), deepgram::LanguageTag::ZhCn));
    match deepgram::match_language(" fr ") {
        deepgram::LanguageTag::Other(s) => assert_eq!(s, "fr"),
        _ => panic!("unknown languages ride along"),
    }
}

#[test]
fn deepgram_query_params_split_on_separators() {
    let pairs = deepgram::parse_query_params("tier=nova&punct=true&bad&k=v=w");
    assert_eq!(
        pairs,
        vec![
            (String::from("tier"), String::from("nova")),
            (String::from("punct"), String::from("true")),
            (String::from("k"), String::from("v=w")),
        ]
    );
}

#[test]
fn deepgram_options_come_from_configuration() {
    let plan = deepgram::build_stream_options(Some("en"), Some("a=b"));
    assert!(plan.smart_format && plan.dictation && plan.punctuate);
    assert!(plan.language.is_some());
    assert_eq!(plan.query_params, vec![(String::from("a"), String::from("b"))]);
    let bare = deepgram::build_stream_options(None, Some("   "));
    assert!(bare.language.is_none());
    assert!(bare.query_params.is_empty());
}

#[test]
fn speechmatics_messages_classify() {
    let emit = speechmatics::session_message_outcome(
        speechmatics::SessionMessage::AddTranscript(String::from("  spoken words  ")),
    );
    match emit {
        ReceiveOutcome::Emit(texts) => assert_eq!(texts, vec![String::from("spoken words")]),
        _ => panic!("a transcript with content is emitted"),
    }
    let blank = speechmatics::session_message_outcome(
        speechmatics::SessionMessage::AddTranscript(String::from("   ")),
    );
    assert!(matches!(blank, ReceiveOutcome::Ignore));
    let done = speechmatics::session_message_outcome(speechmatics::SessionMessage::EndOfTranscript);
    assert!(matches!(done, ReceiveOutcome::Terminate));
    match speechmatics::session_message_outcome(
        speechmatics::SessionMessage::ErrorMessage(String::from("quota")),
    ) {
        ReceiveOutcome::VendorError(msg) => assert_eq!(msg, "Speechmatics returned error: quota"),
        _ => panic!("a server error surfaces"),
    }
}

#[test]
fn speechmatics_plan_and_feed() {
    let plan = speechmatics::session_config_plan(16000, Some(String::from("en")));
    assert_eq!(plan.sample_rate, 16000);
    assert_eq!(plan.end_of_utterance_silence_millis, 500);
    assert_eq!(plan.max_delay_millis, 2000);
    assert!(!plan.enable_partials);

    let mut feed = speechmatics::ByteFeed::new();
    // Nothing buffered and nothing incoming: the reader must wait.
    assert!(matches!(feed.read_step(8, None), speechmatics::FeedStep::Pending));
    // A chunk arrives and leaves in bounded reads, in order.
    match feed.read_step(3, Some(Some(vec![1, 2, 3, 4, 5]))) {
        speechmatics::FeedStep::Deliver(bytes) => assert_eq!(bytes, vec![1, 2, 3]),
        _ => panic!("bytes are delivered"),
    }
    match feed.read_step(8, None) {
        speechmatics::FeedStep::Deliver(bytes) => assert_eq!(bytes, vec![4, 5]),
        _ => panic!("the tail is delivered"),
    }
    // The source closes; the feed finishes and stays finished.
    assert!(matches!(feed.read_step(8, Some(None)), speechmatics::FeedStep::Finished));
    assert!(matches!(feed.read_step(8, Some(Some(vec![9]))), speechmatics::FeedStep::Finished));
}

#[test]
fn revai_messages_classify() {
    let partial = revai::handle_text_message(
        "{\"type\":\"partial\",\"elements\":[{\"value\":\"so \"},{\"value\":\"far\"}]}",
    );
    match partial {
        ReceiveOutcome::Emit(texts) => assert_eq!(texts, vec![String::from("so far")]),
        _ => panic!("partials are emitted"),
    }
    // Final frames repeat already-delivered text and are dropped.
    let finals = revai::handle_text_message(
        "{\"type\":\"final\",\"elements\":[{\"value\":\"done\"}]}",
    );
    assert!(matches!(finals, ReceiveOutcome::Ignore));
    match revai::handle_text_message("{\"type\":\"error\",\"detail\":1}") {
        ReceiveOutcome::VendorError(msg) => assert_eq!(
            msg,
            "RevAI returned error payload: {\"type\":\"error\",\"detail\":1}"
        ),
        _ => panic!("error payloads surface"),
    }
}

#[test]
fn speechmatics_payloads_classify() {
    match speechmatics::classify_payload(
        "{\"message\":\"AddTranscript\",\"metadata\":{\"transcript\":\" heard \"}}",
    ) {
        speechmatics::SessionMessage::AddTranscript(text) => assert_eq!(text, " heard "),
        _ => panic!("transcripts classify"),
    }
    match speechmatics::classify_payload("{\"message\":\"Error\",\"reason\":\"quota\"}") {
        speechmatics::SessionMessage::ErrorMessage(reason) => assert_eq!(reason, "quota"),
        _ => panic!("errors classify"),
    }
    assert!(matches!(
        speechmatics::classify_payload("{\"message\":\"EndOfTranscript\"}"),
        speechmatics::SessionMessage::EndOfTranscript
    ));
    assert!(matches!(
        speechmatics::classify_payload("not json"),
        speechmatics::SessionMessage::Other
    ));
}

#[test]
fn classification_is_dispatched_by_vendor() {
    let gladia_final = "{\"type\":\"transcript\",\"data\":{\"is_final\":true,\"text\":\"loud\"}}";
    match classify_for(&TranscriptVendors::GlaDia, gladia_final) {
        ReceiveOutcome::Emit(texts) => assert_eq!(texts, vec![String::from("loud")]),
        _ => panic!("the session vendor's own parser runs"),
    }
    // The same frame in another vendor's session means nothing: no other
    // parser may swallow it.
    assert!(matches!(
        classify_for(&TranscriptVendors::RevAI, gladia_final),
        ReceiveOutcome::Ignore
    ));
    assert!(matches!(
        classify_for(&TranscriptVendors::DeepGram, gladia_final),
        ReceiveOutcome::Ignore
    ));
    assert!(matches!(
        classify_for(&TranscriptVendors::AssemblyAI, "{\"type\":\"Termination\"}"),
        ReceiveOutcome::Terminate
    ));
    match classify_for(
        &TranscriptVendors::SpeechMatics,
        "{\"message\":\"AddTranscript\",\"metadata\":{\"transcript\":\" hi \"}}",
    ) {
        ReceiveOutcome::Emit(texts) => assert_eq!(texts, vec![String::from("hi")]),
        _ => panic!("speechmatics transcripts emit trimmed"),
    }
    assert!(matches!(
        classify_for(&TranscriptVendors::SpeechMatics, "{\"message\":\"EndOfTranscript\"}"),
        ReceiveOutcome::Terminate
    ));
}

#[test]
fn deepgram_emission_gate() {
    assert_eq!(deepgram::transcript_emission("  hello  ", false), Some(String::from("hello")));
    assert_eq!(deepgram::transcript_emission("final words", true), Some(String::from("final words")));
    assert_eq!(deepgram::transcript_emission("   ", true), None);
    assert_eq!(deepgram::transcript_emission("", false), None);
}
