//! Model-API handling, the realtime ASR client, and the text utilities.

use audio_courier::llm::api::{
    classify_status, content_type_is_streaming, ModelError, SseLineOutcome, SseState,
};
use audio_courier::llm::stt::mime_for_extension;
use audio_courier::llm::stt_realtime::{
    auth_query_string, end_marker, frame_at, frame_count, frame_delay_millis, RTASRClient,
    AUDIO_FRAME_SIZE,
};
use audio_courier::text::{bytes_contains, str_eq, trim_bytes, u32_to_string};
use audio_courier::utils::{is_dev, parse_env_text, parse_line};
use base64::Engine;
use hmac::{KeyInit, Mac};

#[test]
fn model_errors_describe_themselves() {
    assert_eq!(ModelError::Timeout.message(), "请求超时");
    assert_eq!(ModelError::Unauthorized.message(), "API密钥无效或未授权");
    assert_eq!(ModelError::RateLimited.message(), "请求频率限制，请稍后重试");
    assert_eq!(ModelError::InternalServerError.message(), "服务器内部错误");
    assert_eq!(
        ModelError::NetworkError(String::from("refused")).message(),
        "网络连接错误: refused"
    );
    assert_eq!(
        ModelError::StreamingError(String::from("cut")).message(),
        "流式传输错误: cut"
    );
    assert_eq!(
        ModelError::JsonParseError(String::from("eof")).message(),
        "JSON解析错误: eof"
    );
}

#[test]
fn http_statuses_classify() {
    assert!(matches!(classify_status(401), ModelError::Unauthorized));
    assert!(matches!(classify_status(429), ModelError::RateLimited));
    assert!(matches!(classify_status(503), ModelError::InternalServerError));
    match classify_status(404) {
        ModelError::InvalidResponse(msg) => assert_eq!(msg, "HTTP状态码: 404"),
        _ => panic!("other codes are invalid responses"),
    }
}

#[test]
fn content_types_gate_streaming() {
    assert!(content_type_is_streaming("text/event-stream; charset=utf-8"));
    assert!(content_type_is_streaming("text/plain"));
    assert!(!content_type_is_streaming("application/json"));
}

#[test]
fn event_stream_accumulates_content() {
    let mut state = SseState::new();
    assert!(matches!(state.process_line(""), SseLineOutcome::Resume));
    assert!(matches!(state.process_line(": keep-alive"), SseLineOutcome::Resume));
    match state.process_line(
        "data: {\"choices\":[{\"delta\":{\"content\":\"Hel\"}}]}",
    ) {
        SseLineOutcome::Content(piece) => assert_eq!(piece, "Hel"),
        _ => panic!("content lines emit"),
    }
    match state.process_line(
        "  data: {\"choices\":[{\"delta\":{\"content\":\"lo\"}}]}  ",
    ) {
        SseLineOutcome::Content(piece) => assert_eq!(piece, "lo"),
        _ => panic!("trimmed content lines emit"),
    }
    assert_eq!(state.result, "Hello");
    assert!(matches!(state.process_line("data: [DONE]"), SseLineOutcome::Done));
}

#[test]
fn event_stream_surfaces_errors_and_gives_up() {
    let mut state = SseState::new();
    match state.process_line("data: {\"error\":{\"code\":42}}") {
        SseLineOutcome::ApiError(payload) => assert_eq!(payload, "{\"error\":{\"code\":42}}"),
        _ => panic!("error objects surface"),
    }
    let mut failing = SseState::new();
    for _ in 0..4 {
        assert!(matches!(failing.process_line("data: {broken"), SseLineOutcome::Resume));
    }
    assert!(matches!(failing.process_line("data: {broken"), SseLineOutcome::TooManyParseErrors));
    // A parsed line resets the count.
    let mut recovering = SseState::new();
    for _ in 0..4 {
        let _ = recovering.process_line("data: {broken");
    }
    let _ = recovering.process_line("data: {}");
    assert_eq!(recovering.consecutive_errors, 0);
}

#[test]
fn auth_params_are_ordered_and_signed() {
    let client = RTASRClient::new("app-1", "AK/ID", "topsecret");
    let params = client.auth_params_with("uuid-1234", "2024-01-02T03:04:05+0800");
    let keys: Vec<&str> = params.iter().map(|(k, _)| k.as_str()).collect();
    assert_eq!(
        keys,
        vec!["accessKeyId", "appId", "audio_encode", "lang", "samplerate", "utc", "uuid", "signature"]
    );
    assert_eq!(params[0].1, "AK/ID");
    assert_eq!(params[1].1, "app-1");
    assert_eq!(params[2].1, "pcm_s16le");
    assert_eq!(params[3].1, "autodialect");
    assert_eq!(params[4].1, "16000");
    assert_eq!(params[5].1, "2024-01-02T03:04:05+0800");
    assert_eq!(params[6].1, "uuid-1234");

    // The signature is the base64 HMAC-SHA1 of the joined encoding; compute
    // it independently with the same outside crates the library trusts.
    let seven: Vec<(String, String)> = params[..7].to_vec();
    let base = auth_query_string(&seven);
    assert!(base.starts_with("accessKeyId=AK%2FID&appId=app-1&audio_encode=pcm_s16le"));
    let mut mac = hmac::Hmac::<sha1::Sha1>::new_from_slice(b"topsecret").unwrap();
    mac.update(base.as_bytes());
    let expected = base64::engine::general_purpose::STANDARD.encode(mac.finalize().into_bytes());
    assert_eq!(params[7].1, expected);
    assert_ne!(params[7].1, base, "the signature is a digest, not the base string");
}

#[test]
fn generated_params_draw_a_fresh_identifier() {
    let client = RTASRClient::new("a", "k", "s");
    let params = client.generate_auth_params();
    assert_eq!(params.len(), 8);
    assert_eq!(params[6].1.len(), 36);
    assert_eq!(params[5].1.len(), 24, "UTC+8 timestamps render as 24 characters");
}

#[test]
fn asr_results_concatenate_their_words() {
    let text = RTASRClient::extract_text_from_asr_result_fixed(
        "[{\"ws\":[{\"w\":\"你\"},{\"w\":\"好\"}]},{\"ws\":[{\"w\":\"!\"}]}]",
    )
    .expect("a result payload parses");
    assert_eq!(text, "你好!");
    assert_eq!(
        RTASRClient::extract_text_from_asr_result_fixed("{\"not\":\"an array\"}").unwrap(),
        ""
    );
    assert!(RTASRClient::extract_text_from_asr_result_fixed("oops").is_err());
}

#[test]
fn audio_frames_pace_and_slice() {
    assert_eq!(end_marker(), "{\"end\":true}");
    assert_eq!(frame_count(0), 0);
    assert_eq!(frame_count(AUDIO_FRAME_SIZE), 1);
    assert_eq!(frame_count(AUDIO_FRAME_SIZE + 1), 2);
    assert_eq!(frame_delay_millis(0), 0);
    assert_eq!(frame_delay_millis(25), 1000);
    let bytes: Vec<u8> = (0..=255u8).cycle().take(AUDIO_FRAME_SIZE + 10).collect();
    let first = frame_at(&bytes, 0);
    assert_eq!(first.len(), AUDIO_FRAME_SIZE);
    assert_eq!(&first[..4], &[0, 1, 2, 3]);
    let last = frame_at(&bytes, 1);
    assert_eq!(last.len(), 10);
}

#[test]
fn mime_types_follow_the_extension() {
    assert_eq!(mime_for_extension("wav"), "audio/wav");
    assert_eq!(mime_for_extension("MP3"), "audio/mpeg");
    assert_eq!(mime_for_extension("m4a"), "audio/mp4");
    assert_eq!(mime_for_extension("FLAC"), "audio/flac");
    assert_eq!(mime_for_extension("ogg"), "audio/ogg");
    assert_eq!(mime_for_extension("bin"), "application/octet-stream");
}

#[test]
fn configuration_lines_parse_and_trim() {
    assert_eq!(
        parse_line("  KEY = some value  "),
        Some((String::from("KEY"), String::from("some value")))
    );
    assert_eq!(parse_line("no separator"), None);
    assert_eq!(
        parse_line("A=b=c"),
        Some((String::from("A"), String::from("b=c")))
    );
}

#[test]
fn environment_text_parses_line_by_line() {
    let pairs = parse_env_text("# comment\nA=1\n\n  \nB = two \nbroken line\nA=3\n");
    assert_eq!(
        pairs,
        vec![
            (String::from("A"), String::from("1")),
            (String::from("B"), String::from("two")),
            (String::from("A"), String::from("3")),
        ]
    );
}

#[test]
fn diagnostics_are_off_in_this_build() {
    assert!(!is_dev());
}

#[test]
fn byte_utilities_behave() {
    assert!(str_eq("héllo", "héllo"));
    assert!(!str_eq("a", "b"));
    assert!(bytes_contains(b"text/event-stream", b"event"));
    assert!(!bytes_contains(b"short", b"longer needle"));
    assert_eq!(trim_bytes(b"  \t mid dle \r\n"), b"mid dle".to_vec());
    assert_eq!(u32_to_string(0), "0");
    assert_eq!(u32_to_string(44100), "44100");
}
