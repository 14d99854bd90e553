//! Session planning, lifecycle, deduplication and the adapter contracts.

use audio_courier::lifecycle::RecordingLifecycle;
use audio_courier::session::{
    chunk_size_for, chunk_size_resampled, format_device_names, match_device_name, normalize_params,
    resolve_device_query, select_output_config, wav_spec_plan, CaptureSession, ConfigRange,
    DeviceQuery, FrameOutcome, RecordParams, ResultEmitter, SampleFormatKind, SessionState,
    StreamConfigPlan,
};
use audio_courier::transcript::LocalTranscriber;
use audio_courier::transcript_vendors::{
    start_failure_message, CloudTranscriber, DrainEvent, SendEvent, SendLoop, SendStep,
    StreamingTranscriber, TranscriptVendors,
};

#[test]
fn device_query_resolves_sentinels() {
    assert!(matches!(resolve_device_query("default"), DeviceQuery::DefaultOutput));
    assert!(matches!(resolve_device_query("default_input"), DeviceQuery::DefaultInput));
    assert!(matches!(resolve_device_query("USB Audio"), DeviceQuery::ByName));
}

#[test]
fn device_name_match_is_exact_and_first() {
    let names = vec![
        String::from("Speakers"),
        String::from("USB Audio"),
        String::from("USB Audio"),
    ];
    assert_eq!(match_device_name(&names, "USB Audio"), Some(1));
    assert_eq!(match_device_name(&names, "usb audio"), None);
}

#[test]
fn device_names_label_and_skip_default() {
    let names = format_device_names(
        Some(String::from("Speakers")),
        &vec![String::from("Speakers"), String::from("HDMI")],
        &vec![String::from("Mic")],
    );
    assert_eq!(
        names,
        vec![
            String::from("Speakers [输出] (默认)"),
            String::from("HDMI [输出]"),
            String::from("Mic [输入]"),
        ]
    );
    let bare = format_device_names(None, &vec![String::from("HDMI")], &vec![]);
    assert_eq!(bare, vec![String::from("HDMI [输出]")]);
}

#[test]
fn config_negotiation_prefers_desired_rate() {
    let ranges = vec![
        ConfigRange { min_rate: 8000, max_rate: 12000, channels: 2, format: SampleFormatKind::Int16 },
        ConfigRange { min_rate: 8000, max_rate: 48000, channels: 2, format: SampleFormatKind::Float32 },
        ConfigRange { min_rate: 8000, max_rate: 48000, channels: 2, format: SampleFormatKind::Int16 },
    ];
    let plan = select_output_config(&ranges, 16000, true, None).expect("a matching range exists");
    assert_eq!(plan.sample_rate, 16000);
    assert_eq!(plan.channels, 2);
    assert!(matches!(plan.format, SampleFormatKind::Int16));
}

#[test]
fn config_negotiation_falls_back_to_integer_minimum() {
    let ranges = vec![
        ConfigRange { min_rate: 44100, max_rate: 48000, channels: 2, format: SampleFormatKind::Float32 },
        ConfigRange { min_rate: 22050, max_rate: 44100, channels: 1, format: SampleFormatKind::Int16 },
    ];
    let plan = select_output_config(&ranges, 16000, false, None).expect("an integer range exists");
    assert_eq!(plan.sample_rate, 22050);
    assert_eq!(plan.channels, 1);
}

#[test]
fn config_negotiation_uses_default_or_fails() {
    let ranges = vec![
        ConfigRange { min_rate: 44100, max_rate: 48000, channels: 2, format: SampleFormatKind::Float32 },
    ];
    let fallback = StreamConfigPlan { sample_rate: 48000, channels: 2, format: SampleFormatKind::Float32 };
    let plan = select_output_config(&ranges, 16000, true, Some(fallback)).expect("the default serves");
    assert_eq!(plan.sample_rate, 48000);
    assert!(select_output_config(&ranges, 16000, true, None).is_err());
}

#[test]
fn chunk_sizes_follow_rate_and_interval() {
    assert_eq!(chunk_size_for(44100, 10), 44100);
    assert_eq!(chunk_size_for(16000, 1), 1600);
    assert_eq!(chunk_size_resampled(16000, 1), 16000);
}

#[test]
fn wav_plan_is_mono_sixteen_bit() {
    let plan = wav_spec_plan(22050);
    assert_eq!(plan.channels, 1);
    assert_eq!(plan.sample_rate, 22050);
    assert_eq!(plan.bits_per_sample, 16);
}

#[test]
fn file_mode_never_resamples_or_windows() {
    let mut params = RecordParams {
        device: String::from("default"),
        file_name: String::from("out.wav"),
        only_pcm: false,
        capture_interval: 10,
        use_resampled: true,
        auto_chunk_buffer: false,
        selected_asr_vendor: String::from("deepgram"),
    };
    normalize_params(&mut params);
    assert!(!params.use_resampled);
    assert!(params.auto_chunk_buffer);
}

#[test]
fn dedup_suppresses_consecutive_repeats() {
    let mut emitter = ResultEmitter::new();
    assert_eq!(emitter.offer("hello"), Some(String::from("hello")));
    assert_eq!(emitter.offer("hello"), None);
    assert_eq!(emitter.offer(""), None);
    assert_eq!(emitter.offer("world"), Some(String::from("world")));
    assert_eq!(emitter.offer("hello"), Some(String::from("hello")));
}

#[test]
fn lifecycle_stops_exactly_once_and_clear_is_consumed() {
    let mut lifecycle = RecordingLifecycle::new();
    lifecycle.start();
    assert!(lifecycle.should_continue());
    lifecycle.request_clear();
    assert!(lifecycle.consume_clear());
    assert!(!lifecycle.consume_clear());
    lifecycle.request_stop();
    assert!(!lifecycle.should_continue());
}

#[test]
fn session_walks_through_its_phases() {
    let mut session = CaptureSession::new(4, true, false, true);
    assert!(matches!(session.state, SessionState::Idle));
    session.begin_configure();
    assert!(matches!(session.state, SessionState::Configuring));
    session.start_streaming();
    assert!(matches!(session.state, SessionState::Streaming));
    session.request_stop();
    assert!(matches!(session.state, SessionState::Stopping));
    session.finish();
    assert!(matches!(session.state, SessionState::Stopped));
}

#[test]
fn failed_configuration_never_streams() {
    let mut session = CaptureSession::new(4, true, false, true);
    session.begin_configure();
    session.fail_configure();
    assert!(matches!(session.state, SessionState::Stopped));
}

#[test]
fn streaming_frames_window_losslessly() {
    let mut session = CaptureSession::new(4, true, false, true);
    // Stereo frames mix down to mono and accumulate.
    match session.handle_frame(&[1, 1, 2, 2, 3, 3], 2) {
        FrameOutcome::Chunks(chunks) => assert!(chunks.is_empty()),
        _ => panic!("recognition mode yields chunks"),
    }
    match session.handle_frame(&[4, 4, 5, 5, 6, 6], 2) {
        FrameOutcome::Chunks(chunks) => {
            assert_eq!(chunks.len(), 1);
            assert_eq!(chunks[0], vec![1, 2, 3, 4]);
        },
        _ => panic!("recognition mode yields chunks"),
    }
}

#[test]
fn direct_mode_hands_each_frame_on() {
    let mut session = CaptureSession::new(4, true, true, false);
    match session.handle_frame(&[10, 20, 30], 1) {
        FrameOutcome::Chunks(chunks) => {
            assert_eq!(chunks.len(), 1);
            assert_eq!(chunks[0], vec![10, 20, 30]);
        },
        _ => panic!("recognition mode yields chunks"),
    }
}

#[test]
fn file_mode_writes_cast_samples() {
    let mut session = CaptureSession::new(4, false, true, false);
    match session.handle_frame(&[40000, 40000, -5, -5], 2) {
        FrameOutcome::WriteSamples(samples) => assert_eq!(samples, vec![32767, -5]),
        _ => panic!("file mode writes samples"),
    }
}

#[test]
fn full_local_capture_run_produces_expected_chunks() {
    // One second of audio per window at the device rate; three seconds of
    // synthetic stereo silence arrive in half-second frames.
    let device_rate: usize = 44100;
    let mut session = CaptureSession::new(device_rate, true, false, true);
    session.begin_configure();
    session.start_streaming();
    let mut recognizer = LocalTranscriber::new();
    let frame = vec![0i32; device_rate]; // half a second of stereo silence
    let mut prepared: Vec<Vec<i16>> = Vec::new();
    for _ in 0..6 {
        match session.handle_frame(&frame, 2) {
            FrameOutcome::Chunks(chunks) => {
                for chunk in chunks {
                    assert_eq!(chunk.len(), device_rate);
                    // The application's converter resamples each window to
                    // the recognizer rate; its outcome is handed back in.
                    let converted = Some(Ok(vec![0i16; 16000]));
                    let out = audio_courier::resample::prepare_chunk(
                        &chunk, true, 44100, 16000, converted,
                    );
                    let _ = recognizer.process_chunk(out.len(), false);
                    prepared.push(out);
                }
            },
            _ => panic!("recognition mode yields chunks"),
        }
    }
    assert_eq!(prepared.len(), 3);
    assert!(prepared.iter().all(|chunk| chunk.len() == 16000));
    assert_eq!(recognizer.accumulated(), 48000);
    session.request_stop();
    session.finish();
}

#[test]
fn clear_request_resets_counter_without_stopping() {
    let mut recognizer = LocalTranscriber::new();
    let _ = recognizer.process_chunk(16000, false);
    let _ = recognizer.process_chunk(16000, false);
    assert_eq!(recognizer.accumulated(), 32000);
    let directive = recognizer.process_chunk(16000, true);
    assert!(directive.reset_engine);
    assert!(directive.feed);
    assert_eq!(recognizer.accumulated(), 0);
    let _ = recognizer.process_chunk(8000, false);
    assert_eq!(recognizer.accumulated(), 8000);
}

#[test]
fn shutdown_twice_is_idempotent() {
    let mut cloud = CloudTranscriber::start(TranscriptVendors::GlaDia, 8);
    cloud.shutdown();
    cloud.shutdown();
    assert_eq!(
        cloud.queue_chunk(vec![1, 2]).unwrap_err(),
        "Failed to queue PCM chunk for Gladia: channel closed"
    );
    let mut local = LocalTranscriber::new();
    local.shutdown();
    local.shutdown();
    assert!(local.queue_chunk(vec![1, 2]).is_err());
}

#[test]
fn full_queue_rejects_without_blocking() {
    let mut cloud = CloudTranscriber::start(TranscriptVendors::DeepGram, 2);
    assert!(cloud.queue_chunk(vec![1]).is_ok());
    assert!(cloud.queue_chunk(vec![2]).is_ok());
    let err = cloud.queue_chunk(vec![3]).unwrap_err();
    assert_eq!(err, "Failed to queue PCM chunk for Deepgram: channel is full (consumer stalled)");
    // FIFO order on the way out, and the rejected chunk never entered.
    assert_eq!(cloud.next_chunk(), Some(vec![1]));
    assert_eq!(cloud.next_chunk(), Some(vec![2]));
    assert_eq!(cloud.next_chunk(), None);
}

#[test]
fn unknown_vendor_fails_before_anything_opens() {
    let err = TranscriptVendors::parse("foovendor").unwrap_err();
    assert_eq!(err, "Unknown vendor: foovendor");
    assert!(matches!(TranscriptVendors::parse("DeepGram"), Ok(TranscriptVendors::DeepGram)));
    assert!(matches!(TranscriptVendors::parse("ASSEMBLYAI"), Ok(TranscriptVendors::AssemblyAI)));
    assert_eq!(TranscriptVendors::GlaDia.name(), "Gladia");
}

#[test]
fn missing_api_key_fails_adapter_construction() {
    let vendor = TranscriptVendors::AssemblyAI;
    let err = vendor.require_api_key(None).unwrap_err();
    assert_eq!(err, "Missing ASSEMBLY_API_KEY environment variable");
    assert_eq!(vendor.require_api_key(Some(String::from("k"))).unwrap(), "k");
    assert_eq!(TranscriptVendors::SpeechMatics.api_key_env_name(), "SPEECHMATICS_API_KEY");
}

#[test]
fn send_loop_forwards_until_shutdown() {
    let mut send_loop = SendLoop::new();
    match send_loop.on_event(SendEvent::Chunk(vec![-2, 258])) {
        SendStep::Forward(bytes) => assert_eq!(bytes, vec![0xfe, 0xff, 0x02, 0x01]),
        _ => panic!("a chunk is forwarded"),
    }
    assert!(send_loop.should_continue());
    assert!(matches!(send_loop.on_event(SendEvent::Shutdown), SendStep::ExitLoop));
    assert!(!send_loop.should_continue());
    // A client-initiated close still owes the server its end marker.
    assert_eq!(
        send_loop.stop_message(&TranscriptVendors::RevAI),
        Some(String::from("EOS"))
    );
    assert_eq!(
        send_loop.stop_message(&TranscriptVendors::AssemblyAI),
        Some(String::from("{\"type\":\"Terminate\"}"))
    );
}

#[test]
fn client_stop_drains_pending_finals_before_closing() {
    let mut send_loop = SendLoop::new();
    assert!(matches!(send_loop.on_event(SendEvent::Shutdown), SendStep::ExitLoop));
    // The client stopped, so the session still owes the server a read: late
    // final results keep flowing until the server terminates.
    assert!(send_loop.should_drain());
    send_loop.on_drain_event(DrainEvent::MessageHandled);
    assert!(send_loop.should_drain());
    send_loop.on_drain_event(DrainEvent::ServerTermination);
    assert!(!send_loop.should_drain());

    // A closed source drains too, and a dead stream ends the drain.
    let mut other = SendLoop::new();
    let _ = other.on_event(SendEvent::QueueClosed);
    assert!(other.should_drain());
    other.on_drain_event(DrainEvent::StreamEnded);
    assert!(!other.should_drain());
}

#[test]
fn server_termination_skips_the_drain() {
    let mut send_loop = SendLoop::new();
    let _ = send_loop.on_event(SendEvent::TerminationNotice);
    assert!(!send_loop.should_drain());
}

#[test]
fn start_failures_wrap_the_cause() {
    assert_eq!(
        start_failure_message(&TranscriptVendors::AssemblyAI, "no route"),
        "Failed to start AssemblyAI stream: no route"
    );
}

#[test]
fn server_termination_suppresses_the_stop_marker() {
    let mut send_loop = SendLoop::new();
    assert!(matches!(send_loop.on_event(SendEvent::TerminationNotice), SendStep::ExitLoop));
    assert_eq!(send_loop.stop_message(&TranscriptVendors::RevAI), None);
    // Other vendors still send theirs.
    assert_eq!(
        send_loop.stop_message(&TranscriptVendors::GlaDia),
        Some(String::from("{\"type\":\"stop_recording\"}"))
    );
}
