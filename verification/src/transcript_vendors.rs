//! The uniform streaming-transcriber interface and the cloud adapters.
//!
//! Every backend — the local recognizer and each cloud vendor — stands
//! behind [`StreamingTranscriber`]: chunks go in through a bounded,
//! non-blocking enqueue, text comes back out of band, and `shutdown` is
//! idempotent.  The vendor network sessions themselves run in the embedding
//! application; their protocol decisions (what to send, when to stop, what a
//! server message means) are the verified state machines and parsers here
//! and in the per-vendor submodules.

use vstd::prelude::*;

use crate::samples::{pcm_chunk_to_bytes, pcm_high_byte, pcm_low_byte};
use crate::text::{ascii_lower, bytes_eq, lower_bytes};

verus! {

use vstd::string::StringSliceAdditionalSpecFns;
use vstd::string::StringExecFns;

/// The supported streaming transcription vendors.
#[derive(Debug)]
pub enum TranscriptVendors {
    DeepGram,
    RevAI,
    AssemblyAI,
    GlaDia,
    SpeechMatics,
}

/// The vendor that a selector string denotes, compared case-insensitively on
/// its UTF-8 bytes; unknown strings denote no vendor.
pub open spec fn spec_vendor_of(selector: Seq<u8>) -> Option<TranscriptVendors> {
    let lowered = lower_bytes(selector);
    if lowered == "deepgram".spec_bytes() {
        Some(TranscriptVendors::DeepGram)
    } else if lowered == "revai".spec_bytes() {
        Some(TranscriptVendors::RevAI)
    } else if lowered == "assemblyai".spec_bytes() {
        Some(TranscriptVendors::AssemblyAI)
    } else if lowered == "gladia".spec_bytes() {
        Some(TranscriptVendors::GlaDia)
    } else if lowered == "speechmatics".spec_bytes() {
        Some(TranscriptVendors::SpeechMatics)
    } else {
        None
    }
}

impl TranscriptVendors {
    /// Parses a vendor selector case-insensitively; an unknown selector is
    /// rejected with a descriptive error before any connection is attempted.
    pub fn parse(s: &str) -> (r: Result<TranscriptVendors, String>)
        ensures
            match spec_vendor_of(s.spec_bytes()) {
                Some(v) => r matches Ok(parsed) && parsed == v,
                None => r matches Err(msg) && msg@ == "Unknown vendor: "@ + s@,
            },
    {
        let lowered = ascii_lower(s.as_bytes());
        if bytes_eq(lowered.as_slice(), "deepgram".as_bytes()) {
            Ok(TranscriptVendors::DeepGram)
        } else if bytes_eq(lowered.as_slice(), "revai".as_bytes()) {
            Ok(TranscriptVendors::RevAI)
        } else if bytes_eq(lowered.as_slice(), "assemblyai".as_bytes()) {
            Ok(TranscriptVendors::AssemblyAI)
        } else if bytes_eq(lowered.as_slice(), "gladia".as_bytes()) {
            Ok(TranscriptVendors::GlaDia)
        } else if bytes_eq(lowered.as_slice(), "speechmatics".as_bytes()) {
            Ok(TranscriptVendors::SpeechMatics)
        } else {
            let msg = String::from_str("Unknown vendor: ").concat(s);
            Err(msg)
        }
    }

    /// The display name of this vendor.
    pub fn name(&self) -> (r: String)
        ensures
            r@ == spec_vendor_name(*self),
    {
        match self {
            TranscriptVendors::DeepGram => String::from_str("Deepgram"),
            TranscriptVendors::RevAI => String::from_str("RevAI"),
            TranscriptVendors::AssemblyAI => String::from_str("AssemblyAI"),
            TranscriptVendors::GlaDia => String::from_str("Gladia"),
            TranscriptVendors::SpeechMatics => String::from_str("SpeechMatics"),
        }
    }
}

/// The display name of a vendor.
pub open spec fn spec_vendor_name(v: TranscriptVendors) -> Seq<char> {
    match v {
        TranscriptVendors::DeepGram => "Deepgram"@,
        TranscriptVendors::RevAI => "RevAI"@,
        TranscriptVendors::AssemblyAI => "AssemblyAI"@,
        TranscriptVendors::GlaDia => "Gladia"@,
        TranscriptVendors::SpeechMatics => "SpeechMatics"@,
    }
}

impl TranscriptVendors {
    /// The name of the environment variable that holds this vendor's API
    /// key.
    pub fn api_key_env_name(&self) -> (r: String)
        ensures
            match *self {
                TranscriptVendors::DeepGram => r@ == "DEEPGRAM_API_KEY"@,
                TranscriptVendors::RevAI => r@ == "REVAI_API_KEY"@,
                TranscriptVendors::AssemblyAI => r@ == "ASSEMBLY_API_KEY"@,
                TranscriptVendors::GlaDia => r@ == "GLADIA_API_KEY"@,
                TranscriptVendors::SpeechMatics => r@ == "SPEECHMATICS_API_KEY"@,
            },
    {
        match self {
            TranscriptVendors::DeepGram => String::from_str("DEEPGRAM_API_KEY"),
            TranscriptVendors::RevAI => String::from_str("REVAI_API_KEY"),
            TranscriptVendors::AssemblyAI => String::from_str("ASSEMBLY_API_KEY"),
            TranscriptVendors::GlaDia => String::from_str("GLADIA_API_KEY"),
            TranscriptVendors::SpeechMatics => String::from_str("SPEECHMATICS_API_KEY"),
        }
    }

    /// Demands this vendor's API key: a missing key fails adapter
    /// construction at once with a descriptive error, before any device or
    /// connection is touched.
    pub fn require_api_key(&self, value: Option<String>) -> (r: Result<String, String>)
        ensures
            match value {
                Some(key) => r matches Ok(k) && k == key,
                None => r matches Err(msg) && ({
                    let name = match *self {
                        TranscriptVendors::DeepGram => "DEEPGRAM_API_KEY"@,
                        TranscriptVendors::RevAI => "REVAI_API_KEY"@,
                        TranscriptVendors::AssemblyAI => "ASSEMBLY_API_KEY"@,
                        TranscriptVendors::GlaDia => "GLADIA_API_KEY"@,
                        TranscriptVendors::SpeechMatics => "SPEECHMATICS_API_KEY"@,
                    };
                    msg@ == "Missing "@ + name + " environment variable"@
                }),
            },
    {
        match value {
            Some(key) => Ok(key),
            None => {
                let msg = String::from_str("Missing ").concat(
                    self.api_key_env_name().as_str(),
                ).concat(" environment variable");
                Err(msg)
            },
        }
    }
}

/// The error a failed adapter start surfaces to the caller, wrapping the
/// underlying cause.
pub fn start_failure_message(vendor: &TranscriptVendors, err: &str) -> (r: String)
    ensures
        r@ == "Failed to start "@ + spec_vendor_name(*vendor) + " stream: "@ + err@,
{
    String::from_str("Failed to start ").concat(vendor.name().as_str()).concat(" stream: ")
        .concat(err)
}

impl core::str::FromStr for TranscriptVendors {
    type Err = String;

    fn from_str(s: &str) -> Result<Self, String> {
        TranscriptVendors::parse(s)
    }
}

/// The uniform capability contract over every transcription backend.
pub trait StreamingTranscriber: Sized {
    /// The backend has been told to stop and will accept no more audio.
    spec fn is_shut_down(&self) -> bool;

    /// Enqueues one chunk of 16-bit PCM for transcription, without ever
    /// blocking without bound: a full queue or a stopped backend is an
    /// error, not a stall.
    fn queue_chunk(&mut self, chunk: Vec<i16>) -> (r: Result<(), String>)
        ensures
            final(self).is_shut_down() == old(self).is_shut_down(),
            old(self).is_shut_down() ==> r is Err,
    ;

    /// The vendor's display name.
    fn get_vendor_name(&self) -> String;

    /// Signals the backend to terminate.  Idempotent: on an already stopped
    /// backend nothing changes.
    fn shutdown(&mut self)
        ensures
            final(self).is_shut_down(),
            old(self).is_shut_down() ==> *final(self) == *old(self),
    ;
}

/// The bounded outbound queue between the capture callback and a vendor's
/// network thread: FIFO, and a full queue rejects instead of growing or
/// blocking.
pub struct ChunkQueue {
    items: Vec<Vec<i16>>,
    capacity: usize,
}

impl ChunkQueue {
    /// The queued chunks, front first.
    pub closed spec fn view_items(&self) -> Seq<Vec<i16>> {
        self.items@
    }

    /// The fixed capacity the queue was made with.
    pub closed spec fn spec_capacity(&self) -> nat {
        self.capacity as nat
    }

    pub open spec fn wf(&self) -> bool {
        self.spec_capacity() > 0 && self.view_items().len() <= self.spec_capacity()
    }

    pub fn new(capacity: usize) -> (r: Self)
        requires
            capacity > 0,
        ensures
            r.wf(),
            r.view_items() == Seq::<Vec<i16>>::empty(),
            r.spec_capacity() == capacity,
    {
        let r = ChunkQueue { items: Vec::new(), capacity };
        assert(r.view_items() =~= Seq::<Vec<i16>>::empty());
        r
    }

    /// The number of queued chunks.
    pub fn len(&self) -> (r: usize)
        ensures
            r == self.view_items().len(),
    {
        self.items.len()
    }

    /// Enqueues at the back; a full queue rejects the chunk and stays as it
    /// was — backpressure is an error, never unbounded growth.
    pub fn push(&mut self, chunk: Vec<i16>) -> (r: Result<(), Vec<i16>>)
        ensures
            final(self).spec_capacity() == old(self).spec_capacity(),
            if old(self).view_items().len() < old(self).spec_capacity() {
                r is Ok && final(self).view_items() == old(self).view_items().push(chunk)
            } else {
                (r matches Err(back) && back == chunk) && final(self).view_items() == old(self).view_items()
            },
    {
        if self.items.len() < self.capacity {
            self.items.push(chunk);
            Ok(())
        } else {
            Err(chunk)
        }
    }

    /// Dequeues from the front, preserving FIFO order.
    pub fn pop_front(&mut self) -> (r: Option<Vec<i16>>)
        ensures
            final(self).spec_capacity() == old(self).spec_capacity(),
            if old(self).view_items().len() > 0 {
                (r matches Some(chunk) && chunk == old(self).view_items()[0]) && final(self).view_items() == old(self).view_items().drop_first()
            } else {
                r is None && final(self).view_items() == old(self).view_items()
            },
    {
        if self.items.len() > 0 {
            let chunk = self.items.remove(0);
            proof {
                assert(self.items@ =~= old(self).items@.drop_first());
            }
            Some(chunk)
        } else {
            None
        }
    }
}

/// A cloud vendor adapter: the verified side of a vendor session.  It owns
/// the bounded outbound queue and the shutdown flag; the embedding
/// application drains the queue onto the vendor's socket.
pub struct CloudTranscriber {
    vendor: TranscriptVendors,
    queue: ChunkQueue,
    shut_down: bool,
}

impl CloudTranscriber {
    pub closed spec fn spec_vendor(&self) -> TranscriptVendors {
        self.vendor
    }

    /// The queued chunks, front first.
    pub closed spec fn view_queue(&self) -> Seq<Vec<i16>> {
        self.queue.view_items()
    }

    pub closed spec fn spec_capacity(&self) -> nat {
        self.queue.spec_capacity()
    }

    pub closed spec fn spec_shut_down(&self) -> bool {
        self.shut_down
    }

    pub open spec fn wf(&self) -> bool {
        self.spec_capacity() > 0 && self.view_queue().len() <= self.spec_capacity()
    }

    /// Builds the adapter for a vendor with a bounded queue.
    pub fn start(vendor: TranscriptVendors, queue_capacity: usize) -> (r: Self)
        requires
            queue_capacity > 0,
        ensures
            r.wf(),
            r.spec_vendor() == vendor,
            r.view_queue() == Seq::<Vec<i16>>::empty(),
            r.spec_capacity() == queue_capacity,
            !r.spec_shut_down(),
    {
        CloudTranscriber { vendor, queue: ChunkQueue::new(queue_capacity), shut_down: false }
    }

    /// Enqueues a chunk for the network thread.  A stopped adapter rejects
    /// as a closed channel, a full queue as backpressure, each with its
    /// exact message; the queue never grows past its capacity and the call
    /// never blocks.
    pub fn enqueue_chunk(&mut self, chunk: Vec<i16>) -> (r: Result<(), String>)
        ensures
            final(self).spec_vendor() == old(self).spec_vendor(),
            final(self).spec_capacity() == old(self).spec_capacity(),
            final(self).spec_shut_down() == old(self).spec_shut_down(),
            old(self).spec_shut_down() ==> (r matches Err(msg) && msg@
                == "Failed to queue PCM chunk for "@ + spec_vendor_name(old(self).spec_vendor())
                + ": channel closed"@) && final(self).view_queue() == old(self).view_queue(),
            !old(self).spec_shut_down() && old(self).view_queue().len() < old(self).spec_capacity() ==> r is Ok && final(self).view_queue() == old(self).view_queue().push(chunk),
            !old(self).spec_shut_down() && old(self).view_queue().len() >= old(self).spec_capacity() ==> (r matches Err(msg) && msg@
                == "Failed to queue PCM chunk for "@ + spec_vendor_name(old(self).spec_vendor())
                + ": channel is full (consumer stalled)"@) && final(self).view_queue() == old(self).view_queue(),
    {
        if self.shut_down {
            let msg = String::from_str("Failed to queue PCM chunk for ").concat(
                self.vendor.name().as_str(),
            ).concat(": channel closed");
            return Err(msg);
        }
        match self.queue.push(chunk) {
            Ok(()) => Ok(()),
            Err(_) => {
                let msg = String::from_str("Failed to queue PCM chunk for ").concat(
                    self.vendor.name().as_str(),
                ).concat(": channel is full (consumer stalled)");
                Err(msg)
            },
        }
    }

    /// Hands the next queued chunk to the network thread, in FIFO order.
    pub fn next_chunk(&mut self) -> (r: Option<Vec<i16>>)
        ensures
            final(self).spec_vendor() == old(self).spec_vendor(),
            final(self).spec_capacity() == old(self).spec_capacity(),
            final(self).spec_shut_down() == old(self).spec_shut_down(),
            if old(self).view_queue().len() > 0 {
                (r matches Some(chunk) && chunk == old(self).view_queue()[0]) && final(self).view_queue() == old(self).view_queue().drop_first()
            } else {
                r is None && final(self).view_queue() == old(self).view_queue()
            },
    {
        self.queue.pop_front()
    }

    /// Signals termination; calling it again changes nothing.
    pub fn stop(&mut self)
        ensures
            final(self).spec_shut_down(),
            old(self).spec_shut_down() ==> *final(self) == *old(self),
            final(self).spec_vendor() == old(self).spec_vendor(),
            final(self).view_queue() == old(self).view_queue(),
            final(self).spec_capacity() == old(self).spec_capacity(),
    {
        if !self.shut_down {
            self.shut_down = true;
        }
    }
}

impl StreamingTranscriber for CloudTranscriber {
    open spec fn is_shut_down(&self) -> bool {
        self.spec_shut_down()
    }

    fn queue_chunk(&mut self, chunk: Vec<i16>) -> (r: Result<(), String>) {
        self.enqueue_chunk(chunk)
    }

    fn get_vendor_name(&self) -> String {
        self.vendor.name()
    }

    fn shutdown(&mut self) {
        self.stop();
    }
}

/// An event observed by a vendor session's audio-sending loop.
pub enum SendEvent {
    /// The client asked the session to stop.
    Shutdown,
    /// The receiving loop saw the server end the session.
    TerminationNotice,
    /// A chunk of audio is ready to go out.
    Chunk(Vec<i16>),
    /// The audio source closed; nothing more will come.
    QueueClosed,
}

/// What the sending loop does next.
pub enum SendStep {
    /// Send these bytes as one binary frame.
    Forward(Vec<u8>),
    /// Leave the loop and run the closing sequence.
    ExitLoop,
}

/// The audio-sending half of a vendor session: it forwards chunks as
/// little-endian PCM frames until the client stops it, the source closes,
/// or the server signals termination first — and it remembers which side
/// ended the session, because a client-initiated close still owes the server
/// an end-of-stream message while a server-initiated one does not.
pub struct SendLoop {
    running: bool,
    draining: bool,
    server_terminated: bool,
}

/// What the draining session saw while waiting for the server to finish.
pub enum DrainEvent {
    /// A message was read and handled; more may follow.
    MessageHandled,
    /// The server ended the session.
    ServerTermination,
    /// The stream closed or failed; nothing more will arrive.
    StreamEnded,
}

impl SendLoop {
    pub closed spec fn is_running(&self) -> bool {
        self.running
    }

    /// The client has stopped sending and the session is still reading, so
    /// that pending final results are delivered before the close.
    pub closed spec fn is_draining(&self) -> bool {
        self.draining
    }

    pub closed spec fn spec_server_terminated(&self) -> bool {
        self.server_terminated
    }

    pub fn new() -> (r: Self)
        ensures
            r.is_running(),
            !r.is_draining(),
            !r.spec_server_terminated(),
    {
        SendLoop { running: true, draining: false, server_terminated: false }
    }

    /// Whether the loop should keep taking events.
    pub fn should_continue(&self) -> (r: bool)
        ensures
            r == self.is_running(),
    {
        self.running
    }

    /// Takes one event.  Chunks are forwarded as little-endian PCM; every
    /// ending event leaves the loop.  A server termination ends the whole
    /// session at once; a client stop or a closed source instead enters the
    /// draining phase, in which the session keeps reading so the server's
    /// pending final results are still delivered.
    pub fn on_event(&mut self, event: SendEvent) -> (r: SendStep)
        requires
            old(self).is_running(),
        ensures
            match event {
                SendEvent::Chunk(chunk) => (r matches SendStep::Forward(bytes) && bytes@.len() == 2
                    * chunk@.len() && (forall|j: int|
                    0 <= j < chunk@.len() ==> bytes@[2 * j] == pcm_low_byte(#[trigger] chunk@[j])
                        && bytes@[2 * j + 1] == pcm_high_byte(chunk@[j]))) && final(self).is_running() && final(self).is_draining() == old(self).is_draining() && final(self).spec_server_terminated() == old(self).spec_server_terminated(),
                SendEvent::TerminationNotice => r is ExitLoop && !final(self).is_running()
                    && !final(self).is_draining() && final(self).spec_server_terminated(),
                _ => r is ExitLoop && !final(self).is_running() && final(self).is_draining()
                    && final(self).spec_server_terminated() == old(self).spec_server_terminated(),
            },
    {
        match event {
            SendEvent::Shutdown => {
                self.running = false;
                self.draining = true;
                SendStep::ExitLoop
            },
            SendEvent::TerminationNotice => {
                self.running = false;
                self.draining = false;
                self.server_terminated = true;
                SendStep::ExitLoop
            },
            SendEvent::Chunk(chunk) => {
                SendStep::Forward(pcm_chunk_to_bytes(chunk.as_slice()))
            },
            SendEvent::QueueClosed => {
                self.running = false;
                self.draining = true;
                SendStep::ExitLoop
            },
        }
    }

    /// Whether the session still owes the server a read: after a clean
    /// client stop it keeps reading until the server terminates or the
    /// stream ends, so final results are delivered.
    pub fn should_drain(&self) -> (r: bool)
        ensures
            r == self.is_draining(),
    {
        self.draining
    }

    /// Takes one event of the draining phase: a handled message leaves the
    /// session draining; the server's termination or the end of the stream
    /// finishes it, and only the former counts as ended by the server.
    pub fn on_drain_event(&mut self, event: DrainEvent)
        requires
            old(self).is_draining(),
            !old(self).is_running(),
        ensures
            !final(self).is_running(),
            match event {
                DrainEvent::MessageHandled => final(self).is_draining() && final(self).spec_server_terminated() == old(self).spec_server_terminated(),
                DrainEvent::ServerTermination => !final(self).is_draining() && final(self).spec_server_terminated(),
                DrainEvent::StreamEnded => !final(self).is_draining() && final(self).spec_server_terminated() == old(self).spec_server_terminated(),
            },
    {
        match event {
            DrainEvent::MessageHandled => {},
            DrainEvent::ServerTermination => {
                self.draining = false;
                self.server_terminated = true;
            },
            DrainEvent::StreamEnded => {
                self.draining = false;
            },
        }
    }

    /// The end-of-stream payload owed to the server after the loop exits:
    /// the vendor's own marker, unless the server already ended the session.
    pub fn stop_message(&self, vendor: &TranscriptVendors) -> (r: Option<String>)
        requires
            !self.is_running(),
        ensures
            self.spec_server_terminated() && vendor is RevAI ==> r is None,
            !(self.spec_server_terminated() && vendor is RevAI) ==> (r matches Some(msg)
                && msg@ == spec_stop_payload(*vendor)),
    {
        if self.server_terminated {
            match vendor {
                TranscriptVendors::RevAI => return None,
                _ => {},
            }
        }
        Some(stop_payload(vendor))
    }
}

/// The end-of-stream marker each vendor's wire protocol expects.
pub open spec fn spec_stop_payload(vendor: TranscriptVendors) -> Seq<char> {
    match vendor {
        TranscriptVendors::AssemblyAI => "{\"type\":\"Terminate\"}"@,
        TranscriptVendors::GlaDia => "{\"type\":\"stop_recording\"}"@,
        TranscriptVendors::RevAI => "EOS"@,
        TranscriptVendors::DeepGram => ""@,
        TranscriptVendors::SpeechMatics => ""@,
    }
}

/// Builds the vendor's end-of-stream marker.  Deepgram and Speechmatics
/// close by shutting the stream down instead of a payload, so theirs is
/// empty.
pub fn stop_payload(vendor: &TranscriptVendors) -> (r: String)
    ensures
        r@ == spec_stop_payload(*vendor),
{
    match vendor {
        TranscriptVendors::AssemblyAI => String::from_str("{\"type\":\"Terminate\"}"),
        TranscriptVendors::GlaDia => String::from_str("{\"type\":\"stop_recording\"}"),
        TranscriptVendors::RevAI => String::from_str("EOS"),
        TranscriptVendors::DeepGram => String::from_str(""),
        TranscriptVendors::SpeechMatics => String::from_str(""),
    }
}

/// What a server text message means to the receiving loop.
pub enum ReceiveOutcome {
    /// Forward these transcripts to the result callback, in order.
    Emit(Vec<String>),
    /// The server ended the session; stop both loops.
    Terminate,
    /// The server reported an error; stop and surface it.
    VendorError(String),
    /// Nothing to act on.
    Ignore,
}

/// Classifies one raw server text frame for the given vendor's session:
/// the dispatch is the vendor's protocol decision, so it lives here.
/// Deepgram sessions never see raw text frames (their client yields typed
/// responses), so theirs is always no-op.
pub fn classify_for(vendor: &TranscriptVendors, payload: &str) -> (r: ReceiveOutcome)
    ensures
        vendor is AssemblyAI ==> (match crate::json::parsed_json(payload@) {
            None => r is Ignore,
            Some(v) => if crate::transcript_vendors::assemblyai::spec_resolve_event_type(v)
                == Some("Termination"@) {
                r is Terminate
            } else {
                r matches ReceiveOutcome::Emit(texts) && Seq::new(
                    texts@.len(),
                    |i: int| texts@[i]@,
                ) == crate::transcript_vendors::assemblyai::spec_extract_final_transcripts(v)
            },
        }),
        vendor is GlaDia ==> (match crate::transcript_vendors::gladia::spec_parse_transcript(
            payload@,
        ) {
            Some(pair) => if pair.0 is Final && pair.1.len() > 0 {
                r matches ReceiveOutcome::Emit(texts) && texts@.len() == 1 && texts@[0]@ == pair.1
            } else {
                r is Ignore
            },
            None => if crate::transcript_vendors::gladia::spec_is_error_payload(payload@) {
                r matches ReceiveOutcome::VendorError(msg) && msg@
                    == "Gladia returned error payload: "@ + payload@
            } else {
                r is Ignore
            },
        }),
        vendor is RevAI ==> (match crate::transcript_vendors::revai::spec_parse_transcript(
            payload@,
        ) {
            Some(pair) => if pair.0 is Partial && pair.1.len() > 0 {
                r matches ReceiveOutcome::Emit(texts) && texts@.len() == 1 && texts@[0]@ == pair.1
            } else {
                r is Ignore
            },
            None => if crate::transcript_vendors::revai::spec_is_revai_error(payload@) {
                r matches ReceiveOutcome::VendorError(msg) && msg@
                    == "RevAI returned error payload: "@ + payload@
            } else {
                r is Ignore
            },
        }),
        vendor is SpeechMatics ==> ({
            let kind = crate::transcript_vendors::speechmatics::spec_message_field(payload@);
            if kind == Some("AddTranscript"@) {
                ({
                    let text = crate::transcript_vendors::speechmatics::spec_transcript_field(
                        payload@,
                    );
                    if crate::json::unicode_trimmed(text).len() > 0 {
                        r matches ReceiveOutcome::Emit(texts) && texts@.len() == 1 && texts@[0]@
                            == crate::json::unicode_trimmed(text)
                    } else {
                        r is Ignore
                    }
                })
            } else if kind == Some("Error"@) {
                r matches ReceiveOutcome::VendorError(msg) && msg@
                    == "Speechmatics returned error: "@
                    + crate::transcript_vendors::speechmatics::spec_reason_field(payload@)
            } else if kind == Some("EndOfTranscript"@) {
                r is Terminate
            } else {
                r is Ignore
            }
        }),
        vendor is DeepGram ==> r is Ignore,
{
    match vendor {
        TranscriptVendors::AssemblyAI => crate::transcript_vendors::assemblyai::handle_text_message(
            payload,
        ),
        TranscriptVendors::GlaDia => crate::transcript_vendors::gladia::handle_text_message(
            payload,
        ),
        TranscriptVendors::RevAI => crate::transcript_vendors::revai::handle_text_message(payload),
        TranscriptVendors::SpeechMatics => crate::transcript_vendors::speechmatics::session_message_outcome(
            crate::transcript_vendors::speechmatics::classify_payload(payload),
        ),
        TranscriptVendors::DeepGram => ReceiveOutcome::Ignore,
    }
}

} // verus!

pub mod assemblyai;
pub mod deepgram;
pub mod gladia;
pub mod revai;
pub mod speechmatics;
