//! The Speechmatics session: its configuration plan, the meaning of each
//! session message, and the buffered byte feed that turns queued chunks
//! into reads for the session's audio input.

use vstd::prelude::*;

use crate::json::{
    parse_json, parsed_json, spec_as_text, spec_get, trim_str, unicode_trimmed, JsonValue,
};
use crate::text::str_eq;
use crate::transcript_vendors::ReceiveOutcome;

verus! {

use vstd::string::StringExecFns;

/// The session configuration a Speechmatics stream opens with.  Times are
/// in milliseconds, so the plan stays in plain integers.
pub struct SessionConfigPlan {
    pub language: Option<String>,
    pub sample_rate: u32,
    pub end_of_utterance_silence_millis: u32,
    pub max_delay_millis: u32,
    pub enable_partials: bool,
}

/// Plans the session: raw signed 16-bit little-endian audio at the given
/// rate, an end-of-utterance trigger of half a second, at most two seconds
/// of delay, and no partials.
pub fn session_config_plan(sample_rate: u32, language: Option<String>) -> (r: SessionConfigPlan)
    ensures
        r.language == language,
        r.sample_rate == sample_rate,
        r.end_of_utterance_silence_millis == 500,
        r.max_delay_millis == 2000,
        !r.enable_partials,
{
    SessionConfigPlan {
        language,
        sample_rate,
        end_of_utterance_silence_millis: 500,
        max_delay_millis: 2000,
        enable_partials: false,
    }
}

/// One message of a running session, as the application receives it.
pub enum SessionMessage {
    /// A transcript fragment arrived.
    AddTranscript(String),
    /// The server reported an error, with its reason.
    ErrorMessage(String),
    /// The server closed the transcript.
    EndOfTranscript,
    /// Anything else.
    Other,
}

/// Decides what one session message means: a transcript with content is
/// emitted trimmed, an error ends the session carrying its reason, the end
/// of the transcript ends it quietly, the rest is ignored.
pub fn session_message_outcome(message: SessionMessage) -> (r: ReceiveOutcome)
    ensures
        match message {
            SessionMessage::AddTranscript(text) => if unicode_trimmed(text@).len() > 0 {
                (r matches ReceiveOutcome::Emit(texts) && texts@.len() == 1 && texts@[0]@
                    == unicode_trimmed(text@))
            } else {
                r is Ignore
            },
            SessionMessage::ErrorMessage(reason) => r matches ReceiveOutcome::VendorError(msg)
                && msg@ == "Speechmatics returned error: "@ + reason@,
            SessionMessage::EndOfTranscript => r is Terminate,
            SessionMessage::Other => r is Ignore,
        },
{
    match message {
        SessionMessage::AddTranscript(text) => {
            let trimmed = trim_str(text.as_str());
            if !trimmed.is_empty() {
                let mut texts: Vec<String> = Vec::new();
                texts.push(trimmed.to_owned());
                ReceiveOutcome::Emit(texts)
            } else {
                ReceiveOutcome::Ignore
            }
        },
        SessionMessage::ErrorMessage(reason) => {
            let msg = String::from_str("Speechmatics returned error: ").concat(reason.as_str());
            ReceiveOutcome::VendorError(msg)
        },
        SessionMessage::EndOfTranscript => ReceiveOutcome::Terminate,
        SessionMessage::Other => ReceiveOutcome::Ignore,
    }
}

/// The `message` field of a session payload, when it parses and carries
/// one.
pub open spec fn spec_message_field(payload: Seq<char>) -> Option<Seq<char>> {
    match parsed_json(payload) {
        Some(v) => match spec_get(v, "message"@) {
            Some(e) => spec_as_text(e),
            None => None,
        },
        None => None,
    }
}

/// The transcript text of an `AddTranscript` payload: its metadata's
/// `transcript` string, or nothing when the shape is off.
pub open spec fn spec_transcript_field(payload: Seq<char>) -> Seq<char> {
    match parsed_json(payload) {
        Some(v) => match spec_get(v, "metadata"@) {
            Some(meta) => match spec_get(meta, "transcript"@) {
                Some(t) => match spec_as_text(t) {
                    Some(s) => s,
                    None => Seq::<char>::empty(),
                },
                None => Seq::<char>::empty(),
            },
            None => Seq::<char>::empty(),
        },
        None => Seq::<char>::empty(),
    }
}

/// The reason of an `Error` payload, or nothing when the shape is off.
pub open spec fn spec_reason_field(payload: Seq<char>) -> Seq<char> {
    match parsed_json(payload) {
        Some(v) => match spec_get(v, "reason"@) {
            Some(e) => match spec_as_text(e) {
                Some(s) => s,
                None => Seq::<char>::empty(),
            },
            None => Seq::<char>::empty(),
        },
        None => Seq::<char>::empty(),
    }
}

/// Reads one raw session payload into a [`SessionMessage`]: transcripts,
/// errors and the end of the transcript by their `message` field, anything
/// else — non-JSON included — as [`SessionMessage::Other`].
pub fn classify_payload(payload: &str) -> (r: SessionMessage)
    ensures
        ({
            let kind = spec_message_field(payload@);
            if kind == Some("AddTranscript"@) {
                r matches SessionMessage::AddTranscript(t) && t@ == spec_transcript_field(
                    payload@,
                )
            } else if kind == Some("Error"@) {
                r matches SessionMessage::ErrorMessage(reason) && reason@ == spec_reason_field(
                    payload@,
                )
            } else if kind == Some("EndOfTranscript"@) {
                r is EndOfTranscript
            } else {
                r is Other
            }
        }),
{
    let v: JsonValue = match parse_json(payload) {
        Some(v) => v,
        None => {
            return SessionMessage::Other;
        },
    };
    let kind: String = match v.get("message") {
        Some(e) => match e.as_text() {
            Some(s) => s.as_str().to_owned(),
            None => {
                return SessionMessage::Other;
            },
        },
        None => {
            return SessionMessage::Other;
        },
    };
    if str_eq(kind.as_str(), "AddTranscript") {
        let text: String = match v.get("metadata") {
            Some(meta) => match meta.get("transcript") {
                Some(t) => match t.as_text() {
                    Some(s) => s.as_str().to_owned(),
                    None => String::new(),
                },
                None => String::new(),
            },
            None => String::new(),
        };
        proof {
            if spec_transcript_field(payload@) != text@ {
                assert(text@ =~= Seq::<char>::empty());
            }
        }
        SessionMessage::AddTranscript(text)
    } else if str_eq(kind.as_str(), "Error") {
        let reason: String = match v.get("reason") {
            Some(e) => match e.as_text() {
                Some(s) => s.as_str().to_owned(),
                None => String::new(),
            },
            None => String::new(),
        };
        proof {
            if spec_reason_field(payload@) != reason@ {
                assert(reason@ =~= Seq::<char>::empty());
            }
        }
        SessionMessage::ErrorMessage(reason)
    } else if str_eq(kind.as_str(), "EndOfTranscript") {
        SessionMessage::EndOfTranscript
    } else {
        SessionMessage::Other
    }
}

/// What one read against the byte feed produced.
pub enum FeedStep {
    /// These bytes go to the reader (possibly none, which means the feed
    /// has nothing more to give in this read).
    Deliver(Vec<u8>),
    /// The feed is exhausted for good.
    Finished,
    /// No chunk is available yet; the reader must try again later.
    Pending,
}

/// A buffered reader over queued audio chunks: it hands each queued chunk
/// out byte by byte, in order, pulling the next chunk only when the current
/// one is spent.
pub struct ByteFeed {
    buffer: Vec<u8>,
    position: usize,
    finished: bool,
}

impl ByteFeed {
    /// The bytes of the current chunk.
    pub closed spec fn view_buffer(&self) -> Seq<u8> {
        self.buffer@
    }

    /// How many bytes of the current chunk have already been handed out.
    pub closed spec fn spec_position(&self) -> nat {
        self.position as nat
    }

    /// The source closed and the feed is done.
    pub closed spec fn spec_finished(&self) -> bool {
        self.finished
    }

    pub open spec fn wf(&self) -> bool {
        self.spec_position() <= self.view_buffer().len()
    }

    pub fn new() -> (r: Self)
        ensures
            r.wf(),
            r.view_buffer() == Seq::<u8>::empty(),
            r.spec_position() == 0,
            !r.spec_finished(),
    {
        let r = ByteFeed { buffer: Vec::new(), position: 0, finished: false };
        assert(r.view_buffer() =~= Seq::<u8>::empty());
        r
    }

    /// One read of up to `dest_capacity` bytes.  `incoming` is what the
    /// chunk source had when the current chunk was spent: nothing yet, a
    /// closed source, or the next chunk.  Bytes leave in chunk order with
    /// none skipped or repeated; a finished feed stays finished.
    pub fn read_step(&mut self, dest_capacity: usize, incoming: Option<Option<Vec<u8>>>) -> (r:
        FeedStep)
        requires
            old(self).wf(),
        ensures
            final(self).wf(),
            old(self).spec_finished() ==> r is Finished && *final(self) == *old(self),
            !old(self).spec_finished() && old(self).spec_position() < old(self).view_buffer().len() ==> ({
                let available = old(self).view_buffer().len() - old(self).spec_position();
                let took = if available < dest_capacity {
                    available as int
                } else {
                    dest_capacity as int
                };
                if took == 0 {
                    (r matches FeedStep::Deliver(bytes) && bytes@.len() == 0) && *final(self)
                        == *old(self)
                } else {
                    (r matches FeedStep::Deliver(bytes) && bytes@ == old(self).view_buffer().subrange(
                        old(self).spec_position() as int,
                        old(self).spec_position() + took,
                    )) && final(self).view_buffer() == old(self).view_buffer() && final(self).spec_position() == old(self).spec_position() + took && !final(self).spec_finished()
                }
            }),
            !old(self).spec_finished() && old(self).spec_position() >= old(self).view_buffer().len() ==> match incoming {
                None => r is Pending && *final(self) == *old(self),
                Some(None) => r is Finished && final(self).spec_finished(),
                Some(Some(chunk)) => if chunk@.len() == 0 {
                    (r matches FeedStep::Deliver(bytes) && bytes@.len() == 0) && final(self).view_buffer() == chunk@ && final(self).spec_position() == 0
                } else {
                    ({
                        let took = if chunk@.len() < dest_capacity {
                            chunk@.len() as int
                        } else {
                            dest_capacity as int
                        };
                        if took == 0 {
                            (r matches FeedStep::Deliver(bytes) && bytes@.len() == 0) && final(self).view_buffer() == chunk@ && final(self).spec_position() == 0
                        } else {
                            (r matches FeedStep::Deliver(bytes) && bytes@ == chunk@.subrange(
                                0,
                                took,
                            )) && final(self).view_buffer() == chunk@ && final(self).spec_position() == took
                        }
                    })
                },
            },
    {
        if self.finished {
            return FeedStep::Finished;
        }
        if self.position >= self.buffer.len() {
            match incoming {
                None => {
                    return FeedStep::Pending;
                },
                Some(None) => {
                    self.finished = true;
                    return FeedStep::Finished;
                },
                Some(Some(chunk)) => {
                    self.buffer = chunk;
                    self.position = 0;
                },
            }
        }
        if self.position >= self.buffer.len() {
            return FeedStep::Deliver(Vec::new());
        }
        let available = self.buffer.len() - self.position;
        let to_copy = if available < dest_capacity {
            available
        } else {
            dest_capacity
        };
        if to_copy == 0 {
            return FeedStep::Deliver(Vec::new());
        }
        let mut out: Vec<u8> = Vec::new();
        let mut i: usize = self.position;
        let stop = self.position + to_copy;
        while i < stop
            invariant
                self.position <= i <= stop <= self.buffer@.len(),
                self.buffer@ == old(self).buffer@ || self.buffer@.len() > 0,
                out@ == self.buffer@.subrange(self.position as int, i as int),
                self.position == old(self).position || self.position == 0,
                self.finished == false,
                stop == self.position + to_copy,
            decreases stop - i,
        {
            out.push(self.buffer[i]);
            proof {
                assert(out@ =~= self.buffer@.subrange(self.position as int, i + 1));
            }
            i = i + 1;
        }
        self.position = stop;
        FeedStep::Deliver(out)
    }
}

} // verus!
