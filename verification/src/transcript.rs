//! The local embedded recognizer behind the uniform transcriber interface.
//!
//! The recognition engine itself needs a native model library and is run by
//! the embedding application; this is the verified state around it: the
//! accumulated-sample counter, the one-shot reset decision, and shutdown
//! idempotence.  The application feeds the engine exactly as the returned
//! decisions say.

use vstd::prelude::*;

use crate::transcript_vendors::StreamingTranscriber;

verus! {

use vstd::string::StringExecFns;

/// Why local transcription failed.
#[derive(Debug)]
pub enum TranscriptionError {
    ModelNotLoaded,
    LoadModelFailed,
    ParseError(String),
}

/// The local recognizer as a streaming transcriber: recognition runs
/// synchronously in the caller, partial results come back per chunk, and a
/// reset discards accumulated state without stopping capture.
pub struct LocalTranscriber {
    accumulated: usize,
    shut_down: bool,
}

/// What the engine should do with one chunk.
pub struct ChunkDirective {
    /// Discard the engine's accumulated acoustic state before feeding the
    /// chunk.
    pub reset_engine: bool,
    /// Feed the chunk and read back a partial result.
    pub feed: bool,
}

impl LocalTranscriber {
    /// How many samples have been fed since the last reset.
    pub closed spec fn spec_accumulated(&self) -> nat {
        self.accumulated as nat
    }

    pub closed spec fn spec_shut_down(&self) -> bool {
        self.shut_down
    }

    pub fn new() -> (r: Self)
        ensures
            r.spec_accumulated() == 0,
            !r.spec_shut_down(),
    {
        LocalTranscriber { accumulated: 0, shut_down: false }
    }

    /// The accumulated-sample counter, for callers and tests.
    pub fn accumulated(&self) -> (r: usize)
        ensures
            r == self.spec_accumulated(),
    {
        self.accumulated
    }

    /// Takes one chunk into account.  A pending clear request resets the
    /// counter to zero before this chunk is counted, and tells the caller
    /// to reset the engine too — without stopping capture; otherwise the
    /// counter grows by the chunk (saturating at the machine limit).
    pub fn process_chunk(&mut self, samples: usize, clear_requested: bool) -> (r: ChunkDirective)
        requires
            !old(self).spec_shut_down(),
        ensures
            !final(self).spec_shut_down(),
            r.feed,
            r.reset_engine == clear_requested,
            clear_requested ==> final(self).spec_accumulated() == 0,
            !clear_requested && old(self).spec_accumulated() + samples <= usize::MAX ==> final(self).spec_accumulated() == old(self).spec_accumulated() + samples,
    {
        if clear_requested {
            self.accumulated = 0;
            ChunkDirective { reset_engine: true, feed: true }
        } else {
            if self.accumulated <= usize::MAX - samples {
                self.accumulated = self.accumulated + samples;
            }
            ChunkDirective { reset_engine: false, feed: true }
        }
    }

    /// Discards the accumulated count; the engine's own reset goes with
    /// it, and capture goes on.
    pub fn reset(&mut self)
        ensures
            final(self).spec_accumulated() == 0,
            final(self).spec_shut_down() == old(self).spec_shut_down(),
    {
        self.accumulated = 0;
    }
}

impl StreamingTranscriber for LocalTranscriber {
    open spec fn is_shut_down(&self) -> bool {
        self.spec_shut_down()
    }

    fn queue_chunk(&mut self, chunk: Vec<i16>) -> (r: Result<(), String>) {
        if self.shut_down {
            return Err(String::from_str("local recognizer is shut down"));
        }
        let _directive = self.process_chunk(chunk.len(), false);
        Ok(())
    }

    fn get_vendor_name(&self) -> String {
        String::from_str("Local")
    }

    fn shutdown(&mut self) {
        if !self.shut_down {
            self.shut_down = true;
        }
    }
}

} // verus!
