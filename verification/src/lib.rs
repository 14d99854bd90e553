//! Verified core of a live audio capture and streaming transcription pipeline.
//!
//! Hardware audio frames are converted to mono, accumulated into fixed-size
//! chunks, optionally resampled, and handed to a streaming transcription
//! adapter (a local recognizer or a cloud vendor session).  The numeric,
//! buffering, lifecycle and protocol-decision logic lives here and is
//! verified; device, disk and network access stay with the embedding
//! application.

use vstd::prelude::*;

pub mod chunking;
pub mod json;
pub mod lifecycle;
pub mod llm;
pub mod resample;
pub mod samples;
pub mod session;
pub mod text;
pub mod transcript;
pub mod transcript_vendors;
pub mod utils;

pub use samples::stereo_to_mono_i16;

verus! {

/// Sample rate (Hz) that the recognizers expect; chunks are resampled to it.
pub const RESAMPLE_RATE: u32 = 16000;

} // verus!
