//! The resampling step of the pipeline.
//!
//! The rate conversion itself is floating-point signal processing done by the
//! embedding application; this module holds the verified policy around it:
//! parameter validation, the same-rate short-circuit (a domain cast, nothing
//! more), and the fallback that keeps the pipeline alive when the converter
//! fails — the chunk is then emitted as the un-resampled domain cast of the
//! input, never dropped.

use vstd::prelude::*;

use crate::samples::{domain_cast, spec_domain_cast};

verus! {

/// Why a chunk could not be resampled.
#[derive(Debug)]
pub enum ResampleError {
    /// The chunk held no samples.
    EmptyInput,
    /// The channel count was zero or did not divide the sample count.
    ChannelMismatch,
    /// The rate converter itself failed; its message is carried along.
    Converter(String),
}

/// Valid resampling parameters: a non-empty chunk of whole frames.
pub open spec fn resample_params_ok(len: nat, channels: u32) -> bool {
    len > 0 && channels > 0 && len % (channels as nat) == 0
}

/// Whether a chunk must go through the rate converter at all.
pub fn needs_conversion(input_rate: u32, output_rate: u32) -> (r: bool)
    ensures
        r == (input_rate != output_rate),
{
    input_rate != output_rate
}

/// Converts a chunk from `input_rate` to `output_rate`.  Equal rates are a
/// domain cast and nothing else; differing rates hand back what the outside
/// converter produced (`converted`, which the caller obtained if and only if
/// the rates differ).  Invalid parameters are rejected, never a panic.
pub fn resample(
    chunk: &[i32],
    input_rate: u32,
    output_rate: u32,
    channels: u32,
    converted: Option<Result<Vec<i16>, ResampleError>>,
) -> (r: Result<Vec<i16>, ResampleError>)
    requires
        converted is Some <==> input_rate != output_rate,
    ensures
        chunk@.len() == 0 ==> (r matches Err(e) && e is EmptyInput),
        chunk@.len() > 0 && !(channels > 0 && chunk@.len() % (channels as nat) == 0) ==> (
        r matches Err(e) && e is ChannelMismatch),
        resample_params_ok(chunk@.len(), channels) && input_rate == output_rate ==> (
        r matches Ok(v) && v@ == spec_domain_cast(chunk@)),
        resample_params_ok(chunk@.len(), channels) && input_rate != output_rate ==> r
            == converted->Some_0,
{
    if chunk.len() == 0 {
        return Err(ResampleError::EmptyInput);
    }
    if channels == 0 || chunk.len() % (channels as usize) != 0 {
        return Err(ResampleError::ChannelMismatch);
    }
    if input_rate == output_rate {
        Ok(domain_cast(chunk))
    } else {
        match converted {
            Some(outcome) => outcome,
            None => Err(ResampleError::ChannelMismatch),
        }
    }
}

/// Prepares one chunk for the transcriber: resamples when asked to, and on
/// any resampling failure falls back to the un-resampled domain cast of the
/// input, so no chunk is ever dropped.
pub fn prepare_chunk(
    chunk: &[i32],
    use_resampled: bool,
    input_rate: u32,
    output_rate: u32,
    converted: Option<Result<Vec<i16>, ResampleError>>,
) -> (r: Vec<i16>)
    requires
        converted is Some <==> (use_resampled && input_rate != output_rate),
    ensures
        !use_resampled ==> r@ == spec_domain_cast(chunk@),
        use_resampled && (input_rate == output_rate || chunk@.len() == 0) ==> r@
            == spec_domain_cast(chunk@),
        use_resampled && input_rate != output_rate && chunk@.len() > 0 ==> match converted->Some_0 {
            Ok(v) => r == v,
            Err(_) => r@ == spec_domain_cast(chunk@),
        },
{
    proof {
        assert(chunk@.len() % (1 as nat) == 0);
    }
    if use_resampled {
        match resample(chunk, input_rate, output_rate, 1, converted) {
            Ok(resampled) => resampled,
            Err(_) => domain_cast(chunk),
        }
    } else {
        domain_cast(chunk)
    }
}

} // verus!
