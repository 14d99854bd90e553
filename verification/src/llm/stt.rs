//! File-transcription support: choosing the upload's media type from the
//! file extension.  The multipart upload itself is application I/O.

use vstd::prelude::*;

use crate::text::{ascii_lower, bytes_eq, lower_bytes};

verus! {

use vstd::string::StringSliceAdditionalSpecFns;
use vstd::string::StringExecFns;
use vstd::utf8::encode_utf8;

/// The media type for an audio file extension, compared without regard to
/// ASCII case; unknown extensions upload as plain bytes.
pub fn mime_for_extension(ext: &str) -> (r: String)
    ensures
        ({
            let e = lower_bytes(encode_utf8(ext@));
            if e == "wav".spec_bytes() {
                r@ == "audio/wav"@
            } else if e == "mp3".spec_bytes() {
                r@ == "audio/mpeg"@
            } else if e == "m4a".spec_bytes() {
                r@ == "audio/mp4"@
            } else if e == "flac".spec_bytes() {
                r@ == "audio/flac"@
            } else if e == "ogg".spec_bytes() {
                r@ == "audio/ogg"@
            } else {
                r@ == "application/octet-stream"@
            }
        }),
{
    let lowered = ascii_lower(ext.as_bytes());
    if bytes_eq(lowered.as_slice(), "wav".as_bytes()) {
        String::from_str("audio/wav")
    } else if bytes_eq(lowered.as_slice(), "mp3".as_bytes()) {
        String::from_str("audio/mpeg")
    } else if bytes_eq(lowered.as_slice(), "m4a".as_bytes()) {
        String::from_str("audio/mp4")
    } else if bytes_eq(lowered.as_slice(), "flac".as_bytes()) {
        String::from_str("audio/flac")
    } else if bytes_eq(lowered.as_slice(), "ogg".as_bytes()) {
        String::from_str("audio/ogg")
    } else {
        String::from_str("application/octet-stream")
    }
}

} // verus!
