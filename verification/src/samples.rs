//! Per-sample numeric conversions: interleaved stereo to mono down-mix and
//! domain casts between normalized samples and 16-bit integer PCM.
//!
//! A sample in the normalized (floating) domain is carried as an `i32` scaled
//! so that the nominal range [-1, 1] maps onto the 16-bit PCM range; casting
//! to PCM is then a clamp, and casting PCM up is the identity on the raw
//! value.

use vstd::prelude::*;

verus! {

/// Truncating halving, as the `/ 2` of the executable code computes it:
/// rounds toward zero for either sign.
pub open spec fn half_toward_zero(x: int) -> int {
    if x >= 0 {
        x / 2
    } else {
        -((-x) / 2)
    }
}

/// The mean of one stereo frame of 16-bit samples, widened so it cannot
/// overflow.
pub open spec fn mono_mix_i16(a: i16, b: i16) -> i16 {
    half_toward_zero(a as int + b as int) as i16
}

/// The stereo-to-mono down-mix of a 16-bit buffer: each pair of samples is
/// averaged; a buffer of odd length is not whole stereo frames and is
/// returned unchanged.
pub open spec fn spec_to_mono_i16(s: Seq<i16>) -> Seq<i16> {
    if s.len() % 2 == 1 {
        s
    } else {
        Seq::new(s.len() / 2, |i: int| mono_mix_i16(s[2 * i], s[2 * i + 1]))
    }
}

/// Averages interleaved stereo 16-bit samples pairwise into a mono buffer,
/// widening to avoid overflow; odd-length input is returned as it is.
pub fn stereo_to_mono_i16(samples: &[i16]) -> (r: Vec<i16>)
    ensures
        r@ == spec_to_mono_i16(samples@),
{
    if samples.len() % 2 == 1 {
        let mut out: Vec<i16> = Vec::new();
        let mut i: usize = 0;
        while i < samples.len()
            invariant
                i <= samples@.len(),
                out@ == samples@.take(i as int),
            decreases samples@.len() - i,
        {
            out.push(samples[i]);
            i = i + 1;
        }
        assert(out@ == samples@.take(samples@.len() as int));
        assert(samples@.take(samples@.len() as int) == samples@);
        out
    } else {
        let n: usize = samples.len() / 2;
        let mut out: Vec<i16> = Vec::new();
        let mut i: usize = 0;
        while i < n
            invariant
                i <= n,
                n == samples@.len() / 2,
                2 * n <= samples@.len(),
                samples@.len() <= usize::MAX,
                samples@.len() % 2 == 0,
                out@.len() == i,
                forall|j: int|
                    0 <= j < i ==> out@[j] == mono_mix_i16(samples@[2 * j], samples@[2 * j + 1]),
            decreases n - i,
        {
            let a = samples[2 * i];
            let b = samples[2 * i + 1];
            let sum: i32 = a as i32 + b as i32;
            let mixed: i32 = if sum >= 0 {
                sum / 2
            } else {
                -((-sum) / 2)
            };
            assert(mixed == half_toward_zero(a as int + b as int));
            assert(-32768 <= mixed <= 32767);
            out.push(mixed as i16);
            i = i + 1;
        }
        assert(out@ =~= spec_to_mono_i16(samples@));
        out
    }
}

/// The mean of one stereo frame of normalized samples.
pub open spec fn mono_mix_norm(a: i32, b: i32) -> i32 {
    half_toward_zero(a as int + b as int) as i32
}

/// The stereo-to-mono down-mix of a normalized buffer; a buffer of odd
/// length is not whole stereo frames and is returned unchanged.
pub open spec fn spec_to_mono_norm(s: Seq<i32>) -> Seq<i32> {
    if s.len() % 2 == 1 {
        s
    } else {
        Seq::new(s.len() / 2, |i: int| mono_mix_norm(s[2 * i], s[2 * i + 1]))
    }
}

/// Averages interleaved stereo normalized samples pairwise into a mono
/// buffer, widening to avoid overflow; odd-length input is returned as it
/// is.
pub fn stereo_to_mono_norm(samples: &[i32]) -> (r: Vec<i32>)
    ensures
        r@ == spec_to_mono_norm(samples@),
{
    if samples.len() % 2 == 1 {
        let mut out: Vec<i32> = Vec::new();
        let mut i: usize = 0;
        while i < samples.len()
            invariant
                i <= samples@.len(),
                out@ == samples@.take(i as int),
            decreases samples@.len() - i,
        {
            out.push(samples[i]);
            i = i + 1;
        }
        assert(out@ == samples@.take(samples@.len() as int));
        assert(samples@.take(samples@.len() as int) == samples@);
        out
    } else {
        let n: usize = samples.len() / 2;
        let mut out: Vec<i32> = Vec::new();
        let mut i: usize = 0;
        while i < n
            invariant
                i <= n,
                n == samples@.len() / 2,
                2 * n <= samples@.len(),
                samples@.len() <= usize::MAX,
                samples@.len() % 2 == 0,
                out@.len() == i,
                forall|j: int|
                    0 <= j < i ==> out@[j] == mono_mix_norm(samples@[2 * j], samples@[2 * j + 1]),
            decreases n - i,
        {
            let a = samples[2 * i];
            let b = samples[2 * i + 1];
            let sum: i64 = a as i64 + b as i64;
            let mixed: i64 = if sum >= 0 {
                sum / 2
            } else {
                -((-sum) / 2)
            };
            assert(mixed == half_toward_zero(a as int + b as int));
            assert(i32::MIN <= mixed <= i32::MAX);
            out.push(mixed as i32);
            i = i + 1;
        }
        assert(out@ =~= spec_to_mono_norm(samples@));
        out
    }
}

/// Clamps a normalized sample into the 16-bit PCM range: the cast from the
/// floating domain scales and saturates, it never wraps.
pub open spec fn clamp_to_i16(s: i32) -> i16 {
    if s < -32768 {
        (-32768) as i16
    } else if s > 32767 {
        32767 as i16
    } else {
        s as i16
    }
}

/// The domain cast of a whole normalized buffer into 16-bit PCM.
pub open spec fn spec_domain_cast(s: Seq<i32>) -> Seq<i16> {
    Seq::new(s.len(), |i: int| clamp_to_i16(s[i]))
}

/// Casts a normalized buffer to 16-bit PCM, clamping out-of-range values.
pub fn domain_cast(chunk: &[i32]) -> (r: Vec<i16>)
    ensures
        r@ == spec_domain_cast(chunk@),
{
    let mut out: Vec<i16> = Vec::new();
    let mut i: usize = 0;
    while i < chunk.len()
        invariant
            i <= chunk@.len(),
            out@.len() == i,
            forall|j: int| 0 <= j < i ==> out@[j] == clamp_to_i16(chunk@[j]),
        decreases chunk@.len() - i,
    {
        let s = chunk[i];
        let v: i16 = if s < -32768 {
            -32768
        } else if s > 32767 {
            32767
        } else {
            s as i16
        };
        out.push(v);
        i = i + 1;
    }
    assert(out@ =~= spec_domain_cast(chunk@));
    out
}

/// A 16-bit PCM sample lifted into the normalized domain: the raw value
/// carries over unchanged.
pub open spec fn spec_cast_up(s: Seq<i16>) -> Seq<i32> {
    Seq::new(s.len(), |i: int| s[i] as i32)
}

/// Lifts 16-bit PCM samples into the normalized domain.
pub fn cast_up(chunk: &[i16]) -> (r: Vec<i32>)
    ensures
        r@ == spec_cast_up(chunk@),
{
    let mut out: Vec<i32> = Vec::new();
    let mut i: usize = 0;
    while i < chunk.len()
        invariant
            i <= chunk@.len(),
            out@.len() == i,
            forall|j: int| 0 <= j < i ==> out@[j] == chunk@[j] as i32,
        decreases chunk@.len() - i,
    {
        out.push(chunk[i] as i32);
        i = i + 1;
    }
    assert(out@ =~= spec_cast_up(chunk@));
    out
}

/// A 16-bit sample read as its unsigned two's-complement value.
pub open spec fn pcm_unsigned(s: i16) -> int {
    if s >= 0 {
        s as int
    } else {
        s + 65536
    }
}

/// The low byte of a sample's little-endian encoding.
pub open spec fn pcm_low_byte(s: i16) -> u8 {
    (pcm_unsigned(s) % 256) as u8
}

/// The high byte of a sample's little-endian encoding.
pub open spec fn pcm_high_byte(s: i16) -> u8 {
    (pcm_unsigned(s) / 256) as u8
}

/// Encodes a chunk of 16-bit PCM samples as little-endian bytes, two per
/// sample, for the vendor wire protocols.
pub fn pcm_chunk_to_bytes(chunk: &[i16]) -> (r: Vec<u8>)
    ensures
        r@.len() == 2 * chunk@.len(),
        forall|j: int|
            0 <= j < chunk@.len() ==> r@[2 * j] == pcm_low_byte(#[trigger] chunk@[j]) && r@[2 * j
                + 1] == pcm_high_byte(chunk@[j]),
{
    let n = chunk.len();
    let mut out: Vec<u8> = Vec::new();
    let mut i: usize = 0;
    while i < n
        invariant
            i <= n,
            n == chunk@.len(),
            out@.len() == 2 * i,
            forall|j: int|
                0 <= j < i ==> out@[2 * j] == pcm_low_byte(#[trigger] chunk@[j]) && out@[2 * j
                    + 1] == pcm_high_byte(chunk@[j]),
        decreases n - i,
    {
        let s = chunk[i];
        let u: u16 = if s >= 0 {
            s as u16
        } else {
            ((s as i32) + 65536) as u16
        };
        assert(u == pcm_unsigned(s));
        out.push((u % 256) as u8);
        out.push((u / 256) as u8);
        i = i + 1;
    }
    out
}

} // verus!

verus! {

/// For a stereo buffer of even length, the mono down-mix holds exactly half
/// as many samples; a buffer of odd length passes through unchanged.
pub proof fn lemma_mono_mix_lengths(s: Seq<i16>)
    ensures
        s.len() % 2 == 0 ==> spec_to_mono_i16(s).len() == s.len() / 2,
        s.len() % 2 == 1 ==> spec_to_mono_i16(s) == s,
{
}

/// The same length law for the normalized domain.
pub proof fn lemma_mono_mix_lengths_norm(s: Seq<i32>)
    ensures
        s.len() % 2 == 0 ==> spec_to_mono_norm(s).len() == s.len() / 2,
        s.len() % 2 == 1 ==> spec_to_mono_norm(s) == s,
{
}

} // verus!
