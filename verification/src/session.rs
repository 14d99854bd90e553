//! The capture session: device and stream-configuration planning, the
//! per-frame pipeline step, result deduplication, and the session state
//! machine.
//!
//! The session is a value: it owns its buffers and lifecycle flags, and the
//! embedding application drives it — hardware frames in, PCM chunks and
//! writer samples out.

use vstd::prelude::*;

use crate::chunking::{concat_chunks, ChunkBuffer};
use crate::lifecycle::RecordingLifecycle;
use crate::samples::{domain_cast, spec_domain_cast, spec_to_mono_norm, stereo_to_mono_norm};
use crate::text::str_eq;

verus! {

/// The parameters of one recording request.
pub struct RecordParams {
    /// Device selector: `default`, `default_input`, or an exact device name.
    pub device: String,
    /// Output file path; empty means the default recording path.
    pub file_name: String,
    /// Feed recognizers rather than the output file.
    pub only_pcm: bool,
    /// Window length in tenths of a second of audio per drained chunk.
    pub capture_interval: u32,
    /// Resample chunks to the recognizer rate before queueing.
    pub use_resampled: bool,
    /// Hand each hardware frame on directly instead of windowing it.
    pub auto_chunk_buffer: bool,
    /// The transcription vendor, parsed case-insensitively.
    pub selected_asr_vendor: String,
}

/// Which device a selector string asks for.
#[derive(Debug)]
pub enum DeviceQuery {
    DefaultOutput,
    DefaultInput,
    ByName,
}

/// The query that a device selector denotes: the two sentinels, or an exact
/// name lookup.
pub open spec fn spec_device_query(device: Seq<char>) -> DeviceQuery {
    if device == "default"@ {
        DeviceQuery::DefaultOutput
    } else if device == "default_input"@ {
        DeviceQuery::DefaultInput
    } else {
        DeviceQuery::ByName
    }
}

/// Resolves a device selector string.
pub fn resolve_device_query(device: &str) -> (r: DeviceQuery)
    ensures
        r == spec_device_query(device@),
{
    if str_eq(device, "default") {
        DeviceQuery::DefaultOutput
    } else if str_eq(device, "default_input") {
        DeviceQuery::DefaultInput
    } else {
        DeviceQuery::ByName
    }
}

/// The index of the first name equal to the target, if any: an unmatched
/// name is a device-not-found error for the caller.
pub fn match_device_name(names: &Vec<String>, target: &str) -> (r: Option<usize>)
    ensures
        match r {
            Some(i) => i < names@.len() && names@[i as int]@ == target@ && (forall|j: int|
                0 <= j < i ==> names@[j]@ != target@),
            None => forall|j: int| 0 <= j < names@.len() ==> names@[j]@ != target@,
        },
{
    let mut i: usize = 0;
    while i < names.len()
        invariant
            i <= names@.len(),
            forall|j: int| 0 <= j < i ==> names@[j]@ != target@,
        decreases names@.len() - i,
    {
        if str_eq(names[i].as_str(), target) {
            return Some(i);
        }
        i = i + 1;
    }
    None
}

/// Output device names labeled for display, skipping every occurrence of
/// the default device (it is listed separately, in front).
pub open spec fn spec_labeled_outputs(
    names: Seq<Seq<char>>,
    default_name: Option<Seq<char>>,
) -> Seq<Seq<char>>
    decreases names.len(),
{
    if names.len() == 0 {
        Seq::empty()
    } else {
        let head = if default_name == Some(names[0]) {
            Seq::<Seq<char>>::empty()
        } else {
            seq![names[0] + " [输出]"@]
        };
        head + spec_labeled_outputs(names.drop_first(), default_name)
    }
}

/// Input device names labeled for display.
pub open spec fn spec_labeled_inputs(names: Seq<Seq<char>>) -> Seq<Seq<char>>
    decreases names.len(),
{
    if names.len() == 0 {
        Seq::empty()
    } else {
        seq![names[0] + " [输入]"@] + spec_labeled_inputs(names.drop_first())
    }
}

proof fn lemma_labeled_outputs_take(names: Seq<Seq<char>>, default_name: Option<Seq<char>>, i: int)
    requires
        0 <= i < names.len(),
    ensures
        spec_labeled_outputs(names.take(i + 1), default_name) == spec_labeled_outputs(
            names.take(i),
            default_name,
        ) + (if default_name == Some(names[i]) {
            Seq::<Seq<char>>::empty()
        } else {
            seq![names[i] + " [输出]"@]
        }),
    decreases i + 1,
{
    if i == 0 {
        assert(names.take(1).drop_first() =~= names.take(0));
        assert(spec_labeled_outputs(names.take(0), default_name) =~= Seq::<Seq<char>>::empty());
        assert(names.take(1)[0] == names[0]);
        assert(spec_labeled_outputs(names.take(1), default_name) =~= spec_labeled_outputs(
            names.take(0),
            default_name,
        ) + (if default_name == Some(names[0]) {
            Seq::<Seq<char>>::empty()
        } else {
            seq![names[0] + " [输出]"@]
        }));
    } else {
        lemma_labeled_outputs_take(names.drop_first(), default_name, i - 1);
        assert(names.take(i + 1).drop_first() =~= names.drop_first().take(i));
        assert(names.take(i).drop_first() =~= names.drop_first().take(i - 1));
        assert(names.take(i + 1)[0] == names[0]);
        assert(names.take(i)[0] == names[0]);
        assert(names.drop_first()[i - 1] == names[i]);
    }
}

proof fn lemma_labeled_inputs_take(names: Seq<Seq<char>>, i: int)
    requires
        0 <= i < names.len(),
    ensures
        spec_labeled_inputs(names.take(i + 1)) == spec_labeled_inputs(names.take(i)) + seq![
            names[i] + " [输入]"@,
        ],
    decreases i + 1,
{
    if i == 0 {
        assert(names.take(1).drop_first() =~= names.take(0));
        assert(spec_labeled_inputs(names.take(0)) =~= Seq::<Seq<char>>::empty());
        assert(names.take(1)[0] == names[0]);
        assert(spec_labeled_inputs(names.take(1)) =~= spec_labeled_inputs(names.take(0)) + seq![
            names[0] + " [输入]"@,
        ]);
    } else {
        lemma_labeled_inputs_take(names.drop_first(), i - 1);
        assert(names.take(i + 1).drop_first() =~= names.drop_first().take(i));
        assert(names.take(i).drop_first() =~= names.drop_first().take(i - 1));
        assert(names.take(i + 1)[0] == names[0]);
        assert(names.take(i)[0] == names[0]);
        assert(names.drop_first()[i - 1] == names[i]);
    }
}

/// Labels enumerated device names for display: the default output first,
/// marked as the default; the other outputs, with every occurrence of the
/// default skipped; then the inputs.
#[verifier::loop_isolation(false)]
pub fn format_device_names(
    default_output: Option<String>,
    outputs: &Vec<String>,
    inputs: &Vec<String>,
) -> (r: Vec<String>)
    ensures
        Seq::new(r@.len(), |k: int| r@[k]@) == (match default_output {
            Some(d) => seq![d@ + " [输出] (默认)"@],
            None => Seq::<Seq<char>>::empty(),
        }) + spec_labeled_outputs(
            Seq::new(outputs@.len(), |k: int| outputs@[k]@),
            match default_output {
                Some(d) => Some(d@),
                None => None,
            },
        ) + spec_labeled_inputs(Seq::new(inputs@.len(), |k: int| inputs@[k]@)),
{
    let ghost out_views = Seq::new(outputs@.len(), |k: int| outputs@[k]@);
    let ghost in_views = Seq::new(inputs@.len(), |k: int| inputs@[k]@);
    let ghost default_view: Option<Seq<char>> = match &default_output {
        Some(d) => Some(d@),
        None => None,
    };
    let mut r: Vec<String> = Vec::new();
    match &default_output {
        Some(d) => {
            r.push(d.clone().concat(" [输出] (默认)"));
        },
        None => {},
    }
    let ghost lead = Seq::new(r@.len(), |k: int| r@[k]@);
    proof {
        assert(lead =~= (match default_output {
            Some(d) => seq![d@ + " [输出] (默认)"@],
            None => Seq::<Seq<char>>::empty(),
        }));
        assert(Seq::new(r@.len(), |k: int| r@[k]@) =~= lead + spec_labeled_outputs(
            out_views.take(0),
            default_view,
        ));
    }
    let mut i: usize = 0;
    while i < outputs.len()
        invariant
            i <= outputs@.len(),
            Seq::new(r@.len(), |k: int| r@[k]@) == lead + spec_labeled_outputs(
                out_views.take(i as int),
                default_view,
            ),
        decreases outputs@.len() - i,
    {
        let ghost r_pre = r@;
        let is_default = match &default_output {
            Some(d) => str_eq(outputs[i].as_str(), d.as_str()),
            None => false,
        };
        if !is_default {
            r.push(outputs[i].clone().concat(" [输出]"));
        }
        proof {
            lemma_labeled_outputs_take(out_views, default_view, i as int);
            assert(out_views[i as int] == outputs@[i as int]@);
            let ghost lhs = Seq::new(r@.len(), |k: int| r@[k]@);
            let ghost rhs = lead + spec_labeled_outputs(out_views.take(i + 1), default_view);
            if is_default {
                assert(default_view == Some(out_views[i as int]));
                assert(spec_labeled_outputs(out_views.take(i + 1), default_view)
                    =~= spec_labeled_outputs(out_views.take(i as int), default_view));
                assert(r@ == r_pre);
            } else {
                assert(default_view != Some(out_views[i as int]));
                assert(spec_labeled_outputs(out_views.take(i + 1), default_view)
                    == spec_labeled_outputs(out_views.take(i as int), default_view) + seq![
                    out_views[i as int] + " [输出]"@,
                ]);
                assert(r@ == r_pre.push(r@[r@.len() - 1]));
                assert(r@[r@.len() - 1]@ == outputs@[i as int]@ + " [输出]"@);
            }
            assert(lhs.len() == rhs.len());
            assert forall|k: int| 0 <= k < lhs.len() implies lhs[k] == rhs[k] by {
                if k < r_pre.len() {
                    assert(lhs[k] == r_pre[k]@);
                    assert(Seq::new(r_pre.len(), |m: int| r_pre[m]@)[k] == r_pre[k]@);
                    assert(rhs[k] == (lead + spec_labeled_outputs(
                        out_views.take(i as int),
                        default_view,
                    ))[k]);
                } else {
                    assert(lhs[k] == outputs@[i as int]@ + " [输出]"@);
                }
            }
            assert(lhs =~= rhs);
            assert(Seq::new(r@.len(), |k: int| r@[k]@) =~= lead + spec_labeled_outputs(
                out_views.take(i + 1),
                default_view,
            ));
        }
        i = i + 1;
    }
    proof {
        assert(out_views.take(out_views.len() as int) =~= out_views);
        assert(Seq::new(r@.len(), |k: int| r@[k]@) =~= lead + spec_labeled_outputs(
            out_views,
            default_view,
        ) + spec_labeled_inputs(in_views.take(0)));
    }
    let ghost mid = Seq::new(r@.len(), |k: int| r@[k]@);
    let mut j: usize = 0;
    while j < inputs.len()
        invariant
            j <= inputs@.len(),
            Seq::new(r@.len(), |k: int| r@[k]@) == mid + spec_labeled_inputs(
                in_views.take(j as int),
            ),
        decreases inputs@.len() - j,
    {
        let ghost r_pre = r@;
        r.push(inputs[j].clone().concat(" [输入]"));
        proof {
            lemma_labeled_inputs_take(in_views, j as int);
            assert(in_views[j as int] == inputs@[j as int]@);
            assert(r@ == r_pre.push(r@[r@.len() - 1]));
            assert(r@[r@.len() - 1]@ == inputs@[j as int]@ + " [输入]"@);
            let ghost lhs = Seq::new(r@.len(), |k: int| r@[k]@);
            let ghost rhs = mid + spec_labeled_inputs(in_views.take(j + 1));
            assert(spec_labeled_inputs(in_views.take(j + 1)) == spec_labeled_inputs(
                in_views.take(j as int),
            ) + seq![in_views[j as int] + " [输入]"@]);
            assert(lhs.len() == rhs.len());
            assert forall|k: int| 0 <= k < lhs.len() implies lhs[k] == rhs[k] by {
                if k < r_pre.len() {
                    assert(lhs[k] == r_pre[k]@);
                    assert(Seq::new(r_pre.len(), |m: int| r_pre[m]@)[k] == r_pre[k]@);
                    assert(rhs[k] == (mid + spec_labeled_inputs(in_views.take(j as int)))[k]);
                } else {
                    assert(lhs[k] == inputs@[j as int]@ + " [输入]"@);
                }
            }
            assert(lhs =~= rhs);
            assert(Seq::new(r@.len(), |k: int| r@[k]@) =~= mid + spec_labeled_inputs(
                in_views.take(j + 1),
            ));
        }
        j = j + 1;
    }
    proof {
        assert(in_views.take(in_views.len() as int) =~= in_views);
        assert(mid =~= lead + spec_labeled_outputs(out_views, default_view));
    }
    r
}

/// The sample format of a hardware stream configuration.
#[derive(Debug)]
pub enum SampleFormatKind {
    Int16,
    Float32,
    Other,
}

/// One supported configuration range of a device.
pub struct ConfigRange {
    pub min_rate: u32,
    pub max_rate: u32,
    pub channels: u16,
    pub format: SampleFormatKind,
}

/// A negotiated stream configuration.
pub struct StreamConfigPlan {
    pub sample_rate: u32,
    pub channels: u16,
    pub format: SampleFormatKind,
}

/// Why no stream configuration could be negotiated.
#[derive(Debug)]
pub enum ConfigError {
    NoUsableConfig,
}

/// A range that supports the desired rate in 16-bit integer format.
pub open spec fn desired_match(c: ConfigRange, desired: u32) -> bool {
    c.min_rate <= desired && desired <= c.max_rate && c.format is Int16
}

/// The first range matching the desired rate in 16-bit format.
pub open spec fn first_desired(ranges: Seq<ConfigRange>, desired: u32) -> Option<ConfigRange>
    decreases ranges.len(),
{
    if ranges.len() == 0 {
        None
    } else if desired_match(ranges[0], desired) {
        Some(ranges[0])
    } else {
        first_desired(ranges.drop_first(), desired)
    }
}

/// The first 16-bit-format range, whatever its rates.
pub open spec fn first_i16(ranges: Seq<ConfigRange>) -> Option<ConfigRange>
    decreases ranges.len(),
{
    if ranges.len() == 0 {
        None
    } else if ranges[0].format is Int16 {
        Some(ranges[0])
    } else {
        first_i16(ranges.drop_first())
    }
}

/// The configuration that negotiation settles on: the first range carrying
/// the desired rate in 16-bit format; else, when the caller will not
/// resample, the first 16-bit range at its minimum rate; else the device's
/// default, and an error when even that is missing.
pub open spec fn spec_select_output(
    ranges: Seq<ConfigRange>,
    desired: u32,
    use_resample: bool,
    fallback: Option<StreamConfigPlan>,
) -> Result<StreamConfigPlan, ConfigError> {
    match first_desired(ranges, desired) {
        Some(c) => Ok(
            StreamConfigPlan { sample_rate: desired, channels: c.channels, format: c.format },
        ),
        None => {
            let second = if !use_resample {
                first_i16(ranges)
            } else {
                None
            };
            match second {
                Some(c) => Ok(
                    StreamConfigPlan {
                        sample_rate: c.min_rate,
                        channels: c.channels,
                        format: c.format,
                    },
                ),
                None => match fallback {
                    Some(f) => Ok(f),
                    None => Err(ConfigError::NoUsableConfig),
                },
            }
        },
    }
}

proof fn lemma_first_desired_skip(ranges: Seq<ConfigRange>, desired: u32, i: int)
    requires
        0 <= i <= ranges.len(),
        forall|j: int| 0 <= j < i ==> !desired_match(#[trigger] ranges[j], desired),
    ensures
        first_desired(ranges, desired) == first_desired(ranges.skip(i), desired),
    decreases i,
{
    if i > 0 {
        assert(ranges.skip(0) =~= ranges);
        assert(ranges.drop_first() =~= ranges.skip(1));
        lemma_first_desired_skip(ranges.skip(1), desired, i - 1);
        assert(ranges.skip(1).skip(i - 1) =~= ranges.skip(i));
        assert(forall|j: int|
            0 <= j < i - 1 ==> #[trigger] ranges.skip(1)[j] == ranges[j + 1]);
    } else {
        assert(ranges.skip(0) =~= ranges);
    }
}

proof fn lemma_first_i16_skip(ranges: Seq<ConfigRange>, i: int)
    requires
        0 <= i <= ranges.len(),
        forall|j: int| 0 <= j < i ==> !((#[trigger] ranges[j]).format is Int16),
    ensures
        first_i16(ranges) == first_i16(ranges.skip(i)),
    decreases i,
{
    if i > 0 {
        assert(ranges.skip(0) =~= ranges);
        assert(ranges.drop_first() =~= ranges.skip(1));
        lemma_first_i16_skip(ranges.skip(1), i - 1);
        assert(ranges.skip(1).skip(i - 1) =~= ranges.skip(i));
        assert(forall|j: int|
            0 <= j < i - 1 ==> #[trigger] ranges.skip(1)[j] == ranges[j + 1]);
    } else {
        assert(ranges.skip(0) =~= ranges);
    }
}

/// Negotiates a stream configuration from a device's supported ranges,
/// preferring the desired rate, falling back as [`spec_select_output`] says.
#[verifier::loop_isolation(false)]
pub fn select_output_config(
    ranges: &Vec<ConfigRange>,
    desired: u32,
    use_resample: bool,
    fallback: Option<StreamConfigPlan>,
) -> (r: Result<StreamConfigPlan, ConfigError>)
    ensures
        r == spec_select_output(ranges@, desired, use_resample, fallback),
{
    let mut i: usize = 0;
    while i < ranges.len()
        invariant
            i <= ranges@.len(),
            forall|j: int| 0 <= j < i ==> !desired_match(#[trigger] ranges@[j], desired),
        decreases ranges@.len() - i,
    {
        let c = &ranges[i];
        let is_i16 = match c.format {
            SampleFormatKind::Int16 => true,
            _ => false,
        };
        if c.min_rate <= desired && desired <= c.max_rate && is_i16 {
            proof {
                lemma_first_desired_skip(ranges@, desired, i as int);
                assert(ranges@.skip(i as int)[0] == ranges@[i as int]);
            }
            return Ok(
                StreamConfigPlan {
                    sample_rate: desired,
                    channels: c.channels,
                    format: SampleFormatKind::Int16,
                },
            );
        }
        i = i + 1;
    }
    proof {
        lemma_first_desired_skip(ranges@, desired, ranges@.len() as int);
    }
    if !use_resample {
        let mut k: usize = 0;
        while k < ranges.len()
            invariant
                k <= ranges@.len(),
                forall|j: int| 0 <= j < k ==> !((#[trigger] ranges@[j]).format is Int16),
            decreases ranges@.len() - k,
        {
            let c = &ranges[k];
            let is_i16 = match c.format {
                SampleFormatKind::Int16 => true,
                _ => false,
            };
            if is_i16 {
                proof {
                    lemma_first_i16_skip(ranges@, k as int);
                    assert(ranges@.skip(k as int)[0] == ranges@[k as int]);
                }
                return Ok(
                    StreamConfigPlan {
                        sample_rate: c.min_rate,
                        channels: c.channels,
                        format: SampleFormatKind::Int16,
                    },
                );
            }
            k = k + 1;
        }
        proof {
            lemma_first_i16_skip(ranges@, ranges@.len() as int);
        }
    }
    match fallback {
        Some(f) => Ok(f),
        None => Err(ConfigError::NoUsableConfig),
    }
}

/// The chunk size for the unresampled pipeline: a tenth of a second of audio
/// per unit of capture interval.
pub fn chunk_size_for(sample_rate: u32, capture_interval: u32) -> (r: usize)
    requires
        sample_rate * capture_interval <= u32::MAX,
    ensures
        r == (sample_rate * capture_interval) as nat / 10,
{
    ((sample_rate * capture_interval) / 10) as usize
}

/// The chunk size for the resampled pipeline: whole seconds of audio at the
/// recognizer rate.
pub fn chunk_size_resampled(target_rate: u32, capture_interval: u32) -> (r: usize)
    requires
        target_rate * capture_interval <= u32::MAX,
    ensures
        r == sample_rate_times(target_rate, capture_interval),
{
    (target_rate * capture_interval) as usize
}

/// The product of a rate and an interval, as a sample count.
pub open spec fn sample_rate_times(rate: u32, interval: u32) -> nat {
    (rate * interval) as nat
}

/// The planned output-file format.
pub struct WavSpecPlan {
    pub channels: u16,
    pub sample_rate: u32,
    pub bits_per_sample: u16,
}

/// The output file is always mono 16-bit integer PCM at the given rate.
pub fn wav_spec_plan(sample_rate: u32) -> (r: WavSpecPlan)
    ensures
        r.channels == 1,
        r.sample_rate == sample_rate,
        r.bits_per_sample == 16,
{
    WavSpecPlan { channels: 1, sample_rate, bits_per_sample: 16 }
}

/// Normalizes a recording request as the capture worker does: a session that
/// writes to file (not `only_pcm`) never resamples and never windows, it
/// passes frames straight through.
pub fn normalize_params(params: &mut RecordParams)
    ensures
        final(params).device == old(params).device,
        final(params).file_name == old(params).file_name,
        final(params).only_pcm == old(params).only_pcm,
        final(params).capture_interval == old(params).capture_interval,
        final(params).selected_asr_vendor == old(params).selected_asr_vendor,
        old(params).only_pcm ==> final(params).use_resampled == old(params).use_resampled
            && final(params).auto_chunk_buffer == old(params).auto_chunk_buffer,
        !old(params).only_pcm ==> !final(params).use_resampled && final(params).auto_chunk_buffer,
{
    if !params.only_pcm {
        params.use_resampled = false;
        params.auto_chunk_buffer = true;
    }
}

/// Suppresses consecutive repeats on the caller-visible result stream.
pub struct ResultEmitter {
    last: String,
}

/// A text is forwarded when it is non-empty and differs from the last text
/// that went out.
pub open spec fn spec_should_emit(last: Seq<char>, text: Seq<char>) -> bool {
    text.len() > 0 && text != last
}

/// The emitter's memory after an offer.
pub open spec fn spec_after_offer(last: Seq<char>, text: Seq<char>) -> Seq<char> {
    if spec_should_emit(last, text) {
        text
    } else {
        last
    }
}

impl ResultEmitter {
    /// The last text that was emitted.
    pub closed spec fn last_text(&self) -> Seq<char> {
        self.last@
    }

    pub fn new() -> (r: Self)
        ensures
            r.last_text() == Seq::<char>::empty(),
    {
        let r = ResultEmitter { last: String::new() };
        assert(r.last_text() =~= Seq::<char>::empty());
        r
    }

    /// Offers a transcription result to the stream: it comes back for
    /// delivery only when non-empty and different from the previous
    /// delivery.
    pub fn offer(&mut self, text: &str) -> (r: Option<String>)
        ensures
            final(self).last_text() == spec_after_offer(old(self).last_text(), text@),
            if spec_should_emit(old(self).last_text(), text@) {
                r matches Some(s) && s@ == text@
            } else {
                r is None
            },
    {
        if text.is_empty() {
            return None;
        }
        let fresh: String = text.to_owned();
        if self.last == fresh {
            return None;
        }
        self.last = fresh;
        Some(text.to_owned())
    }
}

/// Two consecutive identical results are delivered at most once: whatever
/// the emitter remembered before, after one offer of a text a second offer
/// of the same text is suppressed.
pub proof fn lemma_dedup_consecutive(last: Seq<char>, text: Seq<char>)
    ensures
        !spec_should_emit(spec_after_offer(last, text), text),
{
}

/// The phases of a capture session.
#[derive(Debug)]
pub enum SessionState {
    Idle,
    Configuring,
    Streaming,
    Stopping,
    Stopped,
}

/// What one hardware frame turns into.
pub enum FrameOutcome {
    /// Samples for the output-file writer (file mode).
    WriteSamples(Vec<i16>),
    /// Mono chunks, in the normalized domain, ready for resampling and the
    /// transcriber queue.
    Chunks(Vec<Vec<i32>>),
}

/// A capture session: phase, lifecycle signals, the chunk window, and the
/// deduplicating result stream.
pub struct CaptureSession {
    pub state: SessionState,
    pub lifecycle: RecordingLifecycle,
    pub buffer: ChunkBuffer,
    pub emitter: ResultEmitter,
    pub only_pcm: bool,
    pub auto_chunk_buffer: bool,
    pub use_resampled: bool,
}

/// The mono view of an interleaved frame: one channel passes through, more
/// are mixed down pairwise.
pub open spec fn spec_mixdown(frame: Seq<i32>, channels: u16) -> Seq<i32> {
    if channels == 1 {
        frame
    } else {
        spec_to_mono_norm(frame)
    }
}

impl CaptureSession {
    pub open spec fn wf(&self) -> bool {
        self.buffer.wf() && self.lifecycle.wf()
    }

    /// Builds an idle session over a chunk window of the given size.
    pub fn new(
        chunk_size: usize,
        only_pcm: bool,
        auto_chunk_buffer: bool,
        use_resampled: bool,
    ) -> (r: Self)
        requires
            chunk_size > 0,
        ensures
            r.wf(),
            r.state is Idle,
            !r.lifecycle.is_recording(),
            r.buffer.view_samples() == Seq::<i32>::empty(),
            r.buffer.spec_chunk_size() == chunk_size,
            r.emitter.last_text() == Seq::<char>::empty(),
            r.only_pcm == only_pcm,
            r.auto_chunk_buffer == auto_chunk_buffer,
            r.use_resampled == use_resampled,
    {
        CaptureSession {
            state: SessionState::Idle,
            lifecycle: RecordingLifecycle::new(),
            buffer: ChunkBuffer::new(chunk_size),
            emitter: ResultEmitter::new(),
            only_pcm,
            auto_chunk_buffer,
            use_resampled,
        }
    }

    /// Starts configuring: only an idle session may.
    pub fn begin_configure(&mut self)
        requires
            old(self).wf(),
            old(self).state is Idle,
        ensures
            final(self).wf(),
            final(self).state is Configuring,
            final(self).lifecycle == old(self).lifecycle,
            final(self).buffer == old(self).buffer,
    {
        self.state = SessionState::Configuring;
    }

    /// Configuration failed fast: the session stops without ever streaming.
    pub fn fail_configure(&mut self)
        requires
            old(self).wf(),
            old(self).state is Configuring,
        ensures
            final(self).wf(),
            final(self).state is Stopped,
            !final(self).lifecycle.is_recording(),
    {
        self.state = SessionState::Stopped;
        if self.lifecycle.should_continue() {
            self.lifecycle.request_stop();
        }
    }

    /// The hardware stream opened: streaming begins and the recording flag
    /// turns on.
    pub fn start_streaming(&mut self)
        requires
            old(self).wf(),
            old(self).state is Configuring,
            !old(self).lifecycle.is_recording(),
            !old(self).lifecycle.is_stopped(),
        ensures
            final(self).wf(),
            final(self).state is Streaming,
            final(self).lifecycle.is_recording(),
    {
        self.lifecycle.start();
        self.state = SessionState::Streaming;
    }

    /// An external stop request: the recording flag falls, exactly once.
    pub fn request_stop(&mut self)
        requires
            old(self).wf(),
            old(self).state is Streaming,
            old(self).lifecycle.is_recording(),
        ensures
            final(self).wf(),
            final(self).state is Stopping,
            !final(self).lifecycle.is_recording(),
            final(self).lifecycle.is_stopped(),
    {
        self.lifecycle.request_stop();
        self.state = SessionState::Stopping;
    }

    /// Teardown done: writer finalized, threads joined.
    pub fn finish(&mut self)
        requires
            old(self).wf(),
            old(self).state is Stopping,
        ensures
            final(self).wf(),
            final(self).state is Stopped,
    {
        self.state = SessionState::Stopped;
    }

    /// One hardware frame enters the pipeline.  In file mode the mono
    /// down-mix goes to the writer as PCM; in recognition mode it is either
    /// handed on directly as a single chunk, or buffered and drained in
    /// whole windows, losslessly and in order.
    pub fn handle_frame(&mut self, frame: &[i32], channels: u16) -> (r: FrameOutcome)
        requires
            old(self).wf(),
        ensures
            final(self).wf(),
            final(self).state == old(self).state,
            final(self).lifecycle == old(self).lifecycle,
            final(self).only_pcm == old(self).only_pcm,
            final(self).auto_chunk_buffer == old(self).auto_chunk_buffer,
            final(self).use_resampled == old(self).use_resampled,
            final(self).buffer.spec_chunk_size() == old(self).buffer.spec_chunk_size(),
            !old(self).only_pcm ==> (r matches FrameOutcome::WriteSamples(w) && w@
                == spec_domain_cast(spec_mixdown(frame@, channels)) && final(self).buffer.view_samples() == old(self).buffer.view_samples()),
            old(self).only_pcm && old(self).auto_chunk_buffer ==> (
            r matches FrameOutcome::Chunks(chunks) && chunks@.len() == 1 && chunks@[0]@
                == spec_mixdown(frame@, channels) && final(self).buffer.view_samples() == old(self).buffer.view_samples()),
            old(self).only_pcm && !old(self).auto_chunk_buffer ==> (
            r matches FrameOutcome::Chunks(chunks) && (forall|k: int|
                0 <= k < chunks@.len() ==> (#[trigger] chunks@[k])@.len() == old(self).buffer.spec_chunk_size()) && concat_chunks(
                Seq::new(chunks@.len(), |k: int| chunks@[k]@),
            ) + final(self).buffer.view_samples() == old(self).buffer.view_samples()
                + spec_mixdown(frame@, channels) && final(self).buffer.view_samples().len() < old(self).buffer.spec_chunk_size()),
    {
        let mono: Vec<i32> = if channels == 1 {
            let mut copy: Vec<i32> = Vec::new();
            let mut i: usize = 0;
            while i < frame.len()
                invariant
                    i <= frame@.len(),
                    copy@ == frame@.take(i as int),
                decreases frame@.len() - i,
            {
                copy.push(frame[i]);
                proof {
                    assert(copy@ =~= frame@.take(i + 1));
                }
                i = i + 1;
            }
            proof {
                assert(frame@.take(frame@.len() as int) =~= frame@);
            }
            copy
        } else {
            stereo_to_mono_norm(frame)
        };
        if !self.only_pcm {
            FrameOutcome::WriteSamples(domain_cast(mono.as_slice()))
        } else if self.auto_chunk_buffer {
            let mut chunks: Vec<Vec<i32>> = Vec::new();
            chunks.push(mono);
            FrameOutcome::Chunks(chunks)
        } else {
            self.buffer.push(mono.as_slice());
            let chunks = self.buffer.drain_ready();
            FrameOutcome::Chunks(chunks)
        }
    }
}

} // verus!
