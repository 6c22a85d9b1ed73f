use vstd::prelude::*;
use vstd::string::*;

verus! {

/// Why a text-to-speech stream failed.
#[derive(Debug)]
pub enum TtsError {
    Init,
    Encode(String),
    Text(String),
}

/// The human-readable message of a [`TtsError`].
pub open spec fn tts_error_message(e: TtsError) -> Seq<char> {
    match e {
        TtsError::Init => "init error"@,
        TtsError::Encode(detail) => "encode error "@ + detail@,
        TtsError::Text(detail) => "text error "@ + detail@,
    }
}

impl TtsError {
    /// The error's message, as its `Display` would print it.
    pub fn message(&self) -> (r: String)
        ensures
            r@ == tts_error_message(*self),
    {
        match self {
            TtsError::Init => String::from_str("init error"),
            TtsError::Encode(detail) => String::from_str("encode error ").concat(detail.as_str()),
            TtsError::Text(detail) => String::from_str("text error ").concat(detail.as_str()),
        }
    }
}

/// Samples in one encoded audio packet: `sample_rate · channel · delay_millis / 1000`.
pub fn calcalute_tts_packet_size(sample_rate: u32, channel: u32, delay_millis: u64) -> (r: usize)
    requires
        delay_millis <= usize::MAX,
        sample_rate * channel <= usize::MAX,
        sample_rate * channel * delay_millis <= usize::MAX,
    ensures
        r == sample_rate * channel * delay_millis / 1000,
{
    proof {
        assert(0 <= sample_rate * channel) by (nonlinear_arith)
            requires
                0 <= sample_rate,
                0 <= channel,
        ;
    }
    sample_rate as usize * channel as usize * delay_millis as usize / 1000
}

/// The sample range `[start, end)` of packet `n` when `sample_len` samples are
/// cut into packets of `frame_size`; the last one is short and is padded with
/// silence before encoding.
pub open spec fn packet_range(n: int, frame_size: int, sample_len: int) -> (int, int) {
    let start = n * frame_size;
    (start, if start + frame_size <= sample_len {
        start + frame_size
    } else {
        sample_len
    })
}

/// How many packets `sample_len` samples need: the length divided by the frame
/// size, rounded up.
pub open spec fn packet_count(sample_len: int, frame_size: int) -> int {
    (sample_len + frame_size - 1) / frame_size
}

/// The cut of a PCM buffer into encoder frames: one `(start, end)` sample range
/// per packet, in order, covering the buffer.
pub fn tts_packet_ranges(sample_len: usize, frame_size: usize) -> (r: Vec<(usize, usize)>)
    requires
        frame_size > 0,
    ensures
        r@.len() == packet_count(sample_len as int, frame_size as int),
        forall|n: int|
            0 <= n < r@.len() ==> (r@[n].0 as int, r@[n].1 as int) == packet_range(
                n,
                frame_size as int,
                sample_len as int,
            ),
{
    let q = sample_len / frame_size;
    let m = sample_len % frame_size;
    proof {
        vstd::arithmetic::div_mod::lemma_fundamental_div_mod(sample_len as int, frame_size as int);
        if m > 0 {
            assert(q + 1 <= sample_len) by (nonlinear_arith)
                requires
                    sample_len == frame_size * q + m,
                    m > 0,
                    frame_size > 0,
                    q >= 0,
            ;
        }
    }
    let count = if m > 0 {
        q + 1
    } else {
        q
    };
    proof {
        if m > 0 {
            assert((sample_len + frame_size - 1) as int == (q + 1) * frame_size + (m - 1))
                by (nonlinear_arith)
                requires
                    sample_len == frame_size * q + m,
            ;
            vstd::arithmetic::div_mod::lemma_fundamental_div_mod_converse(
                (sample_len + frame_size - 1) as int,
                frame_size as int,
                (q + 1) as int,
                (m - 1) as int,
            );
            assert(frame_size * (count - 1) < sample_len) by (nonlinear_arith)
                requires
                    sample_len == frame_size * q + m,
                    m > 0,
                    count == q + 1,
            ;
        } else {
            assert((sample_len + frame_size - 1) as int == q * frame_size + (frame_size - 1))
                by (nonlinear_arith)
                requires
                    sample_len == frame_size * q + m,
                    m == 0,
            ;
            vstd::arithmetic::div_mod::lemma_fundamental_div_mod_converse(
                (sample_len + frame_size - 1) as int,
                frame_size as int,
                q as int,
                (frame_size - 1) as int,
            );
            if count > 0 {
                assert(frame_size * (count - 1) < sample_len) by (nonlinear_arith)
                    requires
                        sample_len == frame_size * q + m,
                        m == 0,
                        count == q,
                        count > 0,
                        frame_size > 0,
                ;
            }
        }
    }
    let mut ranges: Vec<(usize, usize)> = Vec::new();
    let mut n: usize = 0;
    while n < count
        invariant
            count == packet_count(sample_len as int, frame_size as int),
            frame_size > 0,
            frame_size * (count - 1) < sample_len || count == 0,
            0 <= n <= count,
            ranges@.len() == n,
            forall|k: int|
                0 <= k < n ==> (ranges@[k].0 as int, ranges@[k].1 as int) == packet_range(
                    k,
                    frame_size as int,
                    sample_len as int,
                ),
        decreases count - n,
    {
        proof {
            assert(n * frame_size < sample_len) by (nonlinear_arith)
                requires
                    n < count,
                    frame_size * (count - 1) < sample_len,
                    frame_size > 0,
            ;
        }
        let start = n * frame_size;
        let end = if sample_len - start >= frame_size {
            start + frame_size
        } else {
            sample_len
        };
        ranges.push((start, end));
        n = n + 1;
    }
    ranges
}

/// What a speech stream does with the next item of its text stream.
#[derive(Debug)]
pub enum TextStep {
    /// The stream was cancelled: stop without emitting anything more.
    Stop,
    /// The text stream failed: emit this error, then stop.
    Fail(TtsError),
    /// Synthesize this sentence.
    Speak(String),
}

/// The speech streams' handling of one text item: cancellation wins, a failed
/// item is reported as [`TtsError::Text`] with its message, any other text is
/// spoken.
pub fn next_text_step(cancelled: bool, item: Result<String, String>) -> (r: TextStep)
    ensures
        cancelled ==> r is Stop,
        !cancelled ==> match item {
            Ok(text) => r matches TextStep::Speak(t) && t@ == text@,
            Err(message) => r matches TextStep::Fail(TtsError::Text(m)) && m@ == message@,
        },
{
    if cancelled {
        return TextStep::Stop;
    }
    match item {
        Ok(text) => TextStep::Speak(text),
        Err(message) => TextStep::Fail(TtsError::Text(message)),
    }
}

/// The speech engines whose streams synthesize sentence by sentence.
#[derive(Debug, Clone, Copy, PartialEq, Eq, Structural)]
pub enum SpeechEngine {
    VoxCpm,
    PocketTts,
    Matcha,
    Pocket,
}

/// What a speech stream does when synthesizing a sentence failed.
#[derive(Debug)]
pub enum FailureStep {
    /// Leave the sentence out and go on with the next one.
    Skip,
    /// Report the failure, then end the stream.
    ReportAndStop(TtsError),
    /// Report the failure, send the sentence with the audio made before it,
    /// and go on with the next sentence.
    ReportAndContinue(TtsError),
}

/// How each engine's stream handles a failed synthesis with `message`: the
/// VoxCPM stream reports it as [`TtsError::Encode`] and ends; the streaming
/// Pocket engine reports it the same way, keeps the audio it already made for
/// the sentence and goes on; the Matcha and Pocket engines leave the sentence
/// out.
pub fn synthesis_failure_step(engine: SpeechEngine, message: String) -> (r: FailureStep)
    ensures
        match engine {
            SpeechEngine::VoxCpm => r matches FailureStep::ReportAndStop(TtsError::Encode(m))
                && m@ == message@,
            SpeechEngine::PocketTts => r matches FailureStep::ReportAndContinue(TtsError::Encode(m))
                && m@ == message@,
            SpeechEngine::Matcha | SpeechEngine::Pocket => r is Skip,
        },
{
    match engine {
        SpeechEngine::VoxCpm => FailureStep::ReportAndStop(TtsError::Encode(message)),
        SpeechEngine::PocketTts => FailureStep::ReportAndContinue(TtsError::Encode(message)),
        SpeechEngine::Matcha | SpeechEngine::Pocket => FailureStep::Skip,
    }
}

/// A unit-sized speech engine that speaks nothing: every sentence passes
/// through as text without audio.
pub struct TtsMute {}

impl TtsMute {
    pub fn new() -> (r: Self) {
        Self {  }
    }
}

/// Samples per spoken packet of the direct speech path: 24 kHz mono over 60 ms.
pub const SAY_PACKET_SAMPLES: usize = 1440;

/// The packets the direct speech path sends for `sample_len` samples: one
/// full packet for each whole packet of audio but the last, in order; the
/// last whole packet and any remainder are not sent.
pub open spec fn say_packet_range(n: int) -> (int, int) {
    (n * SAY_PACKET_SAMPLES, (n + 1) * SAY_PACKET_SAMPLES)
}

pub open spec fn say_packet_count(sample_len: int) -> int {
    if sample_len / (SAY_PACKET_SAMPLES as int) >= 1 {
        sample_len / (SAY_PACKET_SAMPLES as int) - 1
    } else {
        0
    }
}

/// The sample ranges the direct speech path encodes and sends.
pub fn say_packet_ranges(sample_len: usize) -> (r: Vec<(usize, usize)>)
    ensures
        r@.len() == say_packet_count(sample_len as int),
        forall|n: int|
            0 <= n < r@.len() ==> (r@[n].0 as int, r@[n].1 as int) == say_packet_range(n),
{
    let count = sample_len / SAY_PACKET_SAMPLES;
    proof {
        vstd::arithmetic::div_mod::lemma_fundamental_div_mod(
            sample_len as int,
            SAY_PACKET_SAMPLES as int,
        );
    }
    let mut ranges: Vec<(usize, usize)> = Vec::new();
    let mut n: usize = 1;
    while n < count
        invariant
            1 <= n,
            count == sample_len / SAY_PACKET_SAMPLES,
            n <= count || (count == 0 && n == 1),
            SAY_PACKET_SAMPLES * count <= sample_len,
            ranges@.len() == n - 1,
            forall|k: int|
                0 <= k < ranges@.len() ==> (ranges@[k].0 as int, ranges@[k].1 as int)
                    == say_packet_range(k),
        decreases count - n,
    {
        proof {
            assert(n * SAY_PACKET_SAMPLES <= SAY_PACKET_SAMPLES * count) by (nonlinear_arith)
                requires
                    n < count,
            ;
        }
        let start = (n - 1) * SAY_PACKET_SAMPLES;
        let end = if n * SAY_PACKET_SAMPLES < sample_len {
            n * SAY_PACKET_SAMPLES
        } else {
            sample_len
        };
        ranges.push((start, end));
        n = n + 1;
    }
    ranges
}

/// Channels of the speech encoder: stereo when two are configured, mono
/// otherwise.
pub open spec fn opus_channels_of(output_channel: u32) -> usize {
    if output_channel == 2 {
        2
    } else {
        1
    }
}

/// Channels of the speech encoder for a configured channel count.
pub fn opus_channels(output_channel: u32) -> (r: usize)
    ensures
        r == opus_channels_of(output_channel),
{
    match output_channel {
        2 => 2,
        _ => 1,
    }
}

/// Largest block of samples handed to the resampler at once.
pub const RESAMPLE_CHUNK: usize = 4096;

/// The resampler's block size for a buffer of `sample_len` samples.
pub open spec fn resample_block(sample_len: int) -> int {
    if sample_len < RESAMPLE_CHUNK {
        sample_len
    } else {
        RESAMPLE_CHUNK as int
    }
}

/// The blocks a synthesized buffer is resampled in: consecutive ranges of
/// the block size, the last one short when the length is not a multiple of
/// it (that one is resampled as a partial block).
pub fn resample_chunks(sample_len: usize) -> (r: Vec<(usize, usize)>)
    requires
        sample_len > 0,
    ensures
        r@.len() == packet_count(sample_len as int, resample_block(sample_len as int)),
        forall|n: int|
            0 <= n < r@.len() ==> (r@[n].0 as int, r@[n].1 as int) == packet_range(
                n,
                resample_block(sample_len as int),
                sample_len as int,
            ),
{
    let block = if sample_len < RESAMPLE_CHUNK {
        sample_len
    } else {
        RESAMPLE_CHUNK
    };
    tts_packet_ranges(sample_len, block)
}

} // verus!
