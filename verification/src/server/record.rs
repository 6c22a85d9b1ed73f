use vstd::prelude::*;

verus! {

/// A monotonic clock reading, carried through unchanged.
#[verifier::external_type_specification]
#[verifier::external_body]
pub struct ExInstant(std::time::Instant);

/// How a conversation round was started.
#[derive(Debug, Clone, Copy, PartialEq, Eq, Structural)]
pub enum RoundMode {
    Auto,
    Manual,
    RealTime,
    Text,
}

/// The lowercase wire name of a round mode.
pub open spec fn round_mode_name(mode: RoundMode) -> Seq<char> {
    match mode {
        RoundMode::Auto => "auto"@,
        RoundMode::Manual => "manual"@,
        RoundMode::RealTime => "realtime"@,
        RoundMode::Text => "text"@,
    }
}

impl RoundMode {
    pub fn as_str(&self) -> (r: &'static str)
        ensures
            r@ == round_mode_name(*self),
    {
        match self {
            RoundMode::Auto => "auto",
            RoundMode::Manual => "manual",
            RoundMode::RealTime => "realtime",
            RoundMode::Text => "text",
        }
    }
}

/// Whether a protocol frame came from the device or went to it.
#[derive(Debug, Clone, Copy, PartialEq, Eq, Structural)]
pub enum FrameDirection {
    Inbound,
    Outbound,
}

/// The start of a round; `C` is the client description it carries along.
pub struct RoundStartContext<C> {
    pub round_id: String,
    pub session_id: Option<String>,
    pub client_info: Option<C>,
    pub mode: RoundMode,
}

/// A speech recognition result with the voice it came from; `F` is the
/// audio sample type, also used for the confidence score.
pub struct AsrContext<F> {
    pub round_id: String,
    pub voice_pcm: Vec<F>,
    pub sample_rate: u32,
    pub text: String,
    pub confidence: F,
}

/// A typed text input of a round.
pub struct TextInputContext {
    pub round_id: String,
    pub text: String,
}

/// A streamed piece of the language model's answer.
pub struct LlmDeltaContext {
    pub round_id: String,
    pub text: String,
}

/// A streamed piece of synthesized speech, with its audio and sample rate
/// when it carries audio.
pub struct TtsDeltaContext<F> {
    pub round_id: String,
    pub text: String,
    pub raw_pcm: Option<(Vec<F>, u32)>,
}

/// A protocol frame seen on a session.
pub struct FrameContext {
    pub round_id: Option<String>,
    pub session_id: Option<String>,
    pub seq: u64,
    pub direction: FrameDirection,
    pub detail: String,
    pub data: Option<Vec<u8>>,
    pub round_started_at: Option<std::time::Instant>,
}

/// How a round ended.
#[derive(Debug, Clone, PartialEq, Eq, Structural)]
pub enum RoundEndReason {
    Completed,
    Interrupted,
}

/// The end of a round.
pub struct RoundEndContext {
    pub round_id: String,
    pub reason: RoundEndReason,
}

/// Rounds listed per page unless asked otherwise, and at most.
pub const ROUNDS_PAGE_SIZE: u64 = 20;
pub const ROUNDS_PAGE_SIZE_MAX: u64 = 100;

/// Frames listed per page unless asked otherwise, and at most.
pub const FRAMES_PAGE_SIZE: u64 = 50;
pub const FRAMES_PAGE_SIZE_MAX: u64 = 500;

/// The page a listing serves: its number, counting from 1, and its size.
#[derive(Debug, Clone, Copy, PartialEq, Eq, Structural)]
pub struct PageWindow {
    pub page: u64,
    pub page_size: u64,
}

/// The page served for a request: the asked page (the first when absent or
/// zero) and the asked size (`default_size` when absent) capped at `max_size`.
pub open spec fn page_window_of(
    page: Option<u64>,
    page_size: Option<u64>,
    default_size: u64,
    max_size: u64,
) -> PageWindow {
    let p = match page {
        Some(p) => if p >= 1 {
            p
        } else {
            1
        },
        None => 1,
    };
    let asked = match page_size {
        Some(n) => n,
        None => default_size,
    };
    PageWindow { page: p, page_size: if asked <= max_size { asked } else { max_size } }
}

fn page_window(page: Option<u64>, page_size: Option<u64>, default_size: u64, max_size: u64) -> (r:
    PageWindow)
    ensures
        r == page_window_of(page, page_size, default_size, max_size),
{
    let p = match page {
        Some(p) => if p >= 1 {
            p
        } else {
            1
        },
        None => 1,
    };
    let asked = match page_size {
        Some(n) => n,
        None => default_size,
    };
    PageWindow { page: p, page_size: if asked <= max_size { asked } else { max_size } }
}

impl PageWindow {
    /// The zero-based index of the page to fetch.
    pub fn page_index(&self) -> (r: u64)
        requires
            self.page >= 1,
        ensures
            r == self.page - 1,
    {
        self.page - 1
    }
}

/// Query of the round listing.
pub struct ListRoundsParams {
    pub user_id: Option<String>,
    pub page: Option<u64>,
    pub page_size: Option<u64>,
}

impl ListRoundsParams {
    /// The page of rounds this query is served.
    pub fn window(&self) -> (r: PageWindow)
        ensures
            r == page_window_of(self.page, self.page_size, ROUNDS_PAGE_SIZE, ROUNDS_PAGE_SIZE_MAX),
            r.page >= 1,
    {
        page_window(self.page, self.page_size, ROUNDS_PAGE_SIZE, ROUNDS_PAGE_SIZE_MAX)
    }
}

/// Query of a round's frame listing.
pub struct ListFramesParams {
    pub page: Option<u64>,
    pub page_size: Option<u64>,
}

impl ListFramesParams {
    /// The page of frames this query is served.
    pub fn window(&self) -> (r: PageWindow)
        ensures
            r == page_window_of(self.page, self.page_size, FRAMES_PAGE_SIZE, FRAMES_PAGE_SIZE_MAX),
            r.page >= 1,
    {
        page_window(self.page, self.page_size, FRAMES_PAGE_SIZE, FRAMES_PAGE_SIZE_MAX)
    }
}

} // verus!
