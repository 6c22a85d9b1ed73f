use crate::server::record::{
    AsrContext, FrameContext, FrameDirection, LlmDeltaContext, RoundEndContext, RoundEndReason,
    RoundMode, RoundStartContext, TextInputContext, TtsDeltaContext, round_mode_name,
};
use vstd::prelude::*;
use vstd::string::*;

verus! {

/// Frames buffered per round beyond this count are dropped.
pub const MAX_FRAMES_PER_ROUND: usize = 5000;

/// The recorded stages of a conversation round.
#[derive(Debug, Clone, Copy, PartialEq, Eq, Structural)]
pub enum StepKind {
    InputAudio,
    Asr,
    Text,
    Llm,
    Tts,
}

/// The name a stage is stored under.
pub open spec fn step_name(kind: StepKind) -> Seq<char> {
    match kind {
        StepKind::InputAudio => "input_audio"@,
        StepKind::Asr => "asr"@,
        StepKind::Text => "text"@,
        StepKind::Llm => "llm"@,
        StepKind::Tts => "tts"@,
    }
}

impl StepKind {
    /// The name the stage is stored under.
    pub fn name(&self) -> (r: &'static str)
        ensures
            r@ == step_name(*self),
    {
        match self {
            StepKind::InputAudio => "input_audio",
            StepKind::Asr => "asr",
            StepKind::Text => "text",
            StepKind::Llm => "llm",
            StepKind::Tts => "tts",
        }
    }
}

/// What a stage of a round has collected. Times are nanoseconds on the
/// collector's monotonic clock; `F` is the audio sample (and score) type,
/// which is carried, never computed on.
pub struct RoundStep<F> {
    pub text: String,
    pub pcm: Vec<F>,
    pub sample_rate: Option<u32>,
    pub confidence: Option<F>,
    pub first_event_ns: i64,
    pub last_event_ns: i64,
    pub has_text: bool,
    pub has_pcm: bool,
}

/// What a stage holds, as values.
pub struct StepView<F> {
    pub text: Seq<char>,
    pub pcm: Seq<F>,
    pub sample_rate: Option<u32>,
    pub confidence: Option<F>,
    pub first_ns: i64,
    pub last_ns: i64,
    pub has_text: bool,
    pub has_pcm: bool,
}

impl<F> View for RoundStep<F> {
    type V = StepView<F>;

    open spec fn view(&self) -> StepView<F> {
        StepView {
            text: self.text@,
            pcm: self.pcm@,
            sample_rate: self.sample_rate,
            confidence: self.confidence,
            first_ns: self.first_event_ns,
            last_ns: self.last_event_ns,
            has_text: self.has_text,
            has_pcm: self.has_pcm,
        }
    }
}

/// The stage `before` after an event at `now_ns`: a fresh stage, with
/// nothing collected, if there was none; else the same stage with its last
/// event moved to `now_ns`.
pub open spec fn touched<F>(before: Option<StepView<F>>, now_ns: i64) -> StepView<F> {
    match before {
        Some(b) => StepView { last_ns: now_ns, ..b },
        None => StepView {
            text: Seq::empty(),
            pcm: Seq::empty(),
            sample_rate: None,
            confidence: None,
            first_ns: now_ns,
            last_ns: now_ns,
            has_text: false,
            has_pcm: false,
        },
    }
}

/// A flag of a stage that the flush looks at.
#[derive(Debug, Clone, Copy, PartialEq, Eq, Structural)]
pub enum StepFlag {
    HasText,
    HasPcm,
}

/// Whole milliseconds from `from_ns` to `to_ns`, zero when `to_ns` is not later.
pub open spec fn span_ms(from_ns: i64, to_ns: i64) -> i64 {
    if to_ns > from_ns {
        ((to_ns - from_ns) / 1_000_000) as i64
    } else {
        0
    }
}

/// Whole milliseconds from `from_ns` to `to_ns`, zero when `to_ns` is not later.
pub fn millis_between(from_ns: i64, to_ns: i64) -> (r: i64)
    ensures
        r == span_ms(from_ns, to_ns),
{
    if to_ns > from_ns {
        let d: i128 = to_ns as i128 - from_ns as i128;
        (d / 1_000_000) as i64
    } else {
        0
    }
}

/// Microseconds from `from_ns` to `to_ns`, zero when `to_ns` is not later.
pub open spec fn span_us(from_ns: i64, to_ns: i64) -> i64 {
    if to_ns > from_ns {
        ((to_ns - from_ns) / 1000) as i64
    } else {
        0
    }
}

/// `at_ns` moved back by `ms` milliseconds, or left where it is when that
/// would fall before the start of the clock's range.
pub open spec fn shifted_back(at_ns: i64, ms: u64) -> i64 {
    if at_ns - ms * 1_000_000 >= i64::MIN {
        (at_ns - ms * 1_000_000) as i64
    } else {
        at_ns
    }
}

fn shift_back(at_ns: i64, ms: u64) -> (r: i64)
    ensures
        r == shifted_back(at_ns, ms),
{
    let back: i128 = ms as i128 * 1_000_000;
    let moved: i128 = at_ns as i128 - back;
    if moved >= i64::MIN as i128 {
        moved as i64
    } else {
        at_ns
    }
}

impl<F> RoundStep<F> {
    fn fresh(now_ns: i64) -> (r: Self)
        ensures
            r@ == touched::<F>(None, now_ns),
    {
        RoundStep {
            text: String::new(),
            pcm: Vec::new(),
            sample_rate: None,
            confidence: None,
            first_event_ns: now_ns,
            last_event_ns: now_ns,
            has_text: false,
            has_pcm: false,
        }
    }
}

/// One protocol frame kept for a round.
pub struct FrameEntry {
    pub seq: u64,
    pub is_inbound: bool,
    pub detail: String,
    pub session_id: Option<String>,
    pub received_ns: i64,
}

/// A kept frame, as values.
pub struct FrameView {
    pub seq: u64,
    pub is_inbound: bool,
    pub detail: Seq<char>,
    pub session_id: Option<Seq<char>>,
    pub received_ns: i64,
}

/// The text of an optional string.
pub open spec fn opt_text(s: Option<String>) -> Option<Seq<char>> {
    match s {
        Some(t) => Some(t@),
        None => None,
    }
}

/// The text of an optional borrowed string.
pub open spec fn ref_text(s: Option<&String>) -> Option<Seq<char>> {
    match s {
        Some(t) => Some(t@),
        None => None,
    }
}

impl View for FrameEntry {
    type V = FrameView;

    open spec fn view(&self) -> FrameView {
        FrameView {
            seq: self.seq,
            is_inbound: self.is_inbound,
            detail: self.detail@,
            session_id: opt_text(self.session_id),
            received_ns: self.received_ns,
        }
    }
}

/// What a round buffer holds, as values: its stages keyed by kind.
pub struct RoundView<C, F> {
    pub round_id: Seq<char>,
    pub session_id: Option<Seq<char>>,
    pub client_info: Option<C>,
    pub mode: RoundMode,
    pub start_ns: i64,
    pub creation_ns: i64,
    pub steps: Map<StepKind, StepView<F>>,
    pub frames: Seq<FrameView>,
}

impl<C, F> RoundView<C, F> {
    /// The stage of `kind`, if it has seen an event.
    pub open spec fn step(self, kind: StepKind) -> Option<StepView<F>> {
        if self.steps.dom().contains(kind) {
            Some(self.steps[kind])
        } else {
            None
        }
    }

    /// This round with the stage of `kind` set to `step`.
    pub open spec fn set_step(self, kind: StepKind, step: StepView<F>) -> Self {
        RoundView { steps: self.steps.insert(kind, step), ..self }
    }
}

/// The views of a sequence of frames.
pub open spec fn frame_views(s: Seq<FrameEntry>) -> Seq<FrameView> {
    s.map_values(|f: FrameEntry| f@)
}

/// Everything collected for one round until it is flushed.
pub struct RoundBuffer<C, F> {
    pub round_id: String,
    pub session_id: Option<String>,
    pub client_info: Option<C>,
    pub mode: RoundMode,
    pub round_start_ns: i64,
    pub round_creation_ns: i64,
    pub input_audio: Option<RoundStep<F>>,
    pub asr: Option<RoundStep<F>>,
    pub text: Option<RoundStep<F>>,
    pub llm: Option<RoundStep<F>>,
    pub tts: Option<RoundStep<F>>,
    pub frames: Vec<FrameEntry>,
}

impl<C, F> View for RoundBuffer<C, F> {
    type V = RoundView<C, F>;

    open spec fn view(&self) -> RoundView<C, F> {
        RoundView {
            round_id: self.round_id@,
            session_id: opt_text(self.session_id),
            client_info: self.client_info,
            mode: self.mode,
            start_ns: self.round_start_ns,
            creation_ns: self.round_creation_ns,
            steps: Map::new(
                |k: StepKind| self.step_of(k) is Some,
                |k: StepKind| self.step_of(k).unwrap()@,
            ),
            frames: frame_views(self.frames@),
        }
    }
}

/// Taking a stage out and putting a new one back sets it in the view.
proof fn lemma_replace_step_view<C, F>(b: RoundBuffer<C, F>, kind: StepKind, step: RoundStep<F>)
    ensures
        b.with_step(kind, None).with_step(kind, Some(step))@ == b@.set_step(kind, step@),
{
    assert(b.with_step(kind, None).with_step(kind, Some(step))@.steps =~= b@.steps.insert(
        kind,
        step@,
    ));
}

/// The stage of a kind as the view sees it.
proof fn lemma_step_view<C, F>(b: RoundBuffer<C, F>, kind: StepKind)
    ensures
        b@.step(kind) == (match b.step_of(kind) {
            Some(s) => Some(s@),
            None => None::<StepView<F>>,
        }),
{
}

impl<C, F> RoundBuffer<C, F> {
    /// The stage of the given kind, if it has seen an event.
    pub open spec fn step_of(&self, kind: StepKind) -> Option<RoundStep<F>> {
        match kind {
            StepKind::InputAudio => self.input_audio,
            StepKind::Asr => self.asr,
            StepKind::Text => self.text,
            StepKind::Llm => self.llm,
            StepKind::Tts => self.tts,
        }
    }

    /// This buffer with the stage of the given kind replaced.
    pub open spec fn with_step(self, kind: StepKind, step: Option<RoundStep<F>>) -> Self {
        match kind {
            StepKind::InputAudio => RoundBuffer { input_audio: step, ..self },
            StepKind::Asr => RoundBuffer { asr: step, ..self },
            StepKind::Text => RoundBuffer { text: step, ..self },
            StepKind::Llm => RoundBuffer { llm: step, ..self },
            StepKind::Tts => RoundBuffer { tts: step, ..self },
        }
    }

    /// A new buffer for a round that starts at `now_ns`.
    pub fn new(
        round_id: String,
        session_id: Option<String>,
        client_info: Option<C>,
        mode: RoundMode,
        now_ns: i64,
    ) -> (r: Self)
        ensures
            r == (RoundBuffer::<C, F> {
                round_id,
                session_id,
                client_info,
                mode,
                round_start_ns: now_ns,
                round_creation_ns: now_ns,
                input_audio: None,
                asr: None,
                text: None,
                llm: None,
                tts: None,
                frames: r.frames,
            }),
            r.frames@ == Seq::<FrameEntry>::empty(),
    {
        RoundBuffer {
            round_id,
            session_id,
            client_info,
            mode,
            round_start_ns: now_ns,
            round_creation_ns: now_ns,
            input_audio: None,
            asr: None,
            text: None,
            llm: None,
            tts: None,
            frames: Vec::new(),
        }
    }

    /// Take the stage of `kind` out of the buffer, touched by an event at
    /// `now_ns` (created when absent); `put_step` puts it back.
    fn take_step(&mut self, kind: StepKind, now_ns: i64) -> (r: RoundStep<F>)
        ensures
            r@ == touched(old(self)@.step(kind), now_ns),
            *final(self) == old(self).with_step(kind, None),
    {
        let taken = match kind {
            StepKind::InputAudio => self.input_audio.take(),
            StepKind::Asr => self.asr.take(),
            StepKind::Text => self.text.take(),
            StepKind::Llm => self.llm.take(),
            StepKind::Tts => self.tts.take(),
        };
        match taken {
            Some(step) => RoundStep { last_event_ns: now_ns, ..step },
            None => RoundStep::fresh(now_ns),
        }
    }

    fn put_step(&mut self, kind: StepKind, step: RoundStep<F>)
        ensures
            *final(self) == old(self).with_step(kind, Some(step)),
    {
        match kind {
            StepKind::InputAudio => self.input_audio = Some(step),
            StepKind::Asr => self.asr = Some(step),
            StepKind::Text => self.text = Some(step),
            StepKind::Llm => self.llm = Some(step),
            StepKind::Tts => self.tts = Some(step),
        }
    }

    /// Borrow the stage of `kind`, if it has seen an event.
    pub fn step(&self, kind: StepKind) -> (r: Option<&RoundStep<F>>)
        ensures
            match self.step_of(kind) {
                Some(s) => r == Some(&s),
                None => r is None,
            },
    {
        match kind {
            StepKind::InputAudio => self.input_audio.as_ref(),
            StepKind::Asr => self.asr.as_ref(),
            StepKind::Text => self.text.as_ref(),
            StepKind::Llm => self.llm.as_ref(),
            StepKind::Tts => self.tts.as_ref(),
        }
    }

    /// Whether the stage of `kind` exists and carries `flag`.
    pub fn step_has(&self, kind: StepKind, flag: StepFlag) -> (r: bool)
        ensures
            r == self@.has(kind, flag),
    {
        proof {
            lemma_step_view(*self, kind);
        }
        match self.step(kind) {
            Some(s) => match flag {
                StepFlag::HasText => s.has_text,
                StepFlag::HasPcm => s.has_pcm,
            },
            None => false,
        }
    }

    /// The text of the stage of `kind`, when it has a non-empty one.
    pub fn step_text(&self, kind: StepKind) -> (r: Option<String>)
        ensures
            match r {
                Some(t) => self@.text_of(kind) == Some(t@),
                None => self@.text_of(kind) is None,
            },
    {
        proof {
            lemma_step_view(*self, kind);
        }
        match self.step(kind) {
            Some(s) => {
                if s.has_text && !s.text.as_str().is_empty() {
                    Some(s.text.clone())
                } else {
                    None
                }
            },
            None => None,
        }
    }

    /// Milliseconds from the round's start to the first event of the stage
    /// of `kind`, if it has seen one.
    pub fn elapsed_ms(&self, kind: StepKind) -> (r: Option<i64>)
        ensures
            r == self@.elapsed_of(kind),
    {
        proof {
            lemma_step_view(*self, kind);
        }
        match self.step(kind) {
            Some(s) => Some(millis_between(self.round_start_ns, s.first_event_ns)),
            None => None,
        }
    }

    /// Milliseconds from the round's creation to the first event of the
    /// stage of `kind`, if it has seen one.
    pub fn process_ms(&self, kind: StepKind) -> (r: Option<i64>)
        ensures
            r == self@.process_of(kind),
    {
        proof {
            lemma_step_view(*self, kind);
        }
        match self.step(kind) {
            Some(s) => Some(millis_between(self.round_creation_ns, s.first_event_ns)),
            None => None,
        }
    }
}

/// The round after a speech recognition result: the input audio stage
/// takes the voice, whose first event moves back by the voice's length; the
/// recognition stage takes the text and its confidence.
pub open spec fn after_asr<C, F>(
    b: RoundView<C, F>,
    pcm: Seq<F>,
    sample_rate: u32,
    text: Seq<char>,
    confidence: F,
    audio_ms: u64,
    now_ns: i64,
) -> RoundView<C, F> {
    let io = touched(b.step(StepKind::InputAudio), now_ns);
    let b1 = b.set_step(
        StepKind::InputAudio,
        StepView {
            pcm,
            sample_rate: Some(sample_rate),
            has_pcm: true,
            first_ns: shifted_back(io.first_ns, audio_ms),
            ..io
        },
    );
    let a = touched(b1.step(StepKind::Asr), now_ns);
    b1.set_step(StepKind::Asr, StepView { text, confidence: Some(confidence), has_text: true, ..a })
}

/// The round after a typed input: the text stage holds exactly `text`.
pub open spec fn after_text<C, F>(b: RoundView<C, F>, text: Seq<char>, now_ns: i64) -> RoundView<
    C,
    F,
> {
    let t = touched(b.step(StepKind::Text), now_ns);
    b.set_step(StepKind::Text, StepView { text, has_text: true, ..t })
}

/// The round after a piece of the model's answer: appended to the model stage.
pub open spec fn after_llm_delta<C, F>(b: RoundView<C, F>, text: Seq<char>, now_ns: i64) -> RoundView<
    C,
    F,
> {
    let l = touched(b.step(StepKind::Llm), now_ns);
    b.set_step(StepKind::Llm, StepView { text: l.text + text, has_text: true, ..l })
}

/// The round after a piece of synthesized speech: its text is appended to
/// the speech stage, and so is its audio, when it comes with some.
pub open spec fn after_tts_delta<C, F>(
    b: RoundView<C, F>,
    text: Seq<char>,
    audio: Option<(Seq<F>, u32)>,
    now_ns: i64,
) -> RoundView<C, F> {
    let t = touched(b.step(StepKind::Tts), now_ns);
    let t1 = StepView { text: t.text + text, has_text: true, ..t };
    b.set_step(
        StepKind::Tts,
        match audio {
            Some((pcm, rate)) => StepView {
                pcm: t1.pcm + pcm,
                sample_rate: Some(rate),
                has_pcm: true,
                ..t1
            },
            None => t1,
        },
    )
}

/// The round once recognition is complete: when the voice began before the
/// round's start, the start moves back to it and the old start is kept as
/// the creation time.
pub open spec fn after_align<C, F>(b: RoundView<C, F>) -> RoundView<C, F> {
    match b.step(StepKind::InputAudio) {
        Some(io) => if b.start_ns != io.first_ns {
            RoundView { creation_ns: b.start_ns, start_ns: io.first_ns, ..b }
        } else {
            b
        },
        None => b,
    }
}

impl<C, F> RoundBuffer<C, F> {
    /// Record a recognition result and the voice it came from; `audio_ms`
    /// is the voice's length in milliseconds.
    pub fn collect_asr(
        &mut self,
        voice_pcm: Vec<F>,
        sample_rate: u32,
        text: String,
        confidence: F,
        audio_ms: u64,
        now_ns: i64,
    )
        ensures
            final(self)@ == after_asr(
                old(self)@,
                voice_pcm@,
                sample_rate,
                text@,
                confidence,
                audio_ms,
                now_ns,
            ),
    {
        let ghost start = *self;
        let mut io = self.take_step(StepKind::InputAudio, now_ns);
        io.pcm = voice_pcm;
        io.sample_rate = Some(sample_rate);
        io.has_pcm = true;
        io.first_event_ns = shift_back(io.first_event_ns, audio_ms);
        proof {
            lemma_replace_step_view(start, StepKind::InputAudio, io);
        }
        self.put_step(StepKind::InputAudio, io);
        let ghost mid = *self;
        let mut asr = self.take_step(StepKind::Asr, now_ns);
        asr.text = text;
        asr.confidence = Some(confidence);
        asr.has_text = true;
        proof {
            lemma_replace_step_view(mid, StepKind::Asr, asr);
        }
        self.put_step(StepKind::Asr, asr);
    }

    /// Record a typed input; a later one replaces it.
    pub fn collect_text(&mut self, text: &str, now_ns: i64)
        ensures
            final(self)@ == after_text(old(self)@, text@, now_ns),
    {
        let ghost start = *self;
        let mut t = self.take_step(StepKind::Text, now_ns);
        t.text = String::from_str(text);
        t.has_text = true;
        proof {
            lemma_replace_step_view(start, StepKind::Text, t);
        }
        self.put_step(StepKind::Text, t);
    }

    /// Append a piece of the model's answer.
    pub fn collect_llm_text(&mut self, text: &str, now_ns: i64)
        ensures
            final(self)@ == after_llm_delta(old(self)@, text@, now_ns),
    {
        let ghost start = *self;
        let mut llm = self.take_step(StepKind::Llm, now_ns);
        llm.text.append(text);
        llm.has_text = true;
        proof {
            lemma_replace_step_view(start, StepKind::Llm, llm);
        }
        self.put_step(StepKind::Llm, llm);
    }

    /// Append a piece of synthesized speech: its text, and its audio and
    /// sample rate when it carries audio.
    pub fn collect_tts(&mut self, text: &str, raw_pcm: Option<(Vec<F>, u32)>, now_ns: i64)
        ensures
            final(self)@ == after_tts_delta(
                old(self)@,
                text@,
                match raw_pcm {
                    Some((pcm, rate)) => Some((pcm@, rate)),
                    None => None,
                },
                now_ns,
            ),
    {
        let ghost start = *self;
        let mut tts = self.take_step(StepKind::Tts, now_ns);
        tts.text.append(text);
        tts.has_text = true;
        match raw_pcm {
            Some((new_pcm, rate)) => {
                let mut new_pcm = new_pcm;
                tts.pcm.append(&mut new_pcm);
                tts.sample_rate = Some(rate);
                tts.has_pcm = true;
            },
            None => {},
        }
        proof {
            lemma_replace_step_view(start, StepKind::Tts, tts);
        }
        self.put_step(StepKind::Tts, tts);
    }

    /// Once recognition is complete, start the round where the voice began.
    pub fn align_round_start(&mut self)
        ensures
            final(self)@ == after_align(old(self)@),
    {
        let first = match &self.input_audio {
            Some(io) => Some(io.first_event_ns),
            None => None,
        };
        match first {
            Some(first) => {
                if self.round_start_ns != first {
                    self.round_creation_ns = self.round_start_ns;
                    self.round_start_ns = first;
                }
            },
            None => {},
        }
        proof {
            assert(self@.steps =~= old(self)@.steps);
        }
    }
}

/// No two entries of `s` share a key.
pub open spec fn keys_distinct<T>(s: Seq<T>, key: spec_fn(T) -> Seq<char>) -> bool {
    forall|i: int, j: int| 0 <= i < j < s.len() ==> key(#[trigger] s[i]) != key(#[trigger] s[j])
}

/// Whether some entry of `s` has key `k`.
pub open spec fn has_key<T>(s: Seq<T>, key: spec_fn(T) -> Seq<char>, k: Seq<char>) -> bool {
    exists|i: int| 0 <= i < s.len() && key(#[trigger] s[i]) == k
}

/// The map from each key of `s` to the value of its entry.
pub open spec fn keyed<T, V>(s: Seq<T>, key: spec_fn(T) -> Seq<char>, val: spec_fn(T) -> V) -> Map<
    Seq<char>,
    V,
> {
    Map::new(
        |k: Seq<char>| has_key(s, key, k),
        |k: Seq<char>| val(s[choose|i: int| 0 <= i < s.len() && key(#[trigger] s[i]) == k]),
    )
}

/// With distinct keys, an entry is what the map holds under its key.
proof fn lemma_keyed_index<T, V>(
    s: Seq<T>,
    key: spec_fn(T) -> Seq<char>,
    val: spec_fn(T) -> V,
    i: int,
)
    requires
        keys_distinct(s, key),
        0 <= i < s.len(),
    ensures
        keyed(s, key, val).dom().contains(key(s[i])),
        keyed(s, key, val)[key(s[i])] == val(s[i]),
{
    let k = key(s[i]);
    assert(has_key(s, key, k));
    let j = choose|j: int| 0 <= j < s.len() && key(#[trigger] s[j]) == k;
    if j != i {
        if j < i {
            assert(key(s[j]) != key(s[i]));
        } else {
            assert(key(s[i]) != key(s[j]));
        }
    }
}

/// Replacing an entry by one with the same key sets that key in the map.
proof fn lemma_keyed_update<T, V>(
    s: Seq<T>,
    key: spec_fn(T) -> Seq<char>,
    val: spec_fn(T) -> V,
    i: int,
    x: T,
)
    requires
        keys_distinct(s, key),
        0 <= i < s.len(),
        key(x) == key(s[i]),
    ensures
        keys_distinct(s.update(i, x), key),
        keyed(s.update(i, x), key, val) == keyed(s, key, val).insert(key(x), val(x)),
{
    let t = s.update(i, x);
    assert(keys_distinct(t, key)) by {
        assert forall|a: int, b: int| 0 <= a < b < t.len() implies key(#[trigger] t[a]) != key(
            #[trigger] t[b],
        ) by {
            assert(key(t[a]) == key(s[a]));
            assert(key(t[b]) == key(s[b]));
        }
    }
    let m = keyed(s, key, val).insert(key(x), val(x));
    assert forall|k: Seq<char>| #[trigger] keyed(t, key, val).dom().contains(k) <==> m.dom().contains(k) by {
        if has_key(t, key, k) {
            let a = choose|a: int| 0 <= a < t.len() && key(#[trigger] t[a]) == k;
            if a != i {
                assert(key(s[a]) == k);
                assert(has_key(s, key, k));
            }
        }
        if has_key(s, key, k) {
            let a = choose|a: int| 0 <= a < s.len() && key(#[trigger] s[a]) == k;
            assert(key(t[a]) == k);
        }
        if k == key(x) {
            assert(key(t[i]) == k);
        }
    }
    assert forall|k: Seq<char>| #[trigger] keyed(t, key, val).dom().contains(k) implies keyed(
        t,
        key,
        val,
    )[k] == m[k] by {
        let a = choose|a: int| 0 <= a < t.len() && key(#[trigger] t[a]) == k;
        lemma_keyed_index(t, key, val, a);
        if a != i {
            lemma_keyed_index(s, key, val, a);
        }
    }
    assert(keyed(t, key, val) =~= m);
}

/// Appending an entry under a new key adds that key to the map.
proof fn lemma_keyed_push<T, V>(s: Seq<T>, key: spec_fn(T) -> Seq<char>, val: spec_fn(T) -> V, x: T)
    requires
        keys_distinct(s, key),
        !has_key(s, key, key(x)),
    ensures
        keys_distinct(s.push(x), key),
        keyed(s.push(x), key, val) == keyed(s, key, val).insert(key(x), val(x)),
{
    let t = s.push(x);
    assert(keys_distinct(t, key)) by {
        assert forall|a: int, b: int| 0 <= a < b < t.len() implies key(#[trigger] t[a]) != key(
            #[trigger] t[b],
        ) by {
            if b == s.len() {
                assert(t[a] == s[a]);
            } else {
                assert(t[a] == s[a] && t[b] == s[b]);
            }
        }
    }
    let m = keyed(s, key, val).insert(key(x), val(x));
    assert forall|k: Seq<char>| #[trigger] keyed(t, key, val).dom().contains(k) <==> m.dom().contains(k) by {
        if has_key(t, key, k) {
            let a = choose|a: int| 0 <= a < t.len() && key(#[trigger] t[a]) == k;
            if a < s.len() {
                assert(t[a] == s[a]);
                assert(has_key(s, key, k));
            }
        }
        if has_key(s, key, k) {
            let a = choose|a: int| 0 <= a < s.len() && key(#[trigger] s[a]) == k;
            assert(t[a] == s[a]);
            assert(key(t[a]) == k);
        }
        if k == key(x) {
            assert(key(t[s.len() as int]) == k);
        }
    }
    assert forall|k: Seq<char>| #[trigger] keyed(t, key, val).dom().contains(k) implies keyed(
        t,
        key,
        val,
    )[k] == m[k] by {
        let a = choose|a: int| 0 <= a < t.len() && key(#[trigger] t[a]) == k;
        lemma_keyed_index(t, key, val, a);
        if a < s.len() {
            assert(t[a] == s[a]);
            lemma_keyed_index(s, key, val, a);
        }
    }
    assert(keyed(t, key, val) =~= m);
}

/// Removing an entry removes its key from the map.
proof fn lemma_keyed_remove<T, V>(
    s: Seq<T>,
    key: spec_fn(T) -> Seq<char>,
    val: spec_fn(T) -> V,
    i: int,
)
    requires
        keys_distinct(s, key),
        0 <= i < s.len(),
    ensures
        keys_distinct(s.remove(i), key),
        keyed(s.remove(i), key, val) == keyed(s, key, val).remove(key(s[i])),
{
    let t = s.remove(i);
    assert(keys_distinct(t, key)) by {
        assert forall|a: int, b: int| 0 <= a < b < t.len() implies key(#[trigger] t[a]) != key(
            #[trigger] t[b],
        ) by {
            let sa = if a < i { a } else { a + 1 };
            let sb = if b < i { b } else { b + 1 };
            assert(t[a] == s[sa] && t[b] == s[sb]);
        }
    }
    let m = keyed(s, key, val).remove(key(s[i]));
    assert forall|k: Seq<char>| #[trigger] keyed(t, key, val).dom().contains(k) <==> m.dom().contains(k) by {
        if has_key(t, key, k) {
            let a = choose|a: int| 0 <= a < t.len() && key(#[trigger] t[a]) == k;
            let sa = if a < i { a } else { a + 1 };
            assert(t[a] == s[sa]);
            assert(has_key(s, key, k));
            if sa < i {
                assert(key(s[sa]) != key(s[i]));
            } else {
                assert(key(s[i]) != key(s[sa]));
            }
        }
        if has_key(s, key, k) && k != key(s[i]) {
            let a = choose|a: int| 0 <= a < s.len() && key(#[trigger] s[a]) == k;
            assert(a != i);
            let ta = if a < i { a } else { a - 1 };
            assert(t[ta] == s[a]);
            assert(key(t[ta]) == k);
        }
    }
    assert forall|k: Seq<char>| #[trigger] keyed(t, key, val).dom().contains(k) implies keyed(
        t,
        key,
        val,
    )[k] == m[k] by {
        let a = choose|a: int| 0 <= a < t.len() && key(#[trigger] t[a]) == k;
        lemma_keyed_index(t, key, val, a);
        let sa = if a < i { a } else { a + 1 };
        assert(t[a] == s[sa]);
        lemma_keyed_index(s, key, val, sa);
    }
    assert(keyed(t, key, val) =~= m);
}

/// Removing an entry and inserting another with its key at the same place
/// sets that key in the map.
proof fn lemma_keyed_reinsert<T, V>(
    s: Seq<T>,
    key: spec_fn(T) -> Seq<char>,
    val: spec_fn(T) -> V,
    i: int,
    x: T,
)
    requires
        keys_distinct(s, key),
        0 <= i < s.len(),
        key(x) == key(s[i]),
    ensures
        s.remove(i).insert(i, x) == s.update(i, x),
        keys_distinct(s.update(i, x), key),
        keyed(s.update(i, x), key, val) == keyed(s, key, val).insert(key(x), val(x)),
        keyed(s, key, val)[key(x)] == val(s[i]),
        keyed(s, key, val).dom().contains(key(x)),
{
    assert(s.remove(i).insert(i, x) =~= s.update(i, x));
    lemma_keyed_update(s, key, val, i, x);
    lemma_keyed_index(s, key, val, i);
}

/// Frames seen on a session before its first round began.
pub struct OrphanFrames {
    pub session_id: String,
    pub frames: Vec<FrameEntry>,
}

/// Pending rounds are keyed by their id.
pub open spec fn round_key<C, F>() -> spec_fn(RoundBuffer<C, F>) -> Seq<char> {
    |b: RoundBuffer<C, F>| b.round_id@
}

pub open spec fn round_val<C, F>() -> spec_fn(RoundBuffer<C, F>) -> RoundView<C, F> {
    |b: RoundBuffer<C, F>| b@
}

/// Orphaned frames are keyed by their session.
pub open spec fn orphan_key() -> spec_fn(OrphanFrames) -> Seq<char> {
    |o: OrphanFrames| o.session_id@
}

pub open spec fn orphan_val() -> spec_fn(OrphanFrames) -> Seq<FrameView> {
    |o: OrphanFrames| frame_views(o.frames@)
}

/// A round as it stands when it starts at `now_ns`.
pub open spec fn fresh_round<C, F>(
    round_id: Seq<char>,
    session_id: Option<Seq<char>>,
    client_info: Option<C>,
    mode: RoundMode,
    now_ns: i64,
) -> RoundView<C, F> {
    RoundView {
        round_id,
        session_id,
        client_info,
        mode,
        start_ns: now_ns,
        creation_ns: now_ns,
        steps: Map::empty(),
        frames: Seq::empty(),
    }
}

/// A frame as it is kept.
pub open spec fn frame_at(
    seq: u64,
    is_inbound: bool,
    detail: Seq<char>,
    session_id: Option<Seq<char>>,
    now_ns: i64,
) -> FrameView {
    FrameView { seq, is_inbound, detail, session_id, received_ns: now_ns }
}

/// Where a frame went.
#[derive(Debug, Clone, Copy, PartialEq, Eq, Structural)]
pub enum FrameRoute {
    /// Kept with its round.
    Buffered,
    /// Its round already holds the most frames it keeps.
    Dropped,
    /// Kept with its session until the session's first round starts.
    Orphaned,
    /// Neither a pending round nor a waiting session takes it: the caller
    /// stores it on its own.
    Unrouted,
}

/// Where a frame with these ids goes, given the pending rounds.
pub open spec fn frame_route<C, F>(
    pending: Map<Seq<char>, RoundView<C, F>>,
    round_id: Option<Seq<char>>,
    session_id: Option<Seq<char>>,
) -> FrameRoute {
    match round_id {
        Some(rid) => if pending.dom().contains(rid) {
            if pending[rid].frames.len() >= MAX_FRAMES_PER_ROUND {
                FrameRoute::Dropped
            } else {
                FrameRoute::Buffered
            }
        } else {
            FrameRoute::Unrouted
        },
        None => if session_id is Some {
            FrameRoute::Orphaned
        } else {
            FrameRoute::Unrouted
        },
    }
}

/// The frames waiting for a session, none when it has no entry.
pub open spec fn waiting(orphaned: Map<Seq<char>, Seq<FrameView>>, sid: Seq<char>) -> Seq<FrameView> {
    if orphaned.dom().contains(sid) {
        orphaned[sid]
    } else {
        Seq::empty()
    }
}

/// The rounds being collected and the frames waiting for a session's first
/// round, each keyed by id.
pub struct RoundBook<C, F> {
    pending: Vec<RoundBuffer<C, F>>,
    orphaned: Vec<OrphanFrames>,
}

impl<C, F> RoundBook<C, F> {
    /// No id occurs twice.
    pub closed spec fn wf(&self) -> bool {
        &&& keys_distinct(self.pending@, round_key())
        &&& keys_distinct(self.orphaned@, orphan_key())
    }

    /// The pending rounds by id.
    pub closed spec fn pending_of(&self) -> Map<Seq<char>, RoundView<C, F>> {
        keyed(self.pending@, round_key(), round_val())
    }

    /// The waiting frames by session.
    pub closed spec fn orphaned_of(&self) -> Map<Seq<char>, Seq<FrameView>> {
        keyed(self.orphaned@, orphan_key(), orphan_val())
    }

    pub fn new() -> (r: Self)
        ensures
            r.wf(),
            r.pending_of() == Map::<Seq<char>, RoundView<C, F>>::empty(),
            r.orphaned_of() == Map::<Seq<char>, Seq<FrameView>>::empty(),
    {
        let r = RoundBook { pending: Vec::new(), orphaned: Vec::new() };
        assert(r.pending_of() =~= Map::<Seq<char>, RoundView<C, F>>::empty());
        assert(r.orphaned_of() =~= Map::<Seq<char>, Seq<FrameView>>::empty());
        r
    }

    fn find_round(&self, round_id: &String) -> (r: Option<usize>)
        ensures
            match r {
                Some(i) => i < self.pending@.len() && self.pending@[i as int].round_id@ == round_id@,
                None => !has_key(self.pending@, round_key(), round_id@),
            },
    {
        let mut i: usize = 0;
        while i < self.pending.len()
            invariant
                0 <= i <= self.pending@.len(),
                forall|j: int| 0 <= j < i ==> #[trigger] self.pending@[j].round_id@ != round_id@,
            decreases self.pending@.len() - i,
        {
            if self.pending[i].round_id == *round_id {
                return Some(i);
            }
            i = i + 1;
        }
        None
    }

    fn find_orphans(&self, session_id: &String) -> (r: Option<usize>)
        ensures
            match r {
                Some(i) => i < self.orphaned@.len() && self.orphaned@[i as int].session_id@
                    == session_id@,
                None => !has_key(self.orphaned@, orphan_key(), session_id@),
            },
    {
        let mut i: usize = 0;
        while i < self.orphaned.len()
            invariant
                0 <= i <= self.orphaned@.len(),
                forall|j: int| 0 <= j < i ==> #[trigger] self.orphaned@[j].session_id@ != session_id@,
            decreases self.orphaned@.len() - i,
        {
            if self.orphaned[i].session_id == *session_id {
                return Some(i);
            }
            i = i + 1;
        }
        None
    }

    /// Begin collecting a round; a pending round with the same id starts over.
    pub fn start_round(
        &mut self,
        round_id: String,
        session_id: Option<String>,
        client_info: Option<C>,
        mode: RoundMode,
        now_ns: i64,
    )
        requires
            old(self).wf(),
        ensures
            final(self).wf(),
            final(self).pending_of() == old(self).pending_of().insert(
                round_id@,
                fresh_round(round_id@, opt_text(session_id), client_info, mode, now_ns),
            ),
            final(self).orphaned_of() == old(self).orphaned_of(),
    {
        let ghost id = round_id@;
        let found = self.find_round(&round_id);
        let buffer = RoundBuffer::new(round_id, session_id, client_info, mode, now_ns);
        proof {
            assert(buffer@.steps =~= Map::<StepKind, StepView<F>>::empty());
            assert(buffer@.frames =~= Seq::<FrameView>::empty());
        }
        match found {
            Some(i) => {
                proof {
                    lemma_keyed_reinsert(self.pending@, round_key(), round_val(), i as int, buffer);
                }
                self.pending.set(i, buffer);
            },
            None => {
                proof {
                    lemma_keyed_push(self.pending@, round_key(), round_val(), buffer);
                }
                self.pending.push(buffer);
            },
        }
    }

    /// Record a recognition result and its voice on a pending round.
    pub fn collect_asr(&mut self, round_id: &String, voice_pcm: Vec<F>, sample_rate: u32, text: String, confidence: F, audio_ms: u64, now_ns: i64)
        requires
            old(self).wf(),
        ensures
            final(self).wf(),
            final(self).orphaned_of() == old(self).orphaned_of(),
            final(self).pending_of() == if old(self).pending_of().dom().contains(round_id@) {
                old(self).pending_of().insert(
                    round_id@,
                    after_asr(old(self).pending_of()[round_id@], voice_pcm@, sample_rate, text@, confidence, audio_ms, now_ns),
                )
            } else {
                old(self).pending_of()
            },
    {
        match self.find_round(round_id) {
            Some(i) => {
                let ghost before = self.pending@;
                let mut buffer = self.pending.remove(i);
                buffer.collect_asr(voice_pcm, sample_rate, text, confidence, audio_ms, now_ns);
                proof {
                    lemma_keyed_reinsert(before, round_key(), round_val(), i as int, buffer);
                }
                self.pending.insert(i, buffer);
            },
            None => {},
        }
    }

    /// Record a typed input on a pending round.
    pub fn collect_text(&mut self, round_id: &String, text: &str, now_ns: i64)
        requires
            old(self).wf(),
        ensures
            final(self).wf(),
            final(self).orphaned_of() == old(self).orphaned_of(),
            final(self).pending_of() == if old(self).pending_of().dom().contains(round_id@) {
                old(self).pending_of().insert(
                    round_id@,
                    after_text(old(self).pending_of()[round_id@], text@, now_ns),
                )
            } else {
                old(self).pending_of()
            },
    {
        match self.find_round(round_id) {
            Some(i) => {
                let ghost before = self.pending@;
                let mut buffer = self.pending.remove(i);
                buffer.collect_text(text, now_ns);
                proof {
                    lemma_keyed_reinsert(before, round_key(), round_val(), i as int, buffer);
                }
                self.pending.insert(i, buffer);
            },
            None => {},
        }
    }

    /// Append a piece of the answer to a pending round.
    pub fn collect_llm_text(&mut self, round_id: &String, text: &str, now_ns: i64)
        requires
            old(self).wf(),
        ensures
            final(self).wf(),
            final(self).orphaned_of() == old(self).orphaned_of(),
            final(self).pending_of() == if old(self).pending_of().dom().contains(round_id@) {
                old(self).pending_of().insert(
                    round_id@,
                    after_llm_delta(old(self).pending_of()[round_id@], text@, now_ns),
                )
            } else {
                old(self).pending_of()
            },
    {
        match self.find_round(round_id) {
            Some(i) => {
                let ghost before = self.pending@;
                let mut buffer = self.pending.remove(i);
                buffer.collect_llm_text(text, now_ns);
                proof {
                    lemma_keyed_reinsert(before, round_key(), round_val(), i as int, buffer);
                }
                self.pending.insert(i, buffer);
            },
            None => {},
        }
    }

    /// Append a piece of synthesized speech to a pending round.
    pub fn collect_tts(&mut self, round_id: &String, text: &str, raw_pcm: Option<(Vec<F>, u32)>, now_ns: i64)
        requires
            old(self).wf(),
        ensures
            final(self).wf(),
            final(self).orphaned_of() == old(self).orphaned_of(),
            final(self).pending_of() == if old(self).pending_of().dom().contains(round_id@) {
                old(self).pending_of().insert(
                    round_id@,
                    after_tts_delta(old(self).pending_of()[round_id@], text@,
                    match raw_pcm {
                        Some((pcm, rate)) => Some((pcm@, rate)),
                        None => None,
                    },
                    now_ns),
                )
            } else {
                old(self).pending_of()
            },
    {
        match self.find_round(round_id) {
            Some(i) => {
                let ghost before = self.pending@;
                let mut buffer = self.pending.remove(i);
                buffer.collect_tts(text, raw_pcm, now_ns);
                proof {
                    lemma_keyed_reinsert(before, round_key(), round_val(), i as int, buffer);
                }
                self.pending.insert(i, buffer);
            },
            None => {},
        }
    }

    /// Once recognition is complete, start a pending round where its voice began.
    pub fn align_round_start(&mut self, round_id: &String)
        requires
            old(self).wf(),
        ensures
            final(self).wf(),
            final(self).orphaned_of() == old(self).orphaned_of(),
            final(self).pending_of() == if old(self).pending_of().dom().contains(round_id@) {
                old(self).pending_of().insert(
                    round_id@,
                    after_align(old(self).pending_of()[round_id@]),
                )
            } else {
                old(self).pending_of()
            },
    {
        match self.find_round(round_id) {
            Some(i) => {
                let ghost before = self.pending@;
                let mut buffer = self.pending.remove(i);
                buffer.align_round_start();
                proof {
                    lemma_keyed_reinsert(before, round_key(), round_val(), i as int, buffer);
                }
                self.pending.insert(i, buffer);
            },
            None => {},
        }
    }

    /// Keep a frame with its pending round, or with its session while no
    /// round has begun; says where it went.
    pub fn record_frame(
        &mut self,
        round_id: Option<&String>,
        session_id: Option<&String>,
        seq: u64,
        is_inbound: bool,
        detail: &str,
        now_ns: i64,
    ) -> (r: FrameRoute)
        requires
            old(self).wf(),
        ensures
            final(self).wf(),
            r == frame_route(
                old(self).pending_of(),
                ref_text(round_id),
                ref_text(session_id),
            ),
            r == FrameRoute::Buffered ==> final(self).pending_of() == old(self).pending_of().insert(
                round_id.unwrap()@,
                RoundView {
                    frames: old(self).pending_of()[round_id.unwrap()@].frames.push(
                        frame_at(seq, is_inbound, detail@, ref_text(session_id), now_ns),
                    ),
                    ..old(self).pending_of()[round_id.unwrap()@]
                },
            ),
            r != FrameRoute::Buffered ==> final(self).pending_of() == old(self).pending_of(),
            r == FrameRoute::Orphaned ==> final(self).orphaned_of() == old(self).orphaned_of().insert(
                session_id.unwrap()@,
                waiting(old(self).orphaned_of(), session_id.unwrap()@).push(
                    frame_at(seq, is_inbound, detail@, Some(session_id.unwrap()@), now_ns),
                ),
            ),
            r != FrameRoute::Orphaned ==> final(self).orphaned_of() == old(self).orphaned_of(),
    {
        match round_id {
            Some(rid) => match self.find_round(rid) {
                Some(i) => {
                    let ghost before = self.pending@;
                    proof {
                        lemma_keyed_index(before, round_key(), round_val(), i as int);
                    }
                    if self.pending[i].frames.len() >= MAX_FRAMES_PER_ROUND {
                        return FrameRoute::Dropped;
                    }
                    let frame = FrameEntry {
                        seq,
                        is_inbound,
                        detail: String::from_str(detail),
                        session_id: match session_id {
                            Some(sid) => Some(sid.clone()),
                            None => None,
                        },
                        received_ns: now_ns,
                    };
                    let mut buffer = self.pending.remove(i);
                    let ghost frames_before = buffer.frames@;
                    buffer.frames.push(frame);
                    proof {
                        assert(frame_views(buffer.frames@) =~= frame_views(frames_before).push(frame@));
                        assert(buffer@.steps =~= before[i as int]@.steps);
                        lemma_keyed_reinsert(before, round_key(), round_val(), i as int, buffer);
                    }
                    self.pending.insert(i, buffer);
                    return FrameRoute::Buffered;
                },
                None => {
                    return FrameRoute::Unrouted;
                },
            },
            None => {},
        }
        match session_id {
            Some(sid) => {
                let frame = FrameEntry {
                    seq,
                    is_inbound,
                    detail: String::from_str(detail),
                    session_id: Some(sid.clone()),
                    received_ns: now_ns,
                };
                match self.find_orphans(sid) {
                    Some(j) => {
                        let ghost before = self.orphaned@;
                        proof {
                            lemma_keyed_index(before, orphan_key(), orphan_val(), j as int);
                        }
                        let mut entry = self.orphaned.remove(j);
                        let ghost frames_before = entry.frames@;
                        entry.frames.push(frame);
                        proof {
                            assert(frame_views(entry.frames@) =~= frame_views(frames_before).push(frame@));
                            lemma_keyed_reinsert(before, orphan_key(), orphan_val(), j as int, entry);
                        }
                        self.orphaned.insert(j, entry);
                    },
                    None => {
                        let mut frames = Vec::new();
                        frames.push(frame);
                        let entry = OrphanFrames { session_id: sid.clone(), frames };
                        proof {
                            assert(frame_views(entry.frames@) =~= Seq::<FrameView>::empty().push(frame@));
                            lemma_keyed_push(self.orphaned@, orphan_key(), orphan_val(), entry);
                        }
                        self.orphaned.push(entry);
                    },
                }
                FrameRoute::Orphaned
            },
            None => FrameRoute::Unrouted,
        }
    }

    /// Hand over a pending round for flushing, removing it from the book.
    pub fn finish_round(&mut self, round_id: &String) -> (r: Option<RoundBuffer<C, F>>)
        requires
            old(self).wf(),
        ensures
            final(self).wf(),
            final(self).pending_of() == old(self).pending_of().remove(round_id@),
            final(self).orphaned_of() == old(self).orphaned_of(),
            match r {
                Some(b) => old(self).pending_of().dom().contains(round_id@) && b@ == old(
                    self,
                ).pending_of()[round_id@],
                None => !old(self).pending_of().dom().contains(round_id@),
            },
    {
        match self.find_round(round_id) {
            Some(i) => {
                proof {
                    lemma_keyed_index(self.pending@, round_key(), round_val(), i as int);
                    lemma_keyed_remove(self.pending@, round_key(), round_val(), i as int);
                }
                Some(self.pending.remove(i))
            },
            None => {
                proof {
                    assert(old(self).pending_of().remove(round_id@) =~= old(self).pending_of());
                }
                None
            },
        }
    }

    /// Move the frames that waited for `session_id` into the round
    /// `round_id`, which has just begun; they keep their own receive times.
    pub fn adopt_orphans(&mut self, session_id: &String, round_id: &String)
        requires
            old(self).wf(),
        ensures
            final(self).wf(),
            final(self).orphaned_of() == old(self).orphaned_of().remove(session_id@),
            final(self).pending_of() == if old(self).pending_of().dom().contains(round_id@) {
                old(self).pending_of().insert(
                    round_id@,
                    RoundView {
                        frames: old(self).pending_of()[round_id@].frames + waiting(
                            old(self).orphaned_of(),
                            session_id@,
                        ),
                        ..old(self).pending_of()[round_id@]
                    },
                )
            } else {
                old(self).pending_of()
            },
    {
        match self.find_orphans(session_id) {
            Some(j) => {
                proof {
                    lemma_keyed_index(self.orphaned@, orphan_key(), orphan_val(), j as int);
                    lemma_keyed_remove(self.orphaned@, orphan_key(), orphan_val(), j as int);
                }
                let mut entry = self.orphaned.remove(j);
                if entry.frames.len() > 0 {
                    match self.find_round(round_id) {
                        Some(i) => {
                            let ghost before = self.pending@;
                            let mut buffer = self.pending.remove(i);
                            let ghost frames_before = buffer.frames@;
                            let ghost moved = entry.frames@;
                            buffer.frames.append(&mut entry.frames);
                            proof {
                                assert(frame_views(buffer.frames@) =~= frame_views(frames_before)
                                    + frame_views(moved));
                                assert(buffer@.steps =~= before[i as int]@.steps);
                                lemma_keyed_reinsert(before, round_key(), round_val(), i as int, buffer);
                            }
                            self.pending.insert(i, buffer);
                        },
                        None => {},
                    }
                } else {
                    proof {
                        assert(old(self).pending_of().dom().contains(round_id@) ==> old(
                            self,
                        ).pending_of()[round_id@].frames + waiting(old(self).orphaned_of(), session_id@)
                            =~= old(self).pending_of()[round_id@].frames);
                    }
                }
            },
            None => {
                proof {
                    assert(old(self).orphaned_of().remove(session_id@) =~= old(self).orphaned_of());
                    assert(old(self).pending_of().dom().contains(round_id@) ==> old(
                        self,
                    ).pending_of()[round_id@].frames + waiting(old(self).orphaned_of(), session_id@)
                        =~= old(self).pending_of()[round_id@].frames);
                }
            },
        }
    }
}

/// The stored name of a round's outcome.
pub open spec fn status_name(reason: RoundEndReason) -> Seq<char> {
    match reason {
        RoundEndReason::Completed => "completed"@,
        RoundEndReason::Interrupted => "interrupted"@,
    }
}

/// The stored name of a round's outcome.
pub fn status_str(reason: &RoundEndReason) -> (r: &'static str)
    ensures
        r@ == status_name(*reason),
{
    match reason {
        RoundEndReason::Completed => "completed",
        RoundEndReason::Interrupted => "interrupted",
    }
}

/// The stored name of a frame's direction.
pub open spec fn direction_name(is_inbound: bool) -> Seq<char> {
    if is_inbound {
        "inbound"@
    } else {
        "outbound"@
    }
}

/// The stored name of a frame's direction.
pub fn direction_str(is_inbound: bool) -> (r: &'static str)
    ensures
        r@ == direction_name(is_inbound),
{
    if is_inbound {
        "inbound"
    } else {
        "outbound"
    }
}

/// Sample rate assumed for recorded voice whose rate is unknown.
pub const DEFAULT_INPUT_SAMPLE_RATE: u32 = 16000;

/// Sample rate assumed for synthesized speech whose rate is unknown.
pub const DEFAULT_TTS_SAMPLE_RATE: u32 = 24000;

/// The row stored for a finished round.
pub struct RoundRow {
    pub round_id: String,
    pub session_id: String,
    pub mode: &'static str,
    pub status: &'static str,
}

/// One stored stage of a finished round, with what its metadata records.
pub struct DataRow<F> {
    pub kind: StepKind,
    /// When set, the row's data is the stage's audio as WAV at this rate,
    /// and the metadata names the WAV format.
    pub wav_rate: Option<u32>,
    pub text: Option<String>,
    /// The metadata records the stage's audio length (`audio_duration_ms`).
    pub audio_ms: bool,
    /// The metadata's `duration_ms` is that audio length.
    pub duration_is_audio: bool,
    /// The metadata records the stage's sample rate, known or not.
    pub sample_rate: Option<Option<u32>>,
    pub confidence: Option<F>,
    pub elapsed_ms: Option<i64>,
    pub duration_ms: Option<i64>,
}

/// A stored stage, as values.
pub struct DataRowView<F> {
    pub kind: StepKind,
    pub wav_rate: Option<u32>,
    pub text: Option<Seq<char>>,
    pub audio_ms: bool,
    pub duration_is_audio: bool,
    pub sample_rate: Option<Option<u32>>,
    pub confidence: Option<F>,
    pub elapsed_ms: Option<i64>,
    pub duration_ms: Option<i64>,
}

impl<F> View for DataRow<F> {
    type V = DataRowView<F>;

    open spec fn view(&self) -> DataRowView<F> {
        DataRowView {
            kind: self.kind,
            wav_rate: self.wav_rate,
            text: opt_text(self.text),
            audio_ms: self.audio_ms,
            duration_is_audio: self.duration_is_audio,
            sample_rate: self.sample_rate,
            confidence: self.confidence,
            elapsed_ms: self.elapsed_ms,
            duration_ms: self.duration_ms,
        }
    }
}

/// One stored frame of a finished round.
pub struct FrameRow {
    pub session_id: Option<String>,
    pub seq: i32,
    pub dir: &'static str,
    pub detail: String,
    pub elapsed_us: i64,
}

/// A stored frame, as values.
pub struct FrameRowView {
    pub session_id: Option<Seq<char>>,
    pub seq: i32,
    pub dir: Seq<char>,
    pub detail: Seq<char>,
    pub elapsed_us: i64,
}

impl View for FrameRow {
    type V = FrameRowView;

    open spec fn view(&self) -> FrameRowView {
        FrameRowView {
            session_id: opt_text(self.session_id),
            seq: self.seq,
            dir: self.dir@,
            detail: self.detail@,
            elapsed_us: self.elapsed_us,
        }
    }
}

/// Everything a finished round stores.
pub struct FlushPlan<F> {
    pub round: RoundRow,
    pub data: Vec<DataRow<F>>,
    pub frames: Vec<FrameRow>,
}

impl<C, F> RoundView<C, F> {
    /// Whether the stage of `kind` exists and carries `flag`.
    pub open spec fn has(self, kind: StepKind, flag: StepFlag) -> bool {
        match self.step(kind) {
            Some(s) => match flag {
                StepFlag::HasText => s.has_text,
                StepFlag::HasPcm => s.has_pcm,
            },
            None => false,
        }
    }

    /// The stage's text, when it has a non-empty one.
    pub open spec fn text_of(self, kind: StepKind) -> Option<Seq<char>> {
        match self.step(kind) {
            Some(s) => if s.has_text && s.text.len() > 0 {
                Some(s.text)
            } else {
                None
            },
            None => None,
        }
    }

    /// Milliseconds from the round's start to the stage's first event.
    pub open spec fn elapsed_of(self, kind: StepKind) -> Option<i64> {
        match self.step(kind) {
            Some(s) => Some(span_ms(self.start_ns, s.first_ns)),
            None => None,
        }
    }

    /// Milliseconds from the round's creation to the stage's first event.
    pub open spec fn process_of(self, kind: StepKind) -> Option<i64> {
        match self.step(kind) {
            Some(s) => Some(span_ms(self.creation_ns, s.first_ns)),
            None => None,
        }
    }
}

/// `row` alone when `cond` holds, else nothing.
pub open spec fn row_if<T>(cond: bool, row: T) -> Seq<T> {
    if cond {
        seq![row]
    } else {
        Seq::empty()
    }
}

/// A stage row with nothing recorded but its kind.
pub open spec fn bare_row<F>(kind: StepKind) -> DataRowView<F> {
    DataRowView {
        kind,
        wav_rate: None,
        text: None,
        audio_ms: false,
        duration_is_audio: false,
        sample_rate: None,
        confidence: None,
        elapsed_ms: None,
        duration_ms: None,
    }
}

/// The recorded voice, as WAV, when the round has some; its text is the
/// recognized one.
pub open spec fn planned_input_audio<C, F>(b: RoundView<C, F>) -> Seq<DataRowView<F>> {
    let io = b.step(StepKind::InputAudio).unwrap();
    row_if(
        b.has(StepKind::InputAudio, StepFlag::HasPcm),
        DataRowView {
            wav_rate: Some(
                match io.sample_rate {
                    Some(r) => r,
                    None => DEFAULT_INPUT_SAMPLE_RATE,
                },
            ),
            text: b.text_of(StepKind::Asr),
            audio_ms: io.pcm.len() > 0,
            duration_is_audio: io.pcm.len() > 0,
            elapsed_ms: b.elapsed_of(StepKind::InputAudio),
            ..bare_row(StepKind::InputAudio)
        },
    )
}

/// The recognition, when it produced text, with its confidence.
pub open spec fn planned_asr<C, F>(b: RoundView<C, F>) -> Seq<DataRowView<F>> {
    row_if(
        b.has(StepKind::Asr, StepFlag::HasText),
        DataRowView {
            text: b.text_of(StepKind::Asr),
            confidence: b.step(StepKind::Asr).unwrap().confidence,
            elapsed_ms: b.elapsed_of(StepKind::Asr),
            duration_ms: b.process_of(StepKind::Asr),
            ..bare_row(StepKind::Asr)
        },
    )
}

/// The typed input, when there was one, stored as typed.
pub open spec fn planned_text<C, F>(b: RoundView<C, F>) -> Seq<DataRowView<F>> {
    row_if(
        b.has(StepKind::Text, StepFlag::HasText),
        DataRowView {
            text: Some(b.step(StepKind::Text).unwrap().text),
            elapsed_ms: b.elapsed_of(StepKind::Text),
            duration_ms: b.process_of(StepKind::Text),
            ..bare_row(StepKind::Text)
        },
    )
}

/// The answer, when it is not empty.
pub open spec fn planned_llm<C, F>(b: RoundView<C, F>) -> Seq<DataRowView<F>> {
    row_if(
        b.text_of(StepKind::Llm) is Some,
        DataRowView {
            text: b.text_of(StepKind::Llm),
            elapsed_ms: b.elapsed_of(StepKind::Llm),
            duration_ms: b.process_of(StepKind::Llm),
            ..bare_row(StepKind::Llm)
        },
    )
}

/// The synthesized speech: with its audio as WAV when it has some, else its
/// text alone when it has text.
pub open spec fn planned_tts<C, F>(b: RoundView<C, F>) -> Seq<DataRowView<F>> {
    let tts = b.step(StepKind::Tts).unwrap();
    if b.has(StepKind::Tts, StepFlag::HasPcm) {
        seq![
            DataRowView {
                wav_rate: Some(
                    match tts.sample_rate {
                        Some(r) => r,
                        None => DEFAULT_TTS_SAMPLE_RATE,
                    },
                ),
                text: b.text_of(StepKind::Tts),
                audio_ms: tts.pcm.len() > 0,
                sample_rate: Some(tts.sample_rate),
                elapsed_ms: b.elapsed_of(StepKind::Tts),
                duration_ms: b.process_of(StepKind::Tts),
                ..bare_row(StepKind::Tts)
            },
        ]
    } else {
        row_if(
            b.has(StepKind::Tts, StepFlag::HasText),
            DataRowView {
                text: b.text_of(StepKind::Tts),
                elapsed_ms: b.elapsed_of(StepKind::Tts),
                duration_ms: b.process_of(StepKind::Tts),
                ..bare_row(StepKind::Tts)
            },
        )
    }
}

/// The stage rows a finished round stores, in order: the recorded voice,
/// the recognition, the typed input, the answer, and the synthesized speech.
pub open spec fn planned_rows<C, F>(b: RoundView<C, F>) -> Seq<DataRowView<F>> {
    planned_input_audio(b) + planned_asr(b) + planned_text(b) + planned_llm(b) + planned_tts(b)
}

/// The stored form of a kept frame of a round that started at `start_ns`:
/// its time is counted from the round's start, never negative.
pub open spec fn frame_row(f: FrameView, start_ns: i64) -> FrameRowView {
    FrameRowView {
        session_id: f.session_id,
        seq: f.seq as i32,
        dir: direction_name(f.is_inbound),
        detail: f.detail,
        elapsed_us: span_us(start_ns, f.received_ns),
    }
}

fn micros_between(from_ns: i64, to_ns: i64) -> (r: i64)
    ensures
        r == span_us(from_ns, to_ns),
{
    if to_ns > from_ns {
        let d: i128 = to_ns as i128 - from_ns as i128;
        (d / 1000) as i64
    } else {
        0
    }
}

/// The views of a sequence of stage rows.
pub open spec fn data_views<F>(s: Seq<DataRow<F>>) -> Seq<DataRowView<F>> {
    s.map_values(|d: DataRow<F>| d@)
}

/// The views of a sequence of frame rows.
pub open spec fn frame_row_views(s: Seq<FrameRow>) -> Seq<FrameRowView> {
    s.map_values(|f: FrameRow| f@)
}

proof fn lemma_data_views_concat<F>(s: Seq<DataRow<F>>, t: Seq<DataRow<F>>)
    ensures
        data_views(s + t) == data_views(s) + data_views(t),
{
    assert(data_views(s + t) =~= data_views(s) + data_views(t));
}

/// No row, or just `row`.
fn rows_if<F>(cond: bool, row: DataRow<F>) -> (r: Vec<DataRow<F>>)
    ensures
        data_views(r@) == row_if(cond, row@),
{
    let mut r = Vec::new();
    if cond {
        r.push(row);
    }
    assert(data_views(r@) =~= row_if(cond, row@));
    r
}

impl<C, F: Copy> RoundBuffer<C, F> {
    fn input_audio_rows(&self) -> (r: Vec<DataRow<F>>)
        ensures
            data_views(r@) == planned_input_audio(self@),
    {
        proof {
            lemma_step_view(*self, StepKind::InputAudio);
            lemma_step_view(*self, StepKind::Asr);
        }
        match &self.input_audio {
            Some(io) => rows_if(
                io.has_pcm,
                DataRow {
                    kind: StepKind::InputAudio,
                    wav_rate: Some(
                        match io.sample_rate {
                            Some(r) => r,
                            None => DEFAULT_INPUT_SAMPLE_RATE,
                        },
                    ),
                    text: self.step_text(StepKind::Asr),
                    audio_ms: io.pcm.len() > 0,
                    duration_is_audio: io.pcm.len() > 0,
                    sample_rate: None,
                    confidence: None,
                    elapsed_ms: self.elapsed_ms(StepKind::InputAudio),
                    duration_ms: None,
                },
            ),
            None => Vec::new(),
        }
    }

    fn asr_rows(&self) -> (r: Vec<DataRow<F>>)
        ensures
            data_views(r@) == planned_asr(self@),
    {
        proof {
            lemma_step_view(*self, StepKind::Asr);
        }
        match &self.asr {
            Some(asr) => rows_if(
                asr.has_text,
                DataRow {
                    kind: StepKind::Asr,
                    wav_rate: None,
                    text: self.step_text(StepKind::Asr),
                    audio_ms: false,
                    duration_is_audio: false,
                    sample_rate: None,
                    confidence: asr.confidence,
                    elapsed_ms: self.elapsed_ms(StepKind::Asr),
                    duration_ms: self.process_ms(StepKind::Asr),
                },
            ),
            None => Vec::new(),
        }
    }

    fn text_rows(&self) -> (r: Vec<DataRow<F>>)
        ensures
            data_views(r@) == planned_text(self@),
    {
        proof {
            lemma_step_view(*self, StepKind::Text);
        }
        match &self.text {
            Some(t) => {
                if t.has_text {
                    rows_if(
                        true,
                        DataRow {
                            kind: StepKind::Text,
                            wav_rate: None,
                            text: Some(t.text.clone()),
                            audio_ms: false,
                            duration_is_audio: false,
                            sample_rate: None,
                            confidence: None,
                            elapsed_ms: self.elapsed_ms(StepKind::Text),
                            duration_ms: self.process_ms(StepKind::Text),
                        },
                    )
                } else {
                    Vec::new()
                }
            },
            None => Vec::new(),
        }
    }

    fn llm_rows(&self) -> (r: Vec<DataRow<F>>)
        ensures
            data_views(r@) == planned_llm(self@),
    {
        proof {
            lemma_step_view(*self, StepKind::Llm);
        }
        match self.step_text(StepKind::Llm) {
            Some(text) => rows_if(
                true,
                DataRow {
                    kind: StepKind::Llm,
                    wav_rate: None,
                    text: Some(text),
                    audio_ms: false,
                    duration_is_audio: false,
                    sample_rate: None,
                    confidence: None,
                    elapsed_ms: self.elapsed_ms(StepKind::Llm),
                    duration_ms: self.process_ms(StepKind::Llm),
                },
            ),
            None => Vec::new(),
        }
    }

    fn tts_rows(&self) -> (r: Vec<DataRow<F>>)
        ensures
            data_views(r@) == planned_tts(self@),
    {
        proof {
            lemma_step_view(*self, StepKind::Tts);
        }
        match &self.tts {
            Some(tts) => {
                if tts.has_pcm {
                    rows_if(
                        true,
                        DataRow {
                            kind: StepKind::Tts,
                            wav_rate: Some(
                                match tts.sample_rate {
                                    Some(r) => r,
                                    None => DEFAULT_TTS_SAMPLE_RATE,
                                },
                            ),
                            text: self.step_text(StepKind::Tts),
                            audio_ms: tts.pcm.len() > 0,
                            duration_is_audio: false,
                            sample_rate: Some(tts.sample_rate),
                            confidence: None,
                            elapsed_ms: self.elapsed_ms(StepKind::Tts),
                            duration_ms: self.process_ms(StepKind::Tts),
                        },
                    )
                } else {
                    rows_if(
                        tts.has_text,
                        DataRow {
                            kind: StepKind::Tts,
                            wav_rate: None,
                            text: self.step_text(StepKind::Tts),
                            audio_ms: false,
                            duration_is_audio: false,
                            sample_rate: None,
                            confidence: None,
                            elapsed_ms: self.elapsed_ms(StepKind::Tts),
                            duration_ms: self.process_ms(StepKind::Tts),
                        },
                    )
                }
            },
            None => Vec::new(),
        }
    }

    fn frame_rows(&self) -> (r: Vec<FrameRow>)
        ensures
            frame_row_views(r@) == self@.frames.map_values(
                |f: FrameView| frame_row(f, self.round_start_ns),
            ),
    {
        let mut frames: Vec<FrameRow> = Vec::new();
        let n = self.frames.len();
        let mut i: usize = 0;
        while i < n
            invariant
                n == self.frames@.len(),
                0 <= i <= n,
                frame_row_views(frames@) =~= frame_views(self.frames@).take(i as int).map_values(
                    |f: FrameView| frame_row(f, self.round_start_ns),
                ),
            decreases n - i,
        {
            let entry = &self.frames[i];
            let row = FrameRow {
                session_id: match &entry.session_id {
                    Some(s) => Some(s.clone()),
                    None => None,
                },
                seq: entry.seq as i32,
                dir: direction_str(entry.is_inbound),
                detail: entry.detail.clone(),
                elapsed_us: micros_between(self.round_start_ns, entry.received_ns),
            };
            let ghost before = frames@;
            frames.push(row);
            proof {
                assert(frame_row_views(frames@) =~= frame_row_views(before).push(row@));
                assert(frame_views(self.frames@).take(i + 1) =~= frame_views(self.frames@).take(
                    i as int,
                ).push(self.frames@[i as int]@));
            }
            i = i + 1;
        }
        proof {
            assert(frame_views(self.frames@).take(n as int) =~= frame_views(self.frames@));
        }
        frames
    }

    /// What this round stores once it ends for `reason`: its own row, the
    /// rows of its stages, and its frames with their times from the start.
    pub fn plan_flush(&self, reason: &RoundEndReason) -> (r: FlushPlan<F>)
        ensures
            r.round.round_id@ == self.round_id@,
            r.round.session_id@ == (match self.session_id {
                Some(s) => s@,
                None => Seq::<char>::empty(),
            }),
            r.round.mode@ == round_mode_name(self.mode),
            r.round.status@ == status_name(*reason),
            data_views(r.data@) == planned_rows(self@),
            frame_row_views(r.frames@) == self@.frames.map_values(
                |f: FrameView| frame_row(f, self.round_start_ns),
            ),
    {
        let round = RoundRow {
            round_id: self.round_id.clone(),
            session_id: match &self.session_id {
                Some(s) => s.clone(),
                None => String::new(),
            },
            mode: self.mode.as_str(),
            status: status_str(reason),
        };
        let mut data = self.input_audio_rows();
        let mut part = self.asr_rows();
        proof {
            lemma_data_views_concat(data@, part@);
        }
        data.append(&mut part);
        let mut part = self.text_rows();
        proof {
            lemma_data_views_concat(data@, part@);
        }
        data.append(&mut part);
        let mut part = self.llm_rows();
        proof {
            lemma_data_views_concat(data@, part@);
        }
        data.append(&mut part);
        let mut part = self.tts_rows();
        proof {
            lemma_data_views_concat(data@, part@);
        }
        data.append(&mut part);
        FlushPlan { round, data, frames: self.frame_rows() }
    }
}

/// Reads the monotonic clock: `std::time::Instant::now`. Nothing is stated
/// of the reading.
#[verifier::external_body]
fn instant_now() -> (r: std::time::Instant) {
    std::time::Instant::now()
}

/// `std::time::Instant::elapsed`: the time passed since `since`. Nothing is
/// stated of it, as it depends on when the call is made.
#[verifier::external_body]
fn instant_elapsed(since: &std::time::Instant) -> (r: std::time::Duration) {
    since.elapsed()
}

/// `std::time::Duration::as_nanos`: the whole nanoseconds of `d`. The
/// duration is opaque here, so nothing is stated of the count.
#[verifier::external_body]
fn duration_nanos(d: &std::time::Duration) -> (r: u128) {
    d.as_nanos()
}

/// The pending rounds and waiting frames once a round has started at
/// `now_ns`: the round starts afresh, and the frames that waited for its
/// session become its first frames.
pub open spec fn started<C, F>(
    pending: Map<Seq<char>, RoundView<C, F>>,
    orphaned: Map<Seq<char>, Seq<FrameView>>,
    round_id: Seq<char>,
    session_id: Option<Seq<char>>,
    client_info: Option<C>,
    mode: RoundMode,
    now_ns: i64,
) -> (Map<Seq<char>, RoundView<C, F>>, Map<Seq<char>, Seq<FrameView>>) {
    let fresh = fresh_round(round_id, session_id, client_info, mode, now_ns);
    match session_id {
        Some(sid) => (
            pending.insert(round_id, RoundView { frames: waiting(orphaned, sid), ..fresh }),
            orphaned.remove(sid),
        ),
        None => (pending.insert(round_id, fresh), orphaned),
    }
}

/// `pending` with the round `round_id`, if there is one, replaced by `f` of it.
pub open spec fn updated<C, F>(
    pending: Map<Seq<char>, RoundView<C, F>>,
    round_id: Seq<char>,
    f: spec_fn(RoundView<C, F>) -> RoundView<C, F>,
) -> Map<Seq<char>, RoundView<C, F>> {
    if pending.dom().contains(round_id) {
        pending.insert(round_id, f(pending[round_id]))
    } else {
        pending
    }
}

/// The pending rounds after a typed input at `t`.
pub open spec fn pending_after_text<C, F>(
    pending: Map<Seq<char>, RoundView<C, F>>,
    round_id: Seq<char>,
    text: Seq<char>,
    t: i64,
) -> Map<Seq<char>, RoundView<C, F>> {
    updated(pending, round_id, |b: RoundView<C, F>| after_text(b, text, t))
}

/// The pending rounds after a recognition result at `t`.
pub open spec fn pending_after_asr<C, F>(
    pending: Map<Seq<char>, RoundView<C, F>>,
    round_id: Seq<char>,
    pcm: Seq<F>,
    sample_rate: u32,
    text: Seq<char>,
    confidence: F,
    audio_ms: u64,
    t: i64,
) -> Map<Seq<char>, RoundView<C, F>> {
    updated(
        pending,
        round_id,
        |b: RoundView<C, F>| after_asr(b, pcm, sample_rate, text, confidence, audio_ms, t),
    )
}

/// The pending rounds after a piece of the answer at `t`.
pub open spec fn pending_after_llm_delta<C, F>(
    pending: Map<Seq<char>, RoundView<C, F>>,
    round_id: Seq<char>,
    text: Seq<char>,
    t: i64,
) -> Map<Seq<char>, RoundView<C, F>> {
    updated(pending, round_id, |b: RoundView<C, F>| after_llm_delta(b, text, t))
}

/// The pending rounds after a piece of synthesized speech at `t`.
pub open spec fn pending_after_tts_delta<C, F>(
    pending: Map<Seq<char>, RoundView<C, F>>,
    round_id: Seq<char>,
    text: Seq<char>,
    audio: Option<(Seq<F>, u32)>,
    t: i64,
) -> Map<Seq<char>, RoundView<C, F>> {
    updated(pending, round_id, |b: RoundView<C, F>| after_tts_delta(b, text, audio, t))
}

/// Whether a frame came from the device.
pub open spec fn inbound(direction: FrameDirection) -> bool {
    direction == FrameDirection::Inbound
}

/// The audio of a speech piece, as values.
pub open spec fn audio_view<F>(raw_pcm: Option<(Vec<F>, u32)>) -> Option<(Seq<F>, u32)> {
    match raw_pcm {
        Some((pcm, rate)) => Some((pcm@, rate)),
        None => None,
    }
}

/// Collects what each round of a session goes through until the round ends
/// and is handed over for storage. Times come from its own monotonic clock.
pub struct RecordCollector<C, F> {
    book: RoundBook<C, F>,
    epoch: std::time::Instant,
}

impl<C, F> RecordCollector<C, F> {
    pub closed spec fn wf(&self) -> bool {
        self.book.wf()
    }

    /// The rounds being collected, by id.
    pub closed spec fn pending_of(&self) -> Map<Seq<char>, RoundView<C, F>> {
        self.book.pending_of()
    }

    /// The frames waiting for their session's first round, by session.
    pub closed spec fn orphaned_of(&self) -> Map<Seq<char>, Seq<FrameView>> {
        self.book.orphaned_of()
    }

    pub fn new() -> (r: Self)
        ensures
            r.wf(),
            r.pending_of() == Map::<Seq<char>, RoundView<C, F>>::empty(),
            r.orphaned_of() == Map::<Seq<char>, Seq<FrameView>>::empty(),
    {
        RecordCollector { book: RoundBook::new(), epoch: instant_now() }
    }

    /// Nanoseconds since the collector was made, never negative: a reading
    /// past the largest `i64` stays at it.
    fn now_ns(&self) -> (r: i64)
        ensures
            r >= 0,
    {
        let elapsed = instant_elapsed(&self.epoch);
        let ns = duration_nanos(&elapsed);
        if ns > i64::MAX as u128 {
            i64::MAX
        } else {
            ns as i64
        }
    }

    /// A round starts: it is collected afresh, and the frames that waited
    /// for its session become its first frames.
    pub fn on_round_start(&mut self, ctx: RoundStartContext<C>)
        requires
            old(self).wf(),
        ensures
            final(self).wf(),
            exists|t: i64|
                t >= 0 && (final(self).pending_of(), final(self).orphaned_of()) == #[trigger] started(
                    old(self).pending_of(),
                    old(self).orphaned_of(),
                    ctx.round_id@,
                    opt_text(ctx.session_id),
                    ctx.client_info,
                    ctx.mode,
                    t,
                ),
    {
        let now = self.now_ns();
        let ghost id = ctx.round_id@;
        let ghost sid = opt_text(ctx.session_id);
        let ghost ci = ctx.client_info;
        let round_id = ctx.round_id;
        let session_id = match &ctx.session_id {
            Some(s) => Some(s.clone()),
            None => None,
        };
        self.book.start_round(round_id.clone(), ctx.session_id, ctx.client_info, ctx.mode, now);
        let ghost mid_pending = self.book.pending_of();
        match session_id {
            Some(sid) => {
                self.book.adopt_orphans(&sid, &round_id);
                proof {
                    assert(mid_pending[id].frames + waiting(old(self).orphaned_of(), sid@)
                        =~= waiting(old(self).orphaned_of(), sid@));
                }
            },
            None => {},
        }
        proof {
            let s = started(old(self).pending_of(), old(self).orphaned_of(), id, sid, ci, ctx.mode, now);
            assert(self.book.pending_of() =~= s.0);
            assert(self.book.orphaned_of() =~= s.1);
        }
    }

    /// A typed input of a round.
    pub fn on_text_input(&mut self, ctx: &TextInputContext)
        requires
            old(self).wf(),
        ensures
            final(self).wf(),
            final(self).orphaned_of() == old(self).orphaned_of(),
            exists|t: i64|
                t >= 0 && final(self).pending_of() == #[trigger] pending_after_text(
                    old(self).pending_of(),
                    ctx.round_id@,
                    ctx.text@,
                    t,
                ),
    {
        let now = self.now_ns();
        self.book.collect_text(&ctx.round_id, ctx.text.as_str(), now);
        assert(self.pending_of() =~= pending_after_text(
            old(self).pending_of(),
            ctx.round_id@,
            ctx.text@,
            now,
        ));
    }

    /// A recognition result; `audio_ms` is the length of its voice in
    /// milliseconds, as measured from the samples and their rate.
    pub fn on_asr(&mut self, ctx: AsrContext<F>, audio_ms: u64)
        requires
            old(self).wf(),
        ensures
            final(self).wf(),
            final(self).orphaned_of() == old(self).orphaned_of(),
            exists|t: i64|
                t >= 0 && final(self).pending_of() == #[trigger] pending_after_asr(
                    old(self).pending_of(),
                    ctx.round_id@,
                    ctx.voice_pcm@,
                    ctx.sample_rate,
                    ctx.text@,
                    ctx.confidence,
                    audio_ms,
                    t,
                ),
    {
        let now = self.now_ns();
        let ghost expected = pending_after_asr(
            old(self).pending_of(),
            ctx.round_id@,
            ctx.voice_pcm@,
            ctx.sample_rate,
            ctx.text@,
            ctx.confidence,
            audio_ms,
            now,
        );
        self.book.collect_asr(
            &ctx.round_id,
            ctx.voice_pcm,
            ctx.sample_rate,
            ctx.text,
            ctx.confidence,
            audio_ms,
            now,
        );
        assert(self.pending_of() =~= expected);
    }

    /// Recognition of a round is complete: the round starts where its voice
    /// began.
    pub fn on_asr_complete(&mut self, round_id: &str)
        requires
            old(self).wf(),
        ensures
            final(self).wf(),
            final(self).orphaned_of() == old(self).orphaned_of(),
            final(self).pending_of() == updated(
                old(self).pending_of(),
                round_id@,
                |b: RoundView<C, F>| after_align(b),
            ),
    {
        let id = String::from_str(round_id);
        self.book.align_round_start(&id);
    }

    /// A piece of the model's answer in a round.
    pub fn on_llm_delta(&mut self, ctx: &LlmDeltaContext)
        requires
            old(self).wf(),
        ensures
            final(self).wf(),
            final(self).orphaned_of() == old(self).orphaned_of(),
            exists|t: i64|
                t >= 0 && final(self).pending_of() == #[trigger] pending_after_llm_delta(
                    old(self).pending_of(),
                    ctx.round_id@,
                    ctx.text@,
                    t,
                ),
    {
        let now = self.now_ns();
        self.book.collect_llm_text(&ctx.round_id, ctx.text.as_str(), now);
        assert(self.pending_of() =~= pending_after_llm_delta(
            old(self).pending_of(),
            ctx.round_id@,
            ctx.text@,
            now,
        ));
    }

    /// A piece of synthesized speech in a round.
    pub fn on_tts_delta(&mut self, ctx: TtsDeltaContext<F>)
        requires
            old(self).wf(),
        ensures
            final(self).wf(),
            final(self).orphaned_of() == old(self).orphaned_of(),
            exists|t: i64|
                t >= 0 && final(self).pending_of() == #[trigger] pending_after_tts_delta(
                    old(self).pending_of(),
                    ctx.round_id@,
                    ctx.text@,
                    audio_view(ctx.raw_pcm),
                    t,
                ),
    {
        let now = self.now_ns();
        let ghost expected = pending_after_tts_delta(
            old(self).pending_of(),
            ctx.round_id@,
            ctx.text@,
            audio_view(ctx.raw_pcm),
            now,
        );
        self.book.collect_tts(&ctx.round_id, ctx.text.as_str(), ctx.raw_pcm, now);
        assert(self.pending_of() =~= expected);
    }

    /// Keep a frame with its round or its session; says where it went. An
    /// `Unrouted` frame is the caller's to store.
    pub fn on_frame(&mut self, ctx: &FrameContext) -> (r: FrameRoute)
        requires
            old(self).wf(),
        ensures
            final(self).wf(),
            r == frame_route(
                old(self).pending_of(),
                opt_text(ctx.round_id),
                opt_text(ctx.session_id),
            ),
            exists|t: i64|
                {
                    let frame = #[trigger] frame_at(
                        ctx.seq,
                        inbound(ctx.direction),
                        ctx.detail@,
                        opt_text(ctx.session_id),
                        t,
                    );
                    &&& t >= 0
                    &&& r == FrameRoute::Buffered ==> final(self).pending_of() == updated(
                        old(self).pending_of(),
                        ctx.round_id.unwrap()@,
                        |b: RoundView<C, F>| RoundView { frames: b.frames.push(frame), ..b },
                    )
                    &&& r == FrameRoute::Orphaned ==> final(self).orphaned_of() == old(
                        self,
                    ).orphaned_of().insert(
                        ctx.session_id.unwrap()@,
                        waiting(old(self).orphaned_of(), ctx.session_id.unwrap()@).push(frame),
                    )
                },
            r != FrameRoute::Buffered ==> final(self).pending_of() == old(self).pending_of(),
            r != FrameRoute::Orphaned ==> final(self).orphaned_of() == old(self).orphaned_of(),
    {
        let now = self.now_ns();
        let is_inbound = match ctx.direction {
            FrameDirection::Inbound => true,
            FrameDirection::Outbound => false,
        };
        let r = self.book.record_frame(
            ctx.round_id.as_ref(),
            ctx.session_id.as_ref(),
            ctx.seq,
            is_inbound,
            ctx.detail.as_str(),
            now,
        );
        proof {
            let frame = frame_at(
                ctx.seq,
                inbound(ctx.direction),
                ctx.detail@,
                opt_text(ctx.session_id),
                now,
            );
            if r == FrameRoute::Buffered {
                assert(self.pending_of() =~= updated(
                    old(self).pending_of(),
                    ctx.round_id.unwrap()@,
                    |b: RoundView<C, F>| RoundView { frames: b.frames.push(frame), ..b },
                ));
            }
        }
        r
    }

    /// End a round: it leaves the collector and is returned for storage,
    /// if it was being collected.
    pub fn on_round_end(&mut self, ctx: &RoundEndContext) -> (r: Option<RoundBuffer<C, F>>)
        requires
            old(self).wf(),
        ensures
            final(self).wf(),
            final(self).pending_of() == old(self).pending_of().remove(ctx.round_id@),
            final(self).orphaned_of() == old(self).orphaned_of(),
            match r {
                Some(b) => old(self).pending_of().dom().contains(ctx.round_id@) && b@ == old(
                    self,
                ).pending_of()[ctx.round_id@],
                None => !old(self).pending_of().dom().contains(ctx.round_id@),
            },
    {
        self.book.finish_round(&ctx.round_id)
    }
}

/// Frames kept for a session before any of its rounds began become, in the
/// order they came and with their own receive times, the first frames of
/// the session's next round, and stop waiting.
pub proof fn lemma_orphans_join_next_round<C, F>(
    pending: Map<Seq<char>, RoundView<C, F>>,
    orphaned: Map<Seq<char>, Seq<FrameView>>,
    session_id: Seq<char>,
    frame: FrameView,
    round_id: Seq<char>,
    client_info: Option<C>,
    mode: RoundMode,
    now_ns: i64,
)
    ensures
        ({
            let waited = orphaned.insert(session_id, waiting(orphaned, session_id).push(frame));
            let (p, o) = started(
                pending,
                waited,
                round_id,
                Some(session_id),
                client_info,
                mode,
                now_ns,
            );
            &&& p[round_id].frames == waiting(orphaned, session_id).push(frame)
            &&& p[round_id].frames.last() == frame
            &&& p[round_id].start_ns == now_ns
            &&& !o.dom().contains(session_id)
        }),
{
}

/// A finished round is no longer pending: finishing it again hands nothing
/// over.
pub proof fn lemma_round_handed_over_once<C, F>(
    pending: Map<Seq<char>, RoundView<C, F>>,
    round_id: Seq<char>,
)
    ensures
        !pending.remove(round_id).dom().contains(round_id),
        pending.remove(round_id).remove(round_id) == pending.remove(round_id),
{
    assert(pending.remove(round_id).remove(round_id) =~= pending.remove(round_id));
}

/// The rows before the speech row never hold speech.
proof fn lemma_rows_before_speech<C, F>(b: RoundView<C, F>)
    ensures
        ({
            let before = planned_input_audio(b) + planned_asr(b) + planned_text(b) + planned_llm(b);
            &&& planned_rows(b) == before + planned_tts(b)
            &&& forall|j: int| 0 <= j < before.len() ==> #[trigger] before[j].kind != StepKind::Tts
        }),
{
    let a = planned_input_audio(b);
    let s = planned_asr(b);
    let t = planned_text(b);
    let l = planned_llm(b);
    let before = a + s + t + l;
    assert forall|j: int| 0 <= j < before.len() implies #[trigger] before[j].kind != StepKind::Tts by {
        if j < a.len() {
            assert(before[j] == a[j]);
        } else if j < a.len() + s.len() {
            assert(before[j] == s[j - a.len()]);
        } else if j < a.len() + s.len() + t.len() {
            assert(before[j] == t[j - a.len() - s.len()]);
        } else {
            assert(before[j] == l[j - a.len() - s.len() - t.len()]);
        }
    }
}

/// What a finished round stores of its synthesized speech. A round whose
/// speech stage saw nothing stores no speech row. One whose speech stage has
/// text or audio stores exactly one speech row, last, carrying its text (when
/// not empty): as WAV at the stage's sample rate (or the default one) when
/// the stage has audio, and as text alone, without audio, when it has none;
/// its timing is counted from the round's start and from its creation.
pub proof fn lemma_speech_is_stored<C, F>(b: RoundView<C, F>)
    ensures
        b.step(StepKind::Tts) is None ==> forall|j: int|
            0 <= j < planned_rows(b).len() ==> #[trigger] planned_rows(b)[j].kind != StepKind::Tts,
        b.step(StepKind::Tts) is Some ==> ({
            let s = b.step(StepKind::Tts)->0;
            let rows = planned_rows(b);
            let last = rows.last();
            (s.has_text || s.has_pcm) ==> {
            &&& rows.len() > 0
            &&& last.kind == StepKind::Tts
            &&& forall|j: int| 0 <= j < rows.len() - 1 ==> #[trigger] rows[j].kind != StepKind::Tts
            &&& (s.has_text && s.text.len() > 0 ==> last.text == Some(s.text))
            &&& (!(s.has_text && s.text.len() > 0) ==> last.text is None)
            &&& (s.has_pcm ==> {
                &&& last.wav_rate == Some(
                    match s.sample_rate {
                        Some(r) => r,
                        None => DEFAULT_TTS_SAMPLE_RATE,
                    },
                )
                &&& last.sample_rate == Some(s.sample_rate)
                &&& last.audio_ms == (s.pcm.len() > 0)
            })
            &&& (!s.has_pcm ==> last.wav_rate is None && !last.audio_ms && last.sample_rate is None)
            &&& last.elapsed_ms == Some(span_ms(b.start_ns, s.first_ns))
            &&& last.duration_ms == Some(span_ms(b.creation_ns, s.first_ns))
            }
        }),
{
    lemma_rows_before_speech(b);
    let before = planned_input_audio(b) + planned_asr(b) + planned_text(b) + planned_llm(b);
    let rows = planned_rows(b);
    match b.step(StepKind::Tts) {
        None => {
            assert(planned_tts(b) =~= Seq::<DataRowView<F>>::empty());
            assert(rows =~= before);
        },
        Some(s) => {
            if s.has_text || s.has_pcm {
                assert(planned_tts(b).len() == 1);
                assert(rows.last() == planned_tts(b)[0]);
                assert forall|j: int| 0 <= j < rows.len() - 1 implies #[trigger] rows[j].kind
                    != StepKind::Tts by {
                    assert(rows[j] == before[j]);
                }
            }
        },
    }
}

} // verus!

