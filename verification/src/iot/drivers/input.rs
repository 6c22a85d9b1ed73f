use vstd::arithmetic::div_mod::{lemma_div_pos_is_pos, lemma_fundamental_div_mod};
use vstd::prelude::*;

verus! {

/// Active-low contract for a physical button: returns `true` when pressed.
pub trait Button {
    fn is_pressed(&self) -> bool;
}

/// A button gesture after debounce.
#[derive(Debug, Clone, Copy, PartialEq, Eq, Structural)]
pub enum ButtonEvent {
    Click,
    DoubleClick,
    LongPress,
}

#[derive(Debug, Clone, Copy, PartialEq, Eq, Structural)]
pub enum InputEvent {
    Button(ButtonEvent),
}

pub const BUTTON_SCAN_MS: u64 = 10;

/// Shared base tick of the app's input loop. Every source cadence is a whole
/// multiple, so each device polls on a stable grid regardless of the clock.
pub const INPUT_BASE_MS: u64 = 5;

pub const LONG_PRESS_MS: u64 = 600;

/// How long a first click stays pending while the driver waits for a second
/// click. Must be well below `LONG_PRESS_MS` so a held press classifies
/// cleanly instead of being buffered as the first half of a double click.
pub const DOUBLE_CLICK_WINDOW_MS: u64 = 300;

/// Consecutive identical samples needed to confirm a state change.
pub const DEBOUNCE_SAMPLES: u32 = 3;

/// What an input stage (a source or an aggregator) keeps from one call to the
/// next, as plain numbers. A stage that keeps nothing has the empty memory.
pub type StageMemory = Seq<u64>;

/// Poll-based input source. The intent resolver drives this at a fixed
/// cadence and converts the output into [`crate::iot::intent::Intent`]s.
pub trait InputSource {
    /// What the source keeps between polls; a source that keeps nothing
    /// leaves this empty.
    open spec fn memory(&self) -> StageMemory {
        Seq::empty()
    }

    /// The source's rule: whether a poll at `now_ms` from `memory` may leave
    /// `next` and give `sample` (a source reads the outside world, so more
    /// than one outcome may be possible).
    spec fn polls_to(
        &self,
        memory: StageMemory,
        now_ms: u64,
        next: StageMemory,
        sample: Option<InputEvent>,
    ) -> bool;

    fn poll(&mut self, now_ms: u64) -> (r: Option<InputEvent>)
        ensures
            old(self).polls_to(old(self).memory(), now_ms, final(self).memory(), r),
            forall|m: StageMemory, t: u64, n: StageMemory, s: Option<InputEvent>|
                #[trigger] final(self).polls_to(m, t, n, s) == old(self).polls_to(m, t, n, s),
    ;
}

/// Combines/coalesces raw input events into higher-level gestures.
/// Implementations can accumulate state (e.g. multi-press counters, hold
/// durations) and suppress intermediate events.
pub trait EventAggregator {
    /// What the aggregator keeps between calls; one that keeps nothing leaves
    /// this empty.
    open spec fn memory(&self) -> StageMemory {
        Seq::empty()
    }

    /// The aggregator's rule for feeding `event` at `now_ms` from `memory`:
    /// the memory it leaves and the event it gives.
    spec fn feed_rule(&self, memory: StageMemory, event: InputEvent, now_ms: u64) -> (
        StageMemory,
        Option<InputEvent>,
    );

    /// The aggregator's rule for a quiet tick at `now_ms` from `memory`.
    spec fn tick_rule(&self, memory: StageMemory, now_ms: u64) -> (StageMemory, Option<InputEvent>);

    fn feed(&mut self, event: InputEvent, now_ms: u64) -> (r: Option<InputEvent>)
        ensures
            (final(self).memory(), r) == old(self).feed_rule(old(self).memory(), event, now_ms),
            forall|m: StageMemory, e: InputEvent, t: u64|
                #[trigger] final(self).feed_rule(m, e, t) == old(self).feed_rule(m, e, t),
            forall|m: StageMemory, t: u64|
                #[trigger] final(self).tick_rule(m, t) == old(self).tick_rule(m, t),
    ;

    /// Advance the aggregator's clock without a raw sample, so time-held
    /// gestures (e.g. a pending double-click window) can expire deterministically
    /// even when the source stays quiet. Aggregators with no time-sensitivity
    /// give nothing.
    fn tick(&mut self, now_ms: u64) -> (r: Option<InputEvent>)
        ensures
            (final(self).memory(), r) == old(self).tick_rule(old(self).memory(), now_ms),
            forall|m: StageMemory, e: InputEvent, t: u64|
                #[trigger] final(self).feed_rule(m, e, t) == old(self).feed_rule(m, e, t),
            forall|m: StageMemory, t: u64|
                #[trigger] final(self).tick_rule(m, t) == old(self).tick_rule(m, t),
    ;
}

/// Milliseconds from `earlier` to `now`, clamped at zero.
pub open spec fn elapsed_since(now_ms: u64, earlier_ms: u64) -> int {
    if now_ms >= earlier_ms {
        now_ms - earlier_ms
    } else {
        0
    }
}

/// Identity aggregator — passes every event through unchanged.
pub struct PassThrough;

impl EventAggregator for PassThrough {
    open spec fn feed_rule(&self, memory: StageMemory, event: InputEvent, now_ms: u64) -> (
        StageMemory,
        Option<InputEvent>,
    ) {
        (memory, Some(event))
    }

    open spec fn tick_rule(&self, memory: StageMemory, now_ms: u64) -> (StageMemory, Option<InputEvent>) {
        (memory, None)
    }

    fn tick(&mut self, now_ms: u64) -> (r: Option<InputEvent>)
        ensures
            r is None,
    {
        None
    }

    fn feed(&mut self, event: InputEvent, now_ms: u64) -> (r: Option<InputEvent>)
        ensures
            r == Some(event),
    {
        Some(event)
    }
}

/// What the double-click aggregator does with `event` at `now_ms`, given the
/// time of a pending first click: the next pending time and the emitted event.
pub open spec fn double_click_feed(pending: Option<u64>, event: InputEvent, now_ms: u64) -> (
    Option<u64>,
    Option<InputEvent>,
) {
    if event == InputEvent::Button(ButtonEvent::Click) {
        match pending {
            None => (Some(now_ms), None),
            Some(first) => if elapsed_since(now_ms, first) <= DOUBLE_CLICK_WINDOW_MS {
                (None, Some(InputEvent::Button(ButtonEvent::DoubleClick)))
            } else {
                (Some(now_ms), Some(InputEvent::Button(ButtonEvent::Click)))
            },
        }
    } else {
        (None, Some(event))
    }
}

/// What the double-click aggregator does on a quiet tick at `now_ms`: a
/// pending click that outlived the window is released as a lone `Click`.
pub open spec fn double_click_tick(pending: Option<u64>, now_ms: u64) -> (
    Option<u64>,
    Option<InputEvent>,
) {
    match pending {
        Some(first) => if elapsed_since(now_ms, first) > DOUBLE_CLICK_WINDOW_MS {
            (None, Some(InputEvent::Button(ButtonEvent::Click)))
        } else {
            (pending, None)
        },
        None => (None, None),
    }
}

/// Coalesces two clicks within [`DOUBLE_CLICK_WINDOW_MS`] into a single
/// `DoubleClick`, holding a lone first click until the window closes before
/// releasing it as `Click`. A `LongPress` or any non-click event flushes the
/// pending click immediately.
pub struct DoubleClickAggregator {
    first_click_at_ms: Option<u64>,
}

impl View for DoubleClickAggregator {
    type V = Option<u64>;

    /// Time of the click waiting for a partner, if any.
    closed spec fn view(&self) -> Option<u64> {
        self.first_click_at_ms
    }
}

impl DoubleClickAggregator {
    pub fn new() -> (r: Self)
        ensures
            r@ == None::<u64>,
    {
        Self { first_click_at_ms: None }
    }
}

impl Default for DoubleClickAggregator {
    fn default() -> (r: Self)
        ensures
            r@ == None::<u64>,
    {
        Self::new()
    }
}

/// The memory of a double-click aggregator with `pending` first click: the
/// click's time, or nothing.
pub open spec fn pending_memory(pending: Option<u64>) -> StageMemory {
    match pending {
        Some(at) => seq![at],
        None => Seq::empty(),
    }
}

/// The pending first click a double-click aggregator's memory holds.
pub open spec fn memory_pending(memory: StageMemory) -> Option<u64> {
    if memory.len() == 0 {
        None
    } else {
        Some(memory[0])
    }
}

/// [`double_click_feed`] over the aggregator's memory.
pub open spec fn double_click_feed_rule(memory: StageMemory, event: InputEvent, now_ms: u64) -> (
    StageMemory,
    Option<InputEvent>,
) {
    let (pending, r) = double_click_feed(memory_pending(memory), event, now_ms);
    (pending_memory(pending), r)
}

/// [`double_click_tick`] over the aggregator's memory.
pub open spec fn double_click_tick_rule(memory: StageMemory, now_ms: u64) -> (
    StageMemory,
    Option<InputEvent>,
) {
    let (pending, r) = double_click_tick(memory_pending(memory), now_ms);
    (pending_memory(pending), r)
}

impl EventAggregator for DoubleClickAggregator {
    open spec fn memory(&self) -> StageMemory {
        pending_memory(self@)
    }

    open spec fn feed_rule(&self, memory: StageMemory, event: InputEvent, now_ms: u64) -> (
        StageMemory,
        Option<InputEvent>,
    ) {
        double_click_feed_rule(memory, event, now_ms)
    }

    open spec fn tick_rule(&self, memory: StageMemory, now_ms: u64) -> (StageMemory, Option<InputEvent>) {
        double_click_tick_rule(memory, now_ms)
    }

    fn feed(&mut self, event: InputEvent, now_ms: u64) -> (r: Option<InputEvent>)
        ensures
            (final(self)@, r) == double_click_feed(old(self)@, event, now_ms),
    {
        match event {
            InputEvent::Button(ButtonEvent::Click) => match self.first_click_at_ms {
                None => {
                    self.first_click_at_ms = Some(now_ms);
                    None
                },
                Some(first) => {
                    if now_ms.saturating_sub(first) <= DOUBLE_CLICK_WINDOW_MS {
                        self.first_click_at_ms = None;
                        Some(InputEvent::Button(ButtonEvent::DoubleClick))
                    } else {
                        // The pending click outlived the window without a tick (e.g. a
                        // cadence gap); release it now and buffer this one as the new
                        // first click.
                        self.first_click_at_ms = Some(now_ms);
                        Some(InputEvent::Button(ButtonEvent::Click))
                    }
                },
            },
            _ => {
                self.first_click_at_ms = None;
                Some(event)
            },
        }
    }

    fn tick(&mut self, now_ms: u64) -> (r: Option<InputEvent>)
        ensures
            (final(self)@, r) == double_click_tick(old(self)@, now_ms),
    {
        match self.first_click_at_ms {
            Some(first) => {
                if now_ms.saturating_sub(first) > DOUBLE_CLICK_WINDOW_MS {
                    self.first_click_at_ms = None;
                    Some(InputEvent::Button(ButtonEvent::Click))
                } else {
                    None
                }
            },
            None => None,
        }
    }
}

/// The first grid point strictly after `now_ms` when a source due at
/// `next_at_ms` polls every `cadence_ms`; a schedule already ahead of `now_ms`
/// is left alone.
pub open spec fn next_due_after(next_at_ms: int, cadence_ms: int, now_ms: int) -> int {
    if next_at_ms > now_ms {
        next_at_ms
    } else {
        next_at_ms + ((now_ms - next_at_ms) / cadence_ms + 1) * cadence_ms
    }
}

/// Whether `after` keeps the rules of the source and aggregator of `before`.
pub open spec fn same_rules(before: PollEntry, after: PollEntry) -> bool {
    &&& forall|m: StageMemory, t: u64, n: StageMemory, s: Option<InputEvent>|
        #[trigger] after.source_polls_to(m, t, n, s) == before.source_polls_to(m, t, n, s)
    &&& forall|m: StageMemory, e: InputEvent, t: u64|
        #[trigger] after.aggregator_feed_rule(m, e, t) == before.aggregator_feed_rule(m, e, t)
    &&& forall|m: StageMemory, t: u64|
        #[trigger] after.aggregator_tick_rule(m, t) == before.aggregator_tick_rule(m, t)
}

/// A polled input source scheduled at its own cadence, paired with the
/// aggregator that turns its raw samples into the events the intent resolver
/// understands. The input task polls it on the shared base tick, gating each
/// source to its own cadence.
pub struct PollEntry {
    source: Box<dyn InputSource>,
    aggregator: Box<dyn EventAggregator>,
    cadence_ms: u64,
    next_at_ms: u64,
}

impl PollEntry {
    /// The cadence the entry was built with.
    pub closed spec fn cadence_of(&self) -> u64 {
        self.cadence_ms
    }

    /// When the entry is next due.
    pub closed spec fn next_at_of(&self) -> u64 {
        self.next_at_ms
    }

    pub fn new(source: Box<dyn InputSource>, aggregator: Box<dyn EventAggregator>, cadence_ms: u64) -> (r:
        Self)
        ensures
            r.cadence_of() == cadence_ms,
            r.next_at_of() == cadence_ms,
    {
        // First sample lands on the cadence grid, so debounce windows stay
        // uniform straight from boot.
        Self { source, aggregator, cadence_ms, next_at_ms: cadence_ms }
    }

    /// The source's cadence, a whole multiple of the shared base tick.
    pub fn cadence_ms(&self) -> (r: u64)
        ensures
            r == self.cadence_of(),
    {
        self.cadence_ms
    }

    /// When this source is next due on the shared grid.
    pub fn next_at_ms(&self) -> (r: u64)
        ensures
            r == self.next_at_of(),
    {
        self.next_at_ms
    }

    /// What the entry's source keeps between polls.
    pub closed spec fn source_memory(&self) -> StageMemory {
        self.source.memory()
    }

    /// What the entry's aggregator keeps between calls.
    pub closed spec fn aggregator_memory(&self) -> StageMemory {
        self.aggregator.memory()
    }

    /// The rule of the entry's source: whether a poll at `now_ms` from
    /// `memory` may leave `next` and give `sample`.
    pub closed spec fn source_polls_to(
        &self,
        memory: StageMemory,
        now_ms: u64,
        next: StageMemory,
        sample: Option<InputEvent>,
    ) -> bool {
        self.source.polls_to(memory, now_ms, next, sample)
    }

    /// The feed rule of the entry's aggregator.
    pub closed spec fn aggregator_feed_rule(&self, memory: StageMemory, event: InputEvent, now_ms: u64) -> (
        StageMemory,
        Option<InputEvent>,
    ) {
        self.aggregator.feed_rule(memory, event, now_ms)
    }

    /// The tick rule of the entry's aggregator.
    pub closed spec fn aggregator_tick_rule(&self, memory: StageMemory, now_ms: u64) -> (
        StageMemory,
        Option<InputEvent>,
    ) {
        self.aggregator.tick_rule(memory, now_ms)
    }

    /// What one pass of the entry's aggregator, as it stands, leaves and gives
    /// at `now_ms`: the sample fed through it, or a quiet tick when the source
    /// gave none.
    pub open spec fn aggregated(&self, sample: Option<InputEvent>, now_ms: u64) -> (
        StageMemory,
        Option<InputEvent>,
    ) {
        match sample {
            Some(event) => self.aggregator_feed_rule(self.aggregator_memory(), event, now_ms),
            None => self.aggregator_tick_rule(self.aggregator_memory(), now_ms),
        }
    }

    /// Poll the source once, then fold the raw sample (or the tick that
    /// stands in for it) through the aggregator once: the source is left as
    /// its one poll leaves it, and the aggregator as its one feed or tick
    /// leaves it, which also gives the result.
    pub fn poll(&mut self, now_ms: u64) -> (r: Option<InputEvent>)
        ensures
            exists|sample: Option<InputEvent>|
                #[trigger] old(self).source_polls_to(
                    old(self).source_memory(),
                    now_ms,
                    final(self).source_memory(),
                    sample,
                ) && (final(self).aggregator_memory(), r) == old(self).aggregated(sample, now_ms),
            same_rules(*old(self), *final(self)),
            final(self).cadence_of() == old(self).cadence_of(),
            final(self).next_at_of() == old(self).next_at_of(),
    {
        let sample = self.source.poll(now_ms);
        let r = match sample {
            Some(event) => self.aggregator.feed(event, now_ms),
            // No raw sample this pass; still let time-based aggregators expire
            // held gestures on their cadence grid.
            None => self.aggregator.tick(now_ms),
        };
        assert(old(self).source_polls_to(
            old(self).source_memory(),
            now_ms,
            self.source_memory(),
            sample,
        ));
        assert((self.aggregator_memory(), r) == old(self).aggregated(sample, now_ms));
        r
    }

    /// Advance the source's schedule past `now_ms`, keeping it on its own
    /// cadence grid with no catch-up burst.
    pub fn advance_past(&mut self, now_ms: u64)
        requires
            old(self).next_at_of() <= now_ms ==> old(self).cadence_of() > 0,
            old(self).next_at_of() <= now_ms ==> now_ms + old(self).cadence_of() <= u64::MAX,
        ensures
            final(self).cadence_of() == old(self).cadence_of(),
            final(self).source_memory() == old(self).source_memory(),
            final(self).aggregator_memory() == old(self).aggregator_memory(),
            same_rules(*old(self), *final(self)),
            final(self).next_at_of() == next_due_after(
                old(self).next_at_of() as int,
                old(self).cadence_of() as int,
                now_ms as int,
            ),
    {
        let ghost start = self.next_at_ms as int;
        let ghost c = self.cadence_ms as int;
        let cadence = self.cadence_ms;
        let mut next = self.next_at_ms;
        if next <= now_ms {
            proof {
                lemma_fundamental_div_mod(now_ms - start, c);
                lemma_div_pos_is_pos(now_ms - start, c);
                vstd::arithmetic::div_mod::lemma_small_mod(0, c as nat);
            }
        }
        while next <= now_ms
            invariant
                cadence == c,
                start <= now_ms ==> c > 0 && now_ms + c <= u64::MAX,
                start <= next,
                start <= now_ms ==> next <= now_ms + c,
                start <= now_ms ==> (next - start) % c == 0,
                start > now_ms ==> next == start,
            decreases now_ms + c - next,
        {
            proof {
                lemma_mod_step(next - start, c);
            }
            next = next + cadence;
        }
        proof {
            if start <= now_ms {
                lemma_grid_point(start, c, now_ms as int, next as int);
            }
        }
        self.next_at_ms = next;
    }
}

// ---------------------------------------------------------------------------
// Laws of the input pipeline
// ---------------------------------------------------------------------------

/// A sample flips the confirmed level only when it is the
/// [`DEBOUNCE_SAMPLES`]-th disagreeing sample in a row, the counter stays below
/// the threshold, and a gesture is reported only on a confirmed release.
pub proof fn lemma_debounce_step(s: ScanState, raw: bool, now_ms: u64)
    requires
        s.same_count < DEBOUNCE_SAMPLES,
    ensures
        (scan_step(s, raw, now_ms).0.pressed != s.pressed) == (raw != s.pressed && s.same_count
            == DEBOUNCE_SAMPLES - 1),
        scan_step(s, raw, now_ms).0.same_count < DEBOUNCE_SAMPLES,
        scan_step(s, raw, now_ms).1 is Some ==> s.pressed && !raw && !scan_step(
            s,
            raw,
            now_ms,
        ).0.pressed,
{
}

/// From a settled scanner, a new level is confirmed by exactly the third
/// consecutive sample carrying it.
pub proof fn lemma_three_samples_confirm(s: ScanState, raw: bool, t1: u64, t2: u64, t3: u64)
    requires
        s.same_count == 0,
        raw != s.pressed,
    ensures
        scan_step(s, raw, t1).0.pressed == s.pressed,
        scan_step(scan_step(s, raw, t1).0, raw, t2).0.pressed == s.pressed,
        scan_step(scan_step(scan_step(s, raw, t1).0, raw, t2).0, raw, t3).0.pressed == raw,
{
}

/// A glitch shorter than the debounce window is forgotten as soon as the
/// level returns: the confirmed level never moves and the counter resets.
pub proof fn lemma_short_glitch_is_ignored(s: ScanState, t1: u64, t2: u64, t3: u64)
    requires
        s.same_count == 0,
    ensures
        ({
            let s1 = scan_step(s, !s.pressed, t1).0;
            let s2 = scan_step(s1, !s.pressed, t2).0;
            let s3 = scan_step(s2, s.pressed, t3);
            s3.0.pressed == s.pressed && s3.0.same_count == 0 && s3.1 is None
        }),
{
}

/// Two clicks within the window coalesce into one `DoubleClick`, leaving
/// nothing pending.
pub proof fn lemma_two_quick_clicks_are_a_double_click(t1: u64, t2: u64)
    requires
        t1 <= t2 <= t1 + DOUBLE_CLICK_WINDOW_MS,
    ensures
        ({
            let click = InputEvent::Button(ButtonEvent::Click);
            let first = double_click_feed(None, click, t1);
            first.1 is None && double_click_feed(first.0, click, t2) == (
                None::<u64>,
                Some(InputEvent::Button(ButtonEvent::DoubleClick)),
            )
        }),
{
}

/// A pending click is held through the whole window and released as a lone
/// `Click` by the first tick after it, exactly once.
pub proof fn lemma_lone_click_released_after_window(first: u64, now_ms: u64, later_ms: u64)
    ensures
        elapsed_since(now_ms, first) <= DOUBLE_CLICK_WINDOW_MS ==> double_click_tick(
            Some(first),
            now_ms,
        ) == (Some(first), None::<InputEvent>),
        elapsed_since(now_ms, first) > DOUBLE_CLICK_WINDOW_MS ==> double_click_tick(
            Some(first),
            now_ms,
        ) == (None::<u64>, Some(InputEvent::Button(ButtonEvent::Click))),
        double_click_tick(None, later_ms) == (None::<u64>, None::<InputEvent>),
{
}

/// Any event other than a click passes straight through and drops a pending
/// click.
pub proof fn lemma_non_click_flushes(pending: Option<u64>, event: InputEvent, now_ms: u64)
    requires
        event != InputEvent::Button(ButtonEvent::Click),
    ensures
        double_click_feed(pending, event, now_ms) == (None::<u64>, Some(event)),
{
}

/// Advancing a schedule lands strictly after `now` but no more than one
/// cadence later, on the original grid: there is never a catch-up burst.
pub proof fn lemma_advance_lands_on_next_grid_point(next_at_ms: int, cadence_ms: int, now_ms: int)
    requires
        cadence_ms > 0,
        next_at_ms <= now_ms,
    ensures
        now_ms < next_due_after(next_at_ms, cadence_ms, now_ms) <= now_ms + cadence_ms,
        (next_due_after(next_at_ms, cadence_ms, now_ms) - next_at_ms) % cadence_ms == 0,
{
    let q = (now_ms - next_at_ms) / cadence_ms;
    lemma_fundamental_div_mod(now_ms - next_at_ms, cadence_ms);
    lemma_div_pos_is_pos(now_ms - next_at_ms, cadence_ms);
    assert((q + 1) * cadence_ms == cadence_ms * q + cadence_ms) by (nonlinear_arith);
    vstd::arithmetic::div_mod::lemma_mod_multiples_basic(q + 1, cadence_ms);
}

/// Stepping a multiple of `c` by `c` keeps it a multiple.
proof fn lemma_mod_step(x: int, c: int)
    requires
        c > 0,
        x >= 0,
        x % c == 0,
    ensures
        (x + c) % c == 0,
{
    vstd::arithmetic::div_mod::lemma_mod_add_multiples_vanish(x, c);
}

/// The only grid point in `(now, now + c]` is the one `next_due_after` names.
proof fn lemma_grid_point(start: int, c: int, now: int, n: int)
    requires
        c > 0,
        start <= now,
        now < n <= now + c,
        (n - start) % c == 0,
        n >= start,
    ensures
        n == next_due_after(start, c, now),
{
    lemma_fundamental_div_mod(n - start, c);
    lemma_fundamental_div_mod(now - start, c);
    let k = (n - start) / c;
    let q = (now - start) / c;
    let r = (now - start) % c;
    assert(n - start == c * k);
    assert(now - start == c * q + r);
    assert(k == q + 1) by (nonlinear_arith)
        requires
            c > 0,
            0 <= r < c,
            c * q + r < c * k,
            c * k <= c * q + r + c,
    ;
    assert(c * k == (q + 1) * c) by (nonlinear_arith)
        requires
            k == q + 1,
    ;
}

/// Debounce state of a [`ButtonScanner`]: the confirmed level, when the
/// current press was confirmed, and how many consecutive samples disagreed
/// with the confirmed level.
pub struct ScanState {
    pub pressed: bool,
    pub held_since_ms: u64,
    pub same_count: u32,
}

/// One debounced sample: a level change is confirmed after
/// [`DEBOUNCE_SAMPLES`] consecutive disagreeing samples; a confirmed release
/// reports `LongPress` when the press was held at least [`LONG_PRESS_MS`], else
/// `Click`.
pub open spec fn scan_step(s: ScanState, raw: bool, now_ms: u64) -> (ScanState, Option<ButtonEvent>) {
    if raw == s.pressed {
        (ScanState { pressed: s.pressed, held_since_ms: s.held_since_ms, same_count: 0 }, None)
    } else if s.same_count + 1 < DEBOUNCE_SAMPLES {
        (
            ScanState {
                pressed: s.pressed,
                held_since_ms: s.held_since_ms,
                same_count: (s.same_count + 1) as u32,
            },
            None,
        )
    } else if raw {
        (ScanState { pressed: true, held_since_ms: now_ms, same_count: 0 }, None)
    } else {
        (
            ScanState { pressed: false, held_since_ms: s.held_since_ms, same_count: 0 },
            Some(
                if elapsed_since(now_ms, s.held_since_ms) >= LONG_PRESS_MS {
                    ButtonEvent::LongPress
                } else {
                    ButtonEvent::Click
                },
            ),
        )
    }
}

/// A button gesture as an input event.
pub open spec fn button_input(event: Option<ButtonEvent>) -> Option<InputEvent> {
    match event {
        Some(e) => Some(InputEvent::Button(e)),
        None => None,
    }
}

/// Debounced button scanner, distinguishing clicks from long-presses by
/// hold duration.
pub struct ButtonScanner<B: Button> {
    button: B,
    pressed: bool,
    held_since_ms: u64,
    same_count: u32,
}

impl<B: Button> View for ButtonScanner<B> {
    type V = ScanState;

    closed spec fn view(&self) -> ScanState {
        ScanState {
            pressed: self.pressed,
            held_since_ms: self.held_since_ms,
            same_count: self.same_count,
        }
    }
}

impl<B: Button> ButtonScanner<B> {
    /// The disagreement counter never reaches the confirmation threshold.
    #[verifier::type_invariant]
    spec fn counter_below_threshold(&self) -> bool {
        self.same_count < DEBOUNCE_SAMPLES
    }

    pub fn new(button: B) -> (r: Self)
        ensures
            r@ == (ScanState { pressed: false, held_since_ms: 0, same_count: 0 }),
    {
        Self { button, pressed: false, held_since_ms: 0, same_count: 0 }
    }

    /// The confirmed (debounced) level of the button.
    pub fn pressed(&self) -> (r: bool)
        ensures
            r == self@.pressed,
    {
        self.pressed
    }

    /// Feed one raw level sample taken at `now_ms` through the debouncer.
    pub fn sample(&mut self, raw: bool, now_ms: u64) -> (r: Option<ButtonEvent>)
        ensures
            (final(self)@, r) == scan_step(old(self)@, raw, now_ms),
    {
        proof {
            use_type_invariant(&*self);
        }
        if raw == self.pressed {
            self.same_count = 0;
            return None;
        }
        if self.same_count + 1 < DEBOUNCE_SAMPLES {
            self.same_count = self.same_count + 1;
            return None;
        }
        self.same_count = 0;
        self.pressed = raw;
        if raw {
            self.held_since_ms = now_ms;
            None
        } else {
            let held = now_ms.saturating_sub(self.held_since_ms);
            Some(
                if held >= LONG_PRESS_MS {
                    ButtonEvent::LongPress
                } else {
                    ButtonEvent::Click
                },
            )
        }
    }

    /// Sample the button at `now_ms` and debounce the reading.
    fn read(&mut self, now_ms: u64) -> (r: Option<ButtonEvent>)
        ensures
            exists|raw: bool| (final(self)@, r) == scan_step(old(self)@, raw, now_ms),
    {
        let raw = self.button.is_pressed();
        self.sample(raw, now_ms)
    }
}

/// The memory of a scanner in state `s`: the confirmed level (1 when
/// pressed), when the press began, and the disagreement count.
pub open spec fn scan_memory(s: ScanState) -> StageMemory {
    seq![if s.pressed { 1u64 } else { 0u64 }, s.held_since_ms, s.same_count as u64]
}

/// The scanner state a memory holds.
pub open spec fn memory_scan(memory: StageMemory) -> ScanState {
    ScanState {
        pressed: memory.len() > 0 && memory[0] != 0,
        held_since_ms: if memory.len() > 1 {
            memory[1]
        } else {
            0
        },
        same_count: if memory.len() > 2 {
            memory[2] as u32
        } else {
            0
        },
    }
}

/// [`scan_step`] over the scanner's memory, with the gesture as an input
/// event.
pub open spec fn scan_step_memory(memory: StageMemory, raw: bool, now_ms: u64) -> (
    StageMemory,
    Option<InputEvent>,
) {
    let (next, gesture) = scan_step(memory_scan(memory), raw, now_ms);
    (scan_memory(next), button_input(gesture))
}

/// Whether a scanner poll at `now_ms` from `memory` may leave `next` and give
/// `sample`: it does for some raw level of the button.
pub open spec fn scan_polls_to(
    memory: StageMemory,
    now_ms: u64,
    next: StageMemory,
    sample: Option<InputEvent>,
) -> bool {
    exists|raw: bool| #[trigger] scan_step_memory(memory, raw, now_ms) == (next, sample)
}

impl<B: Button> InputSource for ButtonScanner<B> {
    open spec fn memory(&self) -> StageMemory {
        scan_memory(self@)
    }

    /// A scanner moves as debouncing one raw level at `now_ms` moves it.
    open spec fn polls_to(
        &self,
        memory: StageMemory,
        now_ms: u64,
        next: StageMemory,
        sample: Option<InputEvent>,
    ) -> bool {
        scan_polls_to(memory, now_ms, next, sample)
    }

    fn poll(&mut self, now_ms: u64) -> (r: Option<InputEvent>)
        ensures
            exists|raw: bool|
                #![trigger scan_step(old(self)@, raw, now_ms)]
                final(self)@ == scan_step(old(self)@, raw, now_ms).0 && r == button_input(
                    scan_step(old(self)@, raw, now_ms).1,
                ),
    {
        let r = match self.read(now_ms) {
            Some(e) => Some(InputEvent::Button(e)),
            None => None,
        };
        proof {
            let raw = choose|raw: bool| (self@, r) == (
                scan_step(old(self)@, raw, now_ms).0,
                button_input(scan_step(old(self)@, raw, now_ms).1),
            );
            assert(memory_scan(scan_memory(old(self)@)) == old(self)@);
            assert(scan_step_memory(scan_memory(old(self)@), raw, now_ms) == (
                scan_memory(self@),
                r,
            ));
        }
        r
    }
}

} // verus!
