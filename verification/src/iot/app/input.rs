use crate::iot::drivers::input::{InputEvent, PollEntry, StageMemory, next_due_after, same_rules};
use crate::iot::intent::{Intent, resolve_intent, resolve_of};
use crate::iot::state::{DeviceState, LightState};
use vstd::prelude::*;

verus! {

/// Whether a source may be polled at `now_ms`: a due source must have a
/// positive cadence and room to advance on the clock.
pub open spec fn schedulable(entry: PollEntry, now_ms: u64) -> bool {
    entry.next_at_of() <= now_ms ==> entry.cadence_of() > 0 && now_ms + entry.cadence_of()
        <= u64::MAX
}

/// Whether some input event resolves to `intent` against `light`.
pub open spec fn resolves_from(intent: Intent, light: LightState) -> bool {
    exists|event: InputEvent| #[trigger] resolve_of(event, light) == Some(intent)
}

/// Whether `after` is `before` moved on past `now_ms`: same cadence, and the
/// next due time is the first grid point after `now_ms` (unchanged when
/// `before` was not yet due).
pub open spec fn advanced_past(before: PollEntry, after: PollEntry, now_ms: u64) -> bool {
    &&& after.cadence_of() == before.cadence_of()
    &&& after.next_at_of() == next_due_after(
        before.next_at_of() as int,
        before.cadence_of() as int,
        now_ms as int,
    )
}

/// Whether `after` is `before` after one poll at `now_ms` that gave `event`:
/// its source moved once by its rule, its aggregator once by a feed of the
/// sample (or a tick when there was none), and the rules are kept.
pub open spec fn polled_once(before: PollEntry, after: PollEntry, now_ms: u64, event: Option<InputEvent>) -> bool {
    &&& exists|sample: Option<InputEvent>|
        #[trigger] before.source_polls_to(
            before.source_memory(),
            now_ms,
            after.source_memory(),
            sample,
        ) && (after.aggregator_memory(), event) == before.aggregated(sample, now_ms)
    &&& same_rules(before, after)
}

/// Whether `after` keeps the source and aggregator of `before` as they were.
pub open spec fn left_alone(before: PollEntry, after: PollEntry) -> bool {
    &&& after.source_memory() == before.source_memory()
    &&& after.aggregator_memory() == before.aggregator_memory()
    &&& same_rules(before, after)
}

/// An entry polled once and then left alone stands as polled once.
proof fn lemma_polled_then_left(
    before: PollEntry,
    mid: PollEntry,
    after: PollEntry,
    now_ms: u64,
    event: Option<InputEvent>,
)
    requires
        polled_once(before, mid, now_ms, event),
        left_alone(mid, after),
    ensures
        polled_once(before, after, now_ms, event),
{
    let sample = choose|sample: Option<InputEvent>|
        #[trigger] before.source_polls_to(
            before.source_memory(),
            now_ms,
            mid.source_memory(),
            sample,
        ) && (mid.aggregator_memory(), event) == before.aggregated(sample, now_ms);
    assert(before.source_polls_to(
        before.source_memory(),
        now_ms,
        after.source_memory(),
        sample,
    ));
    assert forall|m: StageMemory, t: u64, n: StageMemory, s: Option<InputEvent>|
        #[trigger] after.source_polls_to(m, t, n, s) == before.source_polls_to(m, t, n, s) by {
        assert(after.source_polls_to(m, t, n, s) == mid.source_polls_to(m, t, n, s));
    }
    assert forall|m: StageMemory, e: InputEvent, t: u64|
        #[trigger] after.aggregator_feed_rule(m, e, t) == before.aggregator_feed_rule(m, e, t) by {
        assert(after.aggregator_feed_rule(m, e, t) == mid.aggregator_feed_rule(m, e, t));
    }
    assert forall|m: StageMemory, t: u64|
        #[trigger] after.aggregator_tick_rule(m, t) == before.aggregator_tick_rule(m, t) by {
        assert(after.aggregator_tick_rule(m, t) == mid.aggregator_tick_rule(m, t));
    }
}

/// Every entry leaves itself alone.
proof fn lemma_left_alone_itself(entry: PollEntry)
    ensures
        left_alone(entry, entry),
{
}

/// Whether `events` and the entries `after` are what one pass at `now_ms`
/// makes of `before`, source by source: a due source is polled once and gives
/// its event; a source not yet due is left alone and gives nothing.
pub open spec fn pass_events(
    before: Seq<PollEntry>,
    after: Seq<PollEntry>,
    events: Seq<Option<InputEvent>>,
    now_ms: u64,
) -> bool {
    &&& events.len() == before.len()
    &&& after.len() == before.len()
    &&& forall|i: int|
        0 <= i < before.len() ==> #[trigger] pass_entry(before[i], after[i], events[i], now_ms)
}

/// One source's part of [`pass_events`].
pub open spec fn pass_entry(before: PollEntry, after: PollEntry, event: Option<InputEvent>, now_ms: u64) -> bool {
    if before.next_at_of() <= now_ms {
        polled_once(before, after, now_ms, event)
    } else {
        event is None && left_alone(before, after)
    }
}

/// The intents of a pass's events, in source order: each event resolved
/// against `light`, leaving out those that resolve to nothing.
pub open spec fn intents_of(events: Seq<Option<InputEvent>>, light: LightState) -> Seq<Intent>
    decreases events.len(),
{
    if events.len() == 0 {
        Seq::empty()
    } else {
        intents_of(events.drop_last(), light) + match events.last() {
            Some(event) => match resolve_of(event, light) {
                Some(intent) => seq![intent],
                None => Seq::empty(),
            },
            None => Seq::empty(),
        }
    }
}

/// One pass of the input loop at `now_ms`: every source that is due is
/// polled, its event resolved against the `snapshot`, and its schedule
/// advanced past `now_ms`; sources not yet due are skipped. Returns the
/// resolved intents in source order, for the caller to put on the intent bus.
pub fn input_tick(sources: &mut Vec<PollEntry>, now_ms: u64, snapshot: &DeviceState) -> (r: Vec<
    Intent,
>)
    requires
        forall|i: int| 0 <= i < old(sources)@.len() ==> schedulable(#[trigger] old(sources)@[i], now_ms),
    ensures
        final(sources)@.len() == old(sources)@.len(),
        forall|i: int|
            0 <= i < final(sources)@.len() ==> advanced_past(
                old(sources)@[i],
                #[trigger] final(sources)@[i],
                now_ms,
            ),
        forall|k: int| 0 <= k < r@.len() ==> resolves_from(#[trigger] r@[k], snapshot.light),
        exists|events: Seq<Option<InputEvent>>|
            pass_events(old(sources)@, final(sources)@, events, now_ms) && r@
                == #[trigger] intents_of(events, snapshot.light),
{
    let ghost orig = sources@;
    let mut intents: Vec<Intent> = Vec::new();
    let ghost mut events: Seq<Option<InputEvent>> = Seq::empty();
    let len = sources.len();
    let mut i: usize = 0;
    while i < len
        invariant
            len == sources@.len(),
            len == orig.len(),
            0 <= i <= len,
            forall|j: int| i <= j < len ==> #[trigger] sources@[j] == orig[j],
            forall|j: int| 0 <= j < i ==> advanced_past(orig[j], #[trigger] sources@[j], now_ms),
            forall|j: int| 0 <= j < len ==> schedulable(#[trigger] orig[j], now_ms),
            forall|k: int|
                0 <= k < intents@.len() ==> resolves_from(#[trigger] intents@[k], snapshot.light),
            events.len() == i,
            forall|j: int| 0 <= j < i ==> pass_entry(orig[j], #[trigger] sources@[j], events[j], now_ms),
            intents@ == intents_of(events, snapshot.light),
        decreases len - i,
    {
        let ghost at_start = sources@;
        let ghost before_events = events;
        let ghost mut got: Option<InputEvent> = None;
        assert(schedulable(orig[i as int], now_ms));
        let ghost mut mid = orig[i as int];
        if sources[i].next_at_ms() <= now_ms {
            let event = sources[i].poll(now_ms);
            proof {
                got = event;
                mid = sources@[i as int];
            }
            match event {
                Some(event) => match resolve_intent(event, snapshot) {
                    Some(intent) => {
                        assert(resolve_of(event, snapshot.light) == Some(intent));
                        let ghost before = intents@;
                        intents.push(intent);
                        assert forall|k: int| 0 <= k < intents@.len() implies resolves_from(
                            #[trigger] intents@[k],
                            snapshot.light,
                        ) by {
                            if k < before.len() {
                                assert(intents@[k] == before[k]);
                            }
                        }
                    },
                    None => {},
                },
                None => {},
            }
            // Advance past the current time, keeping the source on its own
            // cadence grid with no catch-up burst.
            sources[i].advance_past(now_ms);
        }
        proof {
            events = events.push(got);
            assert(events.drop_last() =~= before_events);
            let o = orig[i as int];
            let f = sources@[i as int];
            if o.next_at_of() <= now_ms {
                assert(polled_once(o, mid, now_ms, got));
                assert(left_alone(mid, f));
                lemma_polled_then_left(o, mid, f, now_ms, got);
            } else {
                assert(f == o);
                lemma_left_alone_itself(o);
            }
            assert(pass_entry(o, f, events[i as int], now_ms));
            assert forall|j: int| 0 <= j < i + 1 implies pass_entry(
                orig[j],
                #[trigger] sources@[j],
                events[j],
                now_ms,
            ) by {
                if j < i {
                    assert(events[j] == before_events[j]);
                    assert(sources@[j] == at_start[j]);
                }
            }
        }
        assert(advanced_past(orig[i as int], sources@[i as int], now_ms));
        assert forall|j: int| 0 <= j < len && j != i implies #[trigger] sources@[j] == at_start[j] by {}
        i = i + 1;
    }
    assert(pass_events(orig, sources@, events, now_ms));
    intents
}

} // verus!
