use crate::iot::drivers::input::{ButtonEvent, InputEvent};
use crate::iot::drivers::light::{GROUP_CAPACITY, Rgb};
use crate::iot::state::{Breath, DeviceManager, DeviceState, LightState, boot_light, same_group};
use vstd::prelude::*;

verus! {

/// Warm color palette for solid mode, cycled by double-click advance.
/// Value 120 keeps the LED visible but not overpowering alongside the
/// breathing mode's soft glow.
pub open spec fn palette_seq() -> Seq<Rgb> {
    seq![Rgb(255, 210, 140), Rgb(230, 120, 190), Rgb(120, 180, 255), Rgb(160, 255, 200)]
}

/// The solid-mode palette, cycled by double-click advance.
pub fn palette() -> (r: [Rgb; 4])
    ensures
        r@ == palette_seq(),
{
    let r = [Rgb(255, 210, 140), Rgb(230, 120, 190), Rgb(120, 180, 255), Rgb(160, 255, 200)];
    assert(r@ =~= palette_seq());
    r
}

/// Breathing periods (ms) cycled by long-press advance.
pub const BREATH_PERIODS_MS: [u32; 3] = [2_000, 1_200, 3_000];

/// Solid-mode brightness steps (8-bit) cycled by long-press advance on the
/// solid color; the color rides on top unchanged.
pub const SOLID_BRIGHTNESS_STEPS: [u8; 3] = [60, 140, 255];

/// A color-group preset for breathing mode, switched by double-click.
#[derive(Debug, Clone, Copy, PartialEq, Eq)]
pub struct ColorGroup {
    pub hue_span: u8,
    pub group: [u8; GROUP_CAPACITY],
    pub group_len: u8,
}

/// Color-group presets cycled by double-click advance on breathing mode:
/// warm sunset (amber, golden, deep rose); rainbow seven (red → orange →
/// yellow → green → cyan → blue → purple, walking the hue wheel the short way
/// around); standalone warm white; full-hue sweep across the whole wheel.
pub open spec fn color_groups_seq() -> Seq<ColorGroup> {
    seq![
        ColorGroup { hue_span: 255, group: [16, 32, 3, 0, 0, 0, 0], group_len: 3 },
        ColorGroup { hue_span: 255, group: [0, 21, 43, 85, 128, 170, 213], group_len: 7 },
        ColorGroup { hue_span: 255, group: [28, 0, 0, 0, 0, 0, 0], group_len: 1 },
        ColorGroup { hue_span: 255, group: [0, 0, 0, 0, 0, 0, 0], group_len: 0 },
    ]
}

/// The breathing color-group presets, cycled by double-click advance.
pub fn color_groups() -> (r: [ColorGroup; 4])
    ensures
        r@ == color_groups_seq(),
{
    let r = [
        // Warm sunset: amber, golden, deep rose.
        ColorGroup { hue_span: 255, group: [16, 32, 3, 0, 0, 0, 0], group_len: 3 },
        // Rainbow seven: red → orange → yellow → green → cyan → blue → purple,
        // walking the hue wheel the short way around.
        ColorGroup { hue_span: 255, group: [0, 21, 43, 85, 128, 170, 213], group_len: 7 },
        // Standalone warm white.
        ColorGroup { hue_span: 255, group: [28, 0, 0, 0, 0, 0, 0], group_len: 1 },
        // Full-hue sweep across the whole wheel.
        ColorGroup { hue_span: 255, group: [0, 0, 0, 0, 0, 0, 0], group_len: 0 },
    ];
    assert(r@ =~= color_groups_seq());
    r
}

/// Absolute target state for the device manager.
#[derive(Debug, Clone, Copy, PartialEq, Eq)]
pub enum Intent {
    Light(LightState),
}

/// The light state an intent asks for.
pub open spec fn target_of(intent: Intent) -> LightState {
    match intent {
        Intent::Light(state) => state,
    }
}

impl Intent {
    pub fn light_target(self) -> (r: LightState)
        ensures
            r == target_of(self),
    {
        match self {
            Intent::Light(state) => state,
        }
    }
}

// ---------------------------------------------------------------------------
// Table lookups
// ---------------------------------------------------------------------------

/// Index of the first occurrence of `x` in `s` at or after `k`, or `0` (the
/// head) when there is none.
pub open spec fn index_or_head_from<T>(s: Seq<T>, x: T, k: int) -> int
    decreases s.len() - k,
{
    if 0 <= k < s.len() {
        if s[k] == x {
            k
        } else {
            index_or_head_from(s, x, k + 1)
        }
    } else {
        0
    }
}

/// Index of the first occurrence of `x` in `s`, or `0` when it is absent.
pub open spec fn index_or_head<T>(s: Seq<T>, x: T) -> int {
    index_or_head_from(s, x, 0)
}

/// The entry after `x` in the cyclic table `s`; an unknown `x` counts as the
/// head, so it advances to the second entry.
pub open spec fn next_in<T>(s: Seq<T>, x: T) -> T {
    s[(index_or_head(s, x) + 1) % (s.len() as int)]
}

/// The waypoints a preset or schedule carries, as compared by the preset table.
pub open spec fn group_key(group: [u8; GROUP_CAPACITY], group_len: u8) -> (Seq<u8>, u8) {
    (group@, group_len)
}

/// The preset after the one `breath` is showing; an unknown group counts as the
/// first preset.
pub open spec fn next_color_group(breath: Breath) -> ColorGroup {
    let keys = color_groups_seq().map_values(|c: ColorGroup| group_key(c.group, c.group_len));
    color_groups_seq()[(index_or_head(keys, group_key(breath.group, breath.group_len)) + 1) % 4]
}

// ---------------------------------------------------------------------------
// Gesture semantics
// ---------------------------------------------------------------------------

/// Click cycles Off → boot breathing → solid (first palette color, full
/// brightness) → Off.
pub open spec fn click_of(current: LightState) -> LightState {
    match current {
        LightState::Off => boot_light(),
        LightState::Breath(_) => LightState::Solid {
            color: palette_seq()[0],
            brightness: DeviceManager::SOLID_DEFAULT_BRIGHTNESS,
        },
        LightState::Solid { .. } => LightState::Off,
    }
}

/// Double click advances the breathing color group or the solid palette color;
/// it does nothing while the light is off.
pub open spec fn double_click_of(current: LightState) -> Option<LightState> {
    match current {
        LightState::Off => None,
        LightState::Breath(breath) => {
            let g = next_color_group(breath);
            Some(
                LightState::Breath(
                    Breath {
                        hue_span: g.hue_span,
                        group: g.group,
                        group_len: g.group_len,
                        ..breath
                    },
                ),
            )
        },
        LightState::Solid { color, brightness } => Some(
            LightState::Solid { color: next_in(palette_seq(), color), brightness },
        ),
    }
}

/// Long press advances the breathing period or the solid brightness step; it
/// does nothing while the light is off.
pub open spec fn long_press_of(current: LightState) -> Option<LightState> {
    match current {
        LightState::Off => None,
        LightState::Breath(breath) => Some(
            LightState::Breath(
                Breath { period_ms: next_in(BREATH_PERIODS_MS@, breath.period_ms), ..breath },
            ),
        ),
        LightState::Solid { color, brightness } => Some(
            LightState::Solid {
                color,
                brightness: next_in(SOLID_BRIGHTNESS_STEPS@, brightness),
            },
        ),
    }
}

/// The target a gesture resolves to against the current light state.
pub open spec fn resolve_of(event: InputEvent, current: LightState) -> Option<Intent> {
    match event {
        InputEvent::Button(ButtonEvent::Click) => Some(Intent::Light(click_of(current))),
        InputEvent::Button(ButtonEvent::DoubleClick) => match double_click_of(current) {
            Some(s) => Some(Intent::Light(s)),
            None => None,
        },
        InputEvent::Button(ButtonEvent::LongPress) => match long_press_of(current) {
            Some(s) => Some(Intent::Light(s)),
            None => None,
        },
    }
}

// ---------------------------------------------------------------------------
// Laws of intent resolution
// ---------------------------------------------------------------------------

/// Three clicks walk Off → breathing → solid → Off.
pub proof fn lemma_click_cycle_returns_to_off()
    ensures
        click_of(LightState::Off) == boot_light(),
        click_of(click_of(LightState::Off)) is Solid,
        click_of(click_of(click_of(LightState::Off))) == LightState::Off,
{
}

/// While the light is off only a click does anything.
pub proof fn lemma_off_ignores_double_click_and_long_press()
    ensures
        double_click_of(LightState::Off) is None,
        long_press_of(LightState::Off) is None,
{
}

/// Double click and long press keep the light in its mode: a solid light keeps
/// its brightness under double click and its color under long press, and a
/// breathing light keeps its envelope under both.
pub proof fn lemma_gestures_keep_the_mode(current: LightState)
    ensures
        current is Solid ==> (double_click_of(current) matches Some(
            LightState::Solid { brightness, .. },
        ) && brightness == current->brightness),
        current is Solid ==> (long_press_of(current) matches Some(LightState::Solid { color, .. })
            && color == current->color),
        current is Breath ==> (double_click_of(current) matches Some(LightState::Breath(b))
            && b.period_ms == current->Breath_0.period_ms && b.min_brightness
            == current->Breath_0.min_brightness && b.max_brightness
            == current->Breath_0.max_brightness),
        current is Breath ==> (long_press_of(current) matches Some(LightState::Breath(b))
            && b.group == current->Breath_0.group && b.group_len == current->Breath_0.group_len
            && b.hue_span == current->Breath_0.hue_span),
{
}

/// Every advance lands on an entry of its table.
pub proof fn lemma_next_in_stays_in_table<T>(s: Seq<T>, x: T)
    requires
        s.len() > 0,
    ensures
        s.contains(next_in(s, x)),
{
    lemma_index_or_head_in_range(s, x, 0);
    let i = (index_or_head(s, x) + 1) % (s.len() as int);
    assert(s[i] == next_in(s, x));
}

/// The looked-up index always addresses the table.
proof fn lemma_index_or_head_in_range<T>(s: Seq<T>, x: T, k: int)
    requires
        s.len() > 0,
        0 <= k,
    ensures
        0 <= index_or_head_from(s, x, k) < s.len(),
    decreases s.len() - k,
{
    if k < s.len() && s[k] != x {
        lemma_index_or_head_in_range(s, x, k + 1);
    }
}

/// `x` advanced `n` times through the cyclic table `s`.
pub open spec fn advance_times<T>(s: Seq<T>, x: T, n: nat) -> T
    decreases n,
{
    if n == 0 {
        x
    } else {
        advance_times(s, next_in(s, x), (n - 1) as nat)
    }
}

/// In a table without repeats, an entry is found at its own index.
proof fn lemma_index_of_entry<T>(s: Seq<T>, i: int, k: int)
    requires
        s.no_duplicates(),
        0 <= k <= i < s.len(),
    ensures
        index_or_head_from(s, s[i], k) == i,
    decreases i - k,
{
    if k < i {
        assert(s[k] != s[i]);
        lemma_index_of_entry(s, i, k + 1);
    }
}

/// Advancing `n` times from the entry at `i` of a table without repeats lands
/// `n` places further along, wrapping around.
pub proof fn lemma_advance_times_walks_the_table<T>(s: Seq<T>, i: int, n: nat)
    requires
        s.no_duplicates(),
        0 <= i < s.len(),
    ensures
        advance_times(s, s[i], n) == s[(i + n) % (s.len() as int)],
    decreases n,
{
    let len = s.len() as int;
    vstd::arithmetic::div_mod::lemma_small_mod(i as nat, len as nat);
    if n > 0 {
        lemma_index_of_entry(s, i, 0);
        let j = (i + 1) % len;
        vstd::arithmetic::div_mod::lemma_mod_bound(i + 1, len);
        lemma_advance_times_walks_the_table(s, j, (n - 1) as nat);
        vstd::arithmetic::div_mod::lemma_add_mod_noop(i + 1, n - 1, len);
        vstd::arithmetic::div_mod::lemma_mod_twice(i + 1, len);
        assert((j + (n - 1)) % len == ((i + 1) % len + (n - 1) % len) % len) by {
            vstd::arithmetic::div_mod::lemma_add_mod_noop(j, n - 1, len);
            vstd::arithmetic::div_mod::lemma_mod_twice(i + 1, len);
        }
        assert((i + n) % len == ((i + 1) % len + (n - 1) % len) % len) by {
            vstd::arithmetic::div_mod::lemma_add_mod_noop(i + 1, n - 1, len);
        }
    }
}

/// Advancing a table without repeats once per entry comes back to the start.
pub proof fn lemma_table_cycles<T>(s: Seq<T>, i: int)
    requires
        s.no_duplicates(),
        0 <= i < s.len(),
    ensures
        advance_times(s, s[i], s.len()) == s[i],
{
    lemma_advance_times_walks_the_table(s, i, s.len());
    vstd::arithmetic::div_mod::lemma_mod_add_multiples_vanish(i, s.len() as int);
    vstd::arithmetic::div_mod::lemma_small_mod(i as nat, s.len());
}

/// Long press cycles through every breathing period and back, every solid
/// brightness step and back; double click through every palette color and back.
pub proof fn lemma_gesture_tables_cycle()
    ensures
        forall|i: int|
            0 <= i < 3 ==> advance_times(BREATH_PERIODS_MS@, #[trigger] BREATH_PERIODS_MS@[i], 3)
                == BREATH_PERIODS_MS@[i],
        forall|i: int|
            0 <= i < 3 ==> advance_times(
                SOLID_BRIGHTNESS_STEPS@,
                #[trigger] SOLID_BRIGHTNESS_STEPS@[i],
                3,
            ) == SOLID_BRIGHTNESS_STEPS@[i],
        forall|i: int|
            0 <= i < 4 ==> advance_times(palette_seq(), #[trigger] palette_seq()[i], 4)
                == palette_seq()[i],
{
    assert(BREATH_PERIODS_MS@ =~= seq![2000u32, 1200, 3000]);
    assert(SOLID_BRIGHTNESS_STEPS@ =~= seq![60u8, 140, 255]);
    assert forall|i: int| 0 <= i < 3 implies advance_times(
        BREATH_PERIODS_MS@,
        #[trigger] BREATH_PERIODS_MS@[i],
        3,
    ) == BREATH_PERIODS_MS@[i] by {
        lemma_table_cycles(BREATH_PERIODS_MS@, i);
    }
    assert forall|i: int| 0 <= i < 3 implies advance_times(
        SOLID_BRIGHTNESS_STEPS@,
        #[trigger] SOLID_BRIGHTNESS_STEPS@[i],
        3,
    ) == SOLID_BRIGHTNESS_STEPS@[i] by {
        lemma_table_cycles(SOLID_BRIGHTNESS_STEPS@, i);
    }
    assert forall|i: int| 0 <= i < 4 implies advance_times(
        palette_seq(),
        #[trigger] palette_seq()[i],
        4,
    ) == palette_seq()[i] by {
        lemma_table_cycles(palette_seq(), i);
    }
}

/// Double click on a breathing light showing a preset switches to the next
/// preset, the last one wrapping to the first.
pub proof fn lemma_double_click_walks_presets(breath: Breath, i: int)
    requires
        0 <= i < 4,
        breath.group == color_groups_seq()[i].group,
        breath.group_len == color_groups_seq()[i].group_len,
    ensures
        next_color_group(breath) == color_groups_seq()[(i + 1) % 4],
{
    let keys = color_groups_seq().map_values(|c: ColorGroup| group_key(c.group, c.group_len));
    assert(keys.no_duplicates()) by {
        assert forall|a: int, b: int| 0 <= a < 4 && 0 <= b < 4 && a != b implies keys[a]
            != keys[b] by {
            assert(keys[a].1 == color_groups_seq()[a].group_len);
            assert(keys[b].1 == color_groups_seq()[b].group_len);
        }
    }
    assert(keys[i] == group_key(breath.group, breath.group_len));
    lemma_index_of_entry(keys, i, 0);
}

/// Stateless intent resolver. Maps a raw input event to an absolute target
/// state by reading the current snapshot and advancing through the
/// palette/period/group tables.
pub fn resolve_intent(event: InputEvent, current: &DeviceState) -> (r: Option<Intent>)
    ensures
        r == resolve_of(event, current.light),
{
    match event {
        InputEvent::Button(ButtonEvent::Click) => Some(Intent::Light(click(current.light))),
        InputEvent::Button(ButtonEvent::DoubleClick) => match double_click(current.light) {
            Some(s) => Some(Intent::Light(s)),
            None => None,
        },
        InputEvent::Button(ButtonEvent::LongPress) => match long_press(current.light) {
            Some(s) => Some(Intent::Light(s)),
            None => None,
        },
    }
}

fn click(current: LightState) -> (r: LightState)
    ensures
        r == click_of(current),
{
    match current {
        LightState::Off => LightState::default(),
        LightState::Breath(_) => {
            let p = palette();
            LightState::Solid { color: p[0], brightness: DeviceManager::SOLID_DEFAULT_BRIGHTNESS }
        },
        LightState::Solid { .. } => LightState::Off,
    }
}

fn double_click(current: LightState) -> (r: Option<LightState>)
    ensures
        r == double_click_of(current),
{
    match current {
        LightState::Off => None,
        LightState::Breath(breath) => {
            let next_group = advance_color_group(&breath);
            Some(
                LightState::Breath(
                    Breath {
                        hue_span: next_group.hue_span,
                        group: next_group.group,
                        group_len: next_group.group_len,
                        ..breath
                    },
                ),
            )
        },
        LightState::Solid { color, brightness } => {
            let next_color = advance_palette(color);
            Some(LightState::Solid { color: next_color, brightness })
        },
    }
}

fn long_press(current: LightState) -> (r: Option<LightState>)
    ensures
        r == long_press_of(current),
{
    match current {
        LightState::Off => None,
        LightState::Breath(breath) => {
            let next_period = advance(&BREATH_PERIODS_MS, breath.period_ms);
            Some(LightState::Breath(Breath { period_ms: next_period, ..breath }))
        },
        LightState::Solid { color, brightness } => {
            let next = advance_u8(&SOLID_BRIGHTNESS_STEPS, brightness);
            Some(LightState::Solid { color, brightness: next })
        },
    }
}

/// Look up `current` in `table` and return the next value (wrapping).
/// Falls back to the first entry if `current` is not found.
pub fn advance(table: &[u32], current: u32) -> (r: u32)
    requires
        table@.len() > 0,
    ensures
        r == next_in(table@, current),
{
    let len = table.len();
    let mut i: usize = 0;
    while i < len
        invariant
            len == table@.len(),
            0 <= i <= len,
            index_or_head(table@, current) == index_or_head_from(table@, current, i as int),
        decreases len - i,
    {
        if table[i] == current {
            return table[(i + 1) % len];
        }
        i = i + 1;
    }
    table[1 % len]
}

/// [`advance`] over a table of 8-bit steps.
pub fn advance_u8(table: &[u8], current: u8) -> (r: u8)
    requires
        table@.len() > 0,
    ensures
        r == next_in(table@, current),
{
    let len = table.len();
    let mut i: usize = 0;
    while i < len
        invariant
            len == table@.len(),
            0 <= i <= len,
            index_or_head(table@, current) == index_or_head_from(table@, current, i as int),
        decreases len - i,
    {
        if table[i] == current {
            return table[(i + 1) % len];
        }
        i = i + 1;
    }
    table[1 % len]
}

/// Look up `current` in the palette and return the next color (wrapping).
/// Falls back to the first entry if `current` is not found.
pub fn advance_palette(current: Rgb) -> (r: Rgb)
    ensures
        r == next_in(palette_seq(), current),
{
    let table = palette();
    let len = table.len();
    let mut i: usize = 0;
    while i < len
        invariant
            table@ == palette_seq(),
            len == table@.len(),
            0 <= i <= len,
            index_or_head(palette_seq(), current) == index_or_head_from(
                palette_seq(),
                current,
                i as int,
            ),
        decreases len - i,
    {
        if table[i] == current {
            return table[(i + 1) % len];
        }
        i = i + 1;
    }
    assert(index_or_head_from(palette_seq(), current, 4) == 0);
    table[1]
}

/// Look up `breath`'s color group among the presets and return the next
/// preset (wrapping); falls back to the first entry if not found.
pub fn advance_color_group(breath: &Breath) -> (r: ColorGroup)
    ensures
        r == next_color_group(*breath),
{
    let groups = color_groups();
    let ghost keys = color_groups_seq().map_values(
        |c: ColorGroup| group_key(c.group, c.group_len),
    );
    let ghost key = group_key(breath.group, breath.group_len);
    let len = groups.len();
    let mut i: usize = 0;
    while i < len
        invariant
            groups@ == color_groups_seq(),
            len == groups@.len(),
            keys == color_groups_seq().map_values(
                |c: ColorGroup| group_key(c.group, c.group_len),
            ),
            keys.len() == 4,
            key == group_key(breath.group, breath.group_len),
            0 <= i <= len,
            index_or_head(keys, key) == index_or_head_from(keys, key, i as int),
        decreases len - i,
    {
        let candidate = groups[i];
        let matches = same_group(&candidate.group, &breath.group) && candidate.group_len
            == breath.group_len;
        proof {
            assert(keys[i as int] == group_key(candidate.group, candidate.group_len));
            if matches {
                assert(keys[i as int] == key);
            } else {
                assert(candidate.group != breath.group || candidate.group_len != breath.group_len);
                if candidate.group != breath.group {
                    assert(candidate.group@ != breath.group@) by {
                        if candidate.group@ == breath.group@ {
                            vstd::array::axiom_array_ext_equal(candidate.group, breath.group);
                        }
                    }
                }
                assert(keys[i as int] != key);
            }
        }
        if matches {
            return groups[(i + 1) % len];
        }
        i = i + 1;
    }
    groups[1]
}

} // verus!
