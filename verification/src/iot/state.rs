use crate::iot::drivers::light::{GROUP_CAPACITY, Rgb};
use crate::iot::intent::{Intent, target_of};
use vstd::prelude::*;

verus! {

/// All state owned by the device manager.
#[derive(Debug, Clone, PartialEq, Eq)]
pub struct DeviceState {
    pub light: LightState,
}

impl Default for DeviceState {
    fn default() -> (r: Self)
        ensures
            r.light == boot_light(),
    {
        DeviceState { light: LightState::boot() }
    }
}

/// A breathing schedule: brightness envelope plus the hue path it travels.
#[derive(Debug, Clone, Copy, PartialEq, Eq)]
pub struct Breath {
    pub period_ms: u32,
    pub hue_period_ms: u32,
    /// Hue sweep width; `0` means a static standalone color. Ignored when
    /// `group_len > 0`.
    pub hue_span: u8,
    /// Trough value of the brightness envelope. A nonzero floor keeps the
    /// breathing glow lit instead of fading fully to black.
    pub min_brightness: u8,
    pub max_brightness: u8,
    pub saturation: u8,
    /// Base hue the sweep starts from (or holds when `hue_span == 0`). Ignored
    /// when `group_len > 0`.
    pub hue: u8,
    /// Color waypoints on the 256-step hue wheel. `group_len` picks the
    /// trajectory: `0` = the `hue`/`hue_span` sweep above; `1` = a static
    /// standalone color, `group[0]`; `>=2` = rotate through the waypoints,
    /// walking each `group[i] -> group[i+1]` segment over
    /// `hue_period_ms / group_len` and wrapping `group[last] -> group[0]`.
    pub group: [u8; GROUP_CAPACITY],
    pub group_len: u8,
}

impl Breath {
    pub const MAX_GROUP: usize = GROUP_CAPACITY;
}

/// Light behavior, read by the render loop.
#[derive(Debug, Clone, Copy, PartialEq, Eq)]
pub enum LightState {
    Off,
    Solid { color: Rgb, brightness: u8 },
    Breath(Breath),
}

/// The breathing schedule the device boots into.
pub open spec fn boot_breath() -> Breath {
    Breath {
        period_ms: DeviceManager::DEFAULT_PERIOD_MS,
        hue_period_ms: DeviceManager::DEFAULT_HUE_PERIOD_MS,
        hue_span: DeviceManager::DEFAULT_HUE_SPAN,
        min_brightness: DeviceManager::DEFAULT_MIN_BRIGHTNESS,
        max_brightness: DeviceManager::DEFAULT_MAX_BRIGHTNESS,
        saturation: DeviceManager::DEFAULT_SATURATION,
        hue: DeviceManager::DEFAULT_HUE,
        group: DeviceManager::DEFAULT_GROUP,
        group_len: DeviceManager::DEFAULT_GROUP_LEN,
    }
}

/// The light state the device boots into.
pub open spec fn boot_light() -> LightState {
    LightState::Breath(boot_breath())
}

impl LightState {
    pub fn boot() -> (r: Self)
        ensures
            r == boot_light(),
    {
        LightState::Breath(
            Breath {
                period_ms: DeviceManager::DEFAULT_PERIOD_MS,
                hue_period_ms: DeviceManager::DEFAULT_HUE_PERIOD_MS,
                hue_span: DeviceManager::DEFAULT_HUE_SPAN,
                min_brightness: DeviceManager::DEFAULT_MIN_BRIGHTNESS,
                max_brightness: DeviceManager::DEFAULT_MAX_BRIGHTNESS,
                saturation: DeviceManager::DEFAULT_SATURATION,
                hue: DeviceManager::DEFAULT_HUE,
                group: DeviceManager::DEFAULT_GROUP,
                group_len: DeviceManager::DEFAULT_GROUP_LEN,
            },
        )
    }
}

impl Default for LightState {
    fn default() -> (r: Self)
        ensures
            r == boot_light(),
    {
        LightState::boot()
    }
}

/// Whether two waypoint arrays hold the same hues.
pub(crate) fn same_group(a: &[u8; GROUP_CAPACITY], b: &[u8; GROUP_CAPACITY]) -> (r: bool)
    ensures
        r == (*a == *b),
{
    let mut i: usize = 0;
    while i < GROUP_CAPACITY
        invariant
            0 <= i <= GROUP_CAPACITY,
            forall|j: int| 0 <= j < i ==> a@[j] == b@[j],
        decreases GROUP_CAPACITY - i,
    {
        if a[i] != b[i] {
            return false;
        }
        i = i + 1;
    }
    proof {
        assert(a@ =~= b@);
        vstd::array::axiom_array_ext_equal(*a, *b);
    }
    true
}

/// Whether two breathing schedules are identical.
fn same_breath(a: &Breath, b: &Breath) -> (r: bool)
    ensures
        r == (*a == *b),
{
    a.period_ms == b.period_ms && a.hue_period_ms == b.hue_period_ms && a.hue_span == b.hue_span
        && a.min_brightness == b.min_brightness && a.max_brightness == b.max_brightness
        && a.saturation == b.saturation && a.hue == b.hue && a.group_len == b.group_len
        && same_group(&a.group, &b.group)
}

/// Whether two light states are identical.
pub(crate) fn same_light(a: &LightState, b: &LightState) -> (r: bool)
    ensures
        r == (*a == *b),
{
    match (a, b) {
        (LightState::Off, LightState::Off) => true,
        (
            LightState::Solid { color: c1, brightness: b1 },
            LightState::Solid { color: c2, brightness: b2 },
        ) => *c1 == *c2 && *b1 == *b2,
        (LightState::Breath(x), LightState::Breath(y)) => same_breath(x, y),
        _ => false,
    }
}

/// Single owner of device state. Producers apply absolute target states
/// wholesale, so the device never needs to remember "last breath".
pub struct DeviceManager {
    state: DeviceState,
}

impl View for DeviceManager {
    type V = DeviceState;

    /// The state the manager currently holds.
    closed spec fn view(&self) -> DeviceState {
        self.state
    }
}

impl DeviceManager {
    pub const DEFAULT_PERIOD_MS: u32 = 3_000;
    pub const DEFAULT_HUE_PERIOD_MS: u32 = 60_000;
    pub const DEFAULT_HUE_SPAN: u8 = 255;
    pub const DEFAULT_MIN_BRIGHTNESS: u8 = 24;
    pub const DEFAULT_MAX_BRIGHTNESS: u8 = 80;
    pub const DEFAULT_SATURATION: u8 = 200;
    pub const DEFAULT_HUE: u8 = 0;
    /// Warm sunset: amber, golden, deep rose — low-blue palette favored by
    /// circadian research for a calm ambient breathing glow.
    pub const DEFAULT_GROUP: [u8; GROUP_CAPACITY] = [16, 32, 3, 0, 0, 0, 0];
    pub const DEFAULT_GROUP_LEN: u8 = 3;

    /// Full-brightness entry point for solid mode; dimming is a long-press
    /// advance from here.
    pub const SOLID_DEFAULT_BRIGHTNESS: u8 = 255;

    /// Backlight floor for the breathing envelope: the panel never sinks below
    /// this percent while pixels are lit, so the trough stays a dim glow
    /// instead of a hard on/off blip.
    pub const BACKLIGHT_FLOOR_PCT: u8 = 12;

    pub fn new() -> (r: Self)
        ensures
            r@ == (DeviceState { light: boot_light() }),
    {
        Self { state: DeviceState { light: LightState::boot() } }
    }

    pub fn apply(&mut self, state: LightState)
        ensures
            final(self)@ == (DeviceState { light: state }),
    {
        self.state.light = state;
    }

    /// Apply a bus intent to whichever subsystem it targets. The manager owns
    /// the subsystem mapping, so a new intent variant only grows this match and
    /// never touches the consuming task.
    pub fn apply_intent(&mut self, intent: Intent)
        ensures
            final(self)@ == (DeviceState { light: target_of(intent) }),
    {
        match intent {
            Intent::Light(state) => self.apply(state),
        }
    }

    pub fn state(&self) -> (r: DeviceState)
        ensures
            r == self@,
    {
        DeviceState { light: self.state.light }
    }

    pub fn light_state(&self) -> (r: LightState)
        ensures
            r == self@.light,
    {
        self.state.light
    }
}

impl Default for DeviceManager {
    fn default() -> (r: Self)
        ensures
            r@ == (DeviceState { light: boot_light() }),
    {
        Self::new()
    }
}

} // verus!
