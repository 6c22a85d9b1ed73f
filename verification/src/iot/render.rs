use crate::iot::drivers::light::{GROUP_CAPACITY, Rgb, scale_brightness, scale_brightness_of};
use crate::iot::state::{Breath, DeviceState, LightState, same_light};
use vstd::prelude::*;

verus! {

/// Saturation used by the breathing animation.
pub const SATURATION: u8 = 200;

/// A device slot the render layer knows about.
#[derive(Debug, Clone, Copy, PartialEq, Eq, Structural)]
pub enum Slot {
    Light,
}

/// The declared appearance of the light, derived from state; breathing is the
/// schedule, not a color frame — time-driven rendering is the renderer's call.
#[derive(Debug, Clone, Copy, PartialEq, Eq)]
pub enum LightAppearance {
    Off,
    Color(Rgb),
    Breathing(Breath),
}

/// The intended appearance of every known slot, derived from [`DeviceState`].
#[derive(Debug, Clone, Copy, PartialEq, Eq)]
pub enum SlotAppearance {
    Light(LightAppearance),
}

/// The slot an appearance belongs to.
pub open spec fn slot_of(appearance: SlotAppearance) -> Slot {
    match appearance {
        SlotAppearance::Light(_) => Slot::Light,
    }
}

impl SlotAppearance {
    /// Which slot this appearance belongs to.
    pub fn slot(&self) -> (r: Slot)
        ensures
            r == slot_of(*self),
    {
        match self {
            SlotAppearance::Light(_) => Slot::Light,
        }
    }
}

/// Appearance of a light state: off stays off, a solid color shows at its
/// brightness, and breathing hands its schedule to the renderer.
pub open spec fn appearance_of(state: LightState) -> LightAppearance {
    match state {
        LightState::Off => LightAppearance::Off,
        LightState::Solid { color, brightness } => LightAppearance::Color(
            scale_brightness_of(color, brightness),
        ),
        LightState::Breath(breath) => LightAppearance::Breathing(breath),
    }
}

/// Appearance of the light under `state`, without time information.
pub fn light_appearance(state: LightState) -> (r: LightAppearance)
    ensures
        r == appearance_of(state),
{
    match state {
        LightState::Off => LightAppearance::Off,
        LightState::Solid { color, brightness } => LightAppearance::Color(
            scale_brightness(color, brightness),
        ),
        LightState::Breath(breath) => LightAppearance::Breathing(breath),
    }
}

/// A breathing schedule the frame generator can draw: its waypoints fit the
/// waypoint array.
pub open spec fn breath_is_drawable(breath: Breath) -> bool {
    breath.group_len <= GROUP_CAPACITY
}

/// A light state whose appearance can be drawn.
pub open spec fn light_is_drawable(light: LightState) -> bool {
    light matches LightState::Breath(b) ==> breath_is_drawable(b)
}

/// An appearance that can be drawn.
pub open spec fn appearance_is_drawable(appearance: SlotAppearance) -> bool {
    appearance matches SlotAppearance::Light(LightAppearance::Breathing(b)) ==> breath_is_drawable(b)
}

/// How a renderer wants to be driven after an appearance sync.
#[derive(Debug, Clone, Copy, PartialEq, Eq, Structural)]
pub enum Activity {
    /// Appearance settled; no callbacks until the next state change.
    Idle,
    /// The render layer must step this renderer every tick to animate.
    TimeDriven,
}

/// Pluggable binding between one device and the render layer: the controller
/// decides *what* to show (central state diff), the renderer answers *how*,
/// including whether it needs time-driven frames. Not `Send`: renderers stay in
/// the render task; cross-task registration wraps them in `Box<dyn Renderer +
/// Send>` at the app seam.
pub trait Renderer {
    /// The appearance the renderer was last given, if any.
    spec fn shown(&self) -> Option<SlotAppearance>;

    fn slot(&self) -> Slot;

    /// A slot's appearance changed; apply it to the device.
    fn on_appearance(&mut self, appearance: SlotAppearance, now_ms: u32) -> (r: Activity)
        requires
            appearance_is_drawable(appearance),
        ensures
            final(self).shown() == Some(appearance),
    ;

    /// One animation frame, called only while the renderer reported
    /// [`Activity::TimeDriven`]; it animates the appearance it was given.
    fn step(&mut self, now_ms: u32) -> (r: Activity)
        ensures
            final(self).shown() == old(self).shown(),
    ;
}

/// Central judge of the device surface: diffs successive [`DeviceState`]
/// snapshots and reports only the appearances that changed, via a callback the
/// render layer fans out to matching renderers. Allocation-free.
pub struct RenderController {
    last: Option<DeviceState>,
}

impl View for RenderController {
    type V = Option<DeviceState>;

    /// The last synced snapshot, `None` before the first sync.
    closed spec fn view(&self) -> Option<DeviceState> {
        self.last
    }
}

/// The appearance a controller reports for the light once it synced `state`.
pub open spec fn light_slot_appearance(state: DeviceState) -> SlotAppearance {
    SlotAppearance::Light(appearance_of(state.light))
}

/// Once a snapshot is synced, reconciling the same snapshot again reports no
/// change, and the controller reports the synced appearance for the light.
pub proof fn lemma_synced_state_is_settled(synced: Option<DeviceState>, state: DeviceState)
    requires
        synced == Some(state),
    ensures
        !(synced != Some(state)),
        match synced {
            None => false,
            Some(s) => light_slot_appearance(s) == SlotAppearance::Light(appearance_of(state.light)),
        },
{
}

/// Off renders as `Off`; solid at full brightness shows its exact
/// color; breathing hands over its schedule untouched.
pub proof fn lemma_appearance_of_each_state(color: Rgb, breath: Breath)
    ensures
        appearance_of(LightState::Off) == LightAppearance::Off,
        appearance_of(LightState::Solid { color, brightness: 255 }) == LightAppearance::Color(color),
        appearance_of(LightState::Breath(breath)) == LightAppearance::Breathing(breath),
{
    crate::iot::drivers::light::lemma_scale_brightness_full_is_identity(color);
}

impl RenderController {
    pub fn new() -> (r: Self)
        ensures
            r@ == None::<DeviceState>,
    {
        Self { last: None }
    }

    /// Diff `state` against the last snapshot, invoking `notify` per changed
    /// slot; the first call reports every known slot. Returns whether any slot
    /// changed, so bindings can react once.
    pub fn reconcile(&mut self, state: &DeviceState, mut notify: impl FnMut(SlotAppearance)) -> (r:
        bool)
        requires
            forall|a: SlotAppearance| call_requires(notify, (a,)),
        ensures
            r == (old(self)@ != Some(*state)),
            final(self)@ == Some(*state),
            r ==> call_ensures(notify, (SlotAppearance::Light(appearance_of(state.light)),), ()),
    {
        let changed = match &self.last {
            None => true,
            Some(last) => !same_light(&last.light, &state.light),
        };
        if changed {
            self.last = Some(DeviceState { light: state.light });
            notify(SlotAppearance::Light(light_appearance(state.light)));
        }
        changed
    }

    /// Last synced appearance for `slot` (or `None` before the first sync), so a
    /// freshly registered renderer can catch up before the next diff.
    pub fn current(&self, slot: Slot) -> (r: Option<SlotAppearance>)
        ensures
            r == match self@ {
                None => None,
                Some(state) => Some(light_slot_appearance(state)),
            },
    {
        match &self.last {
            None => None,
            Some(state) => Some(
                match slot {
                    Slot::Light => SlotAppearance::Light(light_appearance(state.light)),
                },
            ),
        }
    }
}

impl Default for RenderController {
    fn default() -> (r: Self)
        ensures
            r@ == None::<DeviceState>,
    {
        Self::new()
    }
}

} // verus!
