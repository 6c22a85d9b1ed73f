use crate::iot::drivers::light::{
    Fill, Rgb, RgbLight, breathe, group_hue_of, hsv_to_rgb_of, should_repaint, should_repaint_of,
    smooth_brightness_of,
};
use crate::iot::render::{
    Activity, LightAppearance, RenderController, Renderer, Slot, SlotAppearance,
    appearance_is_drawable, appearance_of, breath_is_drawable, light_is_drawable,
};
use crate::iot::state::{Breath, DeviceState, LightState};
use vstd::prelude::*;

verus! {

/// Frame cadence of the render loop.
pub const STEP_MS: u32 = 20;

/// Capacity of the cross-task render bus.
pub const RENDER_BUS_CAPACITY: usize = 8;

/// The frame a breathing schedule shows at `now_ms`.
pub open spec fn light_frame_of(now_ms: u32, breath: Breath) -> Rgb {
    hsv_to_rgb_of(
        group_hue_of(
            now_ms,
            breath.hue_period_ms,
            breath.hue_span,
            breath.hue,
            breath.group@,
            breath.group_len,
        ) as u8,
        breath.saturation,
        smooth_brightness_of(now_ms, breath.period_ms, breath.min_brightness, breath.max_brightness)
            as u8,
    )
}

/// One breathing frame of `breath` at `now_ms`.
pub fn light_frame(now_ms: u32, breath: Breath) -> (r: Rgb)
    requires
        breath_is_drawable(breath),
    ensures
        r == light_frame_of(now_ms, breath),
{
    breathe(
        now_ms,
        breath.period_ms,
        breath.hue_period_ms,
        breath.hue_span,
        breath.min_brightness,
        breath.max_brightness,
        breath.saturation,
        breath.hue,
        breath.group,
        breath.group_len,
    )
}

/// Opaque handle to a registered renderer, assigned by the render layer.
#[derive(Debug, Clone, Copy, PartialEq, Eq, Structural)]
pub struct RenderToken(pub u64);

/// Render registry messages: renderers register when their resource exists
/// (e.g. a connected Web client) and unregister when it disappears. The
/// render task drains them from the cross-task bus (where registrations are
/// also `Send`) and hands them over here.
pub enum RenderMsg {
    /// In-task boot renderers (the light) may instead register directly with
    /// [`Render::register`].
    Register(Box<dyn Renderer>),
    /// Runtime renderers (Web/Audio) drop on disconnect.
    Unregister(RenderToken),
}

/// Index of the first `x` in `s` at or after `k`, if any.
pub open spec fn find_from(s: Seq<u64>, x: u64, k: int) -> Option<int>
    decreases s.len() - k,
{
    if 0 <= k < s.len() {
        if s[k] == x {
            Some(k)
        } else {
            find_from(s, x, k + 1)
        }
    } else {
        None
    }
}

/// `s` without its first `x` (unchanged when `x` is absent).
pub open spec fn remove_first<T>(s: Seq<T>, keys: Seq<u64>, x: u64) -> Seq<T> {
    match find_from(keys, x, 0) {
        Some(i) => s.remove(i),
        None => s,
    }
}

/// The registered tokens and the next token once `messages` are applied in
/// order: a registration appends the next token, an unregistration drops
/// the first entry of its token, if any.
pub open spec fn tokens_after(tokens: Seq<u64>, next: int, messages: Seq<RenderMsg>) -> (Seq<u64>, int)
    decreases messages.len(),
{
    if messages.len() == 0 {
        (tokens, next)
    } else {
        match messages[0] {
            RenderMsg::Register(_) => tokens_after(tokens.push(next as u64), next + 1, messages.drop_first()),
            RenderMsg::Unregister(token) => tokens_after(
                remove_first(tokens, tokens, token.0),
                next,
                messages.drop_first(),
            ),
        }
    }
}

/// Render-layer host: central controller and renderer registry. Registered
/// renderers are kept in registration order, each with its token and how it
/// last asked to be driven.
pub struct Render {
    controller: RenderController,
    tokens: Vec<RenderToken>,
    activities: Vec<Activity>,
    renderers: Vec<Box<dyn Renderer>>,
    next_token: u64,
}

impl Render {
    /// The registry columns line up, and every snapshot the controller synced
    /// is drawable, so a renderer caught up with it can draw it.
    pub closed spec fn wf(&self) -> bool {
        &&& self.tokens@.len() == self.renderers@.len()
        &&& self.activities@.len() == self.renderers@.len()
        &&& self.controller@ matches Some(s) ==> light_is_drawable(s.light)
    }

    /// The last snapshot synced to the renderers.
    pub closed spec fn synced_of(&self) -> Option<DeviceState> {
        self.controller@
    }

    /// Tokens of the registered renderers, in registration order.
    pub closed spec fn tokens_of(&self) -> Seq<u64> {
        self.tokens@.map_values(|t: RenderToken| t.0)
    }

    /// How each registered renderer wants to be driven, in registration order.
    pub closed spec fn activities_of(&self) -> Seq<Activity> {
        self.activities@
    }

    /// The appearance each registered renderer was last given, in
    /// registration order.
    pub closed spec fn shown_of(&self) -> Seq<Option<SlotAppearance>> {
        self.renderers@.map_values(|r: Box<dyn Renderer>| r.shown())
    }

    /// The token the next registration receives.
    pub closed spec fn next_token_of(&self) -> u64 {
        self.next_token
    }

    pub fn new() -> (r: Self)
        ensures
            r.wf(),
            r.synced_of() is None,
            r.tokens_of().len() == 0,
            r.activities_of().len() == 0,
            r.next_token_of() == 0,
    {
        let r = Self {
            controller: RenderController::new(),
            tokens: Vec::new(),
            activities: Vec::new(),
            renderers: Vec::new(),
            next_token: 0,
        };
        assert(r.tokens_of() =~= Seq::empty());
        r
    }

    /// Register a renderer; it catches up with the last synced appearance, if
    /// any, and starts idle otherwise.
    pub fn register(&mut self, renderer: Box<dyn Renderer>, now_ms: u32) -> (r: RenderToken)
        requires
            old(self).wf(),
            old(self).next_token_of() < u64::MAX,
        ensures
            final(self).wf(),
            r.0 == old(self).next_token_of(),
            final(self).next_token_of() == old(self).next_token_of() + 1,
            final(self).tokens_of() == old(self).tokens_of().push(r.0),
            final(self).activities_of().drop_last() == old(self).activities_of(),
            final(self).activities_of().len() == old(self).activities_of().len() + 1,
            old(self).synced_of() is None ==> final(self).activities_of().last() == Activity::Idle,
            final(self).synced_of() == old(self).synced_of(),
    {
        let token = RenderToken(self.next_token);
        self.next_token = self.next_token + 1;
        let mut renderer = renderer;
        let mut activity = Activity::Idle;
        // Catch a fresh renderer up with the surface before the next diff.
        let slot = renderer.slot();
        match self.controller.current(slot) {
            Some(appearance) => {
                activity = renderer.on_appearance(appearance, now_ms);
            },
            None => {},
        }
        let ghost tokens_before = self.tokens@;
        self.tokens.push(token);
        self.activities.push(activity);
        let mut added = vec![renderer];
        self.renderers.append(&mut added);
        proof {
            assert(self.tokens@ == tokens_before.push(token));
            assert(self.tokens_of() =~= old(self).tokens_of().push(token.0));
            assert(self.activities_of().drop_last() =~= old(self).activities_of());
        }
        token
    }

    /// Drop the renderer registered under `token`, if it is still registered.
    pub fn unregister(&mut self, token: RenderToken)
        requires
            old(self).wf(),
        ensures
            final(self).wf(),
            final(self).tokens_of() == remove_first(
                old(self).tokens_of(),
                old(self).tokens_of(),
                token.0,
            ),
            final(self).activities_of() == remove_first(
                old(self).activities_of(),
                old(self).tokens_of(),
                token.0,
            ),
            final(self).next_token_of() == old(self).next_token_of(),
            final(self).synced_of() == old(self).synced_of(),
    {
        let ghost keys = self.tokens_of();
        let len = self.tokens.len();
        let mut i: usize = 0;
        while i < len
            invariant
                self.wf(),
                self.tokens_of() == keys,
                keys == old(self).tokens_of(),
                self.activities_of() == old(self).activities_of(),
                self.next_token_of() == old(self).next_token_of(),
                self.synced_of() == old(self).synced_of(),
                len == self.tokens@.len(),
                0 <= i <= len,
                find_from(keys, token.0, 0) == find_from(keys, token.0, i as int),
            decreases len - i,
        {
            if self.tokens[i] == token {
                let ghost tokens_before = self.tokens@;
                assert(keys[i as int] == token.0);
                assert(find_from(keys, token.0, i as int) == Some(i as int));
                self.tokens.remove(i);
                self.activities.remove(i);
                let _ = self.renderers.remove(i);
                proof {
                    assert(self.tokens_of() =~= keys.remove(i as int));
                    assert(self.activities_of() =~= old(self).activities_of().remove(i as int));
                }
                return;
            }
            i = i + 1;
        }
    }

    /// Apply drained bus messages in order: registrations and unregistrations.
    pub fn drain_bus(&mut self, messages: Vec<RenderMsg>, now_ms: u32)
        requires
            old(self).wf(),
            old(self).next_token_of() + messages@.len() <= u64::MAX,
        ensures
            final(self).wf(),
            (final(self).tokens_of(), final(self).next_token_of() as int) == tokens_after(
                old(self).tokens_of(),
                old(self).next_token_of() as int,
                messages@,
            ),
            final(self).synced_of() == old(self).synced_of(),
    {
        let ghost all = messages@;
        let mut messages = messages;
        let ghost start = self.next_token_of();
        let ghost total = messages@.len();
        while messages.len() > 0
            invariant
                self.wf(),
                self.next_token_of() + messages@.len() <= start + total,
                start + total <= u64::MAX,
                self.synced_of() == old(self).synced_of(),
                tokens_after(self.tokens_of(), self.next_token_of() as int, messages@) == tokens_after(
                    old(self).tokens_of(),
                    old(self).next_token_of() as int,
                    all,
                ),
            decreases messages@.len(),
        {
            let ghost rest = messages@;
            let message = messages.remove(0);
            proof {
                assert(rest.drop_first() =~= messages@);
            }
            match message {
                RenderMsg::Register(renderer) => {
                    self.register(renderer, now_ms);
                },
                RenderMsg::Unregister(token) => self.unregister(token),
            }
        }
    }

    /// One frame: apply the drained bus messages, reconcile `state` against the
    /// controller, fan the changed appearance out to matching renderers, then
    /// step time-driven animations. Returns `true` while any renderer still
    /// animates. `on_change` fires once per changed frame.
    pub fn tick(
        &mut self,
        messages: Vec<RenderMsg>,
        state: &DeviceState,
        now_ms: u32,
        mut on_change: impl FnMut(&DeviceState),
    ) -> (r: bool)
        requires
            old(self).wf(),
            old(self).next_token_of() + messages@.len() <= u64::MAX,
            light_is_drawable(state.light),
            forall|s: &DeviceState| call_requires(on_change, (s,)),
        ensures
            final(self).wf(),
            final(self).synced_of() == Some(*state),
            (final(self).tokens_of(), final(self).next_token_of() as int) == tokens_after(
                old(self).tokens_of(),
                old(self).next_token_of() as int,
                messages@,
            ),
            old(self).synced_of() != Some(*state) ==> call_ensures(on_change, (state,), ()),
            old(self).synced_of() != Some(*state) ==> forall|i: int|
                0 <= i < final(self).shown_of().len() ==> #[trigger] final(self).shown_of()[i] == Some(
                    SlotAppearance::Light(appearance_of(state.light)),
                ),
            r == exists|i: int|
                0 <= i < final(self).activities_of().len() && final(self).activities_of()[i]
                    == Activity::TimeDriven,
    {
        self.drain_bus(messages, now_ms);
        let changed = self.controller.reconcile(state, |_appearance: SlotAppearance| {});
        if changed {
            let appearance = SlotAppearance::Light(
                crate::iot::render::light_appearance(state.light),
            );
            self.fan_out(appearance, now_ms);
            on_change(state);
        }
        self.step_animations(now_ms)
    }

    /// Deliver a changed appearance to every renderer of its slot.
    fn fan_out(&mut self, appearance: SlotAppearance, now_ms: u32)
        requires
            old(self).wf(),
            appearance_is_drawable(appearance),
        ensures
            final(self).wf(),
            final(self).synced_of() == old(self).synced_of(),
            final(self).tokens_of() == old(self).tokens_of(),
            final(self).next_token_of() == old(self).next_token_of(),
            final(self).shown_of().len() == old(self).shown_of().len(),
            forall|i: int|
                0 <= i < final(self).shown_of().len() ==> #[trigger] final(self).shown_of()[i] == Some(
                    appearance,
                ),
    {
        let slot = appearance.slot();
        let len = self.renderers.len();
        let mut i: usize = 0;
        while i < len
            invariant
                self.wf(),
                len == self.renderers@.len(),
                self.tokens_of() == old(self).tokens_of(),
                self.synced_of() == old(self).synced_of(),
                self.next_token_of() == old(self).next_token_of(),
                appearance_is_drawable(appearance),
                0 <= i <= len,
                forall|j: int| 0 <= j < i ==> #[trigger] self.shown_of()[j] == Some(appearance),
            decreases len - i,
        {
            let ghost before = self.renderers@;
            let ghost shown_before = self.shown_of();
            if self.renderers[i].slot() == slot {
                let activity = self.renderers[i].on_appearance(appearance, now_ms);
                self.activities.set(i, activity);
            }
            proof {
                assert(self.shown_of()[i as int] == Some(appearance));
                assert forall|j: int| 0 <= j < i implies #[trigger] self.shown_of()[j] == Some(
                    appearance,
                ) by {
                    assert(self.renderers@[j] == before[j]);
                    assert(shown_before[j] == Some(appearance));
                    assert(self.shown_of()[j] == self.renderers@[j].shown());
                    assert(shown_before[j] == before[j].shown());
                }
            }
            i = i + 1;
        }
    }

    /// Step every time-driven renderer; returns whether any still animates.
    fn step_animations(&mut self, now_ms: u32) -> (r: bool)
        requires
            old(self).wf(),
        ensures
            final(self).wf(),
            final(self).synced_of() == old(self).synced_of(),
            final(self).tokens_of() == old(self).tokens_of(),
            final(self).next_token_of() == old(self).next_token_of(),
            final(self).shown_of() == old(self).shown_of(),
            r == exists|i: int|
                0 <= i < final(self).activities_of().len() && final(self).activities_of()[i]
                    == Activity::TimeDriven,
    {
        let len = self.renderers.len();
        let mut any = false;
        let mut i: usize = 0;
        while i < len
            invariant
                self.wf(),
                len == self.renderers@.len(),
                self.tokens_of() == old(self).tokens_of(),
                self.synced_of() == old(self).synced_of(),
                self.next_token_of() == old(self).next_token_of(),
                self.shown_of() == old(self).shown_of(),
                0 <= i <= len,
                any == exists|j: int|
                    0 <= j < i && self.activities_of()[j] == Activity::TimeDriven,
            decreases len - i,
        {
            let ghost before = self.activities_of();
            let ghost shown_before = self.shown_of();
            if self.activities[i] == Activity::TimeDriven {
                let activity = self.renderers[i].step(now_ms);
                self.activities.set(i, activity);
            }
            if self.activities[i] == Activity::TimeDriven {
                any = true;
            }
            proof {
                assert(self.shown_of() =~= shown_before);
                assert forall|j: int| 0 <= j < i implies self.activities_of()[j] == before[j] by {}
                if self.activities_of()[i as int] == Activity::TimeDriven {
                    assert(exists|j: int|
                        0 <= j < i + 1 && self.activities_of()[j] == Activity::TimeDriven);
                }
            }
            i = i + 1;
        }
        any
    }
}

impl Default for Render {
    fn default() -> (r: Self)
        ensures
            r.wf(),
            r.synced_of() is None,
            r.tokens_of().len() == 0,
            r.next_token_of() == 0,
    {
        Self::new()
    }
}

/// Renderer for a physical light surface (the WS2812 LED on the DevKitC-1).
/// Breathing is time-driven: the render layer steps it every tick to produce
/// frames from the schedule.
pub struct LightRenderer<R: RgbLight> {
    light: R,
    last: Option<Rgb>,
    schedule: Schedule,
    given: Ghost<Option<SlotAppearance>>,
}

/// The breathing schedule a light animates, if any; only drawable ones are
/// kept.
struct Schedule {
    breath: Option<Breath>,
}

impl Schedule {
    #[verifier::type_invariant]
    spec fn drawable(&self) -> bool {
        self.breath matches Some(b) ==> breath_is_drawable(b)
    }
}

/// The color a surface shows after being driven to `color`: it repaints when
/// nothing was painted yet or the change reaches its repaint step.
pub open spec fn painted_after(last: Option<Rgb>, color: Rgb, step: u8) -> Option<Rgb> {
    match last {
        None => Some(color),
        Some(l) => if should_repaint_of(l, color, step) {
            Some(color)
        } else {
            last
        },
    }
}

/// Whether driving a surface that last showed `last` to `color` repaints it:
/// when nothing was painted yet, or the change reaches the repaint `step`.
pub open spec fn repaints(last: Option<Rgb>, color: Rgb, step: u8) -> bool {
    match last {
        None => true,
        Some(l) => should_repaint_of(l, color, step),
    }
}

/// Whether `after` is `before` driven to `color`, for the surface's repaint
/// step: the last painted color follows [`painted_after`], and a repaint
/// paints the surface flat in `color` while no repaint leaves it as it was.
pub open spec fn driven_to<R: RgbLight>(before: LightRenderer<R>, after: LightRenderer<R>, color: Rgb) -> bool {
    exists|step: u8|
        #![trigger painted_after(before.last_of(), color, step)]
        {
            &&& after.last_of() == painted_after(before.last_of(), color, step)
            &&& if repaints(before.last_of(), color, step) {
                after.shows_of() == Some((Fill::Uniform, color))
            } else {
                after.shows_of() == before.shows_of()
            }
        }
}

impl<R: RgbLight> LightRenderer<R> {
    /// The color last painted on the surface, if any.
    pub closed spec fn last_of(&self) -> Option<Rgb> {
        self.last
    }

    /// What the surface itself shows.
    pub closed spec fn shows_of(&self) -> Option<(Fill, Rgb)> {
        self.light.shows()
    }

    /// The breathing schedule being animated, if any.
    pub closed spec fn breath_of(&self) -> Option<Breath> {
        self.schedule.breath
    }

    pub fn new(light: R) -> (r: Self)
        ensures
            r.last_of() is None,
            r.breath_of() is None,
    {
        Self { light, last: None, schedule: Schedule { breath: None }, given: Ghost(None) }
    }

    /// Paint `color` unless the surface already shows it within its repaint
    /// step.
    fn drive(&mut self, color: Rgb)
        ensures
            driven_to(*old(self), *final(self), color),
            final(self).breath_of() == old(self).breath_of(),
            final(self).given == old(self).given,
    {
        let step = self.light.repaint_step();
        let repaint = match self.last {
            None => true,
            Some(last) => should_repaint(last, color, step),
        };
        if repaint {
            self.last = Some(color);
            self.light.set_rgb(color);
        }
        assert(self.last == painted_after(old(self).last, color, step));
        assert(repaint == repaints(old(self).last, color, step));
    }
}

impl<R: RgbLight> Renderer for LightRenderer<R> {
    closed spec fn shown(&self) -> Option<SlotAppearance> {
        self.given@
    }

    fn slot(&self) -> (r: Slot)
        ensures
            r == Slot::Light,
    {
        Slot::Light
    }

    fn on_appearance(&mut self, appearance: SlotAppearance, now_ms: u32) -> (r: Activity)
        ensures
            match appearance {
                SlotAppearance::Light(LightAppearance::Off) => r == Activity::Idle
                    && final(self).breath_of() is None && driven_to(
                    *old(self),
                    *final(self),
                    Rgb(0, 0, 0),
                ),
                SlotAppearance::Light(LightAppearance::Color(c)) => r == Activity::Idle
                    && final(self).breath_of() is None && driven_to(*old(self), *final(self), c),
                SlotAppearance::Light(LightAppearance::Breathing(b)) => r == Activity::TimeDriven
                    && final(self).breath_of() == Some(b) && driven_to(
                    *old(self),
                    *final(self),
                    light_frame_of(now_ms, b),
                ),
            },
    {
        self.given = Ghost(Some(appearance));
        match appearance {
            SlotAppearance::Light(LightAppearance::Off) => {
                self.schedule = Schedule { breath: None };
                self.drive(Rgb(0, 0, 0));
                Activity::Idle
            },
            SlotAppearance::Light(LightAppearance::Color(color)) => {
                self.schedule = Schedule { breath: None };
                self.drive(color);
                Activity::Idle
            },
            SlotAppearance::Light(LightAppearance::Breathing(breath)) => {
                self.schedule = Schedule { breath: Some(breath) };
                self.drive(light_frame(now_ms, breath));
                Activity::TimeDriven
            },
        }
    }

    fn step(&mut self, now_ms: u32) -> (r: Activity)
        ensures
            match old(self).breath_of() {
                Some(b) => r == Activity::TimeDriven && final(self).breath_of() == Some(b)
                    && driven_to(*old(self), *final(self), light_frame_of(now_ms, b)),
                None => r == Activity::Idle && final(self).last_of() == old(self).last_of()
                    && final(self).shows_of() == old(self).shows_of(),
            },
    {
        let current = self.schedule.breath;
        proof {
            use_type_invariant(&self.schedule);
        }
        match current {
            Some(breath) => {
                self.drive(light_frame(now_ms, breath));
                Activity::TimeDriven
            },
            None => Activity::Idle,
        }
    }
}

} // verus!
