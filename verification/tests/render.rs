use chobits::iot::drivers::light::Rgb;
use chobits::iot::render::{LightAppearance, RenderController, Slot, SlotAppearance, light_appearance};
use chobits::iot::state::{Breath, DeviceManager, DeviceState, LightState};

const BOOT_BREATH: Breath = Breath {
    period_ms: DeviceManager::DEFAULT_PERIOD_MS,
    hue_period_ms: DeviceManager::DEFAULT_HUE_PERIOD_MS,
    hue_span: DeviceManager::DEFAULT_HUE_SPAN,
    min_brightness: DeviceManager::DEFAULT_MIN_BRIGHTNESS,
    max_brightness: DeviceManager::DEFAULT_MAX_BRIGHTNESS,
    saturation: DeviceManager::DEFAULT_SATURATION,
    hue: DeviceManager::DEFAULT_HUE,
    group: DeviceManager::DEFAULT_GROUP,
    group_len: DeviceManager::DEFAULT_GROUP_LEN,
};

fn state(light: LightState) -> DeviceState {
    DeviceState { light }
}

fn solid(color: Rgb) -> LightState {
    LightState::Solid {
        color,
        brightness: DeviceManager::SOLID_DEFAULT_BRIGHTNESS,
    }
}

fn collect(ctl: &mut RenderController, s: &DeviceState) -> Vec<SlotAppearance> {
    let mut seen = Vec::new();
    ctl.reconcile(s, |a| seen.push(a));
    seen
}

#[test]
fn first_reconcile_reports_boot_breathing() {
    let mut ctl = RenderController::new();
    let seen = collect(&mut ctl, &state(LightState::boot()));
    assert_eq!(
        seen,
        vec![SlotAppearance::Light(LightAppearance::Breathing(
            BOOT_BREATH
        ))]
    );
}

#[test]
fn unchanged_state_stays_silent() {
    let mut ctl = RenderController::new();
    let boot = state(LightState::boot());
    collect(&mut ctl, &boot);
    assert_eq!(collect(&mut ctl, &boot), vec![]);
}

#[test]
fn change_emits_new_appearance() {
    let mut ctl = RenderController::new();
    collect(&mut ctl, &state(LightState::boot()));
    let target = state(solid(Rgb(1, 2, 3)));
    assert_eq!(
        collect(&mut ctl, &target),
        vec![SlotAppearance::Light(LightAppearance::Color(Rgb(1, 2, 3)))]
    );
}

#[test]
fn off_emits_off_once() {
    let mut ctl = RenderController::new();
    collect(&mut ctl, &state(LightState::boot()));
    let off = state(LightState::Off);
    assert_eq!(
        collect(&mut ctl, &off),
        vec![SlotAppearance::Light(LightAppearance::Off)]
    );
    assert_eq!(collect(&mut ctl, &off), vec![]);
}

#[test]
fn breathing_param_change_re_notifies() {
    let mut ctl = RenderController::new();
    collect(&mut ctl, &state(LightState::Breath(BOOT_BREATH)));
    let second = state(LightState::Breath(Breath {
        period_ms: 1_000,
        hue_period_ms: 3_000,
        max_brightness: 40,
        ..BOOT_BREATH
    }));
    let seen = collect(&mut ctl, &second);
    assert_eq!(seen.len(), 1);
    assert!(matches!(
        seen[0],
        SlotAppearance::Light(LightAppearance::Breathing(_))
    ));
}

#[test]
fn solid_color_change_differs() {
    let mut ctl = RenderController::new();
    collect(&mut ctl, &state(solid(Rgb(5, 5, 5))));
    let target = state(solid(Rgb(9, 9, 9)));
    assert_eq!(
        collect(&mut ctl, &target),
        vec![SlotAppearance::Light(LightAppearance::Color(Rgb(9, 9, 9)))]
    );
}

#[test]
fn current_reports_last_synced_appearance() {
    let mut ctl = RenderController::new();
    assert_eq!(ctl.current(Slot::Light), None);
    let target = state(solid(Rgb(7, 6, 5)));
    collect(&mut ctl, &target);
    assert_eq!(
        ctl.current(Slot::Light),
        Some(SlotAppearance::Light(LightAppearance::Color(Rgb(7, 6, 5))))
    );
}

#[test]
fn reconcile_reports_whether_state_changed() {
    let mut ctl = RenderController::new();
    let boot = state(LightState::boot());
    assert!(ctl.reconcile(&boot, |_| {}), "first sync is a change");
    assert!(!ctl.reconcile(&boot, |_| {}), "identical state is silent");
    let off = state(LightState::Off);
    assert!(ctl.reconcile(&off, |_| {}), "changed state is a change");
    assert!(!ctl.reconcile(&off, |_| {}), "settled state is silent");
}

#[test]
fn light_appearance_maps_every_state() {
    assert_eq!(light_appearance(LightState::Off), LightAppearance::Off);
    assert_eq!(
        light_appearance(solid(Rgb(1, 2, 3))),
        LightAppearance::Color(Rgb(1, 2, 3))
    );
    assert!(matches!(
        light_appearance(LightState::Breath(Breath {
            period_ms: 1,
            hue_period_ms: 2,
            max_brightness: 3,
            ..BOOT_BREATH
        })),
        LightAppearance::Breathing(_)
    ));
}

#[test]
fn solid_appearance_carries_its_brightness() {
    let dimmed = LightState::Solid {
        color: Rgb(200, 100, 50),
        brightness: 128,
    };
    assert_eq!(
        light_appearance(dimmed),
        LightAppearance::Color(Rgb(100, 50, 25))
    );
}
