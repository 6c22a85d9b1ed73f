use chobits::iot::drivers::light::Rgb;
use chobits::iot::intent::Intent;
use chobits::iot::state::{Breath, DeviceManager, DeviceState, LightState};

const BREATH: LightState = LightState::Breath(Breath {
    period_ms: 3_000,
    hue_period_ms: 60_000,
    hue_span: 255,
    min_brightness: 24,
    max_brightness: 80,
    saturation: 200,
    hue: 0,
    group: [16, 32, 3, 0, 0, 0, 0],
    group_len: 3,
});

#[test]
fn boots_with_default_breathing() {
    let manager = DeviceManager::new();
    assert_eq!(manager.light_state(), BREATH);
}

#[test]
fn device_state_default_is_boot() {
    assert_eq!(DeviceState::default().light, BREATH);
}

#[test]
fn apply_off_switches_light_off() {
    let mut manager = DeviceManager::new();
    manager.apply(LightState::Off);
    assert_eq!(manager.light_state(), LightState::Off);
}

#[test]
fn apply_solid_replaces_any_state() {
    let mut manager = DeviceManager::new();
    manager.apply(LightState::Solid {
        color: Rgb(200, 100, 50),
        brightness: DeviceManager::SOLID_DEFAULT_BRIGHTNESS,
    });
    assert_eq!(
        manager.light_state(),
        LightState::Solid {
            color: Rgb(200, 100, 50),
            brightness: DeviceManager::SOLID_DEFAULT_BRIGHTNESS,
        }
    );

    manager.apply(LightState::Off);
    manager.apply(LightState::Solid {
        color: Rgb(1, 2, 3),
        brightness: DeviceManager::SOLID_DEFAULT_BRIGHTNESS,
    });
    assert_eq!(
        manager.light_state(),
        LightState::Solid {
            color: Rgb(1, 2, 3),
            brightness: DeviceManager::SOLID_DEFAULT_BRIGHTNESS,
        }
    );
}

#[test]
fn apply_breath_replaces_schedule() {
    let mut manager = DeviceManager::new();
    manager.apply(LightState::Breath(Breath {
        period_ms: 1_000,
        hue_period_ms: 3_000,
        hue_span: 80,
        min_brightness: 8,
        max_brightness: 40,
        saturation: 120,
        hue: 170,
        group: [200, 250, 30, 0, 0, 0, 0],
        group_len: 3,
    }));
    assert_eq!(
        manager.light_state(),
        LightState::Breath(Breath {
            period_ms: 1_000,
            hue_period_ms: 3_000,
            hue_span: 80,
            min_brightness: 8,
            max_brightness: 40,
            saturation: 120,
            hue: 170,
            group: [200, 250, 30, 0, 0, 0, 0],
            group_len: 3,
        })
    );
}

#[test]
fn state_snapshot_matches_light_state() {
    let mut manager = DeviceManager::new();
    manager.apply(LightState::Solid {
        color: Rgb(9, 8, 7),
        brightness: DeviceManager::SOLID_DEFAULT_BRIGHTNESS,
    });
    assert_eq!(manager.state().light, manager.light_state());
}

#[test]
fn apply_intent_light_replaces_light_state() {
    let mut manager = DeviceManager::new();
    manager.apply_intent(Intent::Light(LightState::Off));
    assert_eq!(manager.light_state(), LightState::Off);
    manager.apply_intent(Intent::Light(LightState::Solid {
        color: Rgb(3, 4, 5),
        brightness: DeviceManager::SOLID_DEFAULT_BRIGHTNESS,
    }));
    assert_eq!(
        manager.light_state(),
        LightState::Solid {
            color: Rgb(3, 4, 5),
            brightness: DeviceManager::SOLID_DEFAULT_BRIGHTNESS,
        }
    );
}

#[test]
fn default_matches_new() {
    assert_eq!(
        DeviceManager::default().light_state(),
        DeviceManager::new().light_state()
    );
}
