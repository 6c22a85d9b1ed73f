use chobits::iot::drivers::input::{ButtonEvent, InputEvent};
use chobits::iot::drivers::light::{GROUP_CAPACITY, Rgb};
use chobits::iot::intent::{
    BREATH_PERIODS_MS, Intent, SOLID_BRIGHTNESS_STEPS, advance, advance_color_group,
    advance_palette, advance_u8, color_groups, palette, resolve_intent,
};
use chobits::iot::state::{Breath, DeviceManager, DeviceState, LightState};

const DEFAULT_BREATH: LightState = LightState::Breath(BREATH_BASE);

const BREATH_BASE: Breath = Breath {
    period_ms: DeviceManager::DEFAULT_PERIOD_MS,
    hue_period_ms: DeviceManager::DEFAULT_HUE_PERIOD_MS,
    hue_span: DeviceManager::DEFAULT_HUE_SPAN,
    min_brightness: DeviceManager::DEFAULT_MIN_BRIGHTNESS,
    max_brightness: DeviceManager::DEFAULT_MAX_BRIGHTNESS,
    saturation: DeviceManager::DEFAULT_SATURATION,
    hue: DeviceManager::DEFAULT_HUE,
    group: DeviceManager::DEFAULT_GROUP,
    group_len: DeviceManager::DEFAULT_GROUP_LEN,
};

fn state(light: LightState) -> DeviceState {
    DeviceState { light }
}

#[test]
fn click_off_to_breath() {
    assert_eq!(
        resolve_intent(
            InputEvent::Button(ButtonEvent::Click),
            &state(LightState::Off)
        ),
        Some(Intent::Light(DEFAULT_BREATH))
    );
}

#[test]
fn click_breath_to_solid() {
    assert_eq!(
        resolve_intent(
            InputEvent::Button(ButtonEvent::Click),
            &state(DEFAULT_BREATH)
        ),
        Some(Intent::Light(LightState::Solid {
            color: palette()[0],
            brightness: DeviceManager::SOLID_DEFAULT_BRIGHTNESS,
        }))
    );
}

#[test]
fn click_solid_to_off() {
    assert_eq!(
        resolve_intent(
            InputEvent::Button(ButtonEvent::Click),
            &state(LightState::Solid {
                color: palette()[2],
                brightness: 140,
            })
        ),
        Some(Intent::Light(LightState::Off))
    );
}

#[test]
fn long_press_off_is_noop() {
    assert_eq!(
        resolve_intent(
            InputEvent::Button(ButtonEvent::LongPress),
            &state(LightState::Off)
        ),
        None
    );
}

#[test]
fn long_press_breath_advances_period() {
    let result = resolve_intent(
        InputEvent::Button(ButtonEvent::LongPress),
        &state(DEFAULT_BREATH),
    )
    .unwrap()
    .light_target();
    // 3000 (default) → wraps to [2000, 1200, 3000] head = 2000
    assert_eq!(
        result,
        LightState::Breath(Breath {
            period_ms: 2_000,
            hue_period_ms: DeviceManager::DEFAULT_HUE_PERIOD_MS,
            hue_span: DeviceManager::DEFAULT_HUE_SPAN,
            min_brightness: DeviceManager::DEFAULT_MIN_BRIGHTNESS,
            max_brightness: DeviceManager::DEFAULT_MAX_BRIGHTNESS,
            saturation: DeviceManager::DEFAULT_SATURATION,
            hue: DeviceManager::DEFAULT_HUE,
            group: DeviceManager::DEFAULT_GROUP,
            group_len: DeviceManager::DEFAULT_GROUP_LEN,
        })
    );
}

#[test]
fn long_press_breath_wraps_period() {
    let slow = Breath {
        period_ms: 3_000,
        hue_period_ms: DeviceManager::DEFAULT_HUE_PERIOD_MS,
        hue_span: DeviceManager::DEFAULT_HUE_SPAN,
        min_brightness: DeviceManager::DEFAULT_MIN_BRIGHTNESS,
        max_brightness: DeviceManager::DEFAULT_MAX_BRIGHTNESS,
        saturation: DeviceManager::DEFAULT_SATURATION,
        hue: DeviceManager::DEFAULT_HUE,
        group: DeviceManager::DEFAULT_GROUP,
        group_len: DeviceManager::DEFAULT_GROUP_LEN,
    };
    let result = resolve_intent(
        InputEvent::Button(ButtonEvent::LongPress),
        &state(LightState::Breath(slow)),
    )
    .unwrap()
    .light_target();
    // 3000 (last) → wraps to 2000
    assert_eq!(
        result,
        LightState::Breath(Breath {
            period_ms: 2_000,
            ..slow
        })
    );
}

#[test]
fn long_press_solid_advances_brightness() {
    let result = resolve_intent(
        InputEvent::Button(ButtonEvent::LongPress),
        &state(LightState::Solid {
            color: palette()[0],
            brightness: 60,
        }),
    )
    .unwrap()
    .light_target();
    assert_eq!(
        result,
        LightState::Solid {
            color: palette()[0],
            brightness: 140,
        }
    );
}

#[test]
fn long_press_solid_wraps_brightness() {
    let result = resolve_intent(
        InputEvent::Button(ButtonEvent::LongPress),
        &state(LightState::Solid {
            color: palette()[0],
            brightness: 255,
        }),
    )
    .unwrap()
    .light_target();
    assert_eq!(
        result,
        LightState::Solid {
            color: palette()[0],
            brightness: 60,
        }
    );
}

#[test]
fn double_click_off_is_noop() {
    assert_eq!(
        resolve_intent(
            InputEvent::Button(ButtonEvent::DoubleClick),
            &state(LightState::Off)
        ),
        None
    );
}

#[test]
fn double_click_breath_advances_color_group() {
    let result = resolve_intent(
        InputEvent::Button(ButtonEvent::DoubleClick),
        &state(DEFAULT_BREATH),
    )
    .unwrap()
    .light_target();
    // Warm sunset → rainbow seven.
    assert_eq!(
        result,
        LightState::Breath(Breath {
            hue_span: color_groups()[1].hue_span,
            group: color_groups()[1].group,
            group_len: color_groups()[1].group_len,
            ..BREATH_BASE
        })
    );
}

#[test]
fn double_click_breath_wraps_last_preset_to_head() {
    // Walk from rainbow seven through to the last preset, then confirm the
    // sweep preset (group_len == 0) is where the chain lands; a further
    // double click wraps back to warm sunset.
    let presets = color_groups();
    let mut breath = Breath {
        hue_span: presets[1].hue_span,
        group: presets[1].group,
        group_len: presets[1].group_len,
        ..BREATH_BASE
    };
    for (i, preset) in presets.iter().enumerate().skip(2) {
        let result = resolve_intent(
            InputEvent::Button(ButtonEvent::DoubleClick),
            &state(LightState::Breath(breath)),
        )
        .unwrap()
        .light_target();
        let LightState::Breath(next) = result else {
            panic!("double click must stay in breathing");
        };
        assert_eq!(
            next.group_len, preset.group_len,
            "step {i}: wrong preset reached"
        );
        breath = next;
    }
    // Last preset (sweep) wraps to the head (warm sunset).
    let result = resolve_intent(
        InputEvent::Button(ButtonEvent::DoubleClick),
        &state(LightState::Breath(breath)),
    )
    .unwrap()
    .light_target();
    assert_eq!(result, LightState::Breath(BREATH_BASE));
}

#[test]
fn double_click_solid_advances_palette() {
    let result = resolve_intent(
        InputEvent::Button(ButtonEvent::DoubleClick),
        &state(LightState::Solid {
            color: palette()[0],
            brightness: 140,
        }),
    )
    .unwrap()
    .light_target();
    assert_eq!(
        result,
        LightState::Solid {
            color: palette()[1],
            brightness: 140,
        }
    );
}

#[test]
fn double_click_solid_wraps_palette() {
    let last = *palette().last().unwrap();
    let result = resolve_intent(
        InputEvent::Button(ButtonEvent::DoubleClick),
        &state(LightState::Solid {
            color: last,
            brightness: 60,
        }),
    )
    .unwrap()
    .light_target();
    assert_eq!(
        result,
        LightState::Solid {
            color: palette()[0],
            brightness: 60,
        }
    );
}

#[test]
fn advance_falls_back_to_head_when_current_not_in_table() {
    // 9999 not in the table → treat as head (2000) and advance to 1200
    let result = advance(&BREATH_PERIODS_MS, 9999);
    assert_eq!(result, BREATH_PERIODS_MS[1]);
}

#[test]
fn advance_palette_falls_back_to_head_when_current_not_in_table() {
    // 0,0,0 not in the palette → treat as head and advance to palette()[1]
    let result = advance_palette(Rgb(0, 0, 0));
    assert_eq!(result, palette()[1]);
}

#[test]
fn advance_u8_falls_back_to_head_when_current_not_in_table() {
    // 7 not in the steps → treat as head and advance to 140.
    let result = advance_u8(&SOLID_BRIGHTNESS_STEPS, 7);
    assert_eq!(result, SOLID_BRIGHTNESS_STEPS[1]);
}

#[test]
fn advance_color_group_falls_back_to_head_when_current_not_in_table() {
    // An unknown group → treat as head (warm sunset) and advance to rainbow.
    let unknown = Breath {
        group: [200, 250, 30, 0, 0, 0, 0],
        group_len: 3,
        ..BREATH_BASE
    };
    let result = advance_color_group(&unknown);
    assert_eq!(result, color_groups()[1]);
}

#[test]
fn seven_color_preset_uses_every_hue_slot() {
    let expected: [u8; GROUP_CAPACITY] = [0, 21, 43, 85, 128, 170, 213];
    let rainbow = color_groups()[1];
    assert_eq!(rainbow.group_len, expected.len() as u8);
    assert_eq!(rainbow.group, expected);
}

#[test]
fn full_click_cycle_breath_solid_off() {
    let mut light = LightState::Off;
    light = resolve_intent(InputEvent::Button(ButtonEvent::Click), &state(light))
        .unwrap()
        .light_target();
    assert!(matches!(light, LightState::Breath(_)));

    light = resolve_intent(InputEvent::Button(ButtonEvent::Click), &state(light))
        .unwrap()
        .light_target();
    assert!(matches!(light, LightState::Solid { .. }));

    light = resolve_intent(InputEvent::Button(ButtonEvent::Click), &state(light))
        .unwrap()
        .light_target();
    assert_eq!(light, LightState::Off);
}

#[test]
fn intent_led_target_extracts_led_state() {
    let intent = Intent::Light(DEFAULT_BREATH);
    assert_eq!(intent.light_target(), DEFAULT_BREATH);
}
