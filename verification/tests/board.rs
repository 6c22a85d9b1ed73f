use chobits::iot::drivers::board::{Board, HasInput, HasLight};
use chobits::iot::drivers::input::{BUTTON_SCAN_MS, Button, ButtonScanner, PassThrough, PollEntry};
use chobits::iot::drivers::light::{Fill, Rgb, RgbLight};

struct FakeLight {
    shown: Option<(Fill, Rgb)>,
}

impl RgbLight for FakeLight {
    fn shows(&self) -> Option<(Fill, Rgb)> {
        self.shown
    }

    fn set_rgb(&mut self, color: Rgb) {
        self.shown = Some((Fill::Uniform, color));
    }

    fn set_fill(&mut self, fill: Fill, color: Rgb) {
        self.shown = Some((fill, color));
    }
}

struct FakeButton;

impl Button for FakeButton {
    fn is_pressed(&self) -> bool {
        false
    }
}

struct FakeBoard {
    light: Option<FakeLight>,
    input: Option<Vec<PollEntry>>,
}

impl Board for FakeBoard {}

impl HasLight for FakeBoard {
    type Light = FakeLight;

    fn take_light(&mut self) -> Option<Self::Light> {
        self.light.take()
    }
}

impl HasInput for FakeBoard {
    fn take_input(&mut self) -> Option<Vec<PollEntry>> {
        self.input.take()
    }
}

#[test]
fn has_light_delivers_the_board_light_once() {
    let mut board = FakeBoard {
        light: Some(FakeLight { shown: None }),
        input: None,
    };
    let mut light = board.take_light().expect("light present");
    light.set_rgb(Rgb(1, 2, 3));
    assert!(board.take_light().is_none(), "taken exactly once");
}

#[test]
fn has_input_delivers_sources_then_none() {
    let mut board = FakeBoard {
        light: None,
        input: Some(vec![PollEntry::new(
            Box::new(ButtonScanner::new(FakeButton)),
            Box::new(PassThrough),
            BUTTON_SCAN_MS,
        )]),
    };
    let sources = board.take_input().expect("input present");
    assert_eq!(sources.len(), 1);
    assert_eq!(sources[0].cadence_ms(), BUTTON_SCAN_MS);
    assert!(board.take_input().is_none(), "taken exactly once");
}
