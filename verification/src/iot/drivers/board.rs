use crate::iot::drivers::input::PollEntry;
use crate::iot::drivers::light::RgbLight;
use vstd::prelude::*;

verus! {

/// A hardware board instance. Implemented per board in the bsp crate.
pub trait Board: Sized {

}

/// Board exposing a light channel (an RGB light surface).
///
/// A channel may drive several pixels wired in the same chain (e.g. a WS2812
/// strip); boards with distinct light kinds add further `HasXxx` traits.
pub trait HasLight: Board {
    /// Owned light surface; `'static` so it can live behind a boxed renderer
    /// in the render task for the board's lifetime.
    type Light: RgbLight + 'static;

    /// Take the board's light. Returns `None` when not wired or already taken.
    fn take_light(&mut self) -> Option<Self::Light>;
}

/// Board providing the input sources for the input pipeline.
///
/// The board owns the wiring and the driver choice, so a touchscreen board
/// simply assembles different sources behind the same trait; the app consumes
/// the ready-made entries and never names a specific device.
pub trait HasInput: Board {
    /// Take the board's input sources. Returns `None` when no input is wired
    /// or it was already taken.
    fn take_input(&mut self) -> Option<Vec<PollEntry>>;
}

} // verus!
