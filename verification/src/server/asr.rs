use vstd::prelude::*;

verus! {

/// Whether the speech model transcribes in the spoken language or translates
/// into English.
#[derive(Clone, Copy, Debug)]
pub enum Task {
    Transcribe,
    Translate,
}

/// A recognizer that hears nothing: every transcription is empty.
pub struct AsrVoid {}

impl AsrVoid {
    pub fn new() -> (r: Self) {
        Self {  }
    }
}

} // verus!
