//! Detectors: analyse a frame and emit events.
use vstd::prelude::*;

use crate::event::DetectionEvent;
use crate::frame::{Frame, FrameView};

pub mod ally_hp;
pub mod dialog;
pub mod genemon;
pub mod result;
pub mod round;
pub mod skill;

verus! {

/// A frame analyser that produces detection events.
pub trait Detector {
    /// The events that `analyze` gives for a frame with content `frame`.
    spec fn spec_analyze(&self, frame: FrameView) -> Seq<DetectionEvent>;

    /// Analyse one frame and return the detected events.
    fn analyze(&self, frame: &Frame) -> (events: Vec<DetectionEvent>)
        ensures
            events@ == self.spec_analyze(frame@),
    ;
}

} // verus!
