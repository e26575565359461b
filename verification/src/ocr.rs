//! Platform-independent OCR abstraction.
//!
//! Detectors request text recognition through [`OcrEngine`]; the concrete
//! engine (Windows OCR) is supplied by the application.
use vstd::prelude::*;

use crate::frame::{Frame, FrameView};

verus! {

/// Text recognition over an image region.
///
/// Each engine says, through [`OcrEngine::reads`], which texts it may
/// recognise in which images; nothing more is assumed of what it returns,
/// and detectors state their results for every recognition outcome.
pub trait OcrEngine {
    /// The engine may recognise `text` in an image with content `image`.
    /// An engine that does not say more may recognise anything.
    open spec fn reads(&self, image: FrameView, text: Seq<char>) -> bool {
        true
    }

    /// Recognise the text in an RGBA image region; an error message on failure.
    fn recognize(&self, image: &Frame) -> (r: Result<String, String>)
        ensures
            r matches Ok(t) ==> self.reads(image@, t@),
    ;
}

} // verus!
