//! Result screen detection via OCR of the "依頼終了" footer button.
use vstd::prelude::*;

use crate::config::ResultScreenRoiConfig;
use crate::event::DetectionEvent;
use crate::frame::Frame;
use crate::ocr::OcrEngine;
use crate::text::{contains_exec, contains_seq, strip_ws, strip_whitespace};

verus! {

/// Detects the result screen by OCR of the footer button text.
#[derive(Debug)]
pub struct ResultScreenDetector {
    config: ResultScreenRoiConfig,
}

/// "依頼終了"
pub open spec fn end_keyword() -> Seq<char> {
    seq!['依', '頼', '終', '了']
}

/// Events for an OCR outcome: `ResultScreenVisible` (carrying the text) when
/// the whitespace-free text contains "依頼終了", `ResultScreenGone`
/// otherwise, nothing on failure.
pub open spec fn spec_result_events(result: Result<String, String>) -> Seq<DetectionEvent> {
    match result {
        Ok(text) => {
            if contains_seq(strip_ws(text@), end_keyword()) {
                seq![DetectionEvent::ResultScreenVisible { text }]
            } else {
                seq![DetectionEvent::ResultScreenGone]
            }
        },
        Err(_) => Seq::empty(),
    }
}

impl ResultScreenDetector {
    /// The detector's configuration.
    pub closed spec fn spec_config(&self) -> ResultScreenRoiConfig {
        self.config
    }

    /// Create a result screen detector with the given ROI configuration.
    pub fn new(config: ResultScreenRoiConfig) -> (d: ResultScreenDetector)
        ensures
            d.spec_config() == config,
    {
        ResultScreenDetector { config }
    }

    /// The events for one OCR outcome of the footer ROI.
    pub fn events_for_ocr_result(result: Result<String, String>) -> (events: Vec<DetectionEvent>)
        ensures
            events@ == spec_result_events(result),
    {
        let ghost r = result;
        let mut events: Vec<DetectionEvent> = Vec::new();
        match result {
            Ok(text) => {
                let n = strip_whitespace(text.as_str());
                let k = vec!['依', '頼', '終', '了'];
                assert(k@ =~= end_keyword());
                if contains_exec(&n, &k) {
                    events.push(DetectionEvent::ResultScreenVisible { text });
                } else {
                    events.push(DetectionEvent::ResultScreenGone);
                }
            },
            Err(_) => {},
        }
        assert(events@ =~= spec_result_events(r));
        events
    }

    /// Analyse a frame for the result screen with the given OCR engine.
    ///
    /// Nothing is produced when the ROI does not fit the frame; otherwise the
    /// engine is given the cropped ROI, and the events are those of
    /// [`Self::events_for_ocr_result`] for whatever it recognised there.
    pub fn analyze<O: OcrEngine>(&self, frame: &Frame, ocr: &O) -> (events: Vec<DetectionEvent>)
        ensures
            self.spec_config().text.spec_crop(frame@) is None ==> events@.len() == 0,
            self.spec_config().text.spec_crop(frame@) matches Some(c) ==> exists|r: Result<String, String>|
                (r matches Ok(t) ==> ocr.reads(c, t@)) && events@ == spec_result_events(r),
    {
        let roi_image = match self.config.text.crop(frame) {
            Some(r) => r,
            None => {
                return Vec::new();
            },
        };
        let result = ocr.recognize(&roi_image);
        let ghost r = result;
        let events = Self::events_for_ocr_result(result);
        assert(events@ == spec_result_events(r));
        events
    }
}

} // verus!
