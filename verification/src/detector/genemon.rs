//! Genemon liberation quest detection via OCR.
//!
//! The quest ROI is scanned for "ジェネモン" or "解放"; either keyword means the
//! quest is active. When OCR fails no event is produced.
use vstd::prelude::*;

use crate::config::GenemonDetectorConfig;
use crate::event::DetectionEvent;
use crate::frame::Frame;
use crate::ocr::OcrEngine;
use crate::text::{contains_exec, contains_seq, strip_ws, strip_whitespace};

verus! {

/// Detects the genemon liberation quest by OCR of the quest text area.
#[derive(Debug)]
pub struct GenemonDetector {
    config: GenemonDetectorConfig,
}

/// "ジェネモン"
pub open spec fn genemon_keyword() -> Seq<char> {
    seq!['ジ', 'ェ', 'ネ', 'モ', 'ン']
}

/// "解放"
pub open spec fn liberation_keyword() -> Seq<char> {
    seq!['解', '放']
}

/// Events for an OCR outcome: `GenemonVisible` when the whitespace-free text
/// contains "ジェネモン" or "解放", `GenemonGone` otherwise, nothing on failure.
pub open spec fn spec_genemon_events(result: Result<String, String>) -> Seq<DetectionEvent> {
    match result {
        Ok(text) => {
            let n = strip_ws(text@);
            if contains_seq(n, genemon_keyword()) || contains_seq(n, liberation_keyword()) {
                seq![DetectionEvent::GenemonVisible]
            } else {
                seq![DetectionEvent::GenemonGone]
            }
        },
        Err(_) => Seq::empty(),
    }
}

impl GenemonDetector {
    /// The detector's configuration.
    pub closed spec fn spec_config(&self) -> GenemonDetectorConfig {
        self.config
    }

    /// Create a genemon detector with the given configuration.
    pub fn new(config: GenemonDetectorConfig) -> (d: GenemonDetector)
        ensures
            d.spec_config() == config,
    {
        GenemonDetector { config }
    }

    /// The events for one OCR outcome of the quest ROI.
    pub fn events_for_ocr_result(result: Result<String, String>) -> (events: Vec<DetectionEvent>)
        ensures
            events@ == spec_genemon_events(result),
    {
        let mut events: Vec<DetectionEvent> = Vec::new();
        match result {
            Ok(text) => {
                let n = strip_whitespace(text.as_str());
                let k1 = vec!['ジ', 'ェ', 'ネ', 'モ', 'ン'];
                let k2 = vec!['解', '放'];
                assert(k1@ =~= genemon_keyword());
                assert(k2@ =~= liberation_keyword());
                if contains_exec(&n, &k1) || contains_exec(&n, &k2) {
                    events.push(DetectionEvent::GenemonVisible);
                } else {
                    events.push(DetectionEvent::GenemonGone);
                }
            },
            Err(_) => {},
        }
        assert(events@ =~= spec_genemon_events(result));
        events
    }

    /// Analyse a frame for the genemon quest with the given OCR engine.
    ///
    /// Nothing is produced when the ROI does not fit the frame; otherwise the
    /// engine is given the cropped ROI, and the events are those of
    /// [`Self::events_for_ocr_result`] for whatever it recognised there.
    pub fn analyze<O: OcrEngine>(&self, frame: &Frame, ocr: &O) -> (events: Vec<DetectionEvent>)
        ensures
            self.spec_config().quest_roi.spec_crop(frame@) is None ==> events@.len() == 0,
            self.spec_config().quest_roi.spec_crop(frame@) matches Some(c) ==> exists|r: Result<String, String>|
                (r matches Ok(t) ==> ocr.reads(c, t@)) && events@ == spec_genemon_events(r),
    {
        let roi_image = match self.config.quest_roi.crop(frame) {
            Some(r) => r,
            None => {
                return Vec::new();
            },
        };
        let result = ocr.recognize(&roi_image);
        let ghost r = result;
        let events = Self::events_for_ocr_result(result);
        assert(events@ == spec_genemon_events(r));
        events
    }
}

} // verus!
