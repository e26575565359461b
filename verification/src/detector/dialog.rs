//! Dialog detection by two ROIs: text density and background darkness.
//!
//! Centered game dialogs (e.g. the "Tips" network error) overlay the screen
//! with a dark box holding white text. They are recognised by
//! 1. a high share of low-chroma bright pixels in the text ROI, and
//! 2. a high share of dark pixels in the background ROI.
use vstd::prelude::*;

use super::Detector;
use crate::color::{PixelRatio, count_dark, count_where, dark_pred, text_pixel_ratio, text_pred};
use crate::config::DialogDetectorConfig;
use crate::event::DetectionEvent;
use crate::frame::{Frame, FrameView};

verus! {

/// Detects centered dialog boxes by text density and background darkness.
#[derive(Debug)]
pub struct DialogDetector {
    config: DialogDetectorConfig,
}

/// Share of low-chroma bright pixels of `roi` under `config`.
pub open spec fn spec_dialog_text_ratio(config: DialogDetectorConfig, roi: FrameView) -> PixelRatio {
    PixelRatio {
        count: count_where(roi.pixels, text_pred(config.brightness_min, config.max_chroma)) as u64,
        total: roi.pixels.len() as u64,
    }
}

/// Share of dark pixels of `roi` under `config`.
pub open spec fn spec_bg_dark_ratio(config: DialogDetectorConfig, roi: FrameView) -> PixelRatio {
    PixelRatio {
        count: count_where(roi.pixels, dark_pred(config.bg_brightness_max)) as u64,
        total: roi.pixels.len() as u64,
    }
}

/// The zero ratio reported for the text ROI when the background is not dark.
pub open spec fn zero_ratio() -> PixelRatio {
    PixelRatio { count: 0, total: 0 }
}

/// Events of the dialog detector for a frame with content `f`: the background
/// ROI is checked first; the text ROI is only measured when the background
/// is dark enough.
pub open spec fn spec_dialog_events(config: DialogDetectorConfig, f: FrameView) -> Seq<
    DetectionEvent,
> {
    match config.bg_roi.spec_crop(f) {
        None => Seq::empty(),
        Some(bg) => {
            let bg_dark_ratio = spec_bg_dark_ratio(config, bg);
            let dark = bg_dark_ratio.spec_at_least(config.bg_dark_threshold);
            if dark && config.text_roi.spec_crop(f) is None {
                Seq::empty()
            } else {
                let text_ratio = if dark {
                    spec_dialog_text_ratio(config, config.text_roi.spec_crop(f)->0)
                } else {
                    zero_ratio()
                };
                if text_ratio.spec_at_least(config.text_presence_threshold) && dark {
                    seq![DetectionEvent::DialogVisible { text_ratio, bg_dark_ratio }]
                } else {
                    seq![DetectionEvent::DialogGone { text_ratio, bg_dark_ratio }]
                }
            }
        },
    }
}

impl DialogDetector {
    /// The detector's configuration.
    pub closed spec fn spec_config(&self) -> DialogDetectorConfig {
        self.config
    }

    /// Create a dialog detector with the given configuration.
    pub fn new(config: DialogDetectorConfig) -> (d: DialogDetector)
        ensures
            d.spec_config() == config,
    {
        DialogDetector { config }
    }

    /// Share of low-chroma bright (text-like) pixels in the text ROI.
    pub fn text_ratio(&self, roi_image: &Frame) -> (r: PixelRatio)
        ensures
            r == spec_dialog_text_ratio(self.spec_config(), roi_image@),
    {
        text_pixel_ratio(roi_image, self.config.brightness_min, self.config.max_chroma)
    }

    /// Share of dark pixels in the background ROI: a pixel is dark when its
    /// average brightness `(R+G+B)/3` is at most `bg_brightness_max`.
    pub fn bg_dark_ratio(&self, roi_image: &Frame) -> (r: PixelRatio)
        ensures
            r == spec_bg_dark_ratio(self.spec_config(), roi_image@),
    {
        count_dark(roi_image, self.config.bg_brightness_max)
    }
}

impl Detector for DialogDetector {
    closed spec fn spec_analyze(&self, frame: FrameView) -> Seq<DetectionEvent> {
        spec_dialog_events(self.config, frame)
    }

    fn analyze(&self, frame: &Frame) -> (events: Vec<DetectionEvent>)
        ensures
            events@ == spec_dialog_events(self.spec_config(), frame@),
    {
        let bg_roi = match self.config.bg_roi.crop(frame) {
            Some(r) => r,
            None => {
                return Vec::new();
            },
        };
        let bg_dark_ratio = self.bg_dark_ratio(&bg_roi);
        let dark = bg_dark_ratio.at_least(self.config.bg_dark_threshold);
        let text_ratio = if dark {
            let text_roi = match self.config.text_roi.crop(frame) {
                Some(r) => r,
                None => {
                    return Vec::new();
                },
            };
            self.text_ratio(&text_roi)
        } else {
            PixelRatio { count: 0, total: 0 }
        };
        let is_dialog = text_ratio.at_least(self.config.text_presence_threshold) && dark;
        let mut events: Vec<DetectionEvent> = Vec::new();
        if is_dialog {
            events.push(DetectionEvent::DialogVisible { text_ratio, bg_dark_ratio });
        } else {
            events.push(DetectionEvent::DialogGone { text_ratio, bg_dark_ratio });
        }
        assert(events@ =~= spec_dialog_events(self.config, frame@));
        events
    }
}

} // verus!
