//! Ally HP detection by the share of HP-coloured pixels.
use vstd::prelude::*;

use super::Detector;
use crate::color::{PixelRatio, count_hsv, count_where, hsv_pred};
use crate::config::AllyHpDetectorConfig;
use crate::event::DetectionEvent;
use crate::frame::{Frame, FrameView};

verus! {

/// Detects whether an ally is "down" by the share of HP-coloured pixels in
/// the ally status ROI.
#[derive(Debug)]
pub struct AllyHpDetector {
    config: AllyHpDetectorConfig,
    /// Which ally this detector monitors (0-indexed).
    ally_index: u8,
}

/// Share of HP-coloured pixels of `roi`.
pub open spec fn spec_hp_ratio(config: AllyHpDetectorConfig, roi: FrameView) -> PixelRatio {
    PixelRatio {
        count: count_where(roi.pixels, hsv_pred(config.hp_color_range)) as u64,
        total: roi.pixels.len() as u64,
    }
}

/// Events of the ally HP detector for a frame with content `f`.
pub open spec fn spec_ally_hp_events(config: AllyHpDetectorConfig, ally_index: u8, f: FrameView) -> Seq<
    DetectionEvent,
> {
    match config.roi.spec_crop(f) {
        None => Seq::empty(),
        Some(roi) => {
            let hp_ratio = spec_hp_ratio(config, roi);
            if !hp_ratio.spec_at_least(config.down_threshold) {
                seq![DetectionEvent::AllyHpLow { ally_index, hp_ratio }]
            } else {
                seq![DetectionEvent::AllyHpNormal { ally_index, hp_ratio }]
            }
        },
    }
}

impl AllyHpDetector {
    /// The detector's configuration.
    pub closed spec fn spec_config(&self) -> AllyHpDetectorConfig {
        self.config
    }

    /// The monitored ally.
    pub closed spec fn spec_ally_index(&self) -> u8 {
        self.ally_index
    }

    /// Create an ally HP detector for one ally.
    pub fn new(config: AllyHpDetectorConfig, ally_index: u8) -> (d: AllyHpDetector)
        ensures
            d.spec_config() == config,
            d.spec_ally_index() == ally_index,
    {
        AllyHpDetector { config, ally_index }
    }

    /// Share of HP-coloured pixels in a cropped ROI image.
    pub fn hp_ratio(&self, roi_image: &Frame) -> (r: PixelRatio)
        ensures
            r == spec_hp_ratio(self.spec_config(), roi_image@),
    {
        count_hsv(roi_image, &self.config.hp_color_range)
    }
}

impl Detector for AllyHpDetector {
    closed spec fn spec_analyze(&self, frame: FrameView) -> Seq<DetectionEvent> {
        spec_ally_hp_events(self.config, self.ally_index, frame)
    }

    fn analyze(&self, frame: &Frame) -> (events: Vec<DetectionEvent>)
        ensures
            events@ == spec_ally_hp_events(self.spec_config(), self.spec_ally_index(), frame@),
    {
        let roi_image = match self.config.roi.crop(frame) {
            Some(r) => r,
            None => {
                return Vec::new();
            },
        };
        let hp_ratio = self.hp_ratio(&roi_image);
        let mut events: Vec<DetectionEvent> = Vec::new();
        if !hp_ratio.at_least(self.config.down_threshold) {
            events.push(DetectionEvent::AllyHpLow { ally_index: self.ally_index, hp_ratio });
        } else {
            events.push(DetectionEvent::AllyHpNormal { ally_index: self.ally_index, hp_ratio });
        }
        assert(events@ =~= spec_ally_hp_events(self.config, self.ally_index, frame@));
        events
    }
}

} // verus!
