//! Q skill SP depletion, seen as the skill icon turning grey.
//!
//! When SP is exhausted the icon's highest brightness drops from about 255 to
//! about 100 and its bright pixels disappear.
use vstd::prelude::*;

use super::Detector;
use crate::color::{PixelRatio, bright_metrics, bright_pred, count_where, max_brightness};
use crate::config::SkillDetectorConfig;
use crate::event::DetectionEvent;
use crate::frame::{Frame, FrameView};

verus! {

/// Detects whether the Q skill icon is greyed out (SP depleted).
#[derive(Debug)]
pub struct SkillDetector {
    config: SkillDetectorConfig,
}

/// Share of bright icon pixels and the highest brightness of `roi`.
pub open spec fn spec_icon_metrics(config: SkillDetectorConfig, roi: FrameView) -> (PixelRatio, u8) {
    (
        PixelRatio {
            count: count_where(roi.pixels, bright_pred(config.icon_brightness_min)) as u64,
            total: roi.pixels.len() as u64,
        },
        max_brightness(roi.pixels) as u8,
    )
}

/// Events of the skill detector for a frame with content `f`: greyed when the
/// highest brightness is below `greyed_max_brightness` and the bright share is
/// below `icon_bright_threshold`.
pub open spec fn spec_skill_events(config: SkillDetectorConfig, f: FrameView) -> Seq<
    DetectionEvent,
> {
    match config.roi.spec_crop(f) {
        None => Seq::empty(),
        Some(roi) => {
            let (icon_bright_ratio, max_brightness) = spec_icon_metrics(config, roi);
            if max_brightness < config.greyed_max_brightness && !icon_bright_ratio.spec_at_least(
                config.icon_bright_threshold,
            ) {
                seq![DetectionEvent::SkillGreyed { icon_bright_ratio, max_brightness }]
            } else {
                seq![DetectionEvent::SkillReady { icon_bright_ratio, max_brightness }]
            }
        },
    }
}

impl SkillDetector {
    /// The detector's configuration.
    pub closed spec fn spec_config(&self) -> SkillDetectorConfig {
        self.config
    }

    /// Create a skill detector with the given configuration.
    pub fn new(config: SkillDetectorConfig) -> (d: SkillDetector)
        ensures
            d.spec_config() == config,
    {
        SkillDetector { config }
    }

    /// Share of bright icon pixels and the highest average brightness.
    pub fn icon_metrics(&self, roi_image: &Frame) -> (r: (PixelRatio, u8))
        ensures
            r == spec_icon_metrics(self.spec_config(), roi_image@),
    {
        bright_metrics(roi_image, self.config.icon_brightness_min)
    }
}

impl Detector for SkillDetector {
    closed spec fn spec_analyze(&self, frame: FrameView) -> Seq<DetectionEvent> {
        spec_skill_events(self.config, frame)
    }

    fn analyze(&self, frame: &Frame) -> (events: Vec<DetectionEvent>)
        ensures
            events@ == spec_skill_events(self.spec_config(), frame@),
    {
        let roi_image = match self.config.roi.crop(frame) {
            Some(r) => r,
            None => {
                return Vec::new();
            },
        };
        let (icon_bright_ratio, max_brightness) = self.icon_metrics(&roi_image);
        let is_greyed = max_brightness < self.config.greyed_max_brightness
            && !icon_bright_ratio.at_least(self.config.icon_bright_threshold);
        let mut events: Vec<DetectionEvent> = Vec::new();
        if is_greyed {
            events.push(DetectionEvent::SkillGreyed { icon_bright_ratio, max_brightness });
        } else {
            events.push(DetectionEvent::SkillReady { icon_bright_ratio, max_brightness });
        }
        assert(events@ =~= spec_skill_events(self.config, frame@));
        events
    }
}

} // verus!
