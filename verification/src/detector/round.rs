//! Round text detection via the share of bright, low-chroma pixels.
//!
//! The round indicator ("探検 現在のラウンド：XX") is neutral white/grey text;
//! combat effects are bright but colourful, so both high brightness and low
//! chroma are required.
use vstd::prelude::*;

use super::Detector;
use crate::color::{
    PixelRatio, brightness, count_where, lemma_count_where_bound, pixel_brightness, ratio_at_least,
    text_pixel_ratio, text_pred,
};
use crate::config::RoundDetectorConfig;
use crate::event::DetectionEvent;
use crate::frame::{Frame, FrameView};

verus! {

/// Detects round text presence or absence by text-like pixel density.
#[derive(Debug)]
pub struct RoundDetector {
    config: RoundDetectorConfig,
}

/// Share of text-like pixels of `roi` under `config`.
pub open spec fn spec_text_ratio(config: RoundDetectorConfig, roi: FrameView) -> PixelRatio {
    PixelRatio {
        count: count_where(roi.pixels, text_pred(config.brightness_min, config.max_chroma)) as u64,
        total: roi.pixels.len() as u64,
    }
}

/// Whether the left quarter of `roi` holds a pixel of brightness at least `min`
/// (a left quarter of zero width never does; a minimum of 0 is always met).
pub open spec fn spec_bright_left(roi: FrameView, min: u8) -> bool {
    let q = roi.width / 4;
    q > 0 && (min == 0 || exists|x: int, y: int|
        0 <= x < q && 0 <= y < roi.height && brightness(#[trigger] roi.pixel(x, y)) >= min)
}

/// Events of the round detector for a frame with content `f`.
pub open spec fn spec_round_events(config: RoundDetectorConfig, f: FrameView) -> Seq<
    DetectionEvent,
> {
    match config.roi.spec_crop(f) {
        None => Seq::empty(),
        Some(roi) => {
            let ratio = spec_text_ratio(config, roi);
            if ratio.spec_at_least(config.text_presence_threshold) && spec_bright_left(
                roi,
                config.text_left_brightness_min,
            ) {
                seq![
                    DetectionEvent::RoundVisible {
                        text_present: true,
                        white_ratio: ratio,
                        round_number: None,
                    },
                ]
            } else {
                seq![DetectionEvent::RoundGone { white_ratio: ratio }]
            }
        },
    }
}

impl RoundDetector {
    /// The detector's configuration.
    pub closed spec fn spec_config(&self) -> RoundDetectorConfig {
        self.config
    }

    /// Create a round detector with the given configuration.
    pub fn new(config: RoundDetectorConfig) -> (d: RoundDetector)
        ensures
            d.spec_config() == config,
    {
        RoundDetector { config }
    }

    /// Share of text-like pixels in a cropped ROI image.
    pub fn text_ratio(&self, roi_image: &Frame) -> (r: PixelRatio)
        ensures
            r == spec_text_ratio(self.spec_config(), roi_image@),
    {
        text_pixel_ratio(roi_image, self.config.brightness_min, self.config.max_chroma)
    }

    /// Whether the left quarter of the ROI contains bright white text.
    ///
    /// The round text always starts at the left edge with white characters;
    /// result screens and other backgrounds never reach this brightness there.
    pub fn has_bright_text_left(&self, roi_image: &Frame) -> (r: bool)
        ensures
            r == spec_bright_left(roi_image@, self.spec_config().text_left_brightness_min),
    {
        let quarter_w = roi_image.width() / 4;
        if quarter_w == 0 {
            return false;
        }
        let min = self.config.text_left_brightness_min;
        let h = roi_image.height();
        let mut y: u32 = 0;
        while y < h
            invariant
                h == roi_image@.height,
                quarter_w == roi_image@.width / 4,
                min == self.config.text_left_brightness_min,
                y <= h,
                forall|px: int, py: int|
                    0 <= px < quarter_w && 0 <= py < y ==> brightness(
                        #[trigger] roi_image@.pixel(px, py),
                    ) < min,
            decreases h - y,
        {
            let mut x: u32 = 0;
            while x < quarter_w
                invariant
                    h == roi_image@.height,
                    quarter_w == roi_image@.width / 4,
                    min == self.config.text_left_brightness_min,
                    y < h,
                    x <= quarter_w,
                    forall|px: int, py: int|
                        0 <= px < quarter_w && 0 <= py < y ==> brightness(
                            #[trigger] roi_image@.pixel(px, py),
                        ) < min,
                    forall|px: int| 0 <= px < x ==> brightness(#[trigger] roi_image@.pixel(px, y as int)) < min,
                decreases quarter_w - x,
            {
                let p = roi_image.get_pixel(x, y);
                if pixel_brightness(p.0) >= min {
                    assert(brightness(roi_image@.pixel(x as int, y as int)) >= min);
                    assert(0 <= x < roi_image@.width / 4 && 0 <= y < roi_image@.height);
                    assert(exists|x1: int, y1: int|
                        0 <= x1 < roi_image@.width / 4 && 0 <= y1 < roi_image@.height && brightness(
                            #[trigger] roi_image@.pixel(x1, y1),
                        ) >= min);
                    return true;
                }
                x = x + 1;
            }
            y = y + 1;
        }
        min == 0
    }
}

impl Detector for RoundDetector {
    closed spec fn spec_analyze(&self, frame: FrameView) -> Seq<DetectionEvent> {
        spec_round_events(self.config, frame)
    }

    fn analyze(&self, frame: &Frame) -> (events: Vec<DetectionEvent>)
        ensures
            events@ == spec_round_events(self.spec_config(), frame@),
    {
        let roi_image = match self.config.roi.crop(frame) {
            Some(r) => r,
            None => {
                return Vec::new();
            },
        };
        let ratio = self.text_ratio(&roi_image);
        let has_bright_left = self.has_bright_text_left(&roi_image);
        let has_text = ratio.at_least(self.config.text_presence_threshold) && has_bright_left;
        let mut events: Vec<DetectionEvent> = Vec::new();
        if has_text {
            events.push(
                DetectionEvent::RoundVisible { text_present: true, white_ratio: ratio, round_number: None },
            );
        } else {
            events.push(DetectionEvent::RoundGone { white_ratio: ratio });
        }
        assert(events@ =~= spec_round_events(self.config, frame@));
        events
    }
}

/// Round text is reported only when both tests pass: the text-like pixels
/// make up at least `text_presence_threshold` of the ROI, and the ROI's left
/// quarter holds a bright pixel. A frame whose text-like share is below the
/// threshold is reported as `RoundGone`, whatever its left quarter holds.
pub proof fn law_round_needs_text_share_and_bright_left(config: RoundDetectorConfig, f: FrameView)
    ensures
        config.roi.spec_crop(f) matches Some(roi) ==> roi.pixels.len() <= u64::MAX ==> ({
            let events = spec_round_events(config, f);
            let count = count_where(roi.pixels, text_pred(config.brightness_min, config.max_chroma));
            let share = ratio_at_least(count, roi.pixels.len(), config.text_presence_threshold as nat);
            &&& events.len() == 1
            &&& (events[0] is RoundVisible <==> share && spec_bright_left(roi, config.text_left_brightness_min))
            &&& (!share ==> events[0] is RoundGone)
        }),
        config.roi.spec_crop(f) is None ==> spec_round_events(config, f).len() == 0,
{
    if let Some(roi) = config.roi.spec_crop(f) {
        lemma_count_where_bound(roi.pixels, text_pred(config.brightness_min, config.max_chroma));
    }
}

} // verus!
