//! Configuration of the detectors. Ratios and thresholds are in basis
//! points (1/10000).
use vstd::prelude::*;

use crate::color::HsvRange;
use crate::roi::RoiDefinition;

verus! {

/// Top-level detection configuration.
#[derive(Clone, Copy, Debug, PartialEq, Eq)]
pub struct DetectionConfig {
    /// Round detector settings.
    pub round: RoundDetectorConfig,
    /// Dialog detector settings.
    pub dialog: DialogDetectorConfig,
}

/// Configuration of the dialog detector.
///
/// Centered dialog boxes (e.g. the "Tips" network error) are detected by two
/// criteria: dense low-chroma text in a text ROI and a dark background in a
/// surrounding background ROI.
#[derive(Clone, Copy, Debug, PartialEq, Eq)]
pub struct DialogDetectorConfig {
    /// ROI of the error message text band (centre of the dialog).
    pub text_roi: RoiDefinition,
    /// ROI of the dialog's dark background.
    pub bg_roi: RoiDefinition,
    /// ROI for OCR confirmation of the dialog title ("Tips").
    pub ocr_roi: RoiDefinition,
    /// Minimum share of low-chroma text pixels, in basis points.
    pub text_presence_threshold: u32,
    /// Minimum share of dark pixels in the background ROI, in basis points.
    pub bg_dark_threshold: u32,
    /// Minimum average brightness for a text candidate pixel.
    pub brightness_min: u8,
    /// Maximum chroma (max(R,G,B) - min(R,G,B)) of text pixels (exclusive).
    pub max_chroma: u8,
    /// Maximum average brightness of a dark background pixel.
    pub bg_brightness_max: u8,
}

/// Configuration of the round detector ("探検 現在のラウンド：XX" text).
#[derive(Clone, Copy, Debug, PartialEq, Eq)]
pub struct RoundDetectorConfig {
    /// ROI of the round text (pixel detection and OCR).
    pub roi: RoiDefinition,
    /// Minimum share of text pixels, in basis points.
    pub text_presence_threshold: u32,
    /// Minimum average brightness (0-255) of a text candidate pixel.
    pub brightness_min: u8,
    /// Maximum chroma (exclusive), filtering out colourful combat effects.
    pub max_chroma: u8,
    /// Minimum highest brightness in the left quarter of the ROI.
    pub text_left_brightness_min: u8,
}

/// ROIs of the round selection screen ("自動周回中"), shown 3-5 seconds after
/// each round.
#[derive(Clone, Copy, Debug, PartialEq, Eq)]
pub struct RoundNumberRoiConfig {
    /// ROI of the "自動周回中（X/Y）" header text.
    pub select_header: RoiDefinition,
    /// ROI of the next round entry on the right panel.
    pub select_next_round: RoiDefinition,
    /// ROI of the latest completed round on the left panel.
    pub select_completed_round: RoiDefinition,
}

/// ROI of the "依頼終了" button text in the bottom-right footer of the result screen.
#[derive(Clone, Copy, Debug, PartialEq, Eq)]
pub struct ResultScreenRoiConfig {
    /// ROI of the "依頼終了" text area.
    pub text: RoiDefinition,
}

/// Configuration of the ally HP detector.
#[derive(Clone, Copy, Debug, PartialEq, Eq)]
pub struct AllyHpDetectorConfig {
    /// ROI of the ally status bar.
    pub roi: RoiDefinition,
    /// Colour of the HP bar.
    pub hp_color_range: HsvRange,
    /// Share of HP-coloured pixels below which the ally is "down", in basis points.
    pub down_threshold: u32,
}

/// Configuration of the Q skill detector.
#[derive(Clone, Copy, Debug, PartialEq, Eq)]
pub struct SkillDetectorConfig {
    /// ROI of the skill icon.
    pub roi: RoiDefinition,
    /// The icon is greyed when its highest brightness is below this.
    pub greyed_max_brightness: u8,
    /// ... and its share of bright pixels is below this, in basis points.
    pub icon_bright_threshold: u32,
    /// Minimum average brightness of a bright icon pixel.
    pub icon_brightness_min: u8,
}

/// Configuration of the genemon quest detector.
#[derive(Clone, Copy, Debug, PartialEq, Eq)]
pub struct GenemonDetectorConfig {
    /// ROI of the quest text.
    pub quest_roi: RoiDefinition,
}

/// Shorthand for a ROI literal.
pub open spec fn roi(x: u32, y: u32, width: u32, height: u32) -> RoiDefinition {
    RoiDefinition { x, y, width, height }
}

impl RoundNumberRoiConfig {
    /// Built-in ROIs of the round selection screen.
    pub open spec fn spec_default() -> RoundNumberRoiConfig {
        RoundNumberRoiConfig {
            select_header: roi(2000, 600, 6000, 800),
            select_next_round: roi(5000, 3200, 1500, 1200),
            select_completed_round: roi(1700, 2800, 1500, 1500),
        }
    }

    /// Built-in ROIs of the round selection screen.
    pub fn const_default() -> (c: RoundNumberRoiConfig)
        ensures
            c == Self::spec_default(),
    {
        RoundNumberRoiConfig {
            select_header: RoiDefinition { x: 2000, y: 600, width: 6000, height: 800 },
            select_next_round: RoiDefinition { x: 5000, y: 3200, width: 1500, height: 1200 },
            select_completed_round: RoiDefinition { x: 1700, y: 2800, width: 1500, height: 1500 },
        }
    }
}

impl Default for RoundNumberRoiConfig {
    fn default() -> (c: RoundNumberRoiConfig)
        ensures
            c == Self::spec_default(),
    {
        Self::const_default()
    }
}

impl ResultScreenRoiConfig {
    /// Built-in ROI of the result screen footer.
    pub open spec fn spec_default() -> ResultScreenRoiConfig {
        ResultScreenRoiConfig { text: roi(8500, 9300, 1500, 700) }
    }

    /// Built-in ROI of the result screen footer.
    pub fn const_default() -> (c: ResultScreenRoiConfig)
        ensures
            c == Self::spec_default(),
    {
        ResultScreenRoiConfig { text: RoiDefinition { x: 8500, y: 9300, width: 1500, height: 700 } }
    }
}

impl Default for ResultScreenRoiConfig {
    fn default() -> (c: ResultScreenRoiConfig)
        ensures
            c == Self::spec_default(),
    {
        Self::const_default()
    }
}

impl DetectionConfig {
    /// Built-in detection configuration.
    pub open spec fn spec_default() -> DetectionConfig {
        DetectionConfig {
            round: RoundDetectorConfig {
                roi: roi(0, 2500, 2370, 1000),
                text_presence_threshold: 300,
                brightness_min: 140,
                max_chroma: 60,
                text_left_brightness_min: 200,
            },
            dialog: DialogDetectorConfig {
                text_roi: roi(3100, 4500, 3700, 300),
                bg_roi: roi(2500, 4000, 5000, 1500),
                ocr_roi: roi(2500, 3500, 5000, 2000),
                text_presence_threshold: 500,
                bg_dark_threshold: 7000,
                brightness_min: 80,
                max_chroma: 60,
                bg_brightness_max: 50,
            },
        }
    }
}

impl Default for DetectionConfig {
    fn default() -> (c: DetectionConfig)
        ensures
            c == Self::spec_default(),
    {
        DetectionConfig {
            round: RoundDetectorConfig {
                roi: RoiDefinition { x: 0, y: 2500, width: 2370, height: 1000 },
                text_presence_threshold: 300,
                brightness_min: 140,
                max_chroma: 60,
                text_left_brightness_min: 200,
            },
            dialog: DialogDetectorConfig {
                text_roi: RoiDefinition { x: 3100, y: 4500, width: 3700, height: 300 },
                bg_roi: RoiDefinition { x: 2500, y: 4000, width: 5000, height: 1500 },
                ocr_roi: RoiDefinition { x: 2500, y: 3500, width: 5000, height: 2000 },
                text_presence_threshold: 500,
                bg_dark_threshold: 7000,
                brightness_min: 80,
                max_chroma: 60,
                bg_brightness_max: 50,
            },
        }
    }
}

} // verus!
