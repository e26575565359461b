//! Detection events emitted by the detection pipeline.
use vstd::prelude::*;

use crate::color::PixelRatio;

verus! {

/// Events produced by analysing game frames.
#[derive(Debug)]
#[allow(inconsistent_fields)]
pub enum DetectionEvent {
    /// Round text is visible.
    RoundVisible {
        /// Whether round text presence was detected via pixel density.
        text_present: bool,
        /// Share of text-like pixels in the ROI.
        white_ratio: PixelRatio,
        /// OCR-recognised round number (None if OCR was unavailable or failed).
        round_number: Option<u32>,
    },
    /// Round text has disappeared (possible stage completion).
    RoundGone {
        /// Share of text-like pixels in the ROI.
        white_ratio: PixelRatio,
    },
    /// A dialog box (e.g. the network error "Tips") is visible on screen.
    DialogVisible {
        /// Share of low-chroma text pixels in the text ROI.
        text_ratio: PixelRatio,
        /// Share of dark pixels in the background ROI.
        bg_dark_ratio: PixelRatio,
    },
    /// No dialog box detected.
    DialogGone {
        /// Share of low-chroma text pixels in the text ROI.
        text_ratio: PixelRatio,
        /// Share of dark pixels in the background ROI.
        bg_dark_ratio: PixelRatio,
    },
    /// Result screen recognised by OCR ("依頼終了").
    ResultScreenVisible {
        /// OCR-recognised text.
        text: String,
    },
    /// Result screen no longer visible.
    ResultScreenGone,
    /// Round end screen ("XX ラウンド終了").
    RoundEndScreen {
        /// Completed round number (1-99).
        round_number: u32,
    },
    /// Round selection screen ("自動周回中").
    RoundSelectScreen {
        /// Next round number from the right panel (1-99).
        next_round: Option<u32>,
        /// Latest completed round from the left panel (1-99).
        completed_round: Option<u32>,
    },
    /// The genemon liberation quest is shown.
    GenemonVisible,
    /// The genemon liberation quest is not shown.
    GenemonGone,
    /// The Q skill icon is lit (SP available).
    SkillReady {
        /// Share of bright icon pixels.
        icon_bright_ratio: PixelRatio,
        /// Highest average brightness in the icon.
        max_brightness: u8,
    },
    /// The Q skill icon is greyed out (SP depleted).
    SkillGreyed {
        /// Share of bright icon pixels.
        icon_bright_ratio: PixelRatio,
        /// Highest average brightness in the icon.
        max_brightness: u8,
    },
    /// An ally's HP bar is nearly empty.
    AllyHpLow {
        /// Which ally (0-indexed).
        ally_index: u8,
        /// Share of HP-coloured pixels.
        hp_ratio: PixelRatio,
    },
    /// An ally's HP bar is not empty.
    AllyHpNormal {
        /// Which ally (0-indexed).
        ally_index: u8,
        /// Share of HP-coloured pixels.
        hp_ratio: PixelRatio,
    },
}

} // verus!
