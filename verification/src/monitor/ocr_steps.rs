//! OCR checks of the monitor loop: confirming pixel detections by the text
//! in their region, and reading round numbers from the round selection screen.
use vstd::prelude::*;

use crate::capture::{binarize_white_text, binarized_view};
use crate::config::{DetectionConfig, RoundNumberRoiConfig};
use crate::event::DetectionEvent;
use crate::frame::{Frame, FrameView};
use crate::ocr::OcrEngine;
use crate::roi::RoiDefinition;
use crate::round_number::{
    is_round_select_text,
    parse,
    parse_select_header,
    round_select_marker,
    spec_parse,
    spec_parse_select_header,
};
use crate::text::{contains_exec, contains_seq, str_chars, strip_whitespace, strip_ws};

verus! {

/// Brightness threshold for binarising white text before OCR.
pub const OCR_BINARIZE_THRESHOLD: u8 = 140;

/// OCR text of the round ROI that confirms round text ("ラウンド").
pub open spec fn round_text_seen(text: Seq<char>) -> bool {
    contains_seq(strip_ws(text), "ラウンド"@)
}

/// OCR text of the dialog ROI that shows the "Tips" title.
pub open spec fn tips_seen(text: Seq<char>) -> bool {
    contains_seq(strip_ws(text), "Tips"@) || contains_seq(strip_ws(text), "tips"@)
}

/// An event after the round-text OCR read `text`: `RoundVisible` takes the
/// round number parsed from the text when round text is present, and
/// becomes `RoundGone` (a pixel false positive) when it is not.
pub open spec fn with_round_ocr(e: DetectionEvent, text: Seq<char>) -> DetectionEvent {
    match e {
        DetectionEvent::RoundVisible { text_present, white_ratio, .. } => if round_text_seen(text) {
            DetectionEvent::RoundVisible { text_present, white_ratio, round_number: spec_parse(text) }
        } else {
            DetectionEvent::RoundGone { white_ratio }
        },
        _ => e,
    }
}

/// An event after the dialog OCR read `text`: `DialogVisible` without the
/// "Tips" title becomes `DialogGone`.
pub open spec fn with_dialog_ocr(e: DetectionEvent, text: Seq<char>) -> DetectionEvent {
    match e {
        DetectionEvent::DialogVisible { text_ratio, bg_dark_ratio } => if tips_seen(text) {
            e
        } else {
            DetectionEvent::DialogGone { text_ratio, bg_dark_ratio }
        },
        _ => e,
    }
}

/// Events after the round OCR, applied to each event.
pub open spec fn round_ocr_applied(es: Seq<DetectionEvent>, text: Seq<char>) -> Seq<DetectionEvent> {
    es.map_values(|e: DetectionEvent| with_round_ocr(e, text))
}

/// Events after the dialog OCR, applied to each event.
pub open spec fn dialog_ocr_applied(es: Seq<DetectionEvent>, text: Seq<char>) -> Seq<DetectionEvent> {
    es.map_values(|e: DetectionEvent| with_dialog_ocr(e, text))
}

/// Some event is `RoundVisible`.
pub open spec fn any_round_visible(es: Seq<DetectionEvent>) -> bool {
    exists|i: int| 0 <= i < es.len() && (#[trigger] es[i]) is RoundVisible
}

/// Some event is `DialogVisible`.
pub open spec fn any_dialog_visible(es: Seq<DetectionEvent>) -> bool {
    exists|i: int| 0 <= i < es.len() && (#[trigger] es[i]) is DialogVisible
}

fn has_round_visible(events: &Vec<DetectionEvent>) -> (r: bool)
    ensures
        r == any_round_visible(events@),
{
    let mut i: usize = 0;
    while i < events.len()
        invariant
            i <= events.len(),
            forall|j: int| 0 <= j < i ==> !((#[trigger] events@[j]) is RoundVisible),
        decreases events.len() - i,
    {
        if let DetectionEvent::RoundVisible { .. } = &events[i] {
            return true;
        }
        i = i + 1;
    }
    false
}

fn has_dialog_visible(events: &Vec<DetectionEvent>) -> (r: bool)
    ensures
        r == any_dialog_visible(events@),
{
    let mut i: usize = 0;
    while i < events.len()
        invariant
            i <= events.len(),
            forall|j: int| 0 <= j < i ==> !((#[trigger] events@[j]) is DialogVisible),
        decreases events.len() - i,
    {
        if let DetectionEvent::DialogVisible { .. } = &events[i] {
            return true;
        }
        i = i + 1;
    }
    false
}

/// Whether OCR text of the round ROI confirms round text.
pub fn has_round_text(text: &str) -> (r: bool)
    ensures
        r == round_text_seen(text@),
{
    let n = strip_whitespace(text);
    let marker = str_chars("ラウンド");
    contains_exec(&n, &marker)
}

/// Whether OCR text of the dialog ROI shows the "Tips" title.
pub fn has_tips_title(text: &str) -> (r: bool)
    ensures
        r == tips_seen(text@),
{
    let n = strip_whitespace(text);
    let upper = str_chars("Tips");
    let lower = str_chars("tips");
    contains_exec(&n, &upper) || contains_exec(&n, &lower)
}

/// Apply the round-text OCR reading `text` to every event.
pub fn apply_round_ocr(events: &mut Vec<DetectionEvent>, text: &str)
    ensures
        final(events)@ == round_ocr_applied(old(events)@, text@),
{
    let seen = has_round_text(text);
    let number = parse(text);
    let ghost orig = events@;
    let mut i: usize = 0;
    while i < events.len()
        invariant
            events@.len() == orig.len(),
            i <= events.len(),
            forall|j: int| 0 <= j < i ==> events@[j] == with_round_ocr(orig[j], text@),
            forall|j: int| i <= j < events@.len() ==> events@[j] == orig[j],
            seen == round_text_seen(text@),
            number == spec_parse(text@),
        decreases events.len() - i,
    {
        let e = events.remove(i);
        let updated = match e {
            DetectionEvent::RoundVisible { text_present, white_ratio, .. } => {
                if seen {
                    DetectionEvent::RoundVisible { text_present, white_ratio, round_number: number }
                } else {
                    DetectionEvent::RoundGone { white_ratio }
                }
            },
            other => other,
        };
        events.insert(i, updated);
        i = i + 1;
    }
    assert(events@ =~= round_ocr_applied(orig, text@));
}

/// Apply the dialog OCR reading `text` to every event.
pub fn apply_dialog_ocr(events: &mut Vec<DetectionEvent>, text: &str)
    ensures
        final(events)@ == dialog_ocr_applied(old(events)@, text@),
{
    let seen = has_tips_title(text);
    let ghost orig = events@;
    let mut i: usize = 0;
    while i < events.len()
        invariant
            events@.len() == orig.len(),
            i <= events.len(),
            forall|j: int| 0 <= j < i ==> events@[j] == with_dialog_ocr(orig[j], text@),
            forall|j: int| i <= j < events@.len() ==> events@[j] == orig[j],
            seen == tips_seen(text@),
        decreases events.len() - i,
    {
        let e = events.remove(i);
        let updated = match e {
            DetectionEvent::DialogVisible { text_ratio, bg_dark_ratio } => {
                if seen {
                    DetectionEvent::DialogVisible { text_ratio, bg_dark_ratio }
                } else {
                    DetectionEvent::DialogGone { text_ratio, bg_dark_ratio }
                }
            },
            other => other,
        };
        events.insert(i, updated);
        i = i + 1;
    }
    assert(events@ =~= dialog_ocr_applied(orig, text@));
}

/// The image handed to the OCR engine for `roi` of a frame with content
/// `f`: the region cropped and binarised; none when the region does not fit.
pub open spec fn ocr_input(roi: RoiDefinition, f: FrameView) -> Option<FrameView> {
    match roi.spec_crop(f) {
        Some(c) => Some(binarized_view(c, OCR_BINARIZE_THRESHOLD)),
        None => None,
    }
}

/// `text` is a reading that `engine` may give of the OCR image of `roi` in a
/// frame with content `f`.
pub open spec fn read_from<O: OcrEngine>(engine: &O, roi: RoiDefinition, f: FrameView, text: Seq<char>) -> bool {
    ocr_input(roi, f) matches Some(b) && engine.reads(b, text)
}

/// The events after OCR checks that read `round_text` (when the round check
/// ran and succeeded) and `dialog_text` (likewise for the dialog check).
pub open spec fn ocr_checked(es: Seq<DetectionEvent>, round_text: Option<Seq<char>>, dialog_text: Option<Seq<char>>) -> Seq<DetectionEvent> {
    let after_round = match round_text {
        Some(t) => round_ocr_applied(es, t),
        None => es,
    };
    match dialog_text {
        Some(t) => dialog_ocr_applied(after_round, t),
        None => after_round,
    }
}

/// Confirm pixel detections by OCR: when some event is `RoundVisible`, the
/// enlarged round ROI is read and round text decides between the round
/// number and a false positive; when some event is `DialogVisible`, the
/// dialog title ROI is read and a missing "Tips" title makes it a false
/// positive. A failed recognition or a region outside the frame leaves the
/// pixel result as it is: no region is read that does not fit the frame.
pub fn run_ocr<O: OcrEngine>(ocr_engine: &O, game_frame: &Frame, raw_events: &mut Vec<DetectionEvent>, det_config: &DetectionConfig)
    ensures
        (!any_round_visible(old(raw_events)@) || !det_config.round.roi.fits(
            game_frame@.width as u32,
            game_frame@.height as u32,
        )) && (!any_dialog_visible(old(raw_events)@) || !det_config.dialog.ocr_roi.fits(
            game_frame@.width as u32,
            game_frame@.height as u32,
        )) ==> final(raw_events)@ == old(raw_events)@,
        exists|round_text: Option<Seq<char>>, dialog_text: Option<Seq<char>>|
            {
                &&& (round_text matches Some(t) ==> any_round_visible(old(raw_events)@)
                    && det_config.round.roi.fits(game_frame@.width as u32, game_frame@.height as u32)
                    && read_from(ocr_engine, det_config.round.roi, game_frame@, t))
                &&& (dialog_text matches Some(t) ==> any_dialog_visible(old(raw_events)@)
                    && det_config.dialog.ocr_roi.fits(game_frame@.width as u32, game_frame@.height as u32)
                    && read_from(ocr_engine, det_config.dialog.ocr_roi, game_frame@, t))
                &&& final(raw_events)@ == ocr_checked(old(raw_events)@, round_text, dialog_text)
            },
{
    let ghost orig = raw_events@;
    let round_visible = has_round_visible(raw_events);
    let dialog_visible = has_dialog_visible(raw_events);
    let ghost mut rt: Option<Seq<char>> = None;
    let ghost mut dt: Option<Seq<char>> = None;
    if round_visible {
        if let Some(img) = det_config.round.roi.crop(game_frame) {
            let bin = binarize_white_text(&img, OCR_BINARIZE_THRESHOLD);
            if let Ok(text) = ocr_engine.recognize(&bin) {
                apply_round_ocr(raw_events, text.as_str());
                proof {
                    rt = Some(text@);
                }
            }
        }
    }
    assert(raw_events@ == ocr_checked(orig, rt, None));
    if dialog_visible {
        if let Some(img) = det_config.dialog.ocr_roi.crop(game_frame) {
            let bin = binarize_white_text(&img, OCR_BINARIZE_THRESHOLD);
            if let Ok(text) = ocr_engine.recognize(&bin) {
                apply_dialog_ocr(raw_events, text.as_str());
                proof {
                    dt = Some(text@);
                }
            }
        }
    }
    assert(raw_events@ == ocr_checked(orig, rt, dt));
}

/// The round selection event for OCR texts of the header, the next-round
/// panel and the completed-round panel: only when the header shows the
/// round selection screen; the completed round falls back to the header's
/// "(X/Y)" count; no event when neither number is known.
pub open spec fn select_event(header: Seq<char>, next: Option<Seq<char>>, done: Option<Seq<char>>) -> Option<DetectionEvent> {
    if !contains_seq(strip_ws(header), round_select_marker()) {
        None
    } else {
        let n = match next {
            Some(t) => spec_parse(t),
            None => None,
        };
        let c0 = match done {
            Some(t) => spec_parse(t),
            None => None,
        };
        let c = if c0 is None { spec_parse_select_header(header) } else { c0 };
        if n is Some || c is Some {
            Some(DetectionEvent::RoundSelectScreen { next_round: n, completed_round: c })
        } else {
            None
        }
    }
}

/// The text of an optional OCR reading.
pub open spec fn opt_text(o: Option<String>) -> Option<Seq<char>> {
    match o {
        Some(s) => Some(s@),
        None => None,
    }
}

/// Decide the round selection event from the three OCR readings.
pub fn round_select_event(header_text: &str, next_text: Option<String>, completed_text: Option<String>) -> (r: Option<DetectionEvent>)
    ensures
        r == select_event(header_text@, opt_text(next_text), opt_text(completed_text)),
{
    if !is_round_select_text(header_text) {
        return None;
    }
    let header_round = parse_select_header(header_text);
    let next_round = match &next_text {
        Some(t) => parse(t.as_str()),
        None => None,
    };
    let mut completed_round = match &completed_text {
        Some(t) => parse(t.as_str()),
        None => None,
    };
    if completed_round.is_none() {
        completed_round = header_round;
    }
    if next_round.is_some() || completed_round.is_some() {
        Some(DetectionEvent::RoundSelectScreen { next_round, completed_round })
    } else {
        None
    }
}

/// The text read in a panel ROI; none when the ROI does not fit the frame
/// or recognition fails.
fn read_panel<O: OcrEngine>(ocr_engine: &O, game_frame: &Frame, roi: &RoiDefinition) -> (r: Option<String>)
    ensures
        r is Some ==> roi.fits(game_frame@.width as u32, game_frame@.height as u32),
        r matches Some(t) ==> read_from(ocr_engine, *roi, game_frame@, t@),
{
    match roi.crop(game_frame) {
        Some(img) => {
            let bin = binarize_white_text(&img, OCR_BINARIZE_THRESHOLD);
            match ocr_engine.recognize(&bin) {
                Ok(t) => Some(t),
                Err(_) => None,
            }
        },
        None => None,
    }
}

/// Scan for the round selection screen: read the header ROI and, when it
/// shows the screen, both round panels; append the resulting round
/// selection event, if any. A header ROI outside the frame or a failed
/// header recognition appends nothing; a panel ROI outside the frame gives
/// no reading for that panel.
pub fn run_round_number_ocr<O: OcrEngine>(ocr_engine: &O, game_frame: &Frame, raw_events: &mut Vec<DetectionEvent>, rois: &RoundNumberRoiConfig)
    ensures
        !rois.select_header.fits(game_frame@.width as u32, game_frame@.height as u32) ==> final(raw_events)@
            == old(raw_events)@,
        final(raw_events)@ == old(raw_events)@ || exists|h: Seq<char>, n: Option<Seq<char>>, d: Option<Seq<char>>|
            #![trigger select_event(h, n, d)]
            {
                &&& select_event(h, n, d) matches Some(e) && final(raw_events)@ == old(raw_events)@.push(e)
                &&& read_from(ocr_engine, rois.select_header, game_frame@, h)
                &&& (n is Some ==> rois.select_next_round.fits(game_frame@.width as u32, game_frame@.height as u32))
                &&& (n matches Some(t) ==> read_from(ocr_engine, rois.select_next_round, game_frame@, t))
                &&& (d is Some ==> rois.select_completed_round.fits(game_frame@.width as u32, game_frame@.height as u32))
                &&& (d matches Some(t) ==> read_from(ocr_engine, rois.select_completed_round, game_frame@, t))
            },
{
    if let Some(header_image) = rois.select_header.crop(game_frame) {
        let bin = binarize_white_text(&header_image, OCR_BINARIZE_THRESHOLD);
        if let Ok(header_text) = ocr_engine.recognize(&bin) {
            if is_round_select_text(header_text.as_str()) {
                let next_text = read_panel(ocr_engine, game_frame, &rois.select_next_round);
                let completed_text = read_panel(ocr_engine, game_frame, &rois.select_completed_round);
                let ghost h = header_text@;
                let ghost n = opt_text(next_text);
                let ghost d = opt_text(completed_text);
                let ev = round_select_event(header_text.as_str(), next_text, completed_text);
                if let Some(e) = ev {
                    raw_events.push(e);
                    assert(select_event(h, n, d) matches Some(e2) && raw_events@ == old(raw_events)@.push(e2));
                }
            }
        }
    }
}

} // verus!
