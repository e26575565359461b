//! The decisions of the monitor loop, one frame at a time.
//!
//! The caller captures frames, runs the detectors and OCR, sleeps and emits
//! to the frontend; a [`MonitorSession`] decides what the results mean:
//! which events are confirmed transitions, which round is running and for
//! how long, when the result screen is scanned, and which notifications go out.
use vstd::prelude::*;

use crate::event::DetectionEvent;
use crate::monitor::config::MonitorConfig;
use crate::monitor::rounds::{
    check_resolution,
    description,
    elapsed_text,
    event_description,
    format_elapsed,
    majority_vote,
    opt_view,
    resolution_warning,
    resolve_round_number,
    resolved_round,
    vote_result,
};
use crate::monitor::transition::{
    event_kind_name,
    kind_name,
    pending,
    run,
    spec_kind,
    EventKind,
    FilterModel,
    TransitionFilter,
};
use crate::notification::{
    capture_lost_step,
    capture_recovered_step,
    notices_view,
    opt_notice,
    process_step,
    result_screen_step,
    roundtrip_step,
    Notice,
    NoticeModel,
    NotificationManager,
    NotifierModel,
};
use crate::state::elapsed_ms;

verus! {

/// Current monitoring state.
#[derive(Debug, Clone, Copy, PartialEq, Eq, Structural)]
pub enum MonitoringState {
    /// Not monitoring.
    Idle,
    /// Looking for the game window.
    SearchingWindow,
    /// Capturing and detecting.
    Capturing,
}

/// Capture metadata for the detection page.
#[derive(Debug)]
pub struct CaptureInfo {
    /// Target window title.
    pub window_name: String,
    /// Frame width.
    pub width: u32,
    /// Frame height.
    pub height: u32,
    /// Active capture backend name.
    pub backend: String,
}

impl CaptureInfo {
    /// Empty metadata.
    pub fn empty() -> (c: CaptureInfo)
        ensures
            c.window_name@.len() == 0,
            c.backend@.len() == 0,
            c.width == 0,
            c.height == 0,
    {
        CaptureInfo { window_name: String::new(), width: 0, height: 0, backend: String::new() }
    }

    /// Record a stored frame of `width` x `height`: the size always, the
    /// window name and backend only when not set yet.
    pub fn record_frame(&mut self, source: &CaptureInfo, width: u32, height: u32)
        ensures
            final(self).width == width,
            final(self).height == height,
            old(self).window_name@.len() == 0 ==> final(self).window_name@ == source.window_name@
                && final(self).backend@ == source.backend@,
            old(self).window_name@.len() > 0 ==> final(self).window_name@ == old(self).window_name@
                && final(self).backend@ == old(self).backend@,
    {
        self.width = width;
        self.height = height;
        if self.window_name.as_str().unicode_len() == 0 {
            self.window_name = crate::text::owned(source.window_name.as_str());
            self.backend = crate::text::owned(source.backend.as_str());
        }
    }
}

/// What the frontend is told of one confirmed transition.
pub struct DetectionEventPayload {
    /// Event kind (e.g. `"RoundVisible"`).
    pub kind: String,
    /// Human-readable detail.
    pub detail: String,
    /// Current round number, if known.
    pub round_number: Option<u32>,
    /// Elapsed time of the round (e.g. `"1m 23s"`).
    pub elapsed: Option<String>,
    /// Elapsed time in milliseconds, for threshold comparison.
    pub elapsed_ms: Option<u64>,
}

/// Abstract [`DetectionEventPayload`].
pub struct PayloadModel {
    pub kind: Seq<char>,
    pub detail: Seq<char>,
    pub round_number: Option<u32>,
    pub elapsed: Option<Seq<char>>,
    pub elapsed_ms: Option<u64>,
}

impl View for DetectionEventPayload {
    type V = PayloadModel;

    open spec fn view(&self) -> PayloadModel {
        PayloadModel {
            kind: self.kind@,
            detail: self.detail@,
            round_number: self.round_number,
            elapsed: opt_view(self.elapsed),
            elapsed_ms: self.elapsed_ms,
        }
    }
}

/// The outcome of one frame: the payloads of its confirmed transitions and
/// the notifications to deliver.
pub struct FrameReport {
    /// One payload per confirmed transition, in order.
    pub payloads: Vec<DetectionEventPayload>,
    /// Notifications to deliver, in order.
    pub notices: Vec<Notice>,
    /// The confirmed transitions, in order.
    pub transitions: Vec<DetectionEvent>,
}

/// Abstract state of a [`MonitorSession`].
pub struct SessionModel {
    pub config: MonitorConfig,
    pub filter: FilterModel,
    pub notifier: NotifierModel,
    /// Round in progress (the next one after a completion), if known.
    pub current_round: Option<u32>,
    /// When the current round started.
    pub round_start: Option<u64>,
    /// Completed-round numbers read from round selection screens.
    pub votes: Seq<u32>,
    /// Recently completed rounds, at most three, oldest first.
    pub history: Seq<u32>,
    /// The result screen is being scanned (after a round completed).
    pub result_scanning: bool,
    /// `ResultScreenVisible` was seen since scanning began.
    pub result_visible_confirmed: bool,
    /// When captures started failing.
    pub capture_fail_since: Option<u64>,
    /// A capture succeeded since the window was found.
    pub had_successful_capture: bool,
    /// Failed captures in a row.
    pub consecutive_failures: u32,
    /// The last resolution warning.
    pub resolution_warning: Option<Seq<char>>,
}

/// `n + 1`, saturating.
pub open spec fn sat_inc(n: u32) -> u32 {
    if n == u32::MAX {
        n
    } else {
        (n + 1) as u32
    }
}

/// Frames in the confirmation window: the window time over the capture
/// interval, at least one.
pub open spec fn window_frames(cfg: MonitorConfig) -> u64 {
    let interval = if cfg.capture_interval == 0 { 1 } else { cfg.capture_interval };
    let w = cfg.confirmation_window / interval;
    if w == 0 {
        1
    } else {
        w
    }
}

/// The completed rounds after `n` completes: appended, keeping the last three.
pub open spec fn pushed_history(h: Seq<u32>, n: u32) -> Seq<u32> {
    let p = h.push(n);
    if p.len() > 3 {
        p.subrange(1, p.len() as int)
    } else {
        p
    }
}

/// Completed-round votes of the events added to `votes`, in order.
pub open spec fn collect_votes(votes: Seq<u32>, es: Seq<DetectionEvent>) -> Seq<u32>
    decreases es.len(),
{
    if es.len() == 0 {
        votes
    } else {
        let v = collect_votes(votes, es.drop_last());
        match es.last() {
            DetectionEvent::RoundSelectScreen { completed_round: Some(done), .. } => v.push(done),
            _ => v,
        }
    }
}

/// The events of `es` whose flag in `fires` is set, in order.
pub open spec fn selected(es: Seq<DetectionEvent>, fires: Seq<bool>) -> Seq<DetectionEvent>
    decreases es.len(),
{
    if es.len() == 0 {
        Seq::empty()
    } else {
        let rest = selected(es.drop_last(), fires.drop_last());
        if fires.last() {
            rest.push(es.last())
        } else {
            rest
        }
    }
}

/// The payload of a transition event.
pub open spec fn payload_of(e: DetectionEvent, round: Option<u32>, elapsed: Option<Seq<char>>, elapsed_ms: Option<u64>) -> PayloadModel {
    PayloadModel {
        kind: kind_name(spec_kind(e)),
        detail: description(spec_kind(e)),
        round_number: round,
        elapsed,
        elapsed_ms,
    }
}

/// Round-trip levels cleared in the notifier.
pub open spec fn roundtrip_cleared(n: NotifierModel) -> NotifierModel {
    NotifierModel {
        roundtrip_repeat: 0,
        last_notified: n.last_notified.update(3, None).update(4, None).update(5, None),
        ..n
    }
}

/// One confirmed transition at time `now`: the new state, its payload and
/// the notification it causes, if any.
///
/// - `RoundVisible` starts the round clock (if not running), clears the
///   round-trip levels and the votes, and stops result scanning.
/// - `RoundGone` reports the round's elapsed time, settles the completed
///   round from the votes, the expected round and the history, starts
///   result scanning, then moves on to the next round (up to 99) and
///   restarts the round clock.
/// - `ResultScreenVisible` reports the elapsed time, ends the quest (no
///   current round, clock stopped) and notifies the result.
/// - `ResultScreenGone` stops scanning and the clock and clears the
///   round-trip levels.
pub open spec fn transition_step(m: SessionModel, e: DetectionEvent, now: u64, focused: bool) -> (SessionModel, PayloadModel, Option<NoticeModel>) {
    match spec_kind(e) {
        EventKind::RoundVisible => (
            SessionModel {
                round_start: if m.round_start is None { Some(now) } else { m.round_start },
                notifier: roundtrip_cleared(m.notifier),
                votes: Seq::empty(),
                result_scanning: false,
                ..m
            },
            payload_of(e, m.current_round, None, None),
            None,
        ),
        EventKind::RoundGone => {
            let elapsed = match m.round_start {
                Some(s) => Some(elapsed_text(elapsed_ms(now, s))),
                None => None,
            };
            let completed = resolved_round(vote_result(m.votes, m.config.confirmation_ratio as nat), m.current_round, m.history);
            let (cur, hist) = match completed {
                Some(n) => (Some(n), pushed_history(m.history, n)),
                None => (m.current_round, m.history),
            };
            let next = match cur {
                Some(n) => if sat_inc(n) <= 99 { Some(sat_inc(n)) } else { None },
                None => None,
            };
            (
                SessionModel {
                    round_start: Some(now),
                    votes: Seq::empty(),
                    current_round: next,
                    history: hist,
                    result_scanning: true,
                    ..m
                },
                payload_of(e, cur, elapsed, None),
                None,
            )
        },
        EventKind::ResultScreenVisible => {
            let (elapsed, ms) = match m.round_start {
                Some(s) => (Some(elapsed_text(elapsed_ms(now, s))), Some(elapsed_ms(now, s) as u64)),
                None => (None, None),
            };
            let (notifier1, notice) = result_screen_step(m.notifier, now, focused);
            (
                SessionModel { round_start: None, current_round: None, notifier: notifier1, ..m },
                payload_of(e, None, elapsed, ms),
                notice,
            )
        },
        EventKind::ResultScreenGone => (
            SessionModel {
                result_scanning: false,
                result_visible_confirmed: false,
                round_start: None,
                notifier: roundtrip_cleared(m.notifier),
                ..m
            },
            payload_of(e, m.current_round, None, None),
            None,
        ),
        _ => (m, payload_of(e, m.current_round, None, None), None),
    }
}

/// The notice list with an optional notice appended.
pub open spec fn with_notice(ns: Seq<NoticeModel>, o: Option<NoticeModel>) -> Seq<NoticeModel> {
    match o {
        Some(n) => ns.push(n),
        None => ns,
    }
}

/// Transitions applied one after another.
pub open spec fn transitions_step(m: SessionModel, es: Seq<DetectionEvent>, now: u64, focused: bool) -> (SessionModel, Seq<PayloadModel>, Seq<NoticeModel>)
    decreases es.len(),
{
    if es.len() == 0 {
        (m, Seq::empty(), Seq::empty())
    } else {
        let (m1, ps, ns) = transitions_step(m, es.drop_last(), now, focused);
        let (m2, p, n) = transition_step(m1, es.last(), now, focused);
        (m2, ps.push(p), with_notice(ns, n))
    }
}

/// The notifier after the raw events of a frame (none when there are no events).
pub open spec fn notified_events(m: SessionModel, raw: Seq<DetectionEvent>, now: u64, focused: bool) -> (NotifierModel, Seq<NoticeModel>) {
    if raw.len() == 0 {
        (m.notifier, Seq::empty())
    } else {
        process_step(NotifierModel { current_round: m.current_round, ..m.notifier }, raw, now, focused)
    }
}

/// The round-trip check of a frame, while a round clock runs.
pub open spec fn roundtrip_checked(n: NotifierModel, round_start: Option<u64>, now: u64, focused: bool) -> (NotifierModel, Option<NoticeModel>) {
    match round_start {
        Some(s) => roundtrip_step(n, elapsed_ms(now, s) as u64, now, focused),
        None => (n, None),
    }
}

/// One frame's raw events at time `now`: votes are collected, the notifier
/// sees every raw event, the round trip is checked, and the events that the
/// filter confirms as transitions are applied in order.
pub open spec fn frame_step(m: SessionModel, raw: Seq<DetectionEvent>, now: u64, focused: bool) -> (SessionModel, Seq<PayloadModel>, Seq<NoticeModel>) {
    let votes = collect_votes(m.votes, raw);
    let (n1, ns1) = notified_events(m, raw, now, focused);
    let (n2, rt) = roundtrip_checked(n1, m.round_start, now, focused);
    let (f1, fires) = run(m.filter, raw);
    let m1 = SessionModel { votes, notifier: n2, filter: f1, ..m };
    let (m2, ps, ns2) = transitions_step(m1, selected(raw, fires), now, focused);
    (m2, ps, with_notice(ns1, rt) + ns2)
}

/// A failed capture at `now`: counted, and once captures have failed for
/// the sustain time after an earlier success, the loss is notified. The
/// flag asks the caller to search the window again.
pub open spec fn capture_failed_step(m: SessionModel, now: u64) -> (SessionModel, bool, Option<NoticeModel>) {
    let failures = sat_inc(m.consecutive_failures);
    let research = failures >= m.config.max_capture_retries;
    if m.had_successful_capture {
        let since = match m.capture_fail_since {
            Some(s) => s,
            None => now,
        };
        let (n1, notice) = if elapsed_ms(now, since) >= m.config.notify_capture_lost_sustain {
            capture_lost_step(m.notifier, now)
        } else {
            (m.notifier, None)
        };
        (
            SessionModel { consecutive_failures: failures, capture_fail_since: Some(since), notifier: n1, ..m },
            research,
            notice,
        )
    } else {
        (SessionModel { consecutive_failures: failures, ..m }, research, None)
    }
}

/// A successful capture: failure tracking ends, with a recovery notice when
/// captures had been failing.
pub open spec fn capture_ok_step(m: SessionModel) -> (SessionModel, Option<NoticeModel>) {
    let (n1, notice) = if m.capture_fail_since is Some {
        capture_recovered_step(m.notifier)
    } else {
        (m.notifier, None)
    };
    (
        SessionModel {
            capture_fail_since: None,
            consecutive_failures: 0,
            had_successful_capture: true,
            notifier: n1,
            ..m
        },
        notice,
    )
}

/// The monitor loop's decision state.
pub struct MonitorSession {
    config: MonitorConfig,
    filter: TransitionFilter,
    notifier: NotificationManager,
    current_round: Option<u32>,
    round_start: Option<u64>,
    select_round_votes: Vec<u32>,
    round_history: Vec<u32>,
    result_scanning: bool,
    result_visible_confirmed: bool,
    capture_fail_since: Option<u64>,
    had_successful_capture: bool,
    consecutive_failures: u32,
    resolution_warning: Option<String>,
}

impl View for MonitorSession {
    type V = SessionModel;

    closed spec fn view(&self) -> SessionModel {
        SessionModel {
            config: self.config,
            filter: self.filter@,
            notifier: self.notifier@,
            current_round: self.current_round,
            round_start: self.round_start,
            votes: self.select_round_votes@,
            history: self.round_history@,
            result_scanning: self.result_scanning,
            result_visible_confirmed: self.result_visible_confirmed,
            capture_fail_since: self.capture_fail_since,
            had_successful_capture: self.had_successful_capture,
            consecutive_failures: self.consecutive_failures,
            resolution_warning: opt_view(self.resolution_warning),
        }
    }
}

impl MonitorSession {
    /// The parts are well formed.
    pub closed spec fn wf(&self) -> bool {
        &&& self.filter.wf()
        &&& self.notifier.wf()
    }

    /// A session under `config`, before any window or frame.
    pub fn new(config: &MonitorConfig) -> (s: Self)
        ensures
            s.wf(),
            s@.config == *config,
            s@.filter == crate::monitor::transition::fresh_model(
                window_frames(*config) as usize as nat,
                config.confirmation_ratio as nat,
            ),
            s@.notifier.config == *config,
            s@.current_round is None,
            s@.round_start is None,
            s@.votes.len() == 0,
            s@.history.len() == 0,
            !s@.result_scanning,
            !s@.result_visible_confirmed,
            s@.capture_fail_since is None,
            !s@.had_successful_capture,
            s@.consecutive_failures == 0,
            s@.resolution_warning is None,
    {
        let interval = if config.capture_interval == 0 { 1 } else { config.capture_interval };
        let w = config.confirmation_window / interval;
        let w = if w == 0 { 1 } else { w };
        MonitorSession {
            config: config.duplicate(),
            filter: TransitionFilter::new(w as usize, config.confirmation_ratio),
            notifier: NotificationManager::new(config),
            current_round: None,
            round_start: None,
            select_round_votes: Vec::new(),
            round_history: Vec::new(),
            result_scanning: false,
            result_visible_confirmed: false,
            capture_fail_since: None,
            had_successful_capture: false,
            consecutive_failures: 0,
            resolution_warning: None,
        }
    }

    /// The game window was found again: failures start from zero and a
    /// capture must succeed before losses are notified.
    pub fn on_window_found(&mut self)
        ensures
            final(self)@ == (SessionModel { consecutive_failures: 0, had_successful_capture: false, ..old(self)@ }),
            final(self).wf() == old(self).wf(),
    {
        self.consecutive_failures = 0;
        self.had_successful_capture = false;
    }

    /// A frame was captured.
    pub fn on_capture_ok(&mut self) -> (r: Option<Notice>)
        requires
            old(self).wf(),
        ensures
            final(self).wf(),
            (final(self)@, opt_notice(r)) == capture_ok_step(old(self)@),
    {
        let notice = if self.capture_fail_since.is_some() {
            self.notifier.reset_capture_lost()
        } else {
            None
        };
        self.capture_fail_since = None;
        self.consecutive_failures = 0;
        self.had_successful_capture = true;
        notice
    }

    /// A capture failed at `now_ms`; returns whether to search the window
    /// again, and the loss notification if one is due.
    pub fn on_capture_failed(&mut self, now_ms: u64) -> (r: (bool, Option<Notice>))
        requires
            old(self).wf(),
        ensures
            final(self).wf(),
            (final(self)@, r.0, opt_notice(r.1)) == capture_failed_step(old(self)@, now_ms),
    {
        self.consecutive_failures = if self.consecutive_failures == u32::MAX {
            u32::MAX
        } else {
            self.consecutive_failures + 1
        };
        let mut notice = None;
        if self.had_successful_capture {
            let since = match self.capture_fail_since {
                Some(s) => s,
                None => now_ms,
            };
            self.capture_fail_since = Some(since);
            let held = if now_ms >= since { now_ms - since } else { 0 };
            if held >= self.config.notify_capture_lost_sustain {
                notice = self.notifier.notify_capture_lost(now_ms);
            }
        }
        (self.consecutive_failures >= self.config.max_capture_retries, notice)
    }

    /// Record the resolution of the latest frame; whether its warning changed.
    pub fn resolution_changed(&mut self, width: u32, height: u32) -> (changed: bool)
        ensures
            final(self)@ == (SessionModel { resolution_warning: resolution_warning(width, height), ..old(self)@ }),
            changed == (old(self)@.resolution_warning != resolution_warning(width, height)),
            final(self).wf() == old(self).wf(),
    {
        let warning = check_resolution(width, height);
        let same = match (&warning, &self.resolution_warning) {
            (Some(a), Some(b)) => crate::text::same_text(a.as_str(), b.as_str()),
            (None, None) => true,
            _ => false,
        };
        self.resolution_warning = warning;
        !same
    }

    /// The current resolution warning.
    pub fn resolution_warning(&self) -> (r: &Option<String>)
        ensures
            opt_view(*r) == self@.resolution_warning,
    {
        &self.resolution_warning
    }

    /// Whether the result screen is being scanned.
    pub fn result_scanning(&self) -> (r: bool)
        ensures
            r == self@.result_scanning,
    {
        self.result_scanning
    }

    /// The round in progress, if known.
    pub fn current_round(&self) -> (r: Option<u32>)
        ensures
            r == self@.current_round,
    {
        self.current_round
    }

    /// Whether some raw event could be a transition (the OCR checks run only then).
    pub fn has_pending_transition(&self, raw_events: &Vec<DetectionEvent>) -> (r: bool)
        requires
            self.wf(),
        ensures
            r == pending(self@.filter, raw_events@),
    {
        self.filter.has_pending_transition(raw_events)
    }

    /// Add the result-screen OCR events to the frame's raw events:
    /// `ResultScreenVisible` always (and it confirms the screen),
    /// `ResultScreenGone` only once the screen was confirmed.
    pub fn absorb_result_events(&mut self, result_events: Vec<DetectionEvent>, raw_events: &mut Vec<DetectionEvent>)
        ensures
            final(self)@ == (SessionModel { result_visible_confirmed: result_confirmed(old(self)@.result_visible_confirmed, result_events@), ..old(self)@ }),
            final(raw_events)@ == old(raw_events)@ + result_passed(old(self)@.result_visible_confirmed, result_events@),
            final(self).wf() == old(self).wf(),
    {
        let mut events = result_events;
        let ghost all = events@;
        let ghost raw0 = raw_events@;
        let ghost conf0 = self.result_visible_confirmed;
        let total = events.len();
        let mut k: usize = 0;
        while events.len() > 0
            invariant
                all.len() == total,
                k + events@.len() == all.len(),
                events@ == all.skip(k as int),
                self@ == (SessionModel { result_visible_confirmed: result_confirmed(conf0, all.take(k as int)), ..old(self)@ }),
                raw_events@ == raw0 + result_passed(conf0, all.take(k as int)),
                self.wf() == old(self).wf(),
            decreases events.len(),
        {
            let e = events.remove(0);
            assert(e == all[k as int]);
            assert(all.take(k + 1).drop_last() =~= all.take(k as int));
            let ghost before = raw_events@;
            match e {
                DetectionEvent::ResultScreenVisible { text } => {
                    self.result_visible_confirmed = true;
                    raw_events.push(DetectionEvent::ResultScreenVisible { text });
                },
                DetectionEvent::ResultScreenGone => {
                    if self.result_visible_confirmed {
                        raw_events.push(DetectionEvent::ResultScreenGone);
                    }
                },
                other => {
                    raw_events.push(other);
                },
            }
            assert(raw_events@ =~= raw0 + result_passed(conf0, all.take(k + 1)));
            k = k + 1;
            assert(events@ =~= all.skip(k as int));
        }
        assert(all.take(k as int) =~= all);
    }

    fn apply_transition(&mut self, event: &DetectionEvent, now_ms: u64, game_focused: bool) -> (r: (DetectionEventPayload, Option<Notice>))
        requires
            old(self).wf(),
        ensures
            final(self).wf(),
            (final(self)@, r.0@, opt_notice(r.1)) == transition_step(old(self)@, *event, now_ms, game_focused),
    {
        let kind = crate::monitor::transition::kind_of(event);
        let name = crate::text::owned(event_kind_name(event));
        let detail = event_description(event);
        match kind {
            EventKind::RoundVisible => {
                if self.round_start.is_none() {
                    self.round_start = Some(now_ms);
                }
                self.notifier.reset_roundtrip();
                self.select_round_votes = Vec::new();
                self.result_scanning = false;
                let p = DetectionEventPayload { kind: name, detail, round_number: self.current_round, elapsed: None, elapsed_ms: None };
                (p, None)
            },
            EventKind::RoundGone => {
                let elapsed = match self.round_start {
                    Some(s) => Some(format_elapsed(if now_ms >= s { now_ms - s } else { 0 })),
                    None => None,
                };
                self.round_start = None;
                let majority = majority_vote(&self.select_round_votes, self.config.confirmation_ratio);
                self.select_round_votes = Vec::new();
                let completed = resolve_round_number(majority, self.current_round, &self.round_history);
                if let Some(num) = completed {
                    self.current_round = Some(num);
                    self.round_history.push(num);
                    if self.round_history.len() > 3 {
                        self.round_history.remove(0);
                    }
                }
                self.result_scanning = true;
                let p = DetectionEventPayload { kind: name, detail, round_number: self.current_round, elapsed, elapsed_ms: None };
                if let Some(num) = self.current_round {
                    let next = if num == u32::MAX { num } else { num + 1 };
                    self.current_round = if next <= 99 { Some(next) } else { None };
                }
                self.round_start = Some(now_ms);
                proof {
                    let m0 = old(self)@;
                    let (m2, p2, n2) = transition_step(m0, *event, now_ms, game_focused);
                    assert(self@.history =~= m2.history);
                    assert(self@.votes =~= m2.votes);
                }
                (p, None)
            },
            EventKind::ResultScreenVisible => {
                let (elapsed, ms) = match self.round_start {
                    Some(s) => {
                        let d = if now_ms >= s { now_ms - s } else { 0 };
                        (Some(format_elapsed(d)), Some(d))
                    },
                    None => (None, None),
                };
                self.round_start = None;
                self.current_round = None;
                let notice = self.notifier.notify_result_screen(now_ms, game_focused);
                let p = DetectionEventPayload { kind: name, detail, round_number: None, elapsed, elapsed_ms: ms };
                (p, notice)
            },
            EventKind::ResultScreenGone => {
                self.result_scanning = false;
                self.result_visible_confirmed = false;
                self.round_start = None;
                self.notifier.reset_roundtrip();
                let p = DetectionEventPayload { kind: name, detail, round_number: self.current_round, elapsed: None, elapsed_ms: None };
                (p, None)
            },
            _ => {
                let p = DetectionEventPayload { kind: name, detail, round_number: self.current_round, elapsed: None, elapsed_ms: None };
                (p, None)
            },
        }
    }

    fn collect_frame_votes(&mut self, raw_events: &Vec<DetectionEvent>)
        ensures
            final(self)@ == (SessionModel { votes: collect_votes(old(self)@.votes, raw_events@), ..old(self)@ }),
            final(self).wf() == old(self).wf(),
    {
        let ghost m0 = self@;
        let ghost raw = raw_events@;
        let mut j: usize = 0;
        while j < raw_events.len()
            invariant
                j <= raw_events.len(),
                raw_events@ == raw,
                self@ == (SessionModel { votes: collect_votes(m0.votes, raw.take(j as int)), ..m0 }),
                self.wf() == old(self).wf(),
            decreases raw_events.len() - j,
        {
            assert(raw.take(j + 1).drop_last() =~= raw.take(j as int));
            if let DetectionEvent::RoundSelectScreen { completed_round: Some(done), .. } = &raw_events[j] {
                self.select_round_votes.push(*done);
            }
            j = j + 1;
        }
        assert(raw.take(raw.len() as int) =~= raw);
    }

    fn notify_frame(&mut self, raw_events: &Vec<DetectionEvent>, now_ms: u64, game_focused: bool) -> (r: Vec<Notice>)
        requires
            old(self).wf(),
        ensures
            final(self).wf(),
            ({
                let (n1, ns1) = notified_events(old(self)@, raw_events@, now_ms, game_focused);
                let (n2, rt) = roundtrip_checked(n1, old(self)@.round_start, now_ms, game_focused);
                &&& final(self)@ == (SessionModel { notifier: n2, ..old(self)@ })
                &&& notices_view(r@) == with_notice(ns1, rt)
            }),
    {
        let mut notices: Vec<Notice> = if raw_events.len() > 0 {
            self.notifier.set_current_round(self.current_round);
            self.notifier.process_events(raw_events, now_ms, game_focused)
        } else {
            Vec::new()
        };
        if let Some(start) = self.round_start {
            let el = if now_ms >= start { now_ms - start } else { 0 };
            let ghost before = notices@;
            if let Some(n) = self.notifier.notify_roundtrip(el, now_ms, game_focused) {
                notices.push(n);
                assert(notices_view(notices@) =~= notices_view(before).push(notices@.last()@));
            }
        }
        notices
    }

    fn filter_transitions(&mut self, raw_events: Vec<DetectionEvent>) -> (r: Vec<DetectionEvent>)
        requires
            old(self).wf(),
        ensures
            final(self).wf(),
            final(self)@ == (SessionModel { filter: run(old(self)@.filter, raw_events@).0, ..old(self)@ }),
            r@ == selected(raw_events@, run(old(self)@.filter, raw_events@).1),
    {
        let ghost m1 = self@;
        let ghost raw = raw_events@;
        let mut remaining = raw_events;
        let mut transitions: Vec<DetectionEvent> = Vec::new();
        let ghost mut fires: Seq<bool> = Seq::empty();
        let total = remaining.len();
        let mut k: usize = 0;
        while remaining.len() > 0
            invariant
                raw.len() == total,
                self.wf(),
                k <= raw.len(),
                k + remaining@.len() == raw.len(),
                remaining@ == raw.skip(k as int),
                (self.filter@, fires) == run(m1.filter, raw.take(k as int)),
                transitions@ == selected(raw.take(k as int), fires),
                self@ == (SessionModel { filter: self.filter@, ..m1 }),
            decreases remaining.len(),
        {
            let e = remaining.remove(0);
            assert(e == raw[k as int]);
            assert(raw.take(k + 1).drop_last() =~= raw.take(k as int));
            let ghost fires0 = fires;
            let fire = self.filter.is_transition(&e);
            proof {
                fires = fires.push(fire);
                assert(fires.drop_last() =~= fires0);
            }
            if fire {
                transitions.push(e);
            }
            k = k + 1;
            assert(remaining@ =~= raw.skip(k as int));
        }
        assert(raw.take(k as int) =~= raw);
        transitions
    }

    fn apply_transitions(&mut self, transitions: Vec<DetectionEvent>, now_ms: u64, game_focused: bool, notices: &mut Vec<Notice>, applied: &mut Vec<DetectionEvent>) -> (r: Vec<DetectionEventPayload>)
        requires
            old(self).wf(),
        ensures
            final(self).wf(),
            final(applied)@ == old(applied)@ + transitions@,
            ({
                let (m, ps, ns) = transitions_step(old(self)@, transitions@, now_ms, game_focused);
                &&& final(self)@ == m
                &&& r@.map_values(|p: DetectionEventPayload| p@) == ps
                &&& notices_view(final(notices)@) == notices_view(old(notices)@) + ns
            }),
    {
        let ghost m2 = self@;
        let ghost trans = transitions@;
        let ghost ns_before = notices_view(notices@);
        let ghost applied0 = applied@;
        let mut remaining = transitions;
        let mut payloads: Vec<DetectionEventPayload> = Vec::new();
        let total = remaining.len();
        let mut t: usize = 0;
        while remaining.len() > 0
            invariant
                trans.len() == total,
                self.wf(),
                t <= trans.len(),
                t + remaining@.len() == trans.len(),
                remaining@ == trans.skip(t as int),
                applied@ == applied0 + trans.take(t as int),
                ({
                    let (ma, ps, ns) = transitions_step(m2, trans.take(t as int), now_ms, game_focused);
                    &&& self@ == ma
                    &&& payloads@.map_values(|p: DetectionEventPayload| p@) == ps
                    &&& notices_view(notices@) == ns_before + ns
                }),
            decreases remaining.len(),
        {
            let e = remaining.remove(0);
            assert(e == trans[t as int]);
            assert(trans.take(t + 1).drop_last() =~= trans.take(t as int));
            let ghost pv = payloads@.map_values(|p: DetectionEventPayload| p@);
            let ghost nv = notices_view(notices@);
            let (p, n) = self.apply_transition(&e, now_ms, game_focused);
            payloads.push(p);
            assert(payloads@.map_values(|p: DetectionEventPayload| p@) =~= pv.push(payloads@.last()@));
            match n {
                Some(x) => {
                    notices.push(x);
                    assert(notices_view(notices@) =~= nv.push(notices@.last()@));
                },
                None => {},
            }
            proof {
                let (ma, ps, ns) = transitions_step(m2, trans.take(t as int), now_ms, game_focused);
                let (mb, ps2, ns2) = transitions_step(m2, trans.take(t + 1), now_ms, game_focused);
                assert(notices_view(notices@) =~= ns_before + ns2);
            }
            applied.push(e);
            assert(applied@ =~= applied0 + trans.take(t + 1));
            t = t + 1;
            assert(remaining@ =~= trans.skip(t as int));
        }
        assert(trans.take(t as int) =~= trans);
        payloads
    }

    /// Decide one frame from its raw events at time `now_ms`: collect round
    /// votes, let the notifier see the events, check the round trip, and
    /// apply the confirmed transitions; returns their payloads and the
    /// notifications to deliver.
    pub fn finish_frame(&mut self, raw_events: Vec<DetectionEvent>, now_ms: u64, game_focused: bool) -> (r: FrameReport)
        requires
            old(self).wf(),
        ensures
            final(self).wf(),
            ({
                let (m, ps, ns) = frame_step(old(self)@, raw_events@, now_ms, game_focused);
                &&& final(self)@ == m
                &&& r.payloads@.map_values(|p: DetectionEventPayload| p@) == ps
                &&& notices_view(r.notices@) == ns
            }),
            r.transitions@ == selected(raw_events@, run(old(self)@.filter, raw_events@).1),
    {
        self.collect_frame_votes(&raw_events);
        let mut notices = self.notify_frame(&raw_events, now_ms, game_focused);
        let transitions = self.filter_transitions(raw_events);
        let mut applied: Vec<DetectionEvent> = Vec::new();
        let payloads = self.apply_transitions(transitions, now_ms, game_focused, &mut notices, &mut applied);
        FrameReport { payloads, notices, transitions: applied }
    }
}

/// Whether the result screen counts as confirmed after the result events.
pub open spec fn result_confirmed(confirmed: bool, es: Seq<DetectionEvent>) -> bool
    decreases es.len(),
{
    if es.len() == 0 {
        confirmed
    } else {
        result_confirmed(confirmed, es.drop_last()) || es.last() is ResultScreenVisible
    }
}

/// The result events that pass: `ResultScreenGone` only after a confirmation.
pub open spec fn result_passed(confirmed: bool, es: Seq<DetectionEvent>) -> Seq<DetectionEvent>
    decreases es.len(),
{
    if es.len() == 0 {
        Seq::empty()
    } else {
        let rest = result_passed(confirmed, es.drop_last());
        if es.last() is ResultScreenGone && !result_confirmed(confirmed, es.drop_last()) {
            rest
        } else {
            rest.push(es.last())
        }
    }
}

/// The round bookkeeping is in range: the current round is a valid round
/// number (1 to 99 after a completion) and at most three completed rounds
/// are kept.
pub open spec fn rounds_in_range(m: SessionModel) -> bool {
    &&& (m.current_round matches Some(n) ==> n <= 99)
    &&& m.history.len() <= 3
}

/// A transition keeps the round bookkeeping in range.
pub proof fn law_transition_keeps_rounds_in_range(m: SessionModel, e: DetectionEvent, now: u64, focused: bool)
    requires
        rounds_in_range(m),
    ensures
        rounds_in_range(transition_step(m, e, now, focused).0),
{
}

proof fn lemma_transitions_keep_rounds_in_range(m: SessionModel, es: Seq<DetectionEvent>, now: u64, focused: bool)
    requires
        rounds_in_range(m),
    ensures
        rounds_in_range(transitions_step(m, es, now, focused).0),
    decreases es.len(),
{
    if es.len() > 0 {
        lemma_transitions_keep_rounds_in_range(m, es.drop_last(), now, focused);
    }
}

/// Every frame keeps the round bookkeeping in range.
pub proof fn law_frame_keeps_rounds_in_range(m: SessionModel, raw: Seq<DetectionEvent>, now: u64, focused: bool)
    requires
        rounds_in_range(m),
    ensures
        rounds_in_range(frame_step(m, raw, now, focused).0),
{
    let votes = collect_votes(m.votes, raw);
    let (n1, ns1) = notified_events(m, raw, now, focused);
    let (n2, rt) = roundtrip_checked(n1, m.round_start, now, focused);
    let (f1, fires) = run(m.filter, raw);
    let m1 = SessionModel { votes, notifier: n2, filter: f1, ..m };
    lemma_transitions_keep_rounds_in_range(m1, selected(raw, fires), now, focused);
}

/// A completed round always moves on: after a confirmed `RoundGone` the
/// round clock restarts, the votes are cleared and the result screen is
/// scanned.
pub proof fn law_round_gone_starts_scanning(m: SessionModel, e: DetectionEvent, now: u64, focused: bool)
    requires
        e is RoundGone,
    ensures
        transition_step(m, e, now, focused).0.round_start == Some(now),
        transition_step(m, e, now, focused).0.votes.len() == 0,
        transition_step(m, e, now, focused).0.result_scanning,
{
}

/// Without a `ResultScreenVisible`, no `ResultScreenGone` passes before the
/// result screen was confirmed.
pub proof fn law_unconfirmed_gone_dropped(es: Seq<DetectionEvent>)
    requires
        forall|i: int| 0 <= i < es.len() ==> !((#[trigger] es[i]) is ResultScreenVisible),
    ensures
        !result_confirmed(false, es),
        forall|i: int| 0 <= i < result_passed(false, es).len() ==> !((#[trigger] result_passed(false, es)[i]) is ResultScreenGone),
    decreases es.len(),
{
    if es.len() > 0 {
        let pre = es.drop_last();
        assert forall|i: int| 0 <= i < pre.len() implies !((#[trigger] pre[i]) is ResultScreenVisible) by {
            assert(pre[i] == es[i]);
        }
        law_unconfirmed_gone_dropped(pre);
        assert(!(es[es.len() - 1] is ResultScreenVisible));
        let rest = result_passed(false, pre);
        let out = result_passed(false, es);
        assert forall|i: int| 0 <= i < out.len() implies !((#[trigger] out[i]) is ResultScreenGone) by {
            if i < rest.len() {
                assert(out[i] == rest[i]);
            }
        }
    }
}

/// A capture loss is notified only after a capture has succeeded since the
/// window was found, and only once captures have kept failing for the
/// sustain time; the window is searched again once the failures in a row
/// reach the retry limit.
pub proof fn law_capture_loss_needs_sustained_failure(m: SessionModel, now: u64)
    ensures
        capture_failed_step(m, now).2 is Some ==> m.had_successful_capture && elapsed_ms(
            now,
            match m.capture_fail_since {
                Some(s) => s,
                None => now,
            },
        ) >= m.config.notify_capture_lost_sustain,
        capture_failed_step(m, now).1 == (sat_inc(m.consecutive_failures) >= m.config.max_capture_retries),
{
}

/// The round clock measures from one completed round to the next: a
/// confirmed `RoundVisible` while the clock runs leaves it running from where
/// it started, only a stopped clock is started by it; so the `RoundGone` that
/// ends a round reports the time since the `RoundGone` before it, the time
/// between rounds included.
pub proof fn law_round_clock_spans_round_visible(
    m: SessionModel,
    gone1: DetectionEvent,
    visible: DetectionEvent,
    gone2: DetectionEvent,
    t0: u64,
    t1: u64,
    t2: u64,
    focused: bool,
)
    requires
        spec_kind(gone1) == EventKind::RoundGone,
        spec_kind(visible) == EventKind::RoundVisible,
        spec_kind(gone2) == EventKind::RoundGone,
    ensures
        m.round_start is Some ==> transition_step(m, visible, t1, focused).0.round_start == m.round_start,
        m.round_start is None ==> transition_step(m, visible, t1, focused).0.round_start == Some(t1),
        ({
            let m1 = transition_step(m, gone1, t0, focused).0;
            let m2 = transition_step(m1, visible, t1, focused).0;
            transition_step(m2, gone2, t2, focused).1.elapsed == Some(elapsed_text(elapsed_ms(t2, t0)))
        }),
{
}

} // verus!
