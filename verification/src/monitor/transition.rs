//! Sliding-window confirmation of detector state changes.
//!
//! Each detector reports one of two complementary kinds on every frame
//! (e.g. `RoundVisible` / `RoundGone`). A kind becomes the confirmed state of
//! its detector only once it fills at least `confirmation_ratio` of the last
//! `window_size` frames, which tolerates single-frame detection noise.
use std::collections::VecDeque;
use vstd::prelude::*;

use crate::event::DetectionEvent;

verus! {

/// Kind of a detection event, without its measurements.
#[derive(Debug, Clone, Copy, PartialEq, Eq, Structural)]
pub enum EventKind {
    RoundVisible,
    RoundGone,
    DialogVisible,
    DialogGone,
    ResultScreenVisible,
    ResultScreenGone,
    RoundEndScreen,
    RoundSelectScreen,
    GenemonVisible,
    GenemonGone,
    SkillReady,
    SkillGreyed,
    AllyHpLow,
    AllyHpNormal,
}

/// Detector whose state an event reports.
#[derive(Debug, Clone, Copy, PartialEq, Eq, Structural)]
pub enum DetectorCategory {
    Round,
    Dialog,
    ResultScreen,
    RoundNumber,
    Genemon,
    Skill,
    AllyHp,
}

/// Number of detector categories.
pub const CATEGORY_COUNT: usize = 7;

/// Kind of an event.
pub open spec fn spec_kind(e: DetectionEvent) -> EventKind {
    match e {
        DetectionEvent::RoundVisible { .. } => EventKind::RoundVisible,
        DetectionEvent::RoundGone { .. } => EventKind::RoundGone,
        DetectionEvent::DialogVisible { .. } => EventKind::DialogVisible,
        DetectionEvent::DialogGone { .. } => EventKind::DialogGone,
        DetectionEvent::ResultScreenVisible { .. } => EventKind::ResultScreenVisible,
        DetectionEvent::ResultScreenGone => EventKind::ResultScreenGone,
        DetectionEvent::RoundEndScreen { .. } => EventKind::RoundEndScreen,
        DetectionEvent::RoundSelectScreen { .. } => EventKind::RoundSelectScreen,
        DetectionEvent::GenemonVisible => EventKind::GenemonVisible,
        DetectionEvent::GenemonGone => EventKind::GenemonGone,
        DetectionEvent::SkillReady { .. } => EventKind::SkillReady,
        DetectionEvent::SkillGreyed { .. } => EventKind::SkillGreyed,
        DetectionEvent::AllyHpLow { .. } => EventKind::AllyHpLow,
        DetectionEvent::AllyHpNormal { .. } => EventKind::AllyHpNormal,
    }
}

/// Detector that produces events of kind `k`.
pub open spec fn kind_category(k: EventKind) -> DetectorCategory {
    match k {
        EventKind::RoundVisible | EventKind::RoundGone => DetectorCategory::Round,
        EventKind::DialogVisible | EventKind::DialogGone => DetectorCategory::Dialog,
        EventKind::ResultScreenVisible | EventKind::ResultScreenGone => DetectorCategory::ResultScreen,
        EventKind::RoundEndScreen | EventKind::RoundSelectScreen => DetectorCategory::RoundNumber,
        EventKind::GenemonVisible | EventKind::GenemonGone => DetectorCategory::Genemon,
        EventKind::SkillReady | EventKind::SkillGreyed => DetectorCategory::Skill,
        EventKind::AllyHpLow | EventKind::AllyHpNormal => DetectorCategory::AllyHp,
    }
}

/// Slot of a category in the filter's per-category tables.
pub open spec fn category_index(c: DetectorCategory) -> int {
    match c {
        DetectorCategory::Round => 0,
        DetectorCategory::Dialog => 1,
        DetectorCategory::ResultScreen => 2,
        DetectorCategory::RoundNumber => 3,
        DetectorCategory::Genemon => 4,
        DetectorCategory::Skill => 5,
        DetectorCategory::AllyHp => 6,
    }
}

/// Slot of the detector that produced `e`.
pub open spec fn event_slot(e: DetectionEvent) -> int {
    category_index(kind_category(spec_kind(e)))
}

/// Short name of a kind, as shown in the event log.
pub open spec fn kind_name(k: EventKind) -> Seq<char> {
    match k {
        EventKind::RoundVisible => "RoundVisible"@,
        EventKind::RoundGone => "RoundGone"@,
        EventKind::DialogVisible => "DialogVisible"@,
        EventKind::DialogGone => "DialogGone"@,
        EventKind::ResultScreenVisible => "ResultScreenVisible"@,
        EventKind::ResultScreenGone => "ResultScreenGone"@,
        EventKind::RoundEndScreen => "RoundEndScreen"@,
        EventKind::RoundSelectScreen => "RoundSelectScreen"@,
        EventKind::GenemonVisible => "GenemonVisible"@,
        EventKind::GenemonGone => "GenemonGone"@,
        EventKind::SkillReady => "SkillReady"@,
        EventKind::SkillGreyed => "SkillGreyed"@,
        EventKind::AllyHpLow => "AllyHpLow"@,
        EventKind::AllyHpNormal => "AllyHpNormal"@,
    }
}

/// The kind of an event.
pub fn kind_of(event: &DetectionEvent) -> (k: EventKind)
    ensures
        k == spec_kind(*event),
{
    match event {
        DetectionEvent::RoundVisible { .. } => EventKind::RoundVisible,
        DetectionEvent::RoundGone { .. } => EventKind::RoundGone,
        DetectionEvent::DialogVisible { .. } => EventKind::DialogVisible,
        DetectionEvent::DialogGone { .. } => EventKind::DialogGone,
        DetectionEvent::ResultScreenVisible { .. } => EventKind::ResultScreenVisible,
        DetectionEvent::ResultScreenGone => EventKind::ResultScreenGone,
        DetectionEvent::RoundEndScreen { .. } => EventKind::RoundEndScreen,
        DetectionEvent::RoundSelectScreen { .. } => EventKind::RoundSelectScreen,
        DetectionEvent::GenemonVisible => EventKind::GenemonVisible,
        DetectionEvent::GenemonGone => EventKind::GenemonGone,
        DetectionEvent::SkillReady { .. } => EventKind::SkillReady,
        DetectionEvent::SkillGreyed { .. } => EventKind::SkillGreyed,
        DetectionEvent::AllyHpLow { .. } => EventKind::AllyHpLow,
        DetectionEvent::AllyHpNormal { .. } => EventKind::AllyHpNormal,
    }
}

/// The detector category of an event.
pub fn categorize(event: &DetectionEvent) -> (c: DetectorCategory)
    ensures
        c == kind_category(spec_kind(*event)),
{
    match kind_of(event) {
        EventKind::RoundVisible | EventKind::RoundGone => DetectorCategory::Round,
        EventKind::DialogVisible | EventKind::DialogGone => DetectorCategory::Dialog,
        EventKind::ResultScreenVisible | EventKind::ResultScreenGone => DetectorCategory::ResultScreen,
        EventKind::RoundEndScreen | EventKind::RoundSelectScreen => DetectorCategory::RoundNumber,
        EventKind::GenemonVisible | EventKind::GenemonGone => DetectorCategory::Genemon,
        EventKind::SkillReady | EventKind::SkillGreyed => DetectorCategory::Skill,
        EventKind::AllyHpLow | EventKind::AllyHpNormal => DetectorCategory::AllyHp,
    }
}

/// Table slot of a category.
pub fn category_slot(c: DetectorCategory) -> (i: usize)
    ensures
        i == category_index(c),
        i < CATEGORY_COUNT,
{
    match c {
        DetectorCategory::Round => 0,
        DetectorCategory::Dialog => 1,
        DetectorCategory::ResultScreen => 2,
        DetectorCategory::RoundNumber => 3,
        DetectorCategory::Genemon => 4,
        DetectorCategory::Skill => 5,
        DetectorCategory::AllyHp => 6,
    }
}

/// Short kind name of an event (e.g. `"RoundVisible"`).
pub fn event_kind_name(event: &DetectionEvent) -> (s: &'static str)
    ensures
        s@ == kind_name(spec_kind(*event)),
{
    match kind_of(event) {
        EventKind::RoundVisible => "RoundVisible",
        EventKind::RoundGone => "RoundGone",
        EventKind::DialogVisible => "DialogVisible",
        EventKind::DialogGone => "DialogGone",
        EventKind::ResultScreenVisible => "ResultScreenVisible",
        EventKind::ResultScreenGone => "ResultScreenGone",
        EventKind::RoundEndScreen => "RoundEndScreen",
        EventKind::RoundSelectScreen => "RoundSelectScreen",
        EventKind::GenemonVisible => "GenemonVisible",
        EventKind::GenemonGone => "GenemonGone",
        EventKind::SkillReady => "SkillReady",
        EventKind::SkillGreyed => "SkillGreyed",
        EventKind::AllyHpLow => "AllyHpLow",
        EventKind::AllyHpNormal => "AllyHpNormal",
    }
}

/// Number of entries of `h` equal to `k`.
pub open spec fn count_kind(h: Seq<EventKind>, k: EventKind) -> nat
    decreases h.len(),
{
    if h.len() == 0 {
        0
    } else {
        count_kind(h.drop_last(), k) + if h.last() == k { 1nat } else { 0nat }
    }
}

/// `count_kind` counts occurrences wherever they lie in the window: one
/// entry counts 1 when it is `k` and 0 otherwise, and the count of two
/// windows joined is the sum of their counts; so a kind that fills enough of
/// the window is confirmed even when other kinds are interleaved.
pub proof fn law_count_kind_counts_occurrences(a: Seq<EventKind>, b: Seq<EventKind>, x: EventKind, k: EventKind)
    ensures
        count_kind(seq![x], k) == if x == k { 1nat } else { 0nat },
        count_kind(a + b, k) == count_kind(a, k) + count_kind(b, k),
        count_kind(a, k) <= a.len(),
    decreases b.len(),
{
    assert(seq![x].drop_last() =~= Seq::<EventKind>::empty());
    assert(seq![x].last() == x);
    assert(count_kind(Seq::<EventKind>::empty(), k) == 0);
    assert(count_kind(seq![x], k) == count_kind(seq![x].drop_last(), k) + if x == k { 1nat } else { 0nat });
    lemma_count_kind_bound(a, k);
    if b.len() == 0 {
        assert(a + b =~= a);
    } else {
        law_count_kind_counts_occurrences(a, b.drop_last(), x, k);
        assert((a + b).drop_last() =~= a + b.drop_last());
        assert((a + b).last() == b.last());
    }
}

proof fn lemma_count_kind_bound(a: Seq<EventKind>, k: EventKind)
    ensures
        count_kind(a, k) <= a.len(),
    decreases a.len(),
{
    if a.len() > 0 {
        lemma_count_kind_bound(a.drop_last(), k);
    }
}

/// The window `h` after `k` arrives: `k` appended, and the oldest entries
/// dropped so that at most `w` remain.
pub open spec fn slide(h: Seq<EventKind>, k: EventKind, w: nat) -> Seq<EventKind> {
    let p = h.push(k);
    if p.len() > w {
        p.subrange(p.len() - w, p.len() as int)
    } else {
        p
    }
}

/// `k` fills at least `ratio` basis points of a full window `h` of size `w`.
pub open spec fn confirms(h: Seq<EventKind>, k: EventKind, w: nat, ratio: nat) -> bool {
    &&& w > 0
    &&& h.len() >= w
    &&& count_kind(h, k) * 10000 >= ratio * w
}

/// Abstract state of a [`TransitionFilter`].
pub struct FilterModel {
    /// Confirmed kind per detector category.
    pub state: Seq<Option<EventKind>>,
    /// Recent kinds per detector category, oldest first.
    pub history: Seq<Seq<EventKind>>,
    /// Frames in the sliding window.
    pub window_size: nat,
    /// Share of agreeing frames needed, in basis points.
    pub ratio: nat,
}

/// A filter that has seen no events.
pub open spec fn fresh_model(window_size: nat, ratio: nat) -> FilterModel {
    FilterModel {
        state: Seq::new(CATEGORY_COUNT as nat, |i: int| None),
        history: Seq::new(CATEGORY_COUNT as nat, |i: int| Seq::empty()),
        window_size,
        ratio,
    }
}

/// One event through the filter: the new state and whether the event is a
/// confirmed transition. Round selection events only update round tracking
/// elsewhere and never pass.
pub open spec fn step(m: FilterModel, e: DetectionEvent) -> (FilterModel, bool) {
    let k = spec_kind(e);
    if k == EventKind::RoundSelectScreen {
        (m, false)
    } else {
        let i = event_slot(e);
        let h = slide(m.history[i], k, m.window_size);
        let fire = m.state[i] != Some(k) && confirms(h, k, m.window_size, m.ratio);
        (
            FilterModel {
                state: if fire { m.state.update(i, Some(k)) } else { m.state },
                history: m.history.update(i, h),
                window_size: m.window_size,
                ratio: m.ratio,
            },
            fire,
        )
    }
}

/// Events through the filter one after another: the final state and, for
/// each event, whether it was a transition.
pub open spec fn run(m: FilterModel, es: Seq<DetectionEvent>) -> (FilterModel, Seq<bool>)
    decreases es.len(),
{
    if es.len() == 0 {
        (m, Seq::empty())
    } else {
        let (m1, out) = run(m, es.drop_last());
        let (m2, fire) = step(m1, es.last());
        (m2, out.push(fire))
    }
}

/// Some event of `es` reports a kind that is not its detector's confirmed state.
pub open spec fn pending(m: FilterModel, es: Seq<DetectionEvent>) -> bool {
    exists|j: int| 0 <= j < es.len() && m.state[event_slot(#[trigger] es[j])] != Some(spec_kind(es[j]))
}

/// Tracks the confirmed kind of every detector and lets through only the
/// events that change it.
pub struct TransitionFilter {
    state: Vec<Option<EventKind>>,
    history: Vec<VecDeque<EventKind>>,
    window_size: usize,
    confirmation_ratio: u32,
}

impl View for TransitionFilter {
    type V = FilterModel;

    closed spec fn view(&self) -> FilterModel {
        FilterModel {
            state: self.state@,
            history: Seq::new(self.history@.len(), |i: int| self.history@[i]@),
            window_size: self.window_size as nat,
            ratio: self.confirmation_ratio as nat,
        }
    }
}

/// Tables have one slot per category and no window holds more than
/// `window_size` kinds.
pub open spec fn model_wf(m: FilterModel) -> bool {
    &&& m.state.len() == CATEGORY_COUNT
    &&& m.history.len() == CATEGORY_COUNT
    &&& forall|i: int| 0 <= i < CATEGORY_COUNT ==> (#[trigger] m.history[i]).len() <= m.window_size
}

impl TransitionFilter {
    /// The filter's tables are well formed.
    pub closed spec fn wf(&self) -> bool {
        &&& self.history@.len() == CATEGORY_COUNT
        &&& model_wf(self@)
    }

    /// A filter with empty windows and no confirmed state.
    pub fn new(window_size: usize, confirmation_ratio: u32) -> (f: Self)
        ensures
            f.wf(),
            f@ == fresh_model(window_size as nat, confirmation_ratio as nat),
    {
        let mut state: Vec<Option<EventKind>> = Vec::new();
        let mut history: Vec<VecDeque<EventKind>> = Vec::new();
        let mut i: usize = 0;
        while i < CATEGORY_COUNT
            invariant
                i <= CATEGORY_COUNT,
                state.len() == i,
                history.len() == i,
                forall|j: int| 0 <= j < i ==> state@[j] == None::<EventKind>,
                forall|j: int| 0 <= j < i ==> (#[trigger] history@[j])@ == Seq::<EventKind>::empty(),
            decreases CATEGORY_COUNT - i,
        {
            state.push(None);
            history.push(VecDeque::new());
            i = i + 1;
        }
        let f = TransitionFilter { state, history, window_size, confirmation_ratio };
        assert(f@.state =~= fresh_model(window_size as nat, confirmation_ratio as nat).state);
        assert(f@.history =~= fresh_model(window_size as nat, confirmation_ratio as nat).history);
        f
    }

    /// Whether `event` is a confirmed state change; records it in the window
    /// of its detector.
    pub fn is_transition(&mut self, event: &DetectionEvent) -> (r: bool)
        requires
            old(self).wf(),
        ensures
            final(self).wf(),
            (final(self)@, r) == step(old(self)@, *event),
    {
        let kind = kind_of(event);
        if kind == EventKind::RoundSelectScreen {
            return false;
        }
        let idx = category_slot(categorize(event));
        let ghost m0 = self@;
        let ghost h0 = m0.history[idx as int];
        let mut h = self.history.remove(idx);
        assert(h@ == h0);
        h.push_back(kind);
        if h.len() > self.window_size {
            let _ = h.pop_front();
            assert(h@ =~= slide(h0, kind, m0.window_size));
        } else {
            assert(h@ =~= slide(h0, kind, m0.window_size));
        }
        let mut agree: usize = 0;
        let mut j: usize = 0;
        while j < h.len()
            invariant
                j <= h.len(),
                agree <= j,
                agree == count_kind(h@.take(j as int), kind),
            decreases h.len() - j,
        {
            assert(h@.take(j + 1).drop_last() =~= h@.take(j as int));
            if h[j] == kind {
                agree = agree + 1;
            }
            j = j + 1;
        }
        assert(h@.take(h.len() as int) =~= h@);
        let w = self.window_size;
        let already = match self.state[idx] {
            Some(k) => k == kind,
            None => false,
        };
        let full = w > 0 && h.len() >= w;
        let mut fire = false;
        if !already && full {
            let lhs: u128 = (agree as u128) * 10000;
            let ratio: u128 = self.confirmation_ratio as u128;
            let wide: u128 = w as u128;
            assert(ratio * wide <= 0xffff_ffffu128 * 0xffff_ffff_ffff_ffffu128) by (nonlinear_arith)
                requires
                    ratio <= 0xffff_ffffu128,
                    wide <= 0xffff_ffff_ffff_ffffu128,
            ;
            let rhs: u128 = ratio * wide;
            fire = lhs >= rhs;
        }
        if fire {
            self.state.set(idx, Some(kind));
        }
        self.history.insert(idx, h);
        proof {
            let m1 = self@;
            let (m2, f2) = step(m0, *event);
            assert(m1.history =~= m2.history);
            assert(m1.state =~= m2.state);
            assert(fire == f2);
            assert forall|i: int| 0 <= i < CATEGORY_COUNT implies (#[trigger] m1.history[i]).len()
                <= m1.window_size by {
                if i != idx {
                    assert(m1.history[i] == m0.history[i]);
                }
            }
        }
        fire
    }

    /// Whether any of `events` reports a kind other than its detector's
    /// confirmed state, i.e. could become a transition.
    pub fn has_pending_transition(&self, events: &Vec<DetectionEvent>) -> (r: bool)
        requires
            self.wf(),
        ensures
            r == pending(self@, events@),
    {
        let mut i: usize = 0;
        while i < events.len()
            invariant
                self.wf(),
                i <= events.len(),
                forall|j: int| 0 <= j < i ==> self@.state[event_slot(#[trigger] events@[j])] == Some(
                    spec_kind(events@[j]),
                ),
            decreases events.len() - i,
        {
            let kind = kind_of(&events[i]);
            let idx = category_slot(categorize(&events[i]));
            let same = match self.state[idx] {
                Some(k) => k == kind,
                None => false,
            };
            if !same {
                assert(self@.state[event_slot(events@[i as int])] != Some(spec_kind(events@[i as int])));
                return true;
            }
            i = i + 1;
        }
        false
    }
}

/// A step keeps the filter's tables well formed.
pub proof fn lemma_step_wf(m: FilterModel, e: DetectionEvent)
    requires
        model_wf(m),
    ensures
        model_wf(step(m, e).0),
{
    let m1 = step(m, e).0;
    assert forall|i: int| 0 <= i < CATEGORY_COUNT implies (#[trigger] m1.history[i]).len() <= m1.window_size by {
        if spec_kind(e) != EventKind::RoundSelectScreen && i != event_slot(e) {
            assert(m1.history[i] == m.history[i]);
        }
    }
}

/// An event whose kind is already the confirmed state of its detector is
/// never a transition, and a transition always confirms a kind that was not
/// confirmed before.
pub proof fn law_transition_changes_state(m: FilterModel, e: DetectionEvent)
    requires
        model_wf(m),
    ensures
        m.state[event_slot(e)] == Some(spec_kind(e)) ==> !step(m, e).1,
        step(m, e).1 ==> m.state[event_slot(e)] != Some(spec_kind(e))
            && step(m, e).0.state[event_slot(e)] == Some(spec_kind(e)),
{
}

/// Round selection events never pass the filter and leave it unchanged.
pub proof fn law_round_select_is_internal(m: FilterModel, e: DetectionEvent)
    requires
        e is RoundSelectScreen,
    ensures
        step(m, e) == (m, false),
{
}

/// Facts about running a fresh filter: every window holds at most as many
/// kinds as events were seen.
proof fn lemma_run_fresh(w: nat, ratio: nat, es: Seq<DetectionEvent>)
    ensures
        model_wf(run(fresh_model(w, ratio), es).0),
        run(fresh_model(w, ratio), es).1.len() == es.len(),
        run(fresh_model(w, ratio), es).0.window_size == w,
        forall|i: int| 0 <= i < CATEGORY_COUNT ==> (#[trigger] run(fresh_model(w, ratio), es).0.history[i]).len() <= es.len(),
        es.len() < w ==> forall|j: int| 0 <= j < es.len() ==> !(#[trigger] run(fresh_model(w, ratio), es).1[j]),
    decreases es.len(),
{
    let f = fresh_model(w, ratio);
    if es.len() == 0 {
        assert forall|i: int| 0 <= i < CATEGORY_COUNT implies (#[trigger] f.history[i]).len() <= f.window_size by {}
    } else {
        let pre = es.drop_last();
        lemma_run_fresh(w, ratio, pre);
        let (m1, out) = run(f, pre);
        let e = es.last();
        lemma_step_wf(m1, e);
        let (m2, fire) = step(m1, e);
        assert forall|i: int| 0 <= i < CATEGORY_COUNT implies (#[trigger] m2.history[i]).len() <= es.len() by {
            if spec_kind(e) != EventKind::RoundSelectScreen && i == event_slot(e) {
                assert(m1.history[i].len() <= pre.len());
            } else {
                assert(m2.history[i] == m1.history[i]);
            }
        }
        if es.len() < w {
            assert forall|j: int| 0 <= j < es.len() implies !(#[trigger] run(f, es).1[j]) by {
                if j < pre.len() {
                    assert(run(f, es).1[j] == out[j]);
                } else if spec_kind(e) != EventKind::RoundSelectScreen {
                    let i = event_slot(e);
                    assert(m2.history[i].len() <= es.len());
                }
            }
        }
    }
}

/// A fresh filter lets no event through before its window is full: the first
/// `window_size - 1` events are never transitions.
pub proof fn law_fresh_filter_waits_for_full_window(window_size: nat, ratio: nat, es: Seq<DetectionEvent>)
    requires
        es.len() < window_size,
    ensures
        forall|j: int| 0 <= j < es.len() ==> !(#[trigger] run(fresh_model(window_size, ratio), es).1[j]),
{
    lemma_run_fresh(window_size, ratio, es);
}

/// Running the filter keeps its tables well formed.
pub proof fn law_run_keeps_wf(m: FilterModel, es: Seq<DetectionEvent>)
    requires
        model_wf(m),
    ensures
        model_wf(run(m, es).0),
        run(m, es).0.window_size == m.window_size,
        run(m, es).0.ratio == m.ratio,
    decreases es.len(),
{
    if es.len() > 0 {
        law_run_keeps_wf(m, es.drop_last());
        lemma_step_wf(run(m, es.drop_last()).0, es.last());
    }
}

} // verus!
