//! Round bookkeeping of the monitor: voting on OCR round numbers, inferring
//! the completed round, and the texts shown for events, resolutions and
//! elapsed times.
use vstd::prelude::*;

use crate::event::DetectionEvent;
use crate::monitor::transition::{kind_of, spec_kind, EventKind};
use crate::text::{dec, dec_padded, owned, push_decimal, push_decimal_padded, push_str};

verus! {

// ----------------------------------------------------------------------
// Majority vote
// ----------------------------------------------------------------------

/// Number of votes equal to `v`.
pub open spec fn count_of(s: Seq<u32>, v: u32) -> nat
    decreases s.len(),
{
    if s.len() == 0 {
        0
    } else {
        count_of(s.drop_last(), v) + if s.last() == v { 1nat } else { 0nat }
    }
}

/// `i` is the first position at which its value occurs.
pub open spec fn first_at(s: Seq<u32>, i: int) -> bool {
    &&& 0 <= i < s.len()
    &&& forall|j: int| 0 <= j < i ==> s[j] != s[i]
}

/// `i` is the first occurrence of the most frequent value; among values with
/// equal counts, the one that first appears last wins.
pub open spec fn leader_at(s: Seq<u32>, i: int) -> bool {
    &&& first_at(s, i)
    &&& forall|j: int|
        #![trigger first_at(s, j)]
        first_at(s, j) ==> count_of(s, s[j]) < count_of(s, s[i]) || (count_of(s, s[j]) == count_of(
            s,
            s[i],
        ) && j <= i)
}

/// The leader's value, when its share of the votes reaches `ratio` basis points.
pub open spec fn vote_outcome(s: Seq<u32>, i: int, ratio: nat) -> Option<u32> {
    if count_of(s, s[i]) * 10000 >= ratio * s.len() {
        Some(s[i])
    } else {
        None
    }
}

fn count_votes(votes: &Vec<u32>, v: u32) -> (c: usize)
    ensures
        c == count_of(votes@, v),
        c <= votes.len(),
{
    let mut c: usize = 0;
    let mut j: usize = 0;
    while j < votes.len()
        invariant
            j <= votes.len(),
            c <= j,
            c == count_of(votes@.take(j as int), v),
        decreases votes.len() - j,
    {
        assert(votes@.take(j + 1).drop_last() =~= votes@.take(j as int));
        if votes[j] == v {
            c = c + 1;
        }
        j = j + 1;
    }
    assert(votes@.take(votes.len() as int) =~= votes@);
    c
}

fn is_first_occurrence(votes: &Vec<u32>, i: usize) -> (r: bool)
    requires
        i < votes.len(),
    ensures
        r == first_at(votes@, i as int),
{
    let mut j: usize = 0;
    while j < i
        invariant
            j <= i < votes.len(),
            forall|k: int| 0 <= k < j ==> votes@[k] != votes@[i as int],
        decreases i - j,
    {
        if votes[j] == votes[i] {
            return false;
        }
        j = j + 1;
    }
    true
}

/// The outcome of a vote: nothing for no votes, else the leader's outcome.
pub open spec fn vote_result(s: Seq<u32>, ratio: nat) -> Option<u32> {
    if s.len() == 0 {
        None
    } else {
        vote_outcome(s, choose|i: int| leader_at(s, i), ratio)
    }
}

/// The confirmed value of frame-level OCR votes: the most frequent vote (on a
/// tie, the value whose first vote came last), if its share of all votes is
/// at least `confirmation_ratio` basis points; `None` for no votes.
pub fn majority_vote(votes: &Vec<u32>, confirmation_ratio: u32) -> (r: Option<u32>)
    ensures
        votes.len() == 0 ==> r is None,
        votes.len() > 0 ==> exists|i: int|
            leader_at(votes@, i) && r == vote_outcome(votes@, i, confirmation_ratio as nat),
        r == vote_result(votes@, confirmation_ratio as nat),
{
    let n = votes.len();
    if n == 0 {
        return None;
    }
    let mut best: usize = 0;
    let mut best_count = count_votes(votes, votes[0]);
    let mut i: usize = 1;
    while i < n
        invariant
            n == votes.len(),
            1 <= i <= n,
            best < i,
            first_at(votes@, best as int),
            best_count == count_of(votes@, votes@[best as int]),
            forall|j: int|
                #![trigger first_at(votes@, j)]
                0 <= j < i && first_at(votes@, j) ==> count_of(votes@, votes@[j]) < best_count || (
                count_of(votes@, votes@[j]) == best_count && j <= best),
        decreases n - i,
    {
        if is_first_occurrence(votes, i) {
            let c = count_votes(votes, votes[i]);
            if c >= best_count {
                best = i;
                best_count = c;
            }
        }
        i = i + 1;
    }
    proof {
        assert forall|j: int| #![trigger first_at(votes@, j)] first_at(votes@, j) implies count_of(
            votes@,
            votes@[j],
        ) < count_of(votes@, votes@[best as int]) || (count_of(votes@, votes@[j]) == count_of(
            votes@,
            votes@[best as int],
        ) && j <= best) by {}
        assert(leader_at(votes@, best as int));
        let c = choose|i: int| leader_at(votes@, i);
        law_vote_leader_unique(votes@, c, best as int);
    }
    let share: u128 = (best_count as u128) * 10000;
    let ratio: u128 = confirmation_ratio as u128;
    let total: u128 = n as u128;
    assert(ratio * total <= 0xffff_ffffu128 * 0xffff_ffff_ffff_ffffu128) by (nonlinear_arith)
        requires
            ratio <= 0xffff_ffffu128,
            total <= 0xffff_ffff_ffff_ffffu128,
    ;
    let need: u128 = ratio * total;
    if share >= need {
        Some(votes[best])
    } else {
        None
    }
}

/// The vote leader is unique: two leaders of the same votes are the same position.
pub proof fn law_vote_leader_unique(s: Seq<u32>, i: int, k: int)
    requires
        leader_at(s, i),
        leader_at(s, k),
    ensures
        i == k,
{
    assert(first_at(s, k));
    assert(first_at(s, i));
}

proof fn lemma_first_occurrence(s: Seq<u32>, k: int)
    requires
        0 <= k < s.len(),
    ensures
        exists|j: int| 0 <= j <= k && first_at(s, j) && s[j] == s[k],
    decreases k,
{
    if !first_at(s, k) {
        let j = choose|j: int| 0 <= j < k && s[j] == s[k];
        lemma_first_occurrence(s, j);
        let j2 = choose|j2: int| 0 <= j2 <= j && first_at(s, j2) && s[j2] == s[j];
        assert(0 <= j2 <= k && first_at(s, j2) && s[j2] == s[k]);
    } else {
        assert(first_at(s, k) && s[k] == s[k]);
    }
}

proof fn lemma_count_absent(s: Seq<u32>, v: u32)
    requires
        forall|i: int| 0 <= i < s.len() ==> s[i] != v,
    ensures
        count_of(s, v) == 0,
    decreases s.len(),
{
    if s.len() > 0 {
        lemma_count_absent(s.drop_last(), v);
    }
}

/// The vote leader's value occurs at least as often as any other value.
pub proof fn law_vote_leader_most_frequent(s: Seq<u32>, i: int, u: u32)
    requires
        leader_at(s, i),
    ensures
        count_of(s, u) <= count_of(s, s[i]),
{
    if exists|k: int| 0 <= k < s.len() && s[k] == u {
        let k = choose|k: int| 0 <= k < s.len() && s[k] == u;
        lemma_first_occurrence(s, k);
        let j = choose|j: int| 0 <= j <= k && first_at(s, j) && s[j] == s[k];
        assert(first_at(s, j));
    } else {
        lemma_count_absent(s, u);
    }
}

// ----------------------------------------------------------------------
// Completed round inference
// ----------------------------------------------------------------------

/// `n + 1`, saturating at `u32::MAX`.
pub open spec fn sat_succ(n: u32) -> u32 {
    if n == u32::MAX {
        n
    } else {
        (n + 1) as u32
    }
}

/// Each recorded round is the saturating successor of the one before.
pub open spec fn consecutive(h: Seq<u32>) -> bool {
    forall|i: int| 0 <= i < h.len() - 1 ==> sat_succ(#[trigger] h[i]) == h[i + 1]
}

/// The completed round: the voted number when it is the first one seen or
/// matches the expected round; otherwise the successor of a consecutive
/// history of at least two rounds, when that is at most 99.
pub open spec fn resolved_round(select: Option<u32>, current: Option<u32>, history: Seq<u32>) -> Option<u32> {
    if select is Some && (current is None || current == select) {
        select
    } else if history.len() >= 2 && consecutive(history) && sat_succ(history.last()) <= 99 {
        Some(sat_succ(history.last()))
    } else {
        None
    }
}

/// Resolve the completed round number from the OCR majority vote, the
/// expected current round and the recent completed rounds.
pub fn resolve_round_number(select_round: Option<u32>, current: Option<u32>, history: &Vec<u32>) -> (r: Option<u32>)
    ensures
        r == resolved_round(select_round, current, history@),
{
    if let Some(num) = select_round {
        match current {
            None => {
                return Some(num);
            },
            Some(c) => {
                if c == num {
                    return Some(num);
                }
            },
        }
    }
    if history.len() >= 2 {
        let mut i: usize = 0;
        let mut ok = true;
        while i + 1 < history.len()
            invariant
                history.len() >= 2,
                i + 1 <= history.len(),
                ok == forall|k: int| 0 <= k < i ==> sat_succ(#[trigger] history@[k]) == history@[k + 1],
            decreases history.len() - i,
        {
            let a = history[i];
            let succ = if a == u32::MAX { a } else { a + 1 };
            if succ != history[i + 1] {
                ok = false;
            }
            i = i + 1;
        }
        if ok {
            let last = history[history.len() - 1];
            let next = if last == u32::MAX { last } else { last + 1 };
            if next <= 99 {
                return Some(next);
            }
        }
    }
    None
}

/// A voted number that matches the expected round is always taken.
pub proof fn law_matching_vote_accepted(n: u32, history: Seq<u32>)
    ensures
        resolved_round(Some(n), Some(n), history) == Some(n),
        resolved_round(Some(n), None, history) == Some(n),
{
}

/// A resolved round is a valid round number whenever it is inferred from
/// history, and a vote is only taken when it is expected or first.
pub proof fn law_resolved_round_source(select: Option<u32>, current: Option<u32>, history: Seq<u32>)
    ensures
        resolved_round(select, current, history) matches Some(n) ==> (select == Some(n) && (current is None
            || current == select)) || (1 <= n <= 99),
{
    if history.len() >= 2 {
        let l = history.last();
        assert(sat_succ(l) >= 1 || l == u32::MAX);
    }
}

// ----------------------------------------------------------------------
// Texts
// ----------------------------------------------------------------------

/// Minimum recommended frame width for reliable OCR.
pub const MIN_OCR_WIDTH: u32 = 1600;

/// Frame sizes (titlebar included) the detectors were tested on.
pub open spec fn tested_resolution(w: u32, h: u32) -> bool {
    ||| (w == 1282 && h == 752)
    ||| (w == 1368 && h == 800)
    ||| (w == 1602 && h == 932)
    ||| (w == 1922 && h == 1112)
}

/// Warning for a frame narrower than the recommended width.
pub open spec fn below_recommended_text(w: u32, h: u32) -> Seq<char> {
    "Resolution "@ + dec(w as nat) + "x"@ + dec(h as nat)
        + " is below recommended (1600x900+). OCR accuracy may be degraded."@
}

/// Warning for a frame size that was never tested.
pub open spec fn untested_text(w: u32, h: u32) -> Seq<char> {
    "Resolution "@ + dec(w as nat) + "x"@ + dec(h as nat) + " has not been tested. Detection may be inaccurate."@
}

/// The resolution warning for a frame of `w` x `h` pixels, if any.
pub open spec fn resolution_warning(w: u32, h: u32) -> Option<Seq<char>> {
    if w < MIN_OCR_WIDTH {
        Some(below_recommended_text(w, h))
    } else if !tested_resolution(w, h) {
        Some(untested_text(w, h))
    } else {
        None
    }
}

/// The characters of an optional string.
pub open spec fn opt_view(o: Option<String>) -> Option<Seq<char>> {
    match o {
        Some(s) => Some(s@),
        None => None,
    }
}

fn is_tested_resolution(w: u32, h: u32) -> (r: bool)
    ensures
        r == tested_resolution(w, h),
{
    (w == 1282 && h == 752) || (w == 1368 && h == 800) || (w == 1602 && h == 932) || (w == 1922 && h
        == 1112)
}

fn resolution_prefix(w: u32, h: u32) -> (s: String)
    ensures
        s@ == "Resolution "@ + dec(w as nat) + "x"@ + dec(h as nat),
{
    let mut s = owned("Resolution ");
    push_decimal(&mut s, w as u64);
    push_str(&mut s, "x");
    push_decimal(&mut s, h as u64);
    s
}

/// Check a frame's resolution and return a warning if it is below the
/// recommended width or was never tested.
pub fn check_resolution(width: u32, height: u32) -> (r: Option<String>)
    ensures
        opt_view(r) == resolution_warning(width, height),
{
    let known = is_tested_resolution(width, height);
    if width < MIN_OCR_WIDTH {
        let mut s = resolution_prefix(width, height);
        push_str(&mut s, " is below recommended (1600x900+). OCR accuracy may be degraded.");
        Some(s)
    } else if !known {
        let mut s = resolution_prefix(width, height);
        push_str(&mut s, " has not been tested. Detection may be inaccurate.");
        Some(s)
    } else {
        None
    }
}

/// Elapsed time as shown to the user: `"{m}m {ss}s"` from one minute on,
/// `"{s}s"` below, for whole seconds of `ms` milliseconds.
pub open spec fn elapsed_text(ms: nat) -> Seq<char> {
    let secs = ms / 1000;
    let mins = secs / 60;
    let rest = secs % 60;
    if mins > 0 {
        dec(mins) + "m "@ + dec_padded(rest, 2) + "s"@
    } else {
        dec(rest) + "s"@
    }
}

/// Format an elapsed time given in milliseconds (e.g. `"1m 23s"`).
pub fn format_elapsed(elapsed_ms: u64) -> (s: String)
    ensures
        s@ == elapsed_text(elapsed_ms as nat),
{
    let total_secs = elapsed_ms / 1000;
    let mins = total_secs / 60;
    let secs = total_secs % 60;
    let mut s = String::new();
    if mins > 0 {
        push_decimal(&mut s, mins);
        push_str(&mut s, "m ");
        push_decimal_padded(&mut s, secs, 2);
        push_str(&mut s, "s");
        assert(s@ =~= elapsed_text(elapsed_ms as nat));
    } else {
        push_decimal(&mut s, secs);
        push_str(&mut s, "s");
        assert(s@ =~= elapsed_text(elapsed_ms as nat));
    }
    s
}

/// Description of an event kind shown in the event log; internal kinds
/// have none.
pub open spec fn description(k: EventKind) -> Seq<char> {
    match k {
        EventKind::RoundVisible => "ラウンド進行中"@,
        EventKind::RoundGone => "ラウンド完了"@,
        EventKind::ResultScreenVisible => "依頼完了 (リザルト)"@,
        EventKind::ResultScreenGone => "リザルト終了"@,
        EventKind::DialogVisible => "ダイアログ表示"@,
        EventKind::DialogGone => "ダイアログ消失"@,
        _ => Seq::empty(),
    }
}

/// Human-readable description of a detection event.
pub fn event_description(event: &DetectionEvent) -> (s: String)
    ensures
        s@ == description(spec_kind(*event)),
{
    match kind_of(event) {
        EventKind::RoundVisible => owned("ラウンド進行中"),
        EventKind::RoundGone => owned("ラウンド完了"),
        EventKind::ResultScreenVisible => owned("依頼完了 (リザルト)"),
        EventKind::ResultScreenGone => owned("リザルト終了"),
        EventKind::DialogVisible => owned("ダイアログ表示"),
        EventKind::DialogGone => owned("ダイアログ消失"),
        _ => String::new(),
    }
}

} // verus!
