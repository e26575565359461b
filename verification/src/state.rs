//! Debounce wrapper that suppresses repeated events of a variant during a
//! cooldown.
use vstd::prelude::*;

use crate::detector::Detector;
use crate::event::DetectionEvent;
use crate::frame::Frame;
use crate::monitor::transition::{kind_of, spec_kind, EventKind};

verus! {

/// Milliseconds from `since` to `now`, 0 when `now` is earlier.
pub open spec fn elapsed_ms(now: u64, since: u64) -> nat {
    if now >= since {
        (now - since) as nat
    } else {
        0
    }
}

/// Number of event variants.
pub const KIND_COUNT: usize = 14;

/// Slot of an event variant in the table of last emission times.
pub open spec fn kind_index(k: EventKind) -> int {
    match k {
        EventKind::RoundVisible => 0,
        EventKind::RoundGone => 1,
        EventKind::DialogVisible => 2,
        EventKind::DialogGone => 3,
        EventKind::ResultScreenVisible => 4,
        EventKind::ResultScreenGone => 5,
        EventKind::RoundEndScreen => 6,
        EventKind::RoundSelectScreen => 7,
        EventKind::GenemonVisible => 8,
        EventKind::GenemonGone => 9,
        EventKind::SkillReady => 10,
        EventKind::SkillGreyed => 11,
        EventKind::AllyHpLow => 12,
        EventKind::AllyHpNormal => 13,
    }
}

fn kind_slot(k: EventKind) -> (i: usize)
    ensures
        i == kind_index(k),
        i < KIND_COUNT,
{
    match k {
        EventKind::RoundVisible => 0,
        EventKind::RoundGone => 1,
        EventKind::DialogVisible => 2,
        EventKind::DialogGone => 3,
        EventKind::ResultScreenVisible => 4,
        EventKind::ResultScreenGone => 5,
        EventKind::RoundEndScreen => 6,
        EventKind::RoundSelectScreen => 7,
        EventKind::GenemonVisible => 8,
        EventKind::GenemonGone => 9,
        EventKind::SkillReady => 10,
        EventKind::SkillGreyed => 11,
        EventKind::AllyHpLow => 12,
        EventKind::AllyHpNormal => 13,
    }
}

/// The variant of `e` was emitted less than `cooldown_ms` before `now`.
pub open spec fn cooling(last: Seq<Option<u64>>, e: DetectionEvent, cooldown_ms: u64, now: u64) -> bool {
    match last[kind_index(spec_kind(e))] {
        Some(t) => elapsed_ms(now, t) < cooldown_ms,
        None => false,
    }
}

/// The events of `es` whose variant is not cooling down, in order.
pub open spec fn kept(es: Seq<DetectionEvent>, last: Seq<Option<u64>>, cooldown_ms: u64, now: u64) -> Seq<DetectionEvent>
    decreases es.len(),
{
    if es.len() == 0 {
        Seq::empty()
    } else {
        let rest = kept(es.drop_last(), last, cooldown_ms, now);
        if cooling(last, es.last(), cooldown_ms, now) {
            rest
        } else {
            rest.push(es.last())
        }
    }
}

/// Some event of `es` is of the variant in slot `i`.
pub open spec fn has_variant(es: Seq<DetectionEvent>, i: int) -> bool {
    exists|j: int| 0 <= j < es.len() && kind_index(spec_kind(#[trigger] es[j])) == i
}

/// The emission times after `emitted` went out at `now`.
pub open spec fn stamped(last: Seq<Option<u64>>, emitted: Seq<DetectionEvent>, now: u64) -> Seq<Option<u64>> {
    Seq::new(last.len(), |i: int| if has_variant(emitted, i) { Some(now) } else { last[i] })
}

/// Wraps a detector so that, after an event has been emitted, further events
/// of the same variant are suppressed until the cooldown has elapsed.
#[derive(Debug)]
pub struct DebouncedDetector<D> {
    inner: D,
    cooldown_ms: u64,
    last_emitted: Vec<Option<u64>>,
}

impl<D> DebouncedDetector<D> {
    #[verifier::type_invariant]
    spec fn inv(&self) -> bool {
        self.last_emitted@.len() == KIND_COUNT
    }
}

impl<D: Detector> DebouncedDetector<D> {
    /// The wrapped detector.
    pub closed spec fn spec_inner(&self) -> D {
        self.inner
    }

    /// The cooldown in milliseconds.
    pub closed spec fn spec_cooldown(&self) -> u64 {
        self.cooldown_ms
    }

    /// When each variant was last emitted (milliseconds), if ever since the
    /// last reset; one slot per variant.
    pub closed spec fn spec_last_emitted(&self) -> Seq<Option<u64>> {
        self.last_emitted@
    }

    /// Wrap `inner` with a cooldown of `cooldown_ms` milliseconds.
    pub fn new(inner: D, cooldown_ms: u64) -> (d: Self)
        ensures
            d.spec_inner() == inner,
            d.spec_cooldown() == cooldown_ms,
            d.spec_last_emitted() == Seq::new(KIND_COUNT as nat, |i: int| None::<u64>),
    {
        let mut last_emitted: Vec<Option<u64>> = Vec::new();
        while last_emitted.len() < KIND_COUNT
            invariant
                last_emitted.len() <= KIND_COUNT,
                forall|i: int| 0 <= i < last_emitted.len() ==> last_emitted@[i] is None,
            decreases KIND_COUNT - last_emitted.len(),
        {
            last_emitted.push(None);
        }
        let d = DebouncedDetector { inner, cooldown_ms, last_emitted };
        assert(d.last_emitted@ =~= Seq::new(KIND_COUNT as nat, |i: int| None::<u64>));
        d
    }

    /// Analyse a frame at time `now_ms`: the inner detector's events, except
    /// those whose variant was emitted less than the cooldown before; the
    /// variants let through are stamped with `now_ms`.
    pub fn process(&mut self, frame: &Frame, now_ms: u64) -> (events: Vec<DetectionEvent>)
        ensures
            final(self).spec_inner() == old(self).spec_inner(),
            final(self).spec_cooldown() == old(self).spec_cooldown(),
            events@ == kept(
                old(self).spec_inner().spec_analyze(frame@),
                old(self).spec_last_emitted(),
                old(self).spec_cooldown(),
                now_ms,
            ),
            final(self).spec_last_emitted() == stamped(old(self).spec_last_emitted(), events@, now_ms),
            final(self).spec_last_emitted().len() == KIND_COUNT,
    {
        proof {
            use_type_invariant(&*self);
        }
        let mut produced = self.inner.analyze(frame);
        let ghost all = produced@;
        let ghost last0 = self.last_emitted@;
        let mut out: Vec<DetectionEvent> = Vec::new();
        let total = produced.len();
        let mut k: usize = 0;
        while produced.len() > 0
            invariant
                all.len() == total,
                k <= all.len(),
                k + produced@.len() == all.len(),
                produced@ == all.skip(k as int),
                out@ == kept(all.take(k as int), last0, self.cooldown_ms, now_ms),
                self.last_emitted@ == last0,
                last0.len() == KIND_COUNT,
            decreases produced.len(),
        {
            let e = produced.remove(0);
            assert(e == all[k as int]);
            assert(all.take(k + 1).drop_last() =~= all.take(k as int));
            let slot = kind_slot(kind_of(&e));
            let cool = match self.last_emitted[slot] {
                Some(t) => {
                    let el = if now_ms >= t { now_ms - t } else { 0 };
                    el < self.cooldown_ms
                },
                None => false,
            };
            if !cool {
                out.push(e);
            }
            k = k + 1;
            assert(produced@ =~= all.skip(k as int));
        }
        assert(all.take(k as int) =~= all);
        let mut table: Vec<Option<u64>> = Vec::new();
        while table.len() < KIND_COUNT
            invariant
                table.len() <= KIND_COUNT,
                last0.len() == KIND_COUNT,
                self.last_emitted@ == last0,
                forall|q: int| 0 <= q < table.len() ==> table@[q] == last0[q],
            decreases KIND_COUNT - table.len(),
        {
            let v = self.last_emitted[table.len()];
            table.push(v);
        }
        assert(table@ =~= last0);
        assert(out@.take(0) =~= Seq::<DetectionEvent>::empty());
        assert(table@ =~= stamped(last0, out@.take(0), now_ms));
        let mut j: usize = 0;
        while j < out.len()
            invariant
                j <= out.len(),
                last0.len() == KIND_COUNT,
                table@ == stamped(last0, out@.take(j as int), now_ms),
            decreases out.len() - j,
        {
            let slot = kind_slot(kind_of(&out[j]));
            table.set(slot, Some(now_ms));
            proof {
                let t1 = out@.take(j + 1);
                assert forall|i: int| 0 <= i < KIND_COUNT implies #[trigger] table@[i] == stamped(
                    last0,
                    t1,
                    now_ms,
                )[i] by {
                    if i == slot {
                        assert(t1[j as int] == out@[j as int]);
                        assert(has_variant(t1, i));
                    } else {
                        if has_variant(t1, i) {
                            let q = choose|q: int| 0 <= q < t1.len() && kind_index(spec_kind(#[trigger] t1[q])) == i;
                            assert(q < j);
                            assert(out@.take(j as int)[q] == t1[q]);
                            assert(has_variant(out@.take(j as int), i));
                        }
                        if has_variant(out@.take(j as int), i) {
                            let q = choose|q: int|
                                0 <= q < j && kind_index(spec_kind(#[trigger] out@.take(j as int)[q])) == i;
                            assert(t1[q] == out@.take(j as int)[q]);
                        }
                    }
                }
                assert(table@ =~= stamped(last0, t1, now_ms));
            }
            j = j + 1;
        }
        assert(out@.take(out.len() as int) =~= out@);
        self.last_emitted = table;
        out
    }

    /// Reset the cooldowns so that the next events of every variant pass.
    pub fn reset(&mut self)
        ensures
            final(self).spec_inner() == old(self).spec_inner(),
            final(self).spec_cooldown() == old(self).spec_cooldown(),
            final(self).spec_last_emitted() == Seq::new(KIND_COUNT as nat, |i: int| None::<u64>),
    {
        let mut table: Vec<Option<u64>> = Vec::new();
        while table.len() < KIND_COUNT
            invariant
                table.len() <= KIND_COUNT,
                forall|q: int| 0 <= q < table.len() ==> table@[q] is None,
            decreases KIND_COUNT - table.len(),
        {
            table.push(None);
        }
        assert(table@ =~= Seq::new(KIND_COUNT as nat, |i: int| None::<u64>));
        self.last_emitted = table;
    }
}

/// Nothing is suppressed after a reset: every event passes.
pub proof fn law_reset_lets_next_events_through(es: Seq<DetectionEvent>, cooldown_ms: u64, now: u64)
    ensures
        kept(es, Seq::new(KIND_COUNT as nat, |i: int| None::<u64>), cooldown_ms, now) == es,
    decreases es.len(),
{
    if es.len() > 0 {
        law_reset_lets_next_events_through(es.drop_last(), cooldown_ms, now);
        assert(es.drop_last().push(es.last()) =~= es);
    }
}

/// How a whole batch passes the debouncer: an empty batch emits nothing and
/// leaves the table of emission times alone; a batch whose variants are all
/// past their cooldown passes whole and stamps its variants; a batch whose
/// variants are all cooling down is dropped and leaves the table alone.
pub proof fn law_debounce_batch(es: Seq<DetectionEvent>, last: Seq<Option<u64>>, cooldown_ms: u64, now: u64)
    ensures
        es.len() == 0 ==> kept(es, last, cooldown_ms, now) == es && stamped(
            last,
            kept(es, last, cooldown_ms, now),
            now,
        ) == last,
        (forall|j: int| 0 <= j < es.len() ==> !cooling(last, #[trigger] es[j], cooldown_ms, now))
            ==> kept(es, last, cooldown_ms, now) == es && stamped(
            last,
            kept(es, last, cooldown_ms, now),
            now,
        ) == stamped(last, es, now),
        (forall|j: int| 0 <= j < es.len() ==> cooling(last, #[trigger] es[j], cooldown_ms, now))
            ==> kept(es, last, cooldown_ms, now) == Seq::<DetectionEvent>::empty() && stamped(
            last,
            kept(es, last, cooldown_ms, now),
            now,
        ) == last,
    decreases es.len(),
{
    lemma_debounce_batch(es, last, cooldown_ms, now);
    assert(stamped(last, Seq::<DetectionEvent>::empty(), now) =~= last);
}

proof fn lemma_debounce_batch(es: Seq<DetectionEvent>, last: Seq<Option<u64>>, cooldown_ms: u64, now: u64)
    ensures
        es.len() == 0 ==> kept(es, last, cooldown_ms, now) == es,
        (forall|j: int| 0 <= j < es.len() ==> !cooling(last, #[trigger] es[j], cooldown_ms, now))
            ==> kept(es, last, cooldown_ms, now) == es,
        (forall|j: int| 0 <= j < es.len() ==> cooling(last, #[trigger] es[j], cooldown_ms, now))
            ==> kept(es, last, cooldown_ms, now) == Seq::<DetectionEvent>::empty(),
    decreases es.len(),
{
    if es.len() > 0 {
        let init = es.drop_last();
        lemma_debounce_batch(init, last, cooldown_ms, now);
        if forall|j: int| 0 <= j < es.len() ==> !cooling(last, #[trigger] es[j], cooldown_ms, now) {
            assert forall|j: int| 0 <= j < init.len() implies !cooling(last, #[trigger] init[j], cooldown_ms, now) by {
                assert(init[j] == es[j]);
            }
            assert(!cooling(last, es[es.len() - 1], cooldown_ms, now));
            assert(init.push(es.last()) =~= es);
        }
        if forall|j: int| 0 <= j < es.len() ==> cooling(last, #[trigger] es[j], cooldown_ms, now) {
            assert forall|j: int| 0 <= j < init.len() implies cooling(last, #[trigger] init[j], cooldown_ms, now) by {
                assert(init[j] == es[j]);
            }
            assert(cooling(last, es[es.len() - 1], cooldown_ms, now));
        }
    }
}

/// An event is suppressed exactly while its own variant is within the
/// cooldown of its last emission at `t`.
pub proof fn law_cooldown_window(last: Seq<Option<u64>>, e: DetectionEvent, t: u64, cooldown_ms: u64, now: u64)
    requires
        now >= t,
        last[kind_index(spec_kind(e))] == Some(t),
    ensures
        kept(seq![e], last, cooldown_ms, now) == (if now - t >= cooldown_ms { seq![e] } else { Seq::empty() }),
{
    lemma_kept_single(e, last, cooldown_ms, now);
}

proof fn lemma_kept_single(e: DetectionEvent, last: Seq<Option<u64>>, cooldown_ms: u64, now: u64)
    ensures
        kept(seq![e], last, cooldown_ms, now) == (if cooling(last, e, cooldown_ms, now) { Seq::empty() } else { seq![e] }),
{
    let s = seq![e];
    assert(s.drop_last() =~= Seq::<DetectionEvent>::empty());
    assert(kept(s.drop_last(), last, cooldown_ms, now) == Seq::<DetectionEvent>::empty());
    assert(s.last() == e);
    assert(Seq::<DetectionEvent>::empty().push(e) =~= s);
}

/// Emitting events stamps only their own variants: an event of a variant
/// that was not emitted is not held back by the others' cooldowns.
pub proof fn law_other_variants_pass(last: Seq<Option<u64>>, emitted: Seq<DetectionEvent>, e: DetectionEvent, cooldown_ms: u64, now: u64, later: u64)
    requires
        last.len() == KIND_COUNT,
        last[kind_index(spec_kind(e))] is None,
        forall|j: int| 0 <= j < emitted.len() ==> spec_kind(#[trigger] emitted[j]) != spec_kind(e),
    ensures
        kept(seq![e], stamped(last, emitted, now), cooldown_ms, later) == seq![e],
{
    let i = kind_index(spec_kind(e));
    assert(0 <= i < KIND_COUNT);
    if has_variant(emitted, i) {
        let q = choose|q: int| 0 <= q < emitted.len() && kind_index(spec_kind(#[trigger] emitted[q])) == i;
        assert(spec_kind(emitted[q]) != spec_kind(e));
        assert(kind_index(spec_kind(emitted[q])) != kind_index(spec_kind(e)));
    }
    lemma_kept_single(e, stamped(last, emitted, now), cooldown_ms, later);
}

} // verus!
