//! Round numbers read from OCR text.
//!
//! Positional rules:
//! - "XX ラウンド終了" and "XX ラウンド": the number BEFORE "ラウンド" only;
//! - "自動周回中（X/Y）": X from the parenthesised fraction.
//!
//! Digits after "ラウンド" (decoration artifacts such as `1 い Ⅱ 』`) are ignored.
use vstd::prelude::*;

use crate::text::{
    contains_exec, contains_seq, digit_value, find_from, find_seq, is_ascii_digit, is_digit,
    is_ws, lemma_find_from, occurs_at, strip_ws, strip_whitespace,
};

verus! {

/// "ラウンド"
pub open spec fn round_marker() -> Seq<char> {
    seq!['ラ', 'ウ', 'ン', 'ド']
}

/// "ラウンド終了"
pub open spec fn round_end_marker() -> Seq<char> {
    seq!['ラ', 'ウ', 'ン', 'ド', '終', '了']
}

/// "自動周回中"
pub open spec fn round_select_marker() -> Seq<char> {
    seq!['自', '動', '周', '回', '中']
}

/// "周回中"
pub open spec fn cycle_marker() -> Seq<char> {
    seq!['周', '回', '中']
}

/// Decimal value of a sequence of digits.
pub open spec fn digits_value(s: Seq<char>) -> nat
    decreases s.len(),
{
    if s.len() == 0 {
        0
    } else {
        digits_value(s.drop_last()) * 10 + digit_value(s.last())
    }
}

/// Round number written by a run of 1 or 2 digits, when it lies in 1..=99.
pub open spec fn run_value(run: Seq<char>) -> Option<u32> {
    if 1 <= run.len() <= 2 && (forall|i: int| 0 <= i < run.len() ==> is_digit(#[trigger] run[i]))
        && 1 <= digits_value(run) <= 99 {
        Some(digits_value(run) as u32)
    } else {
        None
    }
}

/// Number of digits at the end of `s`.
pub open spec fn trailing_digits(s: Seq<char>) -> nat
    decreases s.len(),
{
    if s.len() == 0 || !is_digit(s.last()) {
        0
    } else {
        1 + trailing_digits(s.drop_last())
    }
}

/// `trailing_digits` counts characters of `s`, all of them digits.
pub proof fn lemma_trailing_digits(s: Seq<char>)
    ensures
        trailing_digits(s) <= s.len(),
        forall|i: int| s.len() - trailing_digits(s) <= i < s.len() ==> is_digit(#[trigger] s[i]),
        trailing_digits(s) < s.len() ==> !is_digit(s[s.len() - trailing_digits(s) - 1]),
    decreases s.len(),
{
    if s.len() > 0 && is_digit(s.last()) {
        lemma_trailing_digits(s.drop_last());
        assert forall|i: int|
            s.len() - trailing_digits(s) <= i < s.len() implies is_digit(#[trigger] s[i]) by {
            if i < s.len() - 1 {
                assert(s[i] == s.drop_last()[i]);
            }
        }
    }
}

/// The value of the last maximal digit run of `s` that is a valid round
/// number (1 or 2 digits, 1..=99); earlier runs are only consulted when a
/// later run is not valid.
pub open spec fn last_valid_run(s: Seq<char>) -> Option<u32>
    decreases s.len(),
{
    if s.len() == 0 {
        None
    } else {
        let k = trailing_digits(s);
        if k == 0 {
            last_valid_run(s.drop_last())
        } else {
            proof {
                lemma_trailing_digits(s);
            }
            match run_value(s.subrange(s.len() - k, s.len() as int)) {
                Some(v) => Some(v),
                None => last_valid_run(s.subrange(0, s.len() - k)),
            }
        }
    }
}

/// Round number of `parse`: the last valid 1-2 digit run before the first
/// "ラウンド" of the whitespace-free text; `None` when there is no "ラウンド".
pub open spec fn spec_parse(text: Seq<char>) -> Option<u32> {
    let n = strip_ws(text);
    match find_from(n, round_marker(), 0) {
        Some(i) => last_valid_run(n.take(i)),
        None => None,
    }
}

/// Characters that may open the fraction after "周回中" (OCR variants).
pub open spec fn is_header_opener(c: char) -> bool {
    c == '（' || c == '(' || c == ':' || c == '：' || c == '′' || c == '\''
}

/// `s` without its leading opener characters.
pub open spec fn trim_openers(s: Seq<char>) -> Seq<char>
    decreases s.len(),
{
    if s.len() > 0 && is_header_opener(s[0]) {
        trim_openers(s.drop_first())
    } else {
        s
    }
}

/// The maximal run of digits at the start of `s`.
pub open spec fn leading_digits(s: Seq<char>) -> Seq<char>
    decreases s.len(),
{
    if s.len() == 0 || !is_digit(s[0]) {
        Seq::empty()
    } else {
        seq![s[0]] + leading_digits(s.drop_first())
    }
}

/// The first maximal run of digits in `s` (empty when `s` has no digit).
pub open spec fn first_digit_run(s: Seq<char>) -> Seq<char>
    decreases s.len(),
{
    if s.len() == 0 {
        Seq::empty()
    } else if is_digit(s[0]) {
        leading_digits(s)
    } else {
        first_digit_run(s.drop_first())
    }
}

/// The part of `s` before its first `'/'` (all of `s` when there is none).
pub open spec fn before_slash(s: Seq<char>) -> Seq<char> {
    match find_from(s, seq!['/'], 0) {
        Some(k) => s.take(k),
        None => s,
    }
}

/// Round number of `parse_select_header`: in the whitespace-free text, the
/// segment between the first "周回中" and the next one (or the end), without
/// leading openers and cut at the first '/', gives its first digit run, which
/// must be a valid round number.
pub open spec fn spec_parse_select_header(text: Seq<char>) -> Option<u32> {
    let n = strip_ws(text);
    match find_from(n, cycle_marker(), 0) {
        Some(i) => {
            let rest = n.skip(i + 3);
            let segment = match find_from(rest, cycle_marker(), 0) {
                Some(j) => rest.take(j),
                None => rest,
            };
            run_value(first_digit_run(before_slash(trim_openers(segment))))
        },
        None => None,
    }
}

fn round_marker_chars() -> (v: Vec<char>)
    ensures
        v@ == round_marker(),
{
    let v = vec!['ラ', 'ウ', 'ン', 'ド'];
    assert(v@ =~= round_marker());
    v
}

fn round_end_marker_chars() -> (v: Vec<char>)
    ensures
        v@ == round_end_marker(),
{
    let v = vec!['ラ', 'ウ', 'ン', 'ド', '終', '了'];
    assert(v@ =~= round_end_marker());
    v
}

fn round_select_marker_chars() -> (v: Vec<char>)
    ensures
        v@ == round_select_marker(),
{
    let v = vec!['自', '動', '周', '回', '中'];
    assert(v@ =~= round_select_marker());
    v
}

fn cycle_marker_chars() -> (v: Vec<char>)
    ensures
        v@ == cycle_marker(),
{
    let v = vec!['周', '回', '中'];
    assert(v@ =~= cycle_marker());
    v
}

/// Parse a run of digits as a round number (1-99).
fn parse_1_2_digits(digits: &Vec<char>, start: usize, end: usize) -> (r: Option<u32>)
    requires
        start <= end <= digits.len(),
        forall|i: int| start <= i < end ==> is_digit(#[trigger] digits@[i]),
    ensures
        r == run_value(digits@.subrange(start as int, end as int)),
{
    let ghost run = digits@.subrange(start as int, end as int);
    if end - start == 0 || end - start > 2 {
        return None;
    }
    let d0 = (digits[start] as u32) - ('0' as u32);
    let v = if end - start == 1 {
        assert(run.drop_last() =~= Seq::<char>::empty());
        assert(run.last() == digits@[start as int]);
        assert(digits_value(run) == digits_value(run.drop_last()) * 10 + digit_value(run.last()));
        d0
    } else {
        let d1 = (digits[start + 1] as u32) - ('0' as u32);
        let ghost r1 = run.drop_last();
        assert(r1.drop_last() =~= Seq::<char>::empty());
        assert(r1.last() == digits@[start as int]);
        assert(run.last() == digits@[start + 1]);
        assert(digits_value(r1) == digits_value(r1.drop_last()) * 10 + digit_value(r1.last()));
        assert(digits_value(run) == digits_value(r1) * 10 + digit_value(run.last()));
        d0 * 10 + d1
    };
    assert(v == digits_value(run));
    if 1 <= v && v <= 99 {
        Some(v)
    } else {
        None
    }
}

/// The last valid round number among the digit runs of `s[..end]`.
fn last_valid_run_exec(s: &Vec<char>, end: usize) -> (r: Option<u32>)
    requires
        end <= s.len(),
    ensures
        r == last_valid_run(s@.take(end as int)),
{
    let mut e = end;
    while e > 0
        invariant
            e <= end <= s.len(),
            last_valid_run(s@.take(e as int)) == last_valid_run(s@.take(end as int)),
        decreases e,
    {
        let ghost t = s@.take(e as int);
        assert(t.subrange(0, e - 0) =~= t);
        // count trailing digits of s[..e]
        let mut k: usize = 0;
        while k < e && is_ascii_digit(s[e - 1 - k])
            invariant
                k <= e <= s.len(),
                t == s@.take(e as int),
                trailing_digits(t) >= k,
                forall|i: int| e - k <= i < e ==> is_digit(#[trigger] s@[i]),
                trailing_digits(t.subrange(0, e - k)) == trailing_digits(t) - k,
            decreases e - k,
        {
            proof {
                let u = t.subrange(0, e - k);
                assert(u.drop_last() =~= t.subrange(0, e - k - 1));
            }
            k = k + 1;
        }
        proof {
            lemma_trailing_digits(t);
            let u = t.subrange(0, e - k);
            if k < e {
                assert(!is_digit(u.last()));
            } else {
                assert(u.len() == 0);
            }
            assert(trailing_digits(u) == 0);
            assert(trailing_digits(t) == k);
        }
        if k == 0 {
            assert(t.drop_last() =~= s@.take(e - 1));
            e = e - 1;
        } else {
            let r = parse_1_2_digits(s, e - k, e);
            assert(t.subrange(t.len() - k, t.len() as int) =~= s@.subrange(e - k, e as int));
            if r.is_some() {
                return r;
            }
            assert(t.subrange(0, t.len() - k) =~= s@.take(e - k));
            e = e - k;
        }
    }
    assert(s@.take(0) =~= Seq::<char>::empty());
    None
}

/// Extract a round number (1-99) from the digits immediately BEFORE "ラウンド".
///
/// Only the last valid 1-2 digit sequence before the first "ラウンド" counts;
/// digits after it are ignored, as are all whitespace characters.
///
/// `parse("22 ラウンド終了 1 い Ⅱ")` is `Some(22)`; `parse("ラウンド終了 1 い Ⅱ 』")`
/// and `parse("damage 1234")` are `None`.
pub fn parse(text: &str) -> (r: Option<u32>)
    ensures
        r == spec_parse(text@),
        r matches Some(v) ==> 1 <= v <= 99,
{
    let normalized = strip_whitespace(text);
    let marker = round_marker_chars();
    proof {
        lemma_find_from(normalized@, marker@, 0);
    }
    let r = match find_seq(&normalized, &marker, 0) {
        Some(i) => last_valid_run_exec(&normalized, i),
        None => None,
    };
    proof {
        if find_from(normalized@, marker@, 0) is Some {
            lemma_last_valid_run_range(normalized@.take(find_from(normalized@, marker@, 0)->0));
        }
    }
    r
}

/// Every value that `last_valid_run` gives is a round number in 1..=99.
pub proof fn lemma_last_valid_run_range(s: Seq<char>)
    ensures
        last_valid_run(s) matches Some(v) ==> 1 <= v <= 99,
    decreases s.len(),
{
    if s.len() > 0 {
        let k = trailing_digits(s);
        lemma_trailing_digits(s);
        if k == 0 {
            lemma_last_valid_run_range(s.drop_last());
        } else {
            lemma_last_valid_run_range(s.subrange(0, s.len() - k));
        }
    }
}

/// Index of the first character of `s[from..]` that is not an opener.
fn skip_openers(s: &Vec<char>, from: usize, end: usize) -> (r: usize)
    requires
        from <= end <= s.len(),
    ensures
        from <= r <= end,
        trim_openers(s@.subrange(from as int, end as int)) == s@.subrange(r as int, end as int),
{
    let mut i = from;
    while i < end && (s[i] == '（' || s[i] == '(' || s[i] == ':' || s[i] == '：' || s[i] == '′'
        || s[i] == '\'')
        invariant
            from <= i <= end <= s.len(),
            trim_openers(s@.subrange(from as int, end as int)) == trim_openers(
                s@.subrange(i as int, end as int),
            ),
        decreases end - i,
    {
        assert(s@.subrange(i as int, end as int).drop_first() =~= s@.subrange(i + 1, end as int));
        i = i + 1;
    }
    assert(i < end ==> s@.subrange(i as int, end as int)[0] == s@[i as int]);
    i
}

/// Parse the round number from a "自動周回中（X/Y）" header.
///
/// Extracts X from `周回中（X/Y）` or `周回中(X/Y)`, tolerating OCR artifacts
/// such as spaces, colons and apostrophes. A misread X never yields Y.
pub fn parse_select_header(text: &str) -> (r: Option<u32>)
    ensures
        r == spec_parse_select_header(text@),
        r matches Some(v) ==> 1 <= v <= 99,
{
    let n = strip_whitespace(text);
    let marker = cycle_marker_chars();
    let found = find_seq(&n, &marker, 0);
    proof {
        lemma_find_from(n@, marker@, 0);
    }
    let i = match found {
        Some(i) => i,
        None => {
            return None;
        },
    };
    let nlen = n.len();
    assert(occurs_at(n@, marker@, i as int));
    assert(marker@.len() == 3);
    assert(i + 3 <= nlen);
    let start = i + 3;
    let ghost rest = n@.skip(start as int);
    // end of the segment: the next "周回中" after `start`, or the end
    let seg_end = match find_seq(&n, &marker, start) {
        Some(j) => j,
        None => n.len(),
    };
    proof {
        lemma_find_from(n@, marker@, start as int);
        lemma_find_shift(n@, marker@, start as int);
        if find_from(rest, cycle_marker(), 0) is Some {
            let j = find_from(rest, cycle_marker(), 0)->0;
            assert(rest.take(j) =~= n@.subrange(start as int, seg_end as int));
        } else {
            assert(rest =~= n@.subrange(start as int, seg_end as int));
        }
    }
    let t_start = skip_openers(&n, start, seg_end);
    // cut at the first '/'
    let mut slash = t_start;
    while slash < seg_end && n[slash] != '/'
        invariant
            t_start <= slash <= seg_end <= n.len(),
            forall|m: int| t_start <= m < slash ==> n@[m] != '/',
        decreases seg_end - slash,
    {
        slash = slash + 1;
    }
    proof {
        let t = n@.subrange(t_start as int, seg_end as int);
        lemma_find_from(t, seq!['/'], 0);
        if slash < seg_end {
            assert(occurs_at(t, seq!['/'], slash - t_start)) by {
                assert(t.subrange(slash - t_start, slash - t_start + 1) =~= seq!['/']);
            }
            assert forall|m: int| 0 <= m < slash - t_start implies !occurs_at(t, seq!['/'], m) by {
                assert(t.subrange(m, m + 1)[0] == n@[t_start + m]);
            }
            assert(find_from(t, seq!['/'], 0) == Some(slash - t_start)) by {
                lemma_find_first_unique(t, seq!['/'], 0, slash - t_start);
            }
            assert(t.take(slash - t_start) =~= n@.subrange(t_start as int, slash as int));
        } else {
            assert forall|m: int| 0 <= m implies !occurs_at(t, seq!['/'], m) by {
                if 0 <= m < t.len() {
                    assert(t.subrange(m, m + 1)[0] == n@[t_start + m]);
                }
            }
            assert(t =~= n@.subrange(t_start as int, slash as int));
        }
    }
    // first digit run in n[t_start..slash]
    let mut a = t_start;
    while a < slash && !is_ascii_digit(n[a])
        invariant
            t_start <= a <= slash <= n.len(),
            first_digit_run(n@.subrange(t_start as int, slash as int)) == first_digit_run(
                n@.subrange(a as int, slash as int),
            ),
        decreases slash - a,
    {
        assert(n@.subrange(a as int, slash as int).drop_first() =~= n@.subrange(
            a + 1,
            slash as int,
        ));
        a = a + 1;
    }
    let mut b = a;
    while b < slash && is_ascii_digit(n[b])
        invariant
            a <= b <= slash <= n.len(),
            forall|m: int| a <= m < b ==> is_digit(#[trigger] n@[m]),
            leading_digits(n@.subrange(a as int, slash as int)) == n@.subrange(a as int, b as int)
                + leading_digits(n@.subrange(b as int, slash as int)),
        decreases slash - b,
    {
        assert(n@.subrange(b as int, slash as int).drop_first() =~= n@.subrange(
            b + 1,
            slash as int,
        ));
        assert(n@.subrange(a as int, b + 1) =~= n@.subrange(a as int, b as int) + seq![
            n@[b as int],
        ]);
        b = b + 1;
    }
    proof {
        assert(leading_digits(n@.subrange(b as int, slash as int)) =~= Seq::<char>::empty());
        assert(n@.subrange(a as int, b as int) + Seq::<char>::empty() =~= n@.subrange(
            a as int,
            b as int,
        ));
        if a < slash {
            assert(n@.subrange(a as int, slash as int)[0] == n@[a as int]);
        } else {
            assert(n@.subrange(a as int, b as int) =~= Seq::<char>::empty());
        }
    }
    parse_1_2_digits(&n, a, b)
}

/// A first occurrence found from `from` that is preceded by no other
/// occurrence is what `find_from` returns.
pub proof fn lemma_find_first_unique(s: Seq<char>, p: Seq<char>, from: int, k: int)
    requires
        0 <= from <= k,
        occurs_at(s, p, k),
        forall|j: int| from <= j < k ==> !occurs_at(s, p, j),
    ensures
        find_from(s, p, from) == Some(k),
    decreases k - from,
{
    if from < k {
        lemma_find_first_unique(s, p, from + 1, k);
    }
}

/// Searching the suffix of `s` from `start` finds the same occurrence,
/// shifted by `start`.
pub proof fn lemma_find_shift(s: Seq<char>, p: Seq<char>, start: int)
    requires
        0 <= start <= s.len(),
    ensures
        match find_from(s, p, start) {
            Some(j) => find_from(s.skip(start), p, 0) == Some(j - start),
            None => find_from(s.skip(start), p, 0) is None,
        },
{
    let t = s.skip(start);
    assert forall|m: int| 0 <= m implies (occurs_at(t, p, m) <==> occurs_at(s, p, m + start)) by {
        if 0 <= m && m + p.len() <= t.len() {
            assert(t.subrange(m, m + p.len()) =~= s.subrange(m + start, m + start + p.len()));
        }
    }
    lemma_find_from(s, p, start);
    lemma_find_from(t, p, 0);
    match find_from(s, p, start) {
        Some(j) => {
            assert(occurs_at(t, p, j - start));
            assert forall|m: int| 0 <= m < j - start implies !occurs_at(t, p, m) by {
                assert(!occurs_at(s, p, m + start));
            }
            lemma_find_first_unique(t, p, 0, j - start);
        },
        None => {
            assert forall|m: int| 0 <= m implies !occurs_at(t, p, m) by {
                assert(!occurs_at(s, p, m + start));
            }
        },
    }
}

/// Whether OCR text shows a round end screen ("ラウンド終了").
pub fn is_round_end_text(text: &str) -> (r: bool)
    ensures
        r == contains_seq(strip_ws(text@), round_end_marker()),
{
    let n = strip_whitespace(text);
    let marker = round_end_marker_chars();
    contains_exec(&n, &marker)
}

/// Whether OCR text shows a round selection screen ("自動周回中").
pub fn is_round_select_text(text: &str) -> (r: bool)
    ensures
        r == contains_seq(strip_ws(text@), round_select_marker()),
{
    let n = strip_whitespace(text);
    let marker = round_select_marker_chars();
    contains_exec(&n, &marker)
}

/// Removing whitespace from a concatenation removes it from each part.
pub proof fn lemma_strip_ws_concat(a: Seq<char>, b: Seq<char>)
    ensures
        strip_ws(a + b) == strip_ws(a) + strip_ws(b),
    decreases b.len(),
{
    if b.len() == 0 {
        assert(a + b =~= a);
        assert(strip_ws(a) + strip_ws(b) =~= strip_ws(a));
    } else {
        lemma_strip_ws_concat(a, b.drop_last());
        assert((a + b).drop_last() =~= a + b.drop_last());
        assert((a + b).last() == b.last());
        if !is_ws(b.last()) {
            assert(strip_ws(a) + strip_ws(b.drop_last()).push(b.last()) =~= (strip_ws(a) + strip_ws(
                b.drop_last(),
            )).push(b.last()));
        }
    }
}

/// Text without whitespace is its own whitespace-free form.
proof fn lemma_strip_ws_idempotent(s: Seq<char>)
    ensures
        strip_ws(strip_ws(s)) == strip_ws(s),
    decreases s.len(),
{
    if s.len() > 0 {
        lemma_strip_ws_idempotent(s.drop_last());
        let r = strip_ws(s.drop_last());
        if !is_ws(s.last()) {
            assert(r.push(s.last()).drop_last() =~= r);
        }
    }
}

/// Whitespace never changes what `parse` reads.
pub proof fn law_parse_ignores_whitespace(text: Seq<char>)
    ensures
        spec_parse(strip_ws(text)) == spec_parse(text),
{
    lemma_strip_ws_idempotent(text);
}

/// `parse` reads only the text up to the first "ラウンド": whatever follows
/// that marker does not change the result.
pub proof fn law_parse_ignores_text_after_marker(p: Seq<char>, q: Seq<char>)
    requires
        !contains_seq(strip_ws(p), round_marker()),
    ensures
        spec_parse(p + round_marker() + q) == spec_parse(p + round_marker()),
{
    let m = round_marker();
    let sp = strip_ws(p);
    let l = sp.len() as int;
    assert(strip_ws(m) == m) by {
        reveal_with_fuel(strip_ws, 5);
        assert(m.drop_last().drop_last().drop_last().drop_last() =~= Seq::<char>::empty());
        assert(seq!['ラ'] =~= Seq::<char>::empty().push('ラ'));
        assert(m =~= seq!['ラ', 'ウ', 'ン'].push('ド'));
        assert(seq!['ラ', 'ウ', 'ン'] =~= seq!['ラ', 'ウ'].push('ン'));
        assert(seq!['ラ', 'ウ'] =~= seq!['ラ'].push('ウ'));
        assert(seq!['ラ', 'ウ', 'ン'].drop_last() =~= seq!['ラ', 'ウ']);
        assert(seq!['ラ', 'ウ'].drop_last() =~= seq!['ラ']);
        assert(seq!['ラ'].drop_last() =~= Seq::<char>::empty());
        assert(m.drop_last() =~= seq!['ラ', 'ウ', 'ン']);
    }
    lemma_strip_ws_concat(p + m, q);
    lemma_strip_ws_concat(p, m);
    let n2 = sp + m;
    let n1 = n2 + strip_ws(q);
    assert(strip_ws(p + m + q) == n1);
    assert(strip_ws(p + m) == n2);
    assert forall|n: Seq<char>| n.len() >= l + 4 && n.subrange(0, l + 4) == n2 implies #[trigger] find_from(n, m, 0)
        == Some(l) by {
        crate::text::lemma_find_from(n, m, 0);
        assert(n.subrange(l, l + 4) =~= m) by {
            assert forall|i: int| 0 <= i < 4 implies #[trigger] n.subrange(l, l + 4)[i] == m[i] by {
                assert(n[l + i] == n.subrange(0, l + 4)[l + i]);
            }
        }
        assert(crate::text::occurs_at(n, m, l));
        assert forall|j: int| 0 <= j < l implies !crate::text::occurs_at(n, m, j) by {
            if crate::text::occurs_at(n, m, j) {
                if j + 4 <= l {
                    assert(sp.subrange(j, j + 4) =~= n.subrange(j, j + 4)) by {
                        assert forall|i: int| 0 <= i < 4 implies sp.subrange(j, j + 4)[i] == #[trigger] n.subrange(
                            j,
                            j + 4,
                        )[i] by {
                            assert(n[j + i] == n.subrange(0, l + 4)[j + i]);
                        }
                    }
                    assert(crate::text::occurs_at(sp, m, j));
                } else {
                    let d = l - j;
                    assert(1 <= d <= 3);
                    assert(n.subrange(j, j + 4)[d] == n[l]);
                    assert(n[l] == n.subrange(0, l + 4)[l]);
                    assert(n2[l] == m[0]);
                    assert(m[d] != m[0]);
                }
            }
        }
    }
    assert(n1.subrange(0, l + 4) =~= n2);
    assert(n2.subrange(0, l + 4) =~= n2);
    assert(n1.take(l) =~= n2.take(l));
}

/// A run of digits reads as its decimal value when it has one or two
/// digits and that value is 1 to 99, and as nothing otherwise.
pub proof fn law_digit_run_value(run: Seq<char>)
    requires
        forall|i: int| 0 <= i < run.len() ==> is_digit(#[trigger] run[i]),
    ensures
        run_value(run) == if 1 <= run.len() <= 2 && 1 <= digits_value(run) <= 99 {
            Some(digits_value(run) as u32)
        } else {
            None
        },
{
}

/// A text without whitespace characters is left as it is by `strip_ws`.
proof fn lemma_strip_ws_without_ws(s: Seq<char>)
    requires
        forall|i: int| 0 <= i < s.len() ==> !is_ws(#[trigger] s[i]),
    ensures
        strip_ws(s) == s,
    decreases s.len(),
{
    if s.len() > 0 {
        lemma_strip_ws_without_ws(s.drop_last());
        assert(s.drop_last().push(s.last()) =~= s);
    }
}

/// Digits appended to a text that does not end in a digit form its whole
/// trailing digit run.
proof fn lemma_trailing_digits_after(q: Seq<char>, d: Seq<char>)
    requires
        q.len() == 0 || !is_digit(q.last()),
        forall|i: int| 0 <= i < d.len() ==> is_digit(#[trigger] d[i]),
    ensures
        trailing_digits(q + d) == d.len(),
    decreases d.len(),
{
    if d.len() == 0 {
        assert(q + d =~= q);
    } else {
        lemma_trailing_digits_after(q, d.drop_last());
        assert((q + d).drop_last() =~= q + d.drop_last());
        assert((q + d).last() == d.last());
        assert(is_digit(d[d.len() - 1]));
    }
}

/// No "ラウンド" starts before the digits end, when the text before them
/// holds none: it would have to lie inside that text or cover a digit.
proof fn lemma_no_marker_before(q: Seq<char>, d: Seq<char>, j: int)
    requires
        1 <= d.len(),
        forall|i: int| 0 <= i < d.len() ==> is_digit(#[trigger] d[i]),
        !contains_seq(q, round_marker()),
        0 <= j < q.len() + d.len(),
    ensures
        !occurs_at(q + d + round_marker(), round_marker(), j),
{
    let mk = round_marker();
    let n = q + d + mk;
    if occurs_at(n, mk, j) {
        if j + 4 <= q.len() {
            assert(q.subrange(j, j + 4) =~= n.subrange(j, j + 4));
            assert(occurs_at(q, mk, j));
        } else {
            let t = if j >= q.len() { j } else { q.len() as int };
            assert(n[t] == d[t - q.len()]);
            assert(is_digit(d[t - q.len()]));
            assert(n.subrange(j, j + 4)[t - j] == n[t]);
            assert(!is_digit(mk[t - j]));
        }
    }
}

/// "ラウンド" appended after some text occurs right after it.
proof fn lemma_marker_at_end(s: Seq<char>)
    ensures
        occurs_at(s + round_marker(), round_marker(), s.len() as int),
{
    let n = s + round_marker();
    assert(n.subrange(s.len() as int, s.len() as int + 4) =~= round_marker());
}

/// In a text without "ラウンド" followed by digits and "ラウンド", the first
/// "ラウンド" is the one after the digits.
proof fn lemma_first_marker_after_digits(q: Seq<char>, d: Seq<char>)
    requires
        1 <= d.len(),
        forall|i: int| 0 <= i < d.len() ==> is_digit(#[trigger] d[i]),
        !contains_seq(q, round_marker()),
    ensures
        find_from(q + d + round_marker(), round_marker(), 0) == Some((q.len() + d.len()) as int),
{
    let n = q + d + round_marker();
    let l: int = (q.len() + d.len()) as int;
    lemma_marker_at_end(q + d);
    assert(occurs_at(n, round_marker(), l));
    lemma_find_from(n, round_marker(), 0);
    let r = find_from(n, round_marker(), 0);
    assert(r is Some);
    let k = r->0;
    assert(k <= l);
    if k < l {
        lemma_no_marker_before(q, d, k);
    }
}

/// Whitespace removal leaves digits and "ラウンド" alone.
proof fn lemma_strip_ws_number_marker(p: Seq<char>, d: Seq<char>)
    requires
        forall|i: int| 0 <= i < d.len() ==> is_digit(#[trigger] d[i]),
    ensures
        strip_ws(p + d + round_marker()) == strip_ws(p) + d + round_marker(),
{
    let mk = round_marker();
    lemma_strip_ws_concat(p + d, mk);
    lemma_strip_ws_concat(p, d);
    assert forall|i: int| 0 <= i < d.len() implies !is_ws(#[trigger] d[i]) by {
        assert(is_digit(d[i]));
    }
    lemma_strip_ws_without_ws(d);
    assert forall|i: int| 0 <= i < mk.len() implies !is_ws(#[trigger] mk[i]) by {}
    lemma_strip_ws_without_ws(mk);
}

/// The number written right before the first "ラウンド" is the round number:
/// whatever text `p` comes first, as long as it holds no "ラウンド" and does
/// not end in a digit (whitespace aside), `p` followed by a valid 1-2 digit
/// number and "ラウンド" parses as that number; earlier numbers in `p` lose.
pub proof fn law_parse_number_before_marker(p: Seq<char>, d: Seq<char>)
    requires
        1 <= d.len() <= 2,
        forall|i: int| 0 <= i < d.len() ==> is_digit(#[trigger] d[i]),
        1 <= digits_value(d) <= 99,
        !contains_seq(strip_ws(p), round_marker()),
        strip_ws(p).len() == 0 || !is_digit(strip_ws(p).last()),
    ensures
        spec_parse(p + d + round_marker()) == Some(digits_value(d) as u32),
{
    let q = strip_ws(p);
    let n = q + d + round_marker();
    lemma_strip_ws_number_marker(p, d);
    lemma_first_marker_after_digits(q, d);
    let l: int = (q.len() + d.len()) as int;
    assert(n.take(l) =~= q + d);
    lemma_trailing_digits_after(q, d);
    let s = q + d;
    assert(s.subrange(s.len() - d.len(), s.len() as int) =~= d);
    assert(run_value(d) == Some(digits_value(d) as u32));
    assert(last_valid_run(s) == Some(digits_value(d) as u32));
}

} // verus!
