//! Caret blink timing and the integer bookkeeping of frame timings.
//!
//! Durations are whole nanoseconds here; the shell reads the clock and turns
//! durations into fractional milliseconds for display.

use vstd::prelude::*;

verus! {

/// Milliseconds until the caret's visibility flips: the caret is visible for
/// the first `visible` ms of every `cycle` ms (both clamped), and the wait is
/// at least one millisecond.
pub open spec fn caret_edge_delay(elapsed_ms: u64, cycle_ms: u64, visible_ms: u64) -> u64 {
    let cycle = if cycle_ms < 1 {
        1
    } else {
        cycle_ms
    };
    let visible = if visible_ms < cycle {
        visible_ms
    } else {
        cycle
    };
    let phase = elapsed_ms % cycle;
    let wait = if phase < visible {
        visible - phase
    } else {
        cycle - phase
    };
    if wait < 1 {
        1
    } else {
        wait as u64
    }
}

/// Milliseconds until the caret visibility flips, given time since blink start.
pub fn caret_edge_delay_ms(elapsed_ms: u64, cycle_ms: u64, visible_ms: u64) -> (r: u64)
    ensures
        r == caret_edge_delay(elapsed_ms, cycle_ms, visible_ms),
        1 <= r,
        cycle_ms >= 1 ==> r <= cycle_ms,
{
    let cycle = if cycle_ms < 1 {
        1
    } else {
        cycle_ms
    };
    let visible = if visible_ms < cycle {
        visible_ms
    } else {
        cycle
    };
    let phase = elapsed_ms % cycle;
    let wait = if phase < visible {
        visible - phase
    } else {
        cycle - phase
    };
    if wait < 1 {
        1
    } else {
        wait
    }
}

/// The phase with the longest duration, the later one on ties
/// (`Iterator::max_by_key`); `("none", 0)` without phases.
pub open spec fn slowest_of(phases: Seq<(&'static str, u64)>) -> (&'static str, u64)
    decreases phases.len(),
{
    if phases.len() == 0 {
        ("none", 0)
    } else {
        let prev = slowest_of(phases.drop_last());
        if phases.len() == 1 || phases.last().1 >= prev.1 {
            phases.last()
        } else {
            prev
        }
    }
}

/// Slowest phase of a frame and its duration in nanoseconds.
pub fn slowest_phase(phases: &[(&'static str, u64)]) -> (r: (&'static str, u64))
    ensures
        r == slowest_of(phases@),
{
    let mut best: (&'static str, u64) = ("none", 0);
    let mut i: usize = 0;
    while i < phases.len()
        invariant
            i <= phases.len(),
            best == slowest_of(phases@.take(i as int)),
        decreases phases.len() - i,
    {
        proof {
            assert(phases@.take(i + 1).drop_last() =~= phases@.take(i as int));
        }
        let p = phases[i];
        if i == 0 || p.1 >= best.1 {
            best = p;
        }
        i += 1;
    }
    assert(phases@.take(phases.len() as int) =~= phases@);
    best
}

/// Labels in order of first appearance.
pub open spec fn distinct_in_order(labels: Seq<Seq<char>>) -> Seq<Seq<char>>
    decreases labels.len(),
{
    if labels.len() == 0 {
        Seq::empty()
    } else {
        let prev = distinct_in_order(labels.drop_last());
        if prev.contains(labels.last()) {
            prev
        } else {
            prev.push(labels.last())
        }
    }
}

proof fn lemma_push_contains<A>(s: Seq<A>, x: A, y: A)
    ensures
        s.push(x).contains(y) <==> (s.contains(y) || x == y),
{
    if s.push(x).contains(y) {
        let j = choose|j: int| 0 <= j < s.len() + 1 && #[trigger] s.push(x)[j] == y;
        if j < s.len() {
            assert(s[j] == y);
        }
    }
    if s.contains(y) {
        let j = choose|j: int| 0 <= j < s.len() && #[trigger] s[j] == y;
        assert(s.push(x)[j] == y);
    }
    assert(s.push(x)[s.len() as int] == x);
}

/// Frame labels in order of first appearance, each once.
pub fn distinct_labels(labels: &[&'static str]) -> (r: Vec<&'static str>)
    ensures
        r@.map_values(|l: &'static str| l@) == distinct_in_order(labels@.map_values(|l: &'static str| l@)),
{
    let ghost lv = labels@.map_values(|l: &'static str| l@);
    let mut out: Vec<&'static str> = Vec::new();
    let mut i: usize = 0;
    while i < labels.len()
        invariant
            i <= labels.len(),
            lv == labels@.map_values(|l: &'static str| l@),
            out@.map_values(|l: &'static str| l@) == distinct_in_order(lv.take(i as int)),
        decreases labels.len() - i,
    {
        proof {
            assert(lv.take(i + 1).drop_last() =~= lv.take(i as int));
            assert(lv.take(i + 1).last() == labels@[i as int]@);
        }
        let l = labels[i];
        let mut seen = false;
        let mut k: usize = 0;
        while k < out.len()
            invariant
                k <= out.len(),
                seen == out@.map_values(|l: &'static str| l@).take(k as int).contains(l@),
            decreases out.len() - k,
        {
            proof {
                let ov = out@.map_values(|l: &'static str| l@);
                assert(ov.take(k + 1) =~= ov.take(k as int).push(ov[k as int]));
                lemma_push_contains(ov.take(k as int), ov[k as int], l@);
            }
            if crate::text::str_eq(out[k], l) {
                seen = true;
            }
            k += 1;
        }
        proof {
            let ov = out@.map_values(|l: &'static str| l@);
            assert(ov.take(out.len() as int) =~= ov);
        }
        if !seen {
            let ghost prev = out@;
            out.push(l);
            assert(out@.map_values(|l: &'static str| l@) =~= prev.map_values(|l: &'static str| l@).push(l@));
        }
        i += 1;
    }
    assert(lv.take(labels.len() as int) =~= lv);
    out
}

} // verus!
