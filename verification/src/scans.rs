//! The scans that the detectors are made of: the search for a run of
//! candles, for the candle that closes lowest or highest, and for the
//! candle that confirms a pattern.

use vstd::prelude::*;
use crate::patterns::check_all;
use crate::patterns::passes_all;
use crate::patterns::KlineTest;
use crate::patterns::MathKLine;

verus! {

/// The `n` candles from `start` on all pass the tests.
pub open spec fn run_holds(s: Seq<MathKLine>, start: int, n: int, tests: Seq<KlineTest>) -> bool {
    forall|i: int| start <= i < start + n ==> passes_all(tests, #[trigger] s[i])
}

/// Where the first run of `n` candles that all pass the tests begins, among
/// the runs that lie within the candles `from .. until`. A run of no candle
/// is none.
pub open spec fn first_run(
    s: Seq<MathKLine>,
    from: int,
    until: int,
    n: int,
    tests: Seq<KlineTest>,
) -> Option<int>
    decreases until - from,
{
    if n < 1 || from < 0 || until > s.len() || from + n > until {
        None
    } else if run_holds(s, from, n, tests) {
        Some(from)
    } else {
        first_run(s, from + 1, until, n, tests)
    }
}

/// What `first_run` finds is a run within the window, and no run of the
/// window begins before it; where it finds none, there is none.
pub proof fn lemma_first_run(
    s: Seq<MathKLine>,
    from: int,
    until: int,
    n: int,
    tests: Seq<KlineTest>,
)
    ensures
        match first_run(s, from, until, n, tests) {
            Some(a) => {
                &&& n >= 1
                &&& 0 <= from <= a
                &&& a + n <= until <= s.len()
                &&& run_holds(s, a, n, tests)
                &&& forall|b: int| from <= b < a ==> !run_holds(s, b, n, tests)
            },
            None => forall|b: int|
                n >= 1 && 0 <= from <= b && b + n <= until <= s.len() ==> !run_holds(
                    s,
                    b,
                    n,
                    tests,
                ),
        },
    decreases until - from,
{
    if n < 1 || from < 0 || until > s.len() || from + n > until {
    } else if run_holds(s, from, n, tests) {
    } else {
        lemma_first_run(s, from + 1, until, n, tests);
    }
}

/// A candle that fails the tests ends every run that reaches it: the search
/// goes on behind it.
proof fn lemma_failed_candle_ends_runs(
    s: Seq<MathKLine>,
    a: int,
    i: int,
    until: int,
    n: int,
    tests: Seq<KlineTest>,
)
    requires
        0 <= a <= i < until <= s.len(),
        i - a < n,
        !passes_all(tests, s[i]),
    ensures
        first_run(s, a, until, n, tests) == first_run(s, i + 1, until, n, tests),
    decreases i - a,
{
    if a + n > until {
    } else {
        assert(!run_holds(s, a, n, tests));
        if a < i {
            lemma_failed_candle_ends_runs(s, a + 1, i, until, n, tests);
        }
    }
}

/// Looks among the candles `from .. until` for the first run of
/// `repetitions` candles that each pass every test, and gives the index at
/// which it begins. A candle that fails one test ends the run it is in.
pub fn test_multiple_klines(
    vec: &[MathKLine],
    from: usize,
    until: usize,
    repetitions: usize,
    tests: &Vec<KlineTest>,
) -> (found: Option<usize>)
    ensures
        match found {
            Some(a) => first_run(
                vec@,
                from as int,
                until as int,
                repetitions as int,
                tests@,
            ) == Some(a as int),
            None => first_run(vec@, from as int, until as int, repetitions as int, tests@)
                is None,
        },
{
    if repetitions < 1 || until > vec.len() || from > until || until - from < repetitions {
        return None;
    }
    let mut i: usize = from;
    let mut klines_ok: usize = 0;
    while i < until
        invariant
            from <= i <= until <= vec.len(),
            1 <= repetitions,
            klines_ok < repetitions,
            klines_ok <= i - from,
            run_holds(vec@, i - klines_ok, klines_ok as int, tests@),
            first_run(vec@, from as int, until as int, repetitions as int, tests@) == first_run(
                vec@,
                i - klines_ok,
                until as int,
                repetitions as int,
                tests@,
            ),
        decreases until - i,
    {
        if check_all(tests, &vec[i]) {
            klines_ok += 1;
            if klines_ok >= repetitions {
                return Some(i + 1 - klines_ok);
            }
        } else {
            proof {
                lemma_failed_candle_ends_runs(
                    vec@,
                    i - klines_ok,
                    i as int,
                    until as int,
                    repetitions as int,
                    tests@,
                );
            }
            klines_ok = 0;
        }
        i += 1;
    }
    None
}

/// Which candle a scan keeps: the one that closes lowest below a level, or
/// the one that closes highest above a level.
#[derive(Clone, Copy, PartialEq, Eq, Debug, Structural)]
pub enum Extreme {
    LowestBelow(i64),
    HighestAbove(i64),
}

impl Extreme {
    /// The candle closes on the right side of the level.
    pub open spec fn qualifies(self, kline: MathKLine) -> bool {
        match self {
            Extreme::LowestBelow(level) => kline.close < level,
            Extreme::HighestAbove(level) => kline.close > level,
        }
    }

    /// The candle qualifies and closes strictly beyond the best one so far.
    pub open spec fn beats(self, kline: MathKLine, best: MathKLine) -> bool {
        match self {
            Extreme::LowestBelow(level) => kline.close < level && kline.close < best.close,
            Extreme::HighestAbove(level) => kline.close > level && kline.close > best.close,
        }
    }

    pub fn improves(&self, kline: &MathKLine, best: &MathKLine) -> (b: bool)
        ensures
            b == self.beats(*kline, *best),
    {
        match self {
            Extreme::LowestBelow(level) => kline.close < *level && kline.close < best.close,
            Extreme::HighestAbove(level) => kline.close > *level && kline.close > best.close,
        }
    }
}

/// The first candle among `from .. until` at which a scan stops, because
/// the failing test or the early test holds of it; `until` where there is
/// none.
pub open spec fn first_stop(
    s: Seq<MathKLine>,
    from: int,
    until: int,
    failing: KlineTest,
    early: KlineTest,
) -> int
    decreases until - from,
{
    if from >= until {
        until
    } else if failing.holds(s[from]) || early.holds(s[from]) {
        from
    } else {
        first_stop(s, from + 1, until, failing, early)
    }
}

/// The candle that a scan of `from .. end` keeps. It starts with the first
/// candle, and a later one replaces the one kept only if it beats it, so of
/// two candles that close alike the earlier stays.
pub open spec fn best_index(s: Seq<MathKLine>, from: int, end: int, seek: Extreme) -> int
    decreases end - from,
{
    if end <= from + 1 {
        from
    } else {
        let best = best_index(s, from, end - 1, seek);
        if seek.beats(s[end - 1], s[best]) {
            end - 1
        } else {
            best
        }
    }
}

/// The candle kept is within the window. If any candle of the window
/// qualifies, the one kept qualifies, none beats it, and it beats every
/// earlier one that qualifies; if none does, it is the first of the window.
pub proof fn lemma_best_index(s: Seq<MathKLine>, from: int, end: int, seek: Extreme)
    ensures
        ({
            let best = best_index(s, from, end, seek);
            &&& from <= best
            &&& best < end || best == from
            &&& forall|i: int|
                from <= i < end && seek.qualifies(#[trigger] s[i]) ==> seek.qualifies(s[best])
                    && !seek.beats(s[i], s[best]) && (i < best ==> seek.beats(s[best], s[i]))
            &&& (forall|i: int| from <= i < end ==> !seek.qualifies(#[trigger] s[i])) ==> best
                == from
        }),
    decreases end - from,
{
    if end > from + 1 {
        lemma_best_index(s, from, end - 1, seek);
        let before = best_index(s, from, end - 1, seek);
        let best = best_index(s, from, end, seek);
        assert forall|i: int|
            from <= i < end && seek.qualifies(#[trigger] s[i]) implies seek.qualifies(s[best])
            && !seek.beats(s[i], s[best]) && (i < best ==> seek.beats(s[best], s[i])) by {
            if i < end - 1 {
                assert(seek.qualifies(s[before]) && !seek.beats(s[i], s[before]));
            }
        }
    }
}

/// What a scan for an extreme finds among the candles `from .. until`. The
/// scan goes forward until a candle stops it. If the failing test holds of
/// that candle, the scan finds nothing. Otherwise it finds the candle kept
/// among those seen, the stopping candle included. Outside the series
/// there is nothing to find.
pub open spec fn find_kline_spec(
    s: Seq<MathKLine>,
    from: int,
    until: int,
    seek: Extreme,
    failing: KlineTest,
    early: KlineTest,
) -> Option<int> {
    let stop = first_stop(s, from, until, failing, early);
    if !(0 <= from <= until <= s.len()) {
        None
    } else if stop < until && failing.holds(s[stop]) {
        None
    } else if stop < until {
        Some(best_index(s, from, stop + 1, seek))
    } else {
        Some(best_index(s, from, until, seek))
    }
}

/// Scans the candles `from .. until` for the one that closes lowest or
/// highest beyond a level.
pub fn find_kline(
    vec: &[MathKLine],
    from: usize,
    until: usize,
    seek: Extreme,
    failing: KlineTest,
    early: KlineTest,
) -> (found: Option<usize>)
    ensures
        match found {
            Some(b) => find_kline_spec(vec@, from as int, until as int, seek, failing, early)
                == Some(b as int),
            None => find_kline_spec(vec@, from as int, until as int, seek, failing, early)
                is None,
        },
{
    if from > until || until > vec.len() {
        return None;
    }
    let mut best_kline_index: usize = from;
    let mut i: usize = from;
    while i < until
        invariant
            from <= i <= until <= vec.len(),
            best_kline_index as int == best_index(vec@, from as int, i as int, seek),
            from <= best_kline_index,
            best_kline_index < i || best_kline_index == from,
            first_stop(vec@, from as int, until as int, failing, early) == first_stop(
                vec@,
                i as int,
                until as int,
                failing,
                early,
            ),
        decreases until - i,
    {
        if failing.check(&vec[i]) {
            return None;
        }
        if seek.improves(&vec[i], &vec[best_kline_index]) {
            best_kline_index = i;
        }
        if early.check(&vec[i]) {
            return Some(best_kline_index);
        }
        i += 1;
    }
    Some(best_kline_index)
}

/// Where the candles `from .. until` confirm a pattern: at the first of
/// them of which the confirming test holds, unless the failing test holds
/// of that candle or of an earlier one.
pub open spec fn find_breakout_spec(
    s: Seq<MathKLine>,
    from: int,
    until: int,
    failing: KlineTest,
    confirming: KlineTest,
) -> Option<int> {
    let stop = first_stop(s, from, until, failing, confirming);
    if 0 <= from <= until <= s.len() && stop < until && !failing.holds(s[stop]) {
        Some(stop)
    } else {
        None
    }
}

/// Scans the candles `from .. until` for the one that confirms a pattern.
pub fn find_breakout(
    vec: &[MathKLine],
    from: usize,
    until: usize,
    failing: KlineTest,
    confirming: KlineTest,
) -> (found: Option<usize>)
    ensures
        match found {
            Some(t) => find_breakout_spec(vec@, from as int, until as int, failing, confirming)
                == Some(t as int),
            None => find_breakout_spec(vec@, from as int, until as int, failing, confirming)
                is None,
        },
{
    if from > until || until > vec.len() {
        return None;
    }
    let mut i: usize = from;
    while i < until
        invariant
            from <= i <= until <= vec.len(),
            first_stop(vec@, from as int, until as int, failing, confirming) == first_stop(
                vec@,
                i as int,
                until as int,
                failing,
                confirming,
            ),
        decreases until - i,
    {
        if failing.check(&vec[i]) {
            return None;
        }
        if confirming.check(&vec[i]) {
            return Some(i);
        }
        i += 1;
    }
    None
}

/// What a scan for an extreme finds lies within its window, or is the first
/// index of an empty window.
pub proof fn lemma_find_kline_within(
    s: Seq<MathKLine>,
    from: int,
    until: int,
    seek: Extreme,
    failing: KlineTest,
    early: KlineTest,
)
    ensures
        match find_kline_spec(s, from, until, seek, failing, early) {
            Some(b) => 0 <= from <= b && (b < until || b == from) && until <= s.len(),
            None => true,
        },
{
    if from <= until {
        lemma_first_stop(s, from, until, failing, early);
        let stop = first_stop(s, from, until, failing, early);
        lemma_best_index(s, from, stop + 1, seek);
        lemma_best_index(s, from, until, seek);
    }
}

/// Where a scan stops lies within its window; no test holds of a candle
/// before it, and one holds of the candle it stops at.
pub proof fn lemma_first_stop(
    s: Seq<MathKLine>,
    from: int,
    until: int,
    failing: KlineTest,
    early: KlineTest,
)
    requires
        from <= until,
    ensures
        ({
            let stop = first_stop(s, from, until, failing, early);
            &&& from <= stop <= until
            &&& stop < until ==> failing.holds(s[stop]) || early.holds(s[stop])
            &&& forall|i: int|
                from <= i < stop ==> !failing.holds(#[trigger] s[i]) && !early.holds(s[i])
        }),
    decreases until - from,
{
    if from < until && !(failing.holds(s[from]) || early.holds(s[from])) {
        lemma_first_stop(s, from + 1, until, failing, early);
    }
}

} // verus!
