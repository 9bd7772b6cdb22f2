//! Candles, the three chart patterns and their detectors.

use vstd::prelude::*;
use crate::fixed::PRICE_LIMIT;
use crate::scans::find_breakout;
use crate::scans::find_breakout_spec;
use crate::scans::find_kline;
use crate::scans::find_kline_spec;
use crate::scans::first_run;
use crate::scans::lemma_find_kline_within;
use crate::scans::lemma_first_run;
use crate::scans::lemma_first_stop;
use crate::scans::run_holds;
use crate::scans::test_multiple_klines;
use crate::scans::Extreme;

verus! {

/// The formation a detector looks for.
#[derive(Clone, Copy, PartialEq, Eq, Debug, Structural)]
pub enum PatternName {
    Unset,
    W,
    M,
    BullReversal,
}

impl PatternName {
    /// The name as it is written out.
    pub open spec fn label(self) -> Seq<char> {
        match self {
            PatternName::Unset => "None"@,
            PatternName::W => "W"@,
            PatternName::M => "M"@,
            PatternName::BullReversal => "Bull Reversal"@,
        }
    }

    pub fn to_string(&self) -> (text: String)
        ensures
            text@ == self.label(),
    {
        match self {
            PatternName::Unset => "None".to_owned(),
            PatternName::W => "W".to_owned(),
            PatternName::M => "M".to_owned(),
            PatternName::BullReversal => "Bull Reversal".to_owned(),
        }
    }
}

/// One candle: the prices of a fixed interval, in ticks, with its
/// timestamps and the volumes that came with it.
#[derive(Clone, Copy, PartialEq, Eq, Debug, Structural)]
pub struct MathKLine {
    pub open_time: i64,
    pub open: i64,
    pub high: i64,
    pub low: i64,
    pub close: i64,
    pub volume: i64,
    pub close_time: i64,
    pub quote_asset_volume: i64,
    pub number_of_trades: i64,
    pub taker_buy_base_asset_volume: i64,
    pub taker_buy_quote_asset_volume: i64,
}

impl MathKLine {
    /// The low is the least and the high the greatest of the four prices.
    pub open spec fn coherent(self) -> bool {
        &&& self.low <= self.open <= self.high
        &&& self.low <= self.close <= self.high
    }

    /// A coherent candle whose prices the arithmetic of this crate can take.
    pub open spec fn well_formed(self) -> bool {
        &&& self.coherent()
        &&& -PRICE_LIMIT <= self.low
        &&& self.high <= PRICE_LIMIT
    }

    pub fn is_well_formed(&self) -> (b: bool)
        ensures
            b == self.well_formed(),
    {
        self.low <= self.open && self.open <= self.high && self.low <= self.close && self.close
            <= self.high && -PRICE_LIMIT <= self.low && self.high <= PRICE_LIMIT
    }
}

/// A candle for trials: its body goes from `open` to `close`, its wicks
/// reach `wick` ticks beyond the body on either side, it opens at `time` and
/// closes one unit of time later, and it carries no volume.
pub fn _create_test_kline(time: i64, open: i64, close: i64, wick: i64) -> (kline: MathKLine)
    requires
        time < i64::MAX,
        0 <= wick <= PRICE_LIMIT,
        wick - PRICE_LIMIT <= open <= PRICE_LIMIT - wick,
        wick - PRICE_LIMIT <= close <= PRICE_LIMIT - wick,
    ensures
        kline.well_formed(),
        kline.open == open,
        kline.close == close,
        kline.high == (if open > close {
            open + wick
        } else {
            close + wick
        }),
        kline.low == (if open < close {
            open - wick
        } else {
            close - wick
        }),
        kline.open_time == time,
        kline.close_time == time + 1,
        kline.volume == 0 && kline.quote_asset_volume == 0 && kline.number_of_trades == 0
            && kline.taker_buy_base_asset_volume == 0 && kline.taker_buy_quote_asset_volume == 0,
{
    MathKLine {
        open_time: time,
        open,
        high: if open > close {
            open + wick
        } else {
            close + wick
        },
        low: if open < close {
            open - wick
        } else {
            close - wick
        },
        close,
        volume: 0,
        close_time: time + 1,
        quote_asset_volume: 0,
        number_of_trades: 0,
        taker_buy_base_asset_volume: 0,
        taker_buy_quote_asset_volume: 0,
    }
}

/// Every candle of the series is well formed.
pub open spec fn all_well_formed(s: Seq<MathKLine>) -> bool {
    forall|i: int| 0 <= i < s.len() ==> (#[trigger] s[i]).well_formed()
}

/// Tests a whole series, as a caller does once when it has loaded one.
pub fn check_all_well_formed(vec: &[MathKLine]) -> (b: bool)
    ensures
        b == all_well_formed(vec@),
{
    let mut i: usize = 0;
    while i < vec.len()
        invariant
            i <= vec.len(),
            forall|k: int| 0 <= k < i ==> (#[trigger] vec@[k]).well_formed(),
        decreases vec.len() - i,
    {
        if !vec[i].is_well_formed() {
            return false;
        }
        i += 1;
    }
    true
}

/// A double bottom: a fall to `lower_price`, a rise to `neckline_price`, a
/// second low that holds above the first, and the break of the neckline.
#[derive(Clone, Copy, PartialEq, Eq, Debug, Structural)]
pub struct WPattern {
    pub start_index: usize,
    pub start_time: i64,
    pub end_index: usize,
    pub end_time: i64,
    pub lower_price: i64,
    pub neckline_price: i64,
}

/// A double top, the mirror image of a double bottom.
#[derive(Clone, Copy, PartialEq, Eq, Debug, Structural)]
pub struct MPattern {
    pub start_index: usize,
    pub start_time: i64,
    pub end_index: usize,
    pub end_time: i64,
    pub higher_price: i64,
    pub neckline_price: i64,
}

/// A fall that ends at `peak_price` followed by a rise that ends at
/// `end_price`.
#[derive(Clone, Copy, PartialEq, Eq, Debug, Structural)]
pub struct ReversalPattern {
    pub start_index: usize,
    pub start_time: i64,
    pub end_index: usize,
    pub end_time: i64,
    pub peak_price: i64,
    pub end_price: i64,
}

#[derive(Clone, Copy, PartialEq, Eq, Debug, Structural)]
pub struct WPatternParams {
    pub klines_repetitions: usize,
    pub klines_range: usize,
    pub name: PatternName,
}

#[derive(Clone, Copy, PartialEq, Eq, Debug, Structural)]
pub struct MPatternParams {
    pub klines_repetitions: usize,
    pub klines_range: usize,
    pub name: PatternName,
}

#[derive(Clone, Copy, PartialEq, Eq, Debug, Structural)]
pub struct ReversalPatternParams {
    pub trend_size: usize,
    pub counter_trend_size: usize,
    pub name: PatternName,
}

/// The parameters of one detector, tagged with the pattern they belong to.
#[derive(Clone, Copy, PartialEq, Eq, Debug, Structural)]
pub enum PatternSettings {
    W(WPatternParams),
    M(MPatternParams),
    BullReversal(ReversalPatternParams),
}

/// What every parameter record can say of itself.
pub trait PatternParams {
    spec fn settings(&self) -> PatternSettings;

    fn get_params(&self) -> (r: PatternSettings)
        ensures
            r == self.settings(),
    ;
}

impl PatternParams for WPatternParams {
    open spec fn settings(&self) -> PatternSettings {
        PatternSettings::W(*self)
    }

    fn get_params(&self) -> (r: PatternSettings) {
        PatternSettings::W(*self)
    }
}

impl PatternParams for MPatternParams {
    open spec fn settings(&self) -> PatternSettings {
        PatternSettings::M(*self)
    }

    fn get_params(&self) -> (r: PatternSettings) {
        PatternSettings::M(*self)
    }
}

impl PatternParams for ReversalPatternParams {
    open spec fn settings(&self) -> PatternSettings {
        PatternSettings::BullReversal(*self)
    }

    fn get_params(&self) -> (r: PatternSettings) {
        PatternSettings::BullReversal(*self)
    }
}

/// A condition on one candle, some of them against a price level.
#[derive(Clone, Copy, PartialEq, Eq, Debug, Structural)]
pub enum KlineTest {
    IsUp,
    IsDown,
    BreaksUpwards(i64),
    BreaksDownwards(i64),
    NotBreaksUpwards(i64),
    NotBreaksDownwards(i64),
    HigherThan(i64),
    LowerThan(i64),
}

pub open spec fn is_up(kline: MathKLine) -> bool {
    kline.close > kline.open
}

pub open spec fn is_down(kline: MathKLine) -> bool {
    kline.close < kline.open
}

impl KlineTest {
    pub open spec fn holds(self, kline: MathKLine) -> bool {
        match self {
            KlineTest::IsUp => is_up(kline),
            KlineTest::IsDown => is_down(kline),
            KlineTest::BreaksUpwards(price) => kline.high > price,
            KlineTest::BreaksDownwards(price) => kline.low < price,
            KlineTest::NotBreaksUpwards(price) => !(kline.high > price),
            KlineTest::NotBreaksDownwards(price) => !(kline.low < price),
            KlineTest::HigherThan(price) => kline.close > price,
            KlineTest::LowerThan(price) => kline.close < price,
        }
    }

    pub fn check(&self, kline: &MathKLine) -> (b: bool)
        ensures
            b == self.holds(*kline),
    {
        match self {
            KlineTest::IsUp => kline.close > kline.open,
            KlineTest::IsDown => kline.close < kline.open,
            KlineTest::BreaksUpwards(price) => kline.high > *price,
            KlineTest::BreaksDownwards(price) => kline.low < *price,
            KlineTest::NotBreaksUpwards(price) => !(kline.high > *price),
            KlineTest::NotBreaksDownwards(price) => !(kline.low < *price),
            KlineTest::HigherThan(price) => kline.close > *price,
            KlineTest::LowerThan(price) => kline.close < *price,
        }
    }
}

/// A candle passes a set of tests when it passes each of them.
pub open spec fn passes_all(tests: Seq<KlineTest>, kline: MathKLine) -> bool {
    forall|t: int| 0 <= t < tests.len() ==> (#[trigger] tests[t]).holds(kline)
}

pub fn check_all(tests: &Vec<KlineTest>, kline: &MathKLine) -> (b: bool)
    ensures
        b == passes_all(tests@, *kline),
{
    let mut t: usize = 0;
    while t < tests.len()
        invariant
            t <= tests.len(),
            forall|u: int| 0 <= u < t ==> (#[trigger] tests@[u]).holds(*kline),
        decreases tests.len() - t,
    {
        if !tests[t].check(kline) {
            return false;
        }
        t += 1;
    }
    true
}

/// The candles `from .. until` all close below their open.
pub open spec fn all_down(s: Seq<MathKLine>, from: int, until: int) -> bool {
    forall|i: int| from <= i < until ==> is_down(#[trigger] s[i])
}

/// The candles `from .. until` all close above their open.
pub open spec fn all_up(s: Seq<MathKLine>, from: int, until: int) -> bool {
    forall|i: int| from <= i < until ==> is_up(#[trigger] s[i])
}

/// The candles `from .. until` all rise and none trades below `floor`.
pub open spec fn all_up_holding(s: Seq<MathKLine>, from: int, until: int, floor: i64) -> bool {
    forall|i: int| from <= i < until ==> is_up(#[trigger] s[i]) && s[i].low >= floor
}

/// The candles `from .. until` all fall and none trades above `ceiling`.
pub open spec fn all_down_holding(s: Seq<MathKLine>, from: int, until: int, ceiling: i64) -> bool {
    forall|i: int| from <= i < until ==> is_down(#[trigger] s[i]) && s[i].high <= ceiling
}

proof fn lemma_one_test(s: Seq<MathKLine>, from: int, n: int, test: KlineTest)
    ensures
        run_holds(s, from, n, seq![test]) <==> forall|i: int|
            from <= i < from + n ==> test.holds(#[trigger] s[i]),
{
    let tests = seq![test];
    assert(tests[0] == test);
    if run_holds(s, from, n, tests) {
        assert forall|i: int| from <= i < from + n implies test.holds(#[trigger] s[i]) by {
            assert(passes_all(tests, s[i]));
            assert(tests[0].holds(s[i]));
        }
    }
    if forall|i: int| from <= i < from + n ==> test.holds(#[trigger] s[i]) {
        assert forall|i: int| from <= i < from + n implies passes_all(tests, #[trigger] s[i]) by {
            assert(test.holds(s[i]));
        }
    }
}

proof fn lemma_two_tests(s: Seq<MathKLine>, from: int, n: int, first: KlineTest, second: KlineTest)
    ensures
        run_holds(s, from, n, seq![first, second]) <==> forall|i: int|
            from <= i < from + n ==> first.holds(#[trigger] s[i]) && second.holds(s[i]),
{
    let tests = seq![first, second];
    assert(tests[0] == first);
    assert(tests[1] == second);
    if run_holds(s, from, n, tests) {
        assert forall|i: int| from <= i < from + n implies first.holds(#[trigger] s[i])
            && second.holds(s[i]) by {
            assert(passes_all(tests, s[i]));
            assert(tests[0].holds(s[i]));
            assert(tests[1].holds(s[i]));
        }
    }
    if forall|i: int| from <= i < from + n ==> first.holds(#[trigger] s[i]) && second.holds(s[i]) {
        assert forall|i: int| from <= i < from + n implies passes_all(tests, #[trigger] s[i]) by {
            assert(first.holds(s[i]) && second.holds(s[i]));
        }
    }
}

/// A window of exactly `n` candles holds a run of `n` only as a whole.
proof fn lemma_exact_window(s: Seq<MathKLine>, from: int, n: int, tests: Seq<KlineTest>)
    requires
        n >= 1,
        0 <= from,
        from + n <= s.len(),
    ensures
        first_run(s, from, from + n, n, tests) is Some <==> run_holds(s, from, n, tests),
{
    if !run_holds(s, from, n, tests) {
        assert(first_run(s, from + 1, from + n, n, tests) is None);
    }
}

/// The double bottom before its confirmation, in a series of which the
/// candle 0 is the first of the pattern, with `n` for the repetitions and
/// `r` for the range:
///
/// - the series holds at least `n + r` candles, and `1 <= n <= r`;
/// - the first `n` candles all fall; the low of the last of them is the
///   anchor, `lower_price`;
/// - the next `n` candles all rise and none trades below the anchor; the
///   high of the last of them, the candle `2n - 1`, is `neckline_price`;
/// - among the `r` candles from that one on, which the series must hold,
///   the pullback is sought: the scan fails at a candle that trades below
///   the anchor, stops at one that trades above the neckline, and keeps the
///   candle that closes lowest below the neckline;
/// - the pattern ends on the candle behind the pullback, `end_index`, and
///   the series holds `r` candles from that one on.
///
/// `start_index` is the neckline's candle, `start_time` the opening time of
/// candle 0, and `end_time` is zero until the pattern is confirmed.
pub open spec fn w_potential(s: Seq<MathKLine>, options: WPatternParams) -> Option<WPattern> {
    let n = options.klines_repetitions as int;
    let r = options.klines_range as int;
    let start = 2 * n - 1;
    if n < 1 || r < n || s.len() < n + r || s.len() < start + r {
        None
    } else {
        let lower = s[n - 1].low;
        let neckline = s[start].high;
        if !all_down(s, 0, n) || !all_up_holding(s, n, 2 * n, lower) {
            None
        } else {
            match find_kline_spec(
                s,
                start,
                start + r,
                Extreme::LowestBelow(neckline),
                KlineTest::BreaksDownwards(lower),
                KlineTest::BreaksUpwards(neckline),
            ) {
                None => None,
                Some(pullback) => if s.len() < pullback + 1 + r {
                    None
                } else {
                    Some(
                        WPattern {
                            start_index: start as usize,
                            start_time: s[0].open_time,
                            end_index: (pullback + 1) as usize,
                            end_time: 0,
                            lower_price: lower,
                            neckline_price: neckline,
                        },
                    )
                },
            }
        }
    }
}

/// The confirmation of a double bottom: among the `r` candles from
/// `second_v_index` on, which the series must hold, the first that closes
/// above the neckline, unless that candle or an earlier one trades below
/// the anchor. The pattern then ends on that candle, at its closing time.
pub open spec fn w_trigger(
    s: Seq<MathKLine>,
    options: WPatternParams,
    potential: WPattern,
    second_v_index: int,
) -> Option<WPattern> {
    match find_breakout_spec(
        s,
        second_v_index,
        second_v_index + options.klines_range,
        KlineTest::BreaksDownwards(potential.lower_price),
        KlineTest::HigherThan(potential.neckline_price),
    ) {
        None => None,
        Some(t) => Some(
            WPattern { end_index: t as usize, end_time: s[t].close_time, ..potential },
        ),
    }
}

/// The double bottom that begins with the series: as it stands before its
/// confirmation, or confirmed.
pub open spec fn w_pattern(s: Seq<MathKLine>, options: WPatternParams, potential_only: bool)
    -> Option<WPattern> {
    match w_potential(s, options) {
        None => None,
        Some(potential) => if potential_only {
            Some(potential)
        } else {
            w_trigger(s, options, potential, potential.end_index as int)
        },
    }
}

/// Looks for a double bottom that begins with the series and is not
/// confirmed yet. With the pattern comes the index behind its pullback,
/// from which the confirmation is sought.
pub fn find_potential_w_pattern(vec: &[MathKLine], options: WPatternParams) -> (found: Option<
    (WPattern, usize),
>)
    ensures
        match found {
            Some((pattern, second_v_index)) => w_potential(vec@, options) == Some(pattern)
                && second_v_index == pattern.end_index,
            None => w_potential(vec@, options) is None,
        },
        vec.len() < options.klines_repetitions + options.klines_range ==> found is None,
{
    let n: usize = options.klines_repetitions;
    let range: usize = options.klines_range;
    let len: usize = vec.len();
    if n < 1 || range < n || len < range || len - range < n || len - range < n + n - 1 {
        return None;
    }
    let is_down_test = vec![KlineTest::IsDown];
    proof {
        assert(is_down_test@ =~= seq![KlineTest::IsDown]);
        lemma_one_test(vec@, 0, n as int, KlineTest::IsDown);
        lemma_exact_window(vec@, 0, n as int, is_down_test@);
    }
    if test_multiple_klines(vec, 0, n, n, &is_down_test).is_none() {
        return None;
    }
    // The low of the candle that ends the fall is the anchor.
    let downtrend_end: usize = n - 1;
    let lower_price: i64 = vec[downtrend_end].low;
    let first_v_test = vec![KlineTest::IsUp, KlineTest::NotBreaksDownwards(lower_price)];
    proof {
        assert(first_v_test@ =~= seq![KlineTest::IsUp, KlineTest::NotBreaksDownwards(lower_price)]);
        lemma_two_tests(
            vec@,
            n as int,
            n as int,
            KlineTest::IsUp,
            KlineTest::NotBreaksDownwards(lower_price),
        );
        lemma_exact_window(vec@, n as int, n as int, first_v_test@);
    }
    if test_multiple_klines(vec, n, n + n, n, &first_v_test).is_none() {
        return None;
    }
    let start_index: usize = n + n - 1;
    let neckline_price: i64 = vec[start_index].high;
    // The candle that closes lowest between the anchor and the neckline.
    let neckline_index: usize = match find_kline(
        vec,
        start_index,
        start_index + range,
        Extreme::LowestBelow(neckline_price),
        KlineTest::BreaksDownwards(lower_price),
        KlineTest::BreaksUpwards(neckline_price),
    ) {
        Some(index) => index,
        None => {
            return None;
        },
    };
    proof {
        lemma_find_kline_within(
            vec@,
            start_index as int,
            start_index + range,
            Extreme::LowestBelow(neckline_price),
            KlineTest::BreaksDownwards(lower_price),
            KlineTest::BreaksUpwards(neckline_price),
        );
    }
    let second_v_index: usize = neckline_index + 1;
    if len - range < second_v_index {
        return None;
    }
    Some(
        (
            WPattern {
                start_index,
                start_time: vec[0].open_time,
                end_index: second_v_index,
                end_time: 0,
                lower_price,
                neckline_price,
            },
            second_v_index,
        ),
    )
}

/// Looks for the confirmation of a double bottom.
pub fn find_trigger_w_pattern(
    vec: &[MathKLine],
    options: WPatternParams,
    potential_pattern: WPattern,
    second_v_index: usize,
) -> (found: Option<WPattern>)
    ensures
        found == w_trigger(vec@, options, potential_pattern, second_v_index as int),
{
    let len: usize = vec.len();
    if len < options.klines_range || len - options.klines_range < second_v_index {
        return None;
    }
    proof {
        lemma_first_stop(
            vec@,
            second_v_index as int,
            second_v_index + options.klines_range,
            KlineTest::BreaksDownwards(potential_pattern.lower_price),
            KlineTest::HigherThan(potential_pattern.neckline_price),
        );
    }
    match find_breakout(
        vec,
        second_v_index,
        second_v_index + options.klines_range,
        KlineTest::BreaksDownwards(potential_pattern.lower_price),
        KlineTest::HigherThan(potential_pattern.neckline_price),
    ) {
        Some(end_index) => Some(
            WPattern {
                start_index: potential_pattern.start_index,
                start_time: potential_pattern.start_time,
                end_index,
                end_time: vec[end_index].close_time,
                lower_price: potential_pattern.lower_price,
                neckline_price: potential_pattern.neckline_price,
            },
        ),
        None => None,
    }
}

/// Looks for a double bottom that begins with the series.
pub fn find_w_pattern(vec: &[MathKLine], options: WPatternParams, potential_only: bool) -> (found:
    Option<WPattern>)
    ensures
        found == w_pattern(vec@, options, potential_only),
        vec.len() < options.klines_repetitions + options.klines_range ==> found is None,
{
    match find_potential_w_pattern(vec, options) {
        Some((pattern, second_v_index)) => {
            if potential_only {
                Some(pattern)
            } else {
                find_trigger_w_pattern(vec, options, pattern, second_v_index)
            }
        },
        None => None,
    }
}

/// The double top before its confirmation, the mirror image of the double
/// bottom: the first `n` candles all rise and the high of the last of them
/// is the anchor, `higher_price`; the next `n` candles all fall and none
/// trades above the anchor; the low of the last of them is the neckline; the
/// pullback is the candle that closes highest above the neckline, in a scan
/// that fails at a candle that trades above the anchor and stops at one that
/// trades below the neckline.
pub open spec fn m_potential(s: Seq<MathKLine>, options: MPatternParams) -> Option<MPattern> {
    let n = options.klines_repetitions as int;
    let r = options.klines_range as int;
    let start = 2 * n - 1;
    if n < 1 || r < n || s.len() < n + r || s.len() < start + r {
        None
    } else {
        let higher = s[n - 1].high;
        let neckline = s[start].low;
        if !all_up(s, 0, n) || !all_down_holding(s, n, 2 * n, higher) {
            None
        } else {
            match find_kline_spec(
                s,
                start,
                start + r,
                Extreme::HighestAbove(neckline),
                KlineTest::BreaksUpwards(higher),
                KlineTest::BreaksDownwards(neckline),
            ) {
                None => None,
                Some(pullback) => if s.len() < pullback + 1 + r {
                    None
                } else {
                    Some(
                        MPattern {
                            start_index: start as usize,
                            start_time: s[0].open_time,
                            end_index: (pullback + 1) as usize,
                            end_time: 0,
                            higher_price: higher,
                            neckline_price: neckline,
                        },
                    )
                },
            }
        }
    }
}

/// The confirmation of a double top: among the `r` candles from
/// `second_n_index` on, which the series must hold, the first that closes
/// below the neckline, unless that candle or an earlier one trades above
/// the anchor.
pub open spec fn m_trigger(
    s: Seq<MathKLine>,
    options: MPatternParams,
    potential: MPattern,
    second_n_index: int,
) -> Option<MPattern> {
    match find_breakout_spec(
        s,
        second_n_index,
        second_n_index + options.klines_range,
        KlineTest::BreaksUpwards(potential.higher_price),
        KlineTest::LowerThan(potential.neckline_price),
    ) {
        None => None,
        Some(t) => Some(
            MPattern { end_index: t as usize, end_time: s[t].close_time, ..potential },
        ),
    }
}

/// The double top that begins with the series: as it stands before its
/// confirmation, or confirmed.
pub open spec fn m_pattern(s: Seq<MathKLine>, options: MPatternParams, potential_only: bool)
    -> Option<MPattern> {
    match m_potential(s, options) {
        None => None,
        Some(potential) => if potential_only {
            Some(potential)
        } else {
            m_trigger(s, options, potential, potential.end_index as int)
        },
    }
}

/// Looks for a double top that begins with the series and is not confirmed
/// yet. With the pattern comes the index behind its pullback, from which
/// the confirmation is sought.
pub fn find_potential_m_pattern(vec: &[MathKLine], options: MPatternParams) -> (found: Option<
    (MPattern, usize),
>)
    ensures
        match found {
            Some((pattern, second_n_index)) => m_potential(vec@, options) == Some(pattern)
                && second_n_index == pattern.end_index,
            None => m_potential(vec@, options) is None,
        },
        vec.len() < options.klines_repetitions + options.klines_range ==> found is None,
{
    let n: usize = options.klines_repetitions;
    let range: usize = options.klines_range;
    let len: usize = vec.len();
    if n < 1 || range < n || len < range || len - range < n || len - range < n + n - 1 {
        return None;
    }
    let is_up_test = vec![KlineTest::IsUp];
    proof {
        assert(is_up_test@ =~= seq![KlineTest::IsUp]);
        lemma_one_test(vec@, 0, n as int, KlineTest::IsUp);
        lemma_exact_window(vec@, 0, n as int, is_up_test@);
    }
    if test_multiple_klines(vec, 0, n, n, &is_up_test).is_none() {
        return None;
    }
    // The high of the candle that ends the rise is the anchor.
    let uptrend_end: usize = n - 1;
    let higher_price: i64 = vec[uptrend_end].high;
    let first_n_test = vec![KlineTest::IsDown, KlineTest::NotBreaksUpwards(higher_price)];
    proof {
        assert(first_n_test@ =~= seq![KlineTest::IsDown, KlineTest::NotBreaksUpwards(higher_price)]);
        lemma_two_tests(
            vec@,
            n as int,
            n as int,
            KlineTest::IsDown,
            KlineTest::NotBreaksUpwards(higher_price),
        );
        lemma_exact_window(vec@, n as int, n as int, first_n_test@);
    }
    if test_multiple_klines(vec, n, n + n, n, &first_n_test).is_none() {
        return None;
    }
    let start_index: usize = n + n - 1;
    let neckline_price: i64 = vec[start_index].low;
    // The candle that closes highest between the neckline and the anchor.
    let neckline_index: usize = match find_kline(
        vec,
        start_index,
        start_index + range,
        Extreme::HighestAbove(neckline_price),
        KlineTest::BreaksUpwards(higher_price),
        KlineTest::BreaksDownwards(neckline_price),
    ) {
        Some(index) => index,
        None => {
            return None;
        },
    };
    proof {
        lemma_find_kline_within(
            vec@,
            start_index as int,
            start_index + range,
            Extreme::HighestAbove(neckline_price),
            KlineTest::BreaksUpwards(higher_price),
            KlineTest::BreaksDownwards(neckline_price),
        );
    }
    let second_n_index: usize = neckline_index + 1;
    if len - range < second_n_index {
        return None;
    }
    Some(
        (
            MPattern {
                start_index,
                start_time: vec[0].open_time,
                end_index: second_n_index,
                end_time: 0,
                higher_price,
                neckline_price,
            },
            second_n_index,
        ),
    )
}

/// Looks for the confirmation of a double top.
pub fn find_trigger_m_pattern(
    vec: &[MathKLine],
    options: MPatternParams,
    potential_pattern: MPattern,
    second_n_index: usize,
) -> (found: Option<MPattern>)
    ensures
        found == m_trigger(vec@, options, potential_pattern, second_n_index as int),
{
    let len: usize = vec.len();
    if len < options.klines_range || len - options.klines_range < second_n_index {
        return None;
    }
    proof {
        lemma_first_stop(
            vec@,
            second_n_index as int,
            second_n_index + options.klines_range,
            KlineTest::BreaksUpwards(potential_pattern.higher_price),
            KlineTest::LowerThan(potential_pattern.neckline_price),
        );
    }
    match find_breakout(
        vec,
        second_n_index,
        second_n_index + options.klines_range,
        KlineTest::BreaksUpwards(potential_pattern.higher_price),
        KlineTest::LowerThan(potential_pattern.neckline_price),
    ) {
        Some(end_index) => Some(
            MPattern {
                start_index: potential_pattern.start_index,
                start_time: potential_pattern.start_time,
                end_index,
                end_time: vec[end_index].close_time,
                higher_price: potential_pattern.higher_price,
                neckline_price: potential_pattern.neckline_price,
            },
        ),
        None => None,
    }
}

/// Looks for a double top that begins with the series.
pub fn find_m_pattern(vec: &[MathKLine], options: MPatternParams, potential_only: bool) -> (found:
    Option<MPattern>)
    ensures
        found == m_pattern(vec@, options, potential_only),
        vec.len() < options.klines_repetitions + options.klines_range ==> found is None,
{
    match find_potential_m_pattern(vec, options) {
        Some((pattern, second_n_index)) => {
            if potential_only {
                Some(pattern)
            } else {
                find_trigger_m_pattern(vec, options, pattern, second_n_index)
            }
        },
        None => None,
    }
}

/// The bullish reversal of a series: the first run of `trend_size` falling
/// candles, of which the last closes at `peak_price`, and the first run of
/// `counter_trend_size` rising candles that is sought from that candle on;
/// the pattern ends on the last candle of the rise, at its close. It starts
/// with the series, at index 0.
pub open spec fn bull_reversal(s: Seq<MathKLine>, options: ReversalPatternParams) -> Option<
    ReversalPattern,
> {
    match first_run(s, 0, s.len() as int, options.trend_size as int, seq![KlineTest::IsDown]) {
        None => None,
        Some(fall) => {
            let trend_end = fall + options.trend_size - 1;
            match first_run(
                s,
                trend_end,
                s.len() as int,
                options.counter_trend_size as int,
                seq![KlineTest::IsUp],
            ) {
                None => None,
                Some(rise) => {
                    let end = rise + options.counter_trend_size - 1;
                    Some(
                        ReversalPattern {
                            start_index: 0,
                            start_time: s[0].open_time,
                            end_index: end as usize,
                            end_time: s[end].close_time,
                            peak_price: s[trend_end].close,
                            end_price: s[end].close,
                        },
                    )
                },
            }
        },
    }
}

/// Looks for a bullish reversal in the series. The pattern has no
/// unconfirmed form, so `potential_only` changes nothing.
pub fn find_bull_reversal(
    vec: &[MathKLine],
    options: ReversalPatternParams,
    potential_only: bool,
) -> (found: Option<ReversalPattern>)
    ensures
        found == bull_reversal(vec@, options),
        vec.len() < options.trend_size + options.counter_trend_size ==> found is None,
{
    let len: usize = vec.len();
    let is_down_test = vec![KlineTest::IsDown];
    let is_up_test = vec![KlineTest::IsUp];
    proof {
        assert(is_down_test@ =~= seq![KlineTest::IsDown]);
        assert(is_up_test@ =~= seq![KlineTest::IsUp]);
        lemma_first_run(vec@, 0, len as int, options.trend_size as int, is_down_test@);
        lemma_bull_reversal_window(vec@, options);
    }
    let trend_end_index: usize = match test_multiple_klines(
        vec,
        0,
        len,
        options.trend_size,
        &is_down_test,
    ) {
        Some(fall) => fall + options.trend_size - 1,
        None => {
            return None;
        },
    };
    proof {
        lemma_first_run(
            vec@,
            trend_end_index as int,
            len as int,
            options.counter_trend_size as int,
            is_up_test@,
        );
    }
    let end_index: usize = match test_multiple_klines(
        vec,
        trend_end_index,
        len,
        options.counter_trend_size,
        &is_up_test,
    ) {
        Some(rise) => rise + options.counter_trend_size - 1,
        None => {
            return None;
        },
    };
    Some(
        ReversalPattern {
            start_index: 0,
            start_time: vec[0].open_time,
            end_index,
            end_time: vec[end_index].close_time,
            peak_price: vec[trend_end_index].close,
            end_price: vec[end_index].close,
        },
    )
}

/// A bullish reversal needs `trend_size + counter_trend_size` candles, and
/// it ends within the series, behind candle 0.
pub proof fn lemma_bull_reversal_window(s: Seq<MathKLine>, options: ReversalPatternParams)
    requires
        s.len() <= usize::MAX,
    ensures
        s.len() < options.trend_size + options.counter_trend_size ==> bull_reversal(s, options)
            is None,
        bull_reversal(s, options) matches Some(pattern) ==> 1 <= pattern.end_index < s.len()
            && pattern.end_index + 1 >= options.trend_size + options.counter_trend_size,
{
    let falling = seq![KlineTest::IsDown];
    let rising = seq![KlineTest::IsUp];
    lemma_first_run(s, 0, s.len() as int, options.trend_size as int, falling);
    match first_run(s, 0, s.len() as int, options.trend_size as int, falling) {
        None => {},
        Some(fall) => {
            let trend_end = fall + options.trend_size - 1;
            lemma_first_run(s, trend_end, s.len() as int, options.counter_trend_size as int, rising);
            match first_run(s, trend_end, s.len() as int, options.counter_trend_size as int, rising) {
                None => {},
                Some(rise) => {
                    lemma_one_test(s, fall, options.trend_size as int, KlineTest::IsDown);
                    lemma_one_test(s, rise, options.counter_trend_size as int, KlineTest::IsUp);
                    assert(KlineTest::IsDown.holds(s[trend_end]));
                    assert(KlineTest::IsUp.holds(s[rise]));
                    assert(rise != trend_end);
                },
            }
        },
    }
}

/// A series shorter than `klines_repetitions + klines_range` holds no
/// double bottom and no double top.
pub proof fn lemma_short_series_has_no_pattern(
    s: Seq<MathKLine>,
    w: WPatternParams,
    m: MPatternParams,
    potential_only: bool,
)
    ensures
        s.len() < w.klines_repetitions + w.klines_range ==> w_pattern(s, w, potential_only)
            is None,
        s.len() < m.klines_repetitions + m.klines_range ==> m_pattern(s, m, potential_only)
            is None,
{
}

/// A double bottom ends within the series, behind candle 0.
pub proof fn lemma_w_pattern_window(s: Seq<MathKLine>, options: WPatternParams, potential_only: bool)
    requires
        s.len() <= usize::MAX,
    ensures
        w_pattern(s, options, potential_only) matches Some(pattern) ==> 1 <= pattern.end_index
            < s.len(),
{
    let n = options.klines_repetitions as int;
    let r = options.klines_range as int;
    match w_potential(s, options) {
        None => {},
        Some(potential) => {
            lemma_find_kline_within(
                s,
                2 * n - 1,
                2 * n - 1 + r,
                Extreme::LowestBelow(potential.neckline_price),
                KlineTest::BreaksDownwards(potential.lower_price),
                KlineTest::BreaksUpwards(potential.neckline_price),
            );
            lemma_first_stop(
                s,
                potential.end_index as int,
                potential.end_index + r,
                KlineTest::BreaksDownwards(potential.lower_price),
                KlineTest::HigherThan(potential.neckline_price),
            );
        },
    }
}

/// A double top ends within the series, behind candle 0.
pub proof fn lemma_m_pattern_window(s: Seq<MathKLine>, options: MPatternParams, potential_only: bool)
    requires
        s.len() <= usize::MAX,
    ensures
        m_pattern(s, options, potential_only) matches Some(pattern) ==> 1 <= pattern.end_index
            < s.len(),
{
    let n = options.klines_repetitions as int;
    let r = options.klines_range as int;
    match m_potential(s, options) {
        None => {},
        Some(potential) => {
            lemma_find_kline_within(
                s,
                2 * n - 1,
                2 * n - 1 + r,
                Extreme::HighestAbove(potential.neckline_price),
                KlineTest::BreaksUpwards(potential.higher_price),
                KlineTest::BreaksDownwards(potential.neckline_price),
            );
            lemma_first_stop(
                s,
                potential.end_index as int,
                potential.end_index + r,
                KlineTest::BreaksUpwards(potential.higher_price),
                KlineTest::LowerThan(potential.neckline_price),
            );
        },
    }
}

/// In a series of coherent candles the neckline of a double bottom lies
/// strictly above its anchor, and the neckline of a double top strictly
/// below its anchor.
pub proof fn lemma_neckline_beyond_anchor(
    s: Seq<MathKLine>,
    w: WPatternParams,
    m: MPatternParams,
    potential_only: bool,
)
    requires
        forall|i: int| 0 <= i < s.len() ==> (#[trigger] s[i]).coherent(),
    ensures
        w_pattern(s, w, potential_only) matches Some(pattern) ==> pattern.neckline_price
            > pattern.lower_price,
        m_pattern(s, m, potential_only) matches Some(pattern) ==> pattern.neckline_price
            < pattern.higher_price,
{
    if w_potential(s, w) is Some {
        let n = w.klines_repetitions as int;
        let last = s[2 * n - 1];
        assert(last.coherent());
        assert(is_up(last) && last.low >= s[n - 1].low);
    }
    if m_potential(s, m) is Some {
        let n = m.klines_repetitions as int;
        let last = s[2 * n - 1];
        assert(last.coherent());
        assert(is_down(last) && last.high <= s[n - 1].high);
    }
}

} // verus!
