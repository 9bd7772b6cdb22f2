//! Strategy parameters and the trade factories.

use vstd::prelude::*;
use std::sync::mpsc::Sender;
use vstd::slice::slice_subrange;
use crate::backtest::Status;
use crate::backtest::StrategyName;
use crate::backtest::Trade;
use crate::fixed::div_floor;
use crate::fixed::lemma_mul_bounds;
use crate::fixed::MULTIPLIER_LIMIT;
use crate::fixed::PRICE_LIMIT;
use crate::fixed::RATIO_SCALE;
use crate::fixed::RISK_LIMIT;
use crate::patterns::all_well_formed;
use crate::patterns::bull_reversal;
use crate::patterns::find_bull_reversal;
use crate::patterns::find_m_pattern;
use crate::patterns::find_w_pattern;
use crate::scans::first_run;
use crate::scans::lemma_first_stop;
use crate::patterns::m_potential;
use crate::patterns::w_potential;
use crate::patterns::lemma_bull_reversal_window;
use crate::scans::lemma_first_run;
use crate::patterns::lemma_m_pattern_window;
use crate::patterns::lemma_w_pattern_window;
use crate::patterns::m_pattern;
use crate::patterns::w_pattern;
use crate::patterns::KlineTest;
use crate::patterns::MPatternParams;
use crate::patterns::MathKLine;
use crate::patterns::PatternSettings;
use crate::patterns::ReversalPattern;
use crate::patterns::ReversalPatternParams;
use crate::patterns::WPatternParams;
use crate::progress::phase_progress;
use crate::progress::report;
use crate::progress::REPORT_EVERY;
use crate::resolver::all_trades_well_formed;

verus! {

#[derive(Clone, Copy, PartialEq, Eq, Debug, Structural)]
pub enum MarketType {
    Spot,
    Futures,
}

/// What one run of a strategy is given: the two multipliers in hundredths,
/// the risk per trade in ten-thousandths of the equity, and the equity
/// itself, in ticks, which the run moves as its trades close.
#[derive(Clone, Copy, PartialEq, Eq, Debug, Structural)]
pub struct StrategyParams {
    pub tp_multiplier: u64,
    pub sl_multiplier: u64,
    pub risk_per_trade: u64,
    pub money: i64,
    pub name: StrategyName,
    pub market_type: MarketType,
}

impl StrategyParams {
    /// The multipliers and the risk are within what the arithmetic can take.
    pub open spec fn well_formed(self) -> bool {
        &&& self.tp_multiplier <= MULTIPLIER_LIMIT
        &&& self.sl_multiplier <= MULTIPLIER_LIMIT
        &&& self.risk_per_trade <= RISK_LIMIT
    }

    pub fn is_well_formed(&self) -> (b: bool)
        ensures
            b == self.well_formed(),
    {
        self.tp_multiplier <= MULTIPLIER_LIMIT && self.sl_multiplier <= MULTIPLIER_LIMIT
            && self.risk_per_trade <= RISK_LIMIT
    }

    /// The same parameters with another equity.
    pub open spec fn with_money(self, money: i64) -> StrategyParams {
        StrategyParams { money, ..self }
    }
}

/// One configuration of a sweep: the parameters of the run and those of the
/// detector it trades on.
#[derive(Clone, Copy, PartialEq, Eq, Debug, Structural)]
pub struct Strategy {
    pub params: StrategyParams,
    pub pattern: PatternSettings,
}

/// A trade as the factory makes it: not opened, with no size and no
/// amounts yet.
pub open spec fn pending_trade(
    entry_price: i64,
    sl: i64,
    tp: i64,
    open_time: i64,
    opening_kline: MathKLine,
    strategy: StrategyName,
) -> Trade {
    Trade {
        entry_price,
        sl,
        tp,
        status: Status::NotOpened,
        open_time,
        close_time: 0,
        money: 0,
        benefits: 0,
        loss: 0,
        taxes: 0,
        lots: 0,
        closing_kline: None,
        opening_kline,
        strategy,
    }
}

/// A price moved away from `base` by `distance` times a ratio given in
/// hundredths, rounded down.
pub open spec fn extended(base: int, distance: int, ratio: int) -> int {
    let moved = distance * ratio;
    let scale = RATIO_SCALE as int;
    base + moved / scale
}

/// The trade of a double bottom or a double top, with `anchor` for the
/// pattern's low or high. It enters at the neckline. The stop lies behind
/// the anchor: beyond it by the distance from anchor to neckline times
/// `sl_multiplier - 1`. The target lies beyond the neckline by that distance
/// times `tp_multiplier`. The trade opens at the pattern's end.
pub open spec fn neckline_trade(
    anchor: i64,
    neckline: i64,
    end_time: i64,
    opening_kline: MathKLine,
    params: StrategyParams,
) -> Trade {
    pending_trade(
        neckline,
        extended(
            anchor as int,
            anchor - neckline,
            params.sl_multiplier - RATIO_SCALE,
        ) as i64,
        extended(neckline as int, neckline - anchor, params.tp_multiplier as int) as i64,
        end_time,
        opening_kline,
        params.name,
    )
}

/// The trade of a bullish reversal. It enters at the close that ends the
/// rise; the stop is the close that ends the fall times `sl_multiplier`;
/// the target lies above the entry by the rise times `tp_multiplier`.
pub open spec fn reversal_trade(
    pattern: ReversalPattern,
    opening_kline: MathKLine,
    params: StrategyParams,
) -> Trade {
    pending_trade(
        pattern.end_price,
        extended(0, pattern.peak_price as int, params.sl_multiplier as int) as i64,
        extended(
            pattern.end_price as int,
            pattern.end_price - pattern.peak_price,
            params.tp_multiplier as int,
        ) as i64,
        pattern.end_time,
        opening_kline,
        params.name,
    )
}

/// What the head of a series gives: the index at which its pattern ends,
/// and the trade that the pattern opens.
#[derive(Clone, Copy, PartialEq, Eq, Debug)]
pub struct Detection {
    pub end_index: usize,
    pub trade: Trade,
}

/// The pattern found at the head of the series and its trade, which opens
/// on the candle that the pattern ends on.
pub open spec fn detection(
    s: Seq<MathKLine>,
    params: StrategyParams,
    settings: PatternSettings,
    potential_only: bool,
) -> Option<Detection> {
    match settings {
        PatternSettings::W(options) => match w_pattern(s, options, potential_only) {
            Some(pattern) => Some(
                Detection {
                    end_index: pattern.end_index,
                    trade: neckline_trade(
                        pattern.lower_price,
                        pattern.neckline_price,
                        pattern.end_time,
                        s[pattern.end_index as int],
                        params,
                    ),
                },
            ),
            None => None,
        },
        PatternSettings::M(options) => match m_pattern(s, options, potential_only) {
            Some(pattern) => Some(
                Detection {
                    end_index: pattern.end_index,
                    trade: neckline_trade(
                        pattern.higher_price,
                        pattern.neckline_price,
                        pattern.end_time,
                        s[pattern.end_index as int],
                        params,
                    ),
                },
            ),
            None => None,
        },
        PatternSettings::BullReversal(options) => match bull_reversal(s, options) {
            Some(pattern) => Some(
                Detection {
                    end_index: pattern.end_index,
                    trade: reversal_trade(pattern, s[pattern.end_index as int], params),
                },
            ),
            None => None,
        },
    }
}

/// The trades of a series from the cursor `j` on. The detector is shown the
/// candles from the cursor to the end. Where it finds a pattern, the
/// pattern's trade is the next one and the cursor moves to the candle that
/// the pattern ends on; where it finds none, the cursor moves by one candle.
pub open spec fn trades_from(
    s: Seq<MathKLine>,
    j: int,
    params: StrategyParams,
    settings: PatternSettings,
    potential_only: bool,
) -> Seq<Trade>
    decreases s.len() - j,
    when s.len() <= usize::MAX
    via trades_from_decreases
{
    if j < 0 || j >= s.len() {
        Seq::empty()
    } else {
        match detection(s.subrange(j, s.len() as int), params, settings, potential_only) {
            Some(found) => seq![found.trade] + trades_from(
                s,
                j + found.end_index,
                params,
                settings,
                potential_only,
            ),
            None => trades_from(s, j + 1, params, settings, potential_only),
        }
    }
}

#[via_fn]
proof fn trades_from_decreases(
    s: Seq<MathKLine>,
    j: int,
    params: StrategyParams,
    settings: PatternSettings,
    potential_only: bool,
) {
    if 0 <= j < s.len() {
        lemma_detection_window(s.subrange(j, s.len() as int), params, settings, potential_only);
    }
}

/// A pattern ends behind the first candle of its series and within it.
pub proof fn lemma_detection_window(
    s: Seq<MathKLine>,
    params: StrategyParams,
    settings: PatternSettings,
    potential_only: bool,
)
    requires
        s.len() <= usize::MAX,
    ensures
        detection(s, params, settings, potential_only) matches Some(found) ==> 1
            <= found.end_index < s.len(),
{
    match settings {
        PatternSettings::W(options) => lemma_w_pattern_window(s, options, potential_only),
        PatternSettings::M(options) => lemma_m_pattern_window(s, options, potential_only),
        PatternSettings::BullReversal(options) => lemma_bull_reversal_window(s, options),
    }
}

/// A price within the limit of candle prices.
pub open spec fn within_limit(price: i64) -> bool {
    -PRICE_LIMIT <= price <= PRICE_LIMIT
}

/// The prices of a trade that comes from well-formed candles and
/// parameters are within what the resolver takes.
pub proof fn lemma_detection_well_formed(
    s: Seq<MathKLine>,
    params: StrategyParams,
    settings: PatternSettings,
    potential_only: bool,
)
    requires
        s.len() <= usize::MAX,
        all_well_formed(s),
        params.well_formed(),
    ensures
        detection(s, params, settings, potential_only) matches Some(found)
            ==> found.trade.well_formed(),
        settings matches PatternSettings::W(options) ==> (w_pattern(
            s,
            options,
            potential_only,
        ) matches Some(pattern) ==> within_limit(pattern.lower_price) && within_limit(
            pattern.neckline_price,
        )),
        settings matches PatternSettings::M(options) ==> (m_pattern(
            s,
            options,
            potential_only,
        ) matches Some(pattern) ==> within_limit(pattern.higher_price) && within_limit(
            pattern.neckline_price,
        )),
        settings matches PatternSettings::BullReversal(options) ==> (bull_reversal(
            s,
            options,
        ) matches Some(pattern) ==> within_limit(pattern.peak_price) && within_limit(
            pattern.end_price,
        )),
{
    match settings {
        PatternSettings::W(options) => {
            if let Some(pattern) = w_pattern(s, options, potential_only) {
                let n = options.klines_repetitions as int;
                assert(w_potential(s, options) is Some);
                assert(s[n - 1].well_formed());
                assert(s[2 * n - 1].well_formed());
                assert(pattern.lower_price == s[n - 1].low);
                assert(pattern.neckline_price == s[2 * n - 1].high);
                lemma_neckline_trade_bounds(pattern.lower_price, pattern.neckline_price, params);
            }
        },
        PatternSettings::M(options) => {
            if let Some(pattern) = m_pattern(s, options, potential_only) {
                let n = options.klines_repetitions as int;
                assert(m_potential(s, options) is Some);
                assert(s[n - 1].well_formed());
                assert(s[2 * n - 1].well_formed());
                assert(pattern.higher_price == s[n - 1].high);
                assert(pattern.neckline_price == s[2 * n - 1].low);
                lemma_neckline_trade_bounds(pattern.higher_price, pattern.neckline_price, params);
            }
        },
        PatternSettings::BullReversal(options) => {
            if let Some(pattern) = bull_reversal(s, options) {
                let falling = seq![KlineTest::IsDown];
                let rising = seq![KlineTest::IsUp];
                lemma_first_run(s, 0, s.len() as int, options.trend_size as int, falling);
                let fall = first_run(s, 0, s.len() as int, options.trend_size as int, falling)->0;
                let trend_end = fall + options.trend_size - 1;
                lemma_first_run(
                    s,
                    trend_end,
                    s.len() as int,
                    options.counter_trend_size as int,
                    rising,
                );
                let rise = first_run(
                    s,
                    trend_end,
                    s.len() as int,
                    options.counter_trend_size as int,
                    rising,
                )->0;
                assert(s[trend_end].well_formed());
                assert(s[rise + options.counter_trend_size - 1].well_formed());
                lemma_reversal_trade_bounds(pattern.peak_price, pattern.end_price, params);
            }
        },
    }
}

proof fn lemma_neckline_trade_bounds(anchor: i64, neckline: i64, params: StrategyParams)
    requires
        -PRICE_LIMIT <= anchor <= PRICE_LIMIT,
        -PRICE_LIMIT <= neckline <= PRICE_LIMIT,
        params.well_formed(),
    ensures
        -300_000_000_000_000_000 <= extended(
            anchor as int,
            anchor - neckline,
            params.sl_multiplier - RATIO_SCALE,
        ) <= 300_000_000_000_000_000,
        -300_000_000_000_000_000 <= extended(
            neckline as int,
            neckline - anchor,
            params.tp_multiplier as int,
        ) <= 300_000_000_000_000_000,
{
    let span: int = 2_000_000_000_000_000;
    lemma_mul_bounds(anchor - neckline, span, params.sl_multiplier - RATIO_SCALE, 10_000);
    lemma_mul_bounds(neckline - anchor, span, params.tp_multiplier as int, 10_000);
}

proof fn lemma_reversal_trade_bounds(peak: i64, end: i64, params: StrategyParams)
    requires
        -PRICE_LIMIT <= peak <= PRICE_LIMIT,
        -PRICE_LIMIT <= end <= PRICE_LIMIT,
        params.well_formed(),
    ensures
        -300_000_000_000_000_000 <= extended(0, peak as int, params.sl_multiplier as int)
            <= 300_000_000_000_000_000,
        -300_000_000_000_000_000 <= extended(
            end as int,
            end - peak,
            params.tp_multiplier as int,
        ) <= 300_000_000_000_000_000,
{
    let span: int = 2_000_000_000_000_000;
    lemma_mul_bounds(peak as int, span, params.sl_multiplier as int, 10_000);
    lemma_mul_bounds(end - peak, span, params.tp_multiplier as int, 10_000);
}

/// Moves a price by a distance times a ratio in hundredths.
fn extend(base: i64, distance: i128, ratio: i128) -> (price: i64)
    requires
        -PRICE_LIMIT <= base <= PRICE_LIMIT,
        -2 * PRICE_LIMIT <= distance <= 2 * PRICE_LIMIT,
        -(MULTIPLIER_LIMIT as int) <= ratio <= MULTIPLIER_LIMIT,
    ensures
        price == extended(base as int, distance as int, ratio as int),
        -300_000_000_000_000_000 <= price <= 300_000_000_000_000_000,
{
    proof {
        lemma_mul_bounds(distance as int, 2_000_000_000_000_000, ratio as int, 10_000);
    }
    let moved: i128 = (base as i128) + div_floor(distance * ratio, RATIO_SCALE as i128);
    moved as i64
}

fn make_pending(
    entry_price: i64,
    sl: i64,
    tp: i64,
    open_time: i64,
    opening_kline: MathKLine,
    strategy: StrategyName,
) -> (trade: Trade)
    ensures
        trade == pending_trade(entry_price, sl, tp, open_time, opening_kline, strategy),
{
    Trade {
        entry_price,
        sl,
        tp,
        status: Status::NotOpened,
        open_time,
        close_time: 0,
        money: 0,
        benefits: 0,
        loss: 0,
        taxes: 0,
        lots: 0,
        closing_kline: None,
        opening_kline,
        strategy,
    }
}

fn make_neckline_trade(
    anchor: i64,
    neckline: i64,
    end_time: i64,
    opening_kline: MathKLine,
    params: &StrategyParams,
) -> (trade: Trade)
    requires
        -PRICE_LIMIT <= anchor <= PRICE_LIMIT,
        -PRICE_LIMIT <= neckline <= PRICE_LIMIT,
        params.well_formed(),
    ensures
        trade == neckline_trade(anchor, neckline, end_time, opening_kline, *params),
        trade.well_formed(),
{
    let sl: i64 = extend(
        anchor,
        (anchor as i128) - (neckline as i128),
        (params.sl_multiplier as i128) - (RATIO_SCALE as i128),
    );
    let tp: i64 = extend(
        neckline,
        (neckline as i128) - (anchor as i128),
        params.tp_multiplier as i128,
    );
    make_pending(neckline, sl, tp, end_time, opening_kline, params.name)
}

fn make_reversal_trade(pattern: &ReversalPattern, opening_kline: MathKLine, params: &StrategyParams)
    -> (trade: Trade)
    requires
        -PRICE_LIMIT <= pattern.peak_price <= PRICE_LIMIT,
        -PRICE_LIMIT <= pattern.end_price <= PRICE_LIMIT,
        params.well_formed(),
    ensures
        trade == reversal_trade(*pattern, opening_kline, *params),
        trade.well_formed(),
{
    let sl: i64 = extend(0, pattern.peak_price as i128, params.sl_multiplier as i128);
    let tp: i64 = extend(
        pattern.end_price,
        (pattern.end_price as i128) - (pattern.peak_price as i128),
        params.tp_multiplier as i128,
    );
    make_pending(pattern.end_price, sl, tp, pattern.end_time, opening_kline, params.name)
}

/// A series gives at most one trade for each candle behind the cursor,
/// and every trade that the factory makes is not opened.
pub proof fn lemma_trades_from(
    s: Seq<MathKLine>,
    j: int,
    params: StrategyParams,
    settings: PatternSettings,
    potential_only: bool,
)
    requires
        s.len() <= usize::MAX,
    ensures
        ({
            let trades = trades_from(s, j, params, settings, potential_only);
            &&& trades.len() <= s.len()
            &&& 0 <= j <= s.len() ==> trades.len() <= s.len() - j
            &&& forall|i: int|
                0 <= i < trades.len() ==> (#[trigger] trades[i]).status == Status::NotOpened
        }),
    decreases s.len() - j,
{
    if 0 <= j < s.len() {
        let rest = s.subrange(j, s.len() as int);
        lemma_detection_window(rest, params, settings, potential_only);
        match detection(rest, params, settings, potential_only) {
            Some(found) => {
                lemma_trades_from(s, j + found.end_index, params, settings, potential_only);
            },
            None => {
                lemma_trades_from(s, j + 1, params, settings, potential_only);
            },
        }
    }
}

/// The closing times of the candles grow from one candle to the next.
pub open spec fn closing_times_grow(s: Seq<MathKLine>) -> bool {
    forall|a: int, b: int| 0 <= a < b < s.len() ==> (#[trigger] s[a]).close_time < (
    #[trigger] s[b]).close_time
}

/// On a series whose closing times grow, the trades of confirmed patterns
/// come in the order of their opening: each opens at the close of a candle
/// behind the cursor, and later than the trade before it.
pub proof fn lemma_trades_in_opening_order(
    s: Seq<MathKLine>,
    j: int,
    params: StrategyParams,
    settings: PatternSettings,
)
    requires
        s.len() <= usize::MAX,
        closing_times_grow(s),
        0 <= j,
    ensures
        ({
            let trades = trades_from(s, j, params, settings, false);
            &&& forall|i: int|
                0 <= i < trades.len() && j < s.len() ==> (#[trigger] trades[i]).open_time
                    > s[j].close_time
            &&& forall|a: int, b: int|
                0 <= a < b < trades.len() ==> (#[trigger] trades[a]).open_time < (
                #[trigger] trades[b]).open_time
        }),
    decreases s.len() - j,
{
    if j < s.len() {
        let rest = s.subrange(j, s.len() as int);
        lemma_detection_window(rest, params, settings, false);
        lemma_detection_end_time(rest, params, settings);
        match detection(rest, params, settings, false) {
            Some(found) => {
                let next = j + found.end_index;
                lemma_trades_in_opening_order(s, next, params, settings);
                let tail = trades_from(s, next, params, settings, false);
                let trades = trades_from(s, j, params, settings, false);
                assert(trades =~= seq![found.trade] + tail);
                assert(found.trade.open_time == s[next].close_time);
                assert(s[j].close_time < s[next].close_time);
                assert forall|i: int| 0 <= i < trades.len() implies (
                #[trigger] trades[i]).open_time > s[j].close_time by {
                    if i > 0 {
                        assert(trades[i] == tail[i - 1]);
                    }
                }
                assert forall|a: int, b: int| 0 <= a < b < trades.len() implies (
                #[trigger] trades[a]).open_time < (#[trigger] trades[b]).open_time by {
                    assert(trades[b] == tail[b - 1]);
                    if a > 0 {
                        assert(trades[a] == tail[a - 1]);
                    }
                }
            },
            None => {
                lemma_trades_in_opening_order(s, j + 1, params, settings);
                if j + 1 < s.len() {
                    assert(s[j].close_time < s[j + 1].close_time);
                }
            },
        }
    }
}

/// The trade of a confirmed pattern opens at the close of the candle that
/// the pattern ends on.
proof fn lemma_detection_end_time(
    s: Seq<MathKLine>,
    params: StrategyParams,
    settings: PatternSettings,
)
    requires
        s.len() <= usize::MAX,
    ensures
        detection(s, params, settings, false) matches Some(found) ==> found.trade.open_time
            == s[found.end_index as int].close_time,
{
    lemma_detection_window(s, params, settings, false);
    match settings {
        PatternSettings::W(options) => {
            if let Some(potential) = w_potential(s, options) {
                lemma_first_stop(
                    s,
                    potential.end_index as int,
                    potential.end_index + options.klines_range,
                    KlineTest::BreaksDownwards(potential.lower_price),
                    KlineTest::HigherThan(potential.neckline_price),
                );
            }
        },
        PatternSettings::M(options) => {
            if let Some(potential) = m_potential(s, options) {
                lemma_first_stop(
                    s,
                    potential.end_index as int,
                    potential.end_index + options.klines_range,
                    KlineTest::BreaksUpwards(potential.higher_price),
                    KlineTest::LowerThan(potential.neckline_price),
                );
            }
        },
        PatternSettings::BullReversal(options) => {
            lemma_bull_reversal_window(s, options);
            let falling = seq![KlineTest::IsDown];
            let rising = seq![KlineTest::IsUp];
            lemma_first_run(s, 0, s.len() as int, options.trend_size as int, falling);
            if let Some(fall) = first_run(s, 0, s.len() as int, options.trend_size as int, falling) {
                lemma_first_run(
                    s,
                    fall + options.trend_size - 1,
                    s.len() as int,
                    options.counter_trend_size as int,
                    rising,
                );
            }
        },
    }
}

/// Looks for the pattern at the head of the series and makes its trade.
fn detect(
    rest: &[MathKLine],
    params: &StrategyParams,
    settings: PatternSettings,
    potential_only: bool,
) -> (found: Option<Detection>)
    requires
        all_well_formed(rest@),
        params.well_formed(),
    ensures
        found == detection(rest@, *params, settings, potential_only),
        found matches Some(d) ==> d.trade.well_formed() && 1 <= d.end_index < rest.len(),
{
    let len: usize = rest.len();
    proof {
        assert(rest@.len() == len);
        lemma_detection_window(rest@, *params, settings, potential_only);
        lemma_detection_well_formed(rest@, *params, settings, potential_only);
    }
    match settings {
        PatternSettings::W(options) => match find_w_pattern(rest, options, potential_only) {
            Some(result) => Some(
                Detection {
                    end_index: result.end_index,
                    trade: make_neckline_trade(
                        result.lower_price,
                        result.neckline_price,
                        result.end_time,
                        rest[result.end_index],
                        params,
                    ),
                },
            ),
            None => None,
        },
        PatternSettings::M(options) => match find_m_pattern(rest, options, potential_only) {
            Some(result) => Some(
                Detection {
                    end_index: result.end_index,
                    trade: make_neckline_trade(
                        result.higher_price,
                        result.neckline_price,
                        result.end_time,
                        rest[result.end_index],
                        params,
                    ),
                },
            ),
            None => None,
        },
        PatternSettings::BullReversal(options) => match find_bull_reversal(
            rest,
            options,
            potential_only,
        ) {
            Some(result) => Some(
                Detection {
                    end_index: result.end_index,
                    trade: make_reversal_trade(&result, rest[result.end_index], params),
                },
            ),
            None => None,
        },
    }
}

/// Makes the trades of a series for one detector, and reports the first
/// half of the run's progress while it works.
pub fn create_trades(
    chunk: &Vec<MathKLine>,
    progression_tracker: Option<&Sender<u32>>,
    strategy_params: StrategyParams,
    settings: PatternSettings,
    potential_only: bool,
) -> (trades: Vec<Trade>)
    requires
        all_well_formed(chunk@),
        strategy_params.well_formed(),
    ensures
        trades@ == trades_from(chunk@, 0, strategy_params, settings, potential_only),
        all_trades_well_formed(trades@),
{
    let mut result_vec: Vec<Trade> = Vec::new();
    let mut j: usize = 0;
    let mut last_sent: usize = 0;
    while j < chunk.len()
        invariant
            j <= chunk.len(),
            last_sent <= j,
            all_well_formed(chunk@),
            strategy_params.well_formed(),
            all_trades_well_formed(result_vec@),
            trades_from(chunk@, 0, strategy_params, settings, potential_only) == result_vec@
                + trades_from(chunk@, j as int, strategy_params, settings, potential_only),
        decreases chunk.len() - j,
    {
        let rest = slice_subrange(chunk.as_slice(), j, chunk.len());
        let ghost before = result_vec@;
        let ghost here = j as int;
        proof {
            assert forall|i: int| 0 <= i < rest@.len() implies (#[trigger] rest@[i]).well_formed() by {
                assert(chunk@[j + i].well_formed());
            }
        }
        match detect(rest, &strategy_params, settings, potential_only) {
            Some(found) => {
                j += found.end_index;
                result_vec.push(found.trade);
                proof {
                    let tail = trades_from(
                        chunk@,
                        j as int,
                        strategy_params,
                        settings,
                        potential_only,
                    );
                    assert(before + (seq![found.trade] + tail) =~= result_vec@ + tail);
                    assert forall|i: int| 0 <= i < result_vec@.len() implies (
                    #[trigger] result_vec@[i]).well_formed() by {
                        if i < before.len() {
                            assert(before[i].well_formed());
                        }
                    }
                }
            },
            None => {
                j += 1;
            },
        }
        if j - last_sent > REPORT_EVERY {
            report(progression_tracker, phase_progress(j, chunk.len()));
            last_sent = j;
        }
    }
    proof {
        assert(result_vec@ + Seq::<Trade>::empty() =~= result_vec@);
    }
    result_vec
}

/// Makes the trades of the double bottoms of a series.
pub fn create_wpattern_trades(
    chunk: &Vec<MathKLine>,
    progression_tracker: Option<&Sender<u32>>,
    strategy_params: StrategyParams,
    patterns_params: WPatternParams,
    potential_only: bool,
) -> (trades: Vec<Trade>)
    requires
        all_well_formed(chunk@),
        strategy_params.well_formed(),
    ensures
        trades@ == trades_from(
            chunk@,
            0,
            strategy_params,
            PatternSettings::W(patterns_params),
            potential_only,
        ),
        all_trades_well_formed(trades@),
{
    create_trades(
        chunk,
        progression_tracker,
        strategy_params,
        PatternSettings::W(patterns_params),
        potential_only,
    )
}

/// Makes the trades of the double tops of a series.
pub fn create_mpattern_trades(
    chunk: &Vec<MathKLine>,
    progression_tracker: Option<&Sender<u32>>,
    strategy_params: StrategyParams,
    patterns_params: MPatternParams,
    potential_only: bool,
) -> (trades: Vec<Trade>)
    requires
        all_well_formed(chunk@),
        strategy_params.well_formed(),
    ensures
        trades@ == trades_from(
            chunk@,
            0,
            strategy_params,
            PatternSettings::M(patterns_params),
            potential_only,
        ),
        all_trades_well_formed(trades@),
{
    create_trades(
        chunk,
        progression_tracker,
        strategy_params,
        PatternSettings::M(patterns_params),
        potential_only,
    )
}

/// Makes the trades of the bullish reversals of a series.
pub fn create_bull_reversal_trades(
    chunk: &Vec<MathKLine>,
    progression_tracker: Option<&Sender<u32>>,
    strategy_params: StrategyParams,
    patterns_params: ReversalPatternParams,
    potential_only: bool,
) -> (trades: Vec<Trade>)
    requires
        all_well_formed(chunk@),
        strategy_params.well_formed(),
    ensures
        trades@ == trades_from(
            chunk@,
            0,
            strategy_params,
            PatternSettings::BullReversal(patterns_params),
            potential_only,
        ),
        all_trades_well_formed(trades@),
{
    create_trades(
        chunk,
        progression_tracker,
        strategy_params,
        PatternSettings::BullReversal(patterns_params),
        potential_only,
    )
}

} // verus!
