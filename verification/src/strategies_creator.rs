//! The grid of strategies of a sweep: one strategy for each combination of
//! the values that the swept parameters take.

use vstd::prelude::*;
use crate::backtest::StrategyName;
use crate::patterns::MPatternParams;
use crate::patterns::PatternName;
use crate::patterns::PatternSettings;
use crate::patterns::ReversalPatternParams;
use crate::patterns::WPatternParams;
use crate::strategies::MarketType;
use crate::strategies::Strategy;
use crate::strategies::StrategyParams;

verus! {

/// The values that a swept parameter takes: `min`, `min + step`, and so on
/// as long as `max` is not passed. With a `step` of zero it takes `min`
/// alone.
#[derive(Clone, Copy)]
pub struct ParamMultiplier<T> {
    pub min: T,
    pub max: T,
    pub step: T,
}

/// Which detectors a sweep pairs with each combination of values.
#[derive(Clone, Copy, PartialEq, Eq, Debug, Structural)]
pub enum GridKind {
    /// The double bottom and the double top, in this order.
    WAndM,
    /// The bullish reversal.
    Reversal,
}

/// A sweep: the multipliers and the risk in the units of `StrategyParams`,
/// and the two sizes of the pattern, which are the repetitions and the
/// range of a double bottom or top, or the two trend sizes of a reversal.
#[derive(Clone, Copy)]
pub struct Sweep {
    pub kind: GridKind,
    pub start_money: i64,
    pub market_type: MarketType,
    pub tp: ParamMultiplier<u64>,
    pub sl: ParamMultiplier<u64>,
    pub first_size: ParamMultiplier<usize>,
    pub second_size: ParamMultiplier<usize>,
    pub risk: ParamMultiplier<u64>,
}

/// How many values a parameter takes between `min` and `max`.
pub open spec fn steps(min: int, max: int, step: int) -> nat
    decreases
            (if min > max {
                0
            } else {
                max - min + 1
            }),
{
    if min > max {
        0
    } else if step <= 0 {
        1
    } else {
        1 + steps(min + step, max, step)
    }
}

/// What `f` gives for each value of a parameter, one after the other.
pub open spec fn along(min: int, max: int, step: int, f: spec_fn(int) -> Seq<Strategy>) -> Seq<
    Strategy,
>
    decreases
            (if min > max {
                0
            } else {
                max - min + 1
            }),
{
    if min > max {
        Seq::empty()
    } else if step <= 0 {
        f(min)
    } else {
        f(min) + along(min + step, max, step, f)
    }
}

pub open spec fn strategy_params(sweep: Sweep, tp: int, sl: int, risk: int, name: StrategyName)
    -> StrategyParams {
    StrategyParams {
        tp_multiplier: tp as u64,
        sl_multiplier: sl as u64,
        risk_per_trade: risk as u64,
        money: sweep.start_money,
        name,
        market_type: sweep.market_type,
    }
}

/// The strategies of one combination of values.
pub open spec fn cell(sweep: Sweep, tp: int, sl: int, first: int, second: int, risk: int) -> Seq<
    Strategy,
> {
    match sweep.kind {
        GridKind::WAndM => seq![
            Strategy {
                params: strategy_params(sweep, tp, sl, risk, StrategyName::W),
                pattern: PatternSettings::W(
                    WPatternParams {
                        klines_repetitions: first as usize,
                        klines_range: second as usize,
                        name: PatternName::W,
                    },
                ),
            },
            Strategy {
                params: strategy_params(sweep, tp, sl, risk, StrategyName::M),
                pattern: PatternSettings::M(
                    MPatternParams {
                        klines_repetitions: first as usize,
                        klines_range: second as usize,
                        name: PatternName::M,
                    },
                ),
            },
        ],
        GridKind::Reversal => seq![
            Strategy {
                params: strategy_params(sweep, tp, sl, risk, StrategyName::BullReversal),
                pattern: PatternSettings::BullReversal(
                    ReversalPatternParams {
                        trend_size: first as usize,
                        counter_trend_size: second as usize,
                        name: PatternName::BullReversal,
                    },
                ),
            },
        ],
    }
}

pub open spec fn risk_level(sweep: Sweep, tp: int, sl: int, first: int, second: int) -> spec_fn(
    int,
) -> Seq<Strategy> {
    |risk: int| cell(sweep, tp, sl, first, second, risk)
}

pub open spec fn second_level(sweep: Sweep, tp: int, sl: int, first: int) -> spec_fn(int) -> Seq<
    Strategy,
> {
    |second: int|
        along(
            sweep.risk.min as int,
            sweep.risk.max as int,
            sweep.risk.step as int,
            risk_level(sweep, tp, sl, first, second),
        )
}

pub open spec fn first_level(sweep: Sweep, tp: int, sl: int) -> spec_fn(int) -> Seq<Strategy> {
    |first: int|
        along(
            sweep.second_size.min as int,
            sweep.second_size.max as int,
            sweep.second_size.step as int,
            second_level(sweep, tp, sl, first),
        )
}

pub open spec fn sl_level(sweep: Sweep, tp: int) -> spec_fn(int) -> Seq<Strategy> {
    |sl: int|
        along(
            sweep.first_size.min as int,
            sweep.first_size.max as int,
            sweep.first_size.step as int,
            first_level(sweep, tp, sl),
        )
}

pub open spec fn tp_level(sweep: Sweep) -> spec_fn(int) -> Seq<Strategy> {
    |tp: int|
        along(sweep.sl.min as int, sweep.sl.max as int, sweep.sl.step as int, sl_level(sweep, tp))
}

/// The strategies of a sweep: for each take-profit multiplier, for each
/// stop-loss multiplier, for each first size, for each second size, for each
/// risk, the strategies of that combination.
pub open spec fn grid(sweep: Sweep) -> Seq<Strategy> {
    along(sweep.tp.min as int, sweep.tp.max as int, sweep.tp.step as int, tp_level(sweep))
}

/// Where `f` gives `width` strategies for every value, it gives `width`
/// times the number of values along a parameter.
pub proof fn lemma_along_len(
    min: int,
    max: int,
    step: int,
    f: spec_fn(int) -> Seq<Strategy>,
    width: nat,
)
    requires
        forall|v: int| (#[trigger] f(v)).len() == width,
    ensures
        along(min, max, step, f).len() == steps(min, max, step) * width,
    decreases
            (if min > max {
                0
            } else {
                max - min + 1
            }),
{
    let rest = steps(min + step, max, step);
    assert(f(min).len() == width);
    assert(0 * width == 0 && 1 * width == width && (1 + rest) * width == width + rest * width)
        by (nonlinear_arith);
    if min <= max && step > 0 {
        lemma_along_len(min + step, max, step, f, width);
    }
}

/// How many strategies one combination of values makes.
pub open spec fn cell_width(kind: GridKind) -> nat {
    match kind {
        GridKind::WAndM => 2,
        GridKind::Reversal => 1,
    }
}

/// A sweep makes as many strategies as there are combinations of values,
/// twice as many where it pairs each with two detectors.
pub proof fn lemma_grid_size(sweep: Sweep)
    ensures
        grid(sweep).len() == steps(
            sweep.tp.min as int,
            sweep.tp.max as int,
            sweep.tp.step as int,
        ) * (steps(sweep.sl.min as int, sweep.sl.max as int, sweep.sl.step as int) * (steps(
            sweep.first_size.min as int,
            sweep.first_size.max as int,
            sweep.first_size.step as int,
        ) * (steps(
            sweep.second_size.min as int,
            sweep.second_size.max as int,
            sweep.second_size.step as int,
        ) * (steps(sweep.risk.min as int, sweep.risk.max as int, sweep.risk.step as int)
            * cell_width(sweep.kind))))),
{
    let risks = steps(sweep.risk.min as int, sweep.risk.max as int, sweep.risk.step as int);
    let seconds = steps(
        sweep.second_size.min as int,
        sweep.second_size.max as int,
        sweep.second_size.step as int,
    );
    let firsts = steps(
        sweep.first_size.min as int,
        sweep.first_size.max as int,
        sweep.first_size.step as int,
    );
    let stops = steps(sweep.sl.min as int, sweep.sl.max as int, sweep.sl.step as int);
    let w0 = cell_width(sweep.kind);
    let w1 = risks * w0;
    let w2 = seconds * w1;
    let w3 = firsts * w2;
    let w4 = stops * w3;
    assert forall|tp: int| (#[trigger] tp_level(sweep)(tp)).len() == w4 by {
        assert forall|sl: int| (#[trigger] sl_level(sweep, tp)(sl)).len() == w3 by {
            assert forall|first: int| (#[trigger] first_level(sweep, tp, sl)(first)).len()
                == w2 by {
                assert forall|second: int|
                    (#[trigger] second_level(sweep, tp, sl, first)(second)).len() == w1 by {
                    lemma_along_len(
                        sweep.risk.min as int,
                        sweep.risk.max as int,
                        sweep.risk.step as int,
                        risk_level(sweep, tp, sl, first, second),
                        w0,
                    );
                }
                lemma_along_len(
                    sweep.second_size.min as int,
                    sweep.second_size.max as int,
                    sweep.second_size.step as int,
                    second_level(sweep, tp, sl, first),
                    w1,
                );
            }
            lemma_along_len(
                sweep.first_size.min as int,
                sweep.first_size.max as int,
                sweep.first_size.step as int,
                first_level(sweep, tp, sl),
                w2,
            );
        }
        lemma_along_len(
            sweep.sl.min as int,
            sweep.sl.max as int,
            sweep.sl.step as int,
            sl_level(sweep, tp),
            w3,
        );
    }
    lemma_along_len(
        sweep.tp.min as int,
        sweep.tp.max as int,
        sweep.tp.step as int,
        tp_level(sweep),
        w4,
    );
}

fn push_cell(
    out: &mut Vec<Strategy>,
    sweep: &Sweep,
    tp: u64,
    sl: u64,
    first: usize,
    second: usize,
    risk: u64,
)
    ensures
        final(out)@ == old(out)@ + cell(
            *sweep,
            tp as int,
            sl as int,
            first as int,
            second as int,
            risk as int,
        ),
{
    let ghost before = out@;
    match sweep.kind {
        GridKind::WAndM => {
            out.push(
                Strategy {
                    params: StrategyParams {
                        tp_multiplier: tp,
                        sl_multiplier: sl,
                        risk_per_trade: risk,
                        money: sweep.start_money,
                        name: StrategyName::W,
                        market_type: sweep.market_type,
                    },
                    pattern: PatternSettings::W(
                        WPatternParams {
                            klines_repetitions: first,
                            klines_range: second,
                            name: PatternName::W,
                        },
                    ),
                },
            );
            out.push(
                Strategy {
                    params: StrategyParams {
                        tp_multiplier: tp,
                        sl_multiplier: sl,
                        risk_per_trade: risk,
                        money: sweep.start_money,
                        name: StrategyName::M,
                        market_type: sweep.market_type,
                    },
                    pattern: PatternSettings::M(
                        MPatternParams {
                            klines_repetitions: first,
                            klines_range: second,
                            name: PatternName::M,
                        },
                    ),
                },
            );
        },
        GridKind::Reversal => {
            out.push(
                Strategy {
                    params: StrategyParams {
                        tp_multiplier: tp,
                        sl_multiplier: sl,
                        risk_per_trade: risk,
                        money: sweep.start_money,
                        name: StrategyName::BullReversal,
                        market_type: sweep.market_type,
                    },
                    pattern: PatternSettings::BullReversal(
                        ReversalPatternParams {
                            trend_size: first,
                            counter_trend_size: second,
                            name: PatternName::BullReversal,
                        },
                    ),
                },
            );
        },
    }
    assert(out@ =~= before + cell(
        *sweep,
        tp as int,
        sl as int,
        first as int,
        second as int,
        risk as int,
    ));
}

fn sweep_risk(out: &mut Vec<Strategy>, sweep: &Sweep, tp: u64, sl: u64, first: usize, second: usize)
    ensures
        final(out)@ == old(out)@ + second_level(*sweep, tp as int, sl as int, first as int)(
            second as int,
        ),
{
    let ghost f = risk_level(*sweep, tp as int, sl as int, first as int, second as int);
    let ghost whole = out@ + along(
        sweep.risk.min as int,
        sweep.risk.max as int,
        sweep.risk.step as int,
        f,
    );
    let mut m: u64 = sweep.risk.min;
    let mut more: bool = sweep.risk.min <= sweep.risk.max;
    proof {
        if !more {
            assert(out@ + Seq::<Strategy>::empty() =~= out@);
        }
    }
    while more
        invariant
            more ==> m <= sweep.risk.max && whole == out@ + along(
                m as int,
                sweep.risk.max as int,
                sweep.risk.step as int,
                f,
            ),
            !more ==> whole == out@,
            f == risk_level(*sweep, tp as int, sl as int, first as int, second as int),
        decreases sweep.risk.max - m, (if more { 1int } else { 0int }),
    {
        let ghost before = out@;
        push_cell(out, sweep, tp, sl, first, second, m);
        if sweep.risk.step == 0 || sweep.risk.max - m < sweep.risk.step {
            more = false;
            proof {
                if sweep.risk.step > 0 {
                    assert(along(m + sweep.risk.step, sweep.risk.max as int, sweep.risk.step as int, f)
                        =~= Seq::<Strategy>::empty());
                }
                assert(along(m as int, sweep.risk.max as int, sweep.risk.step as int, f) =~= f(m as int));
            }
        } else {
            proof {
                let tail = along(
                    m + sweep.risk.step,
                    sweep.risk.max as int,
                    sweep.risk.step as int,
                    f,
                );
                assert(before + (f(m as int) + tail) =~= out@ + tail);
            }
            m += sweep.risk.step;
        }
    }
}

fn sweep_second(out: &mut Vec<Strategy>, sweep: &Sweep, tp: u64, sl: u64, first: usize)
    ensures
        final(out)@ == old(out)@ + first_level(*sweep, tp as int, sl as int)(first as int),
{
    let ghost f = second_level(*sweep, tp as int, sl as int, first as int);
    let ghost whole = out@ + along(
        sweep.second_size.min as int,
        sweep.second_size.max as int,
        sweep.second_size.step as int,
        f,
    );
    let mut l: usize = sweep.second_size.min;
    let mut more: bool = sweep.second_size.min <= sweep.second_size.max;
    proof {
        if !more {
            assert(out@ + Seq::<Strategy>::empty() =~= out@);
        }
    }
    while more
        invariant
            more ==> l <= sweep.second_size.max && whole == out@ + along(
                l as int,
                sweep.second_size.max as int,
                sweep.second_size.step as int,
                f,
            ),
            !more ==> whole == out@,
            f == second_level(*sweep, tp as int, sl as int, first as int),
        decreases sweep.second_size.max - l, (if more { 1int } else { 0int }),
    {
        let ghost before = out@;
        sweep_risk(out, sweep, tp, sl, first, l);
        if sweep.second_size.step == 0 || sweep.second_size.max - l < sweep.second_size.step {
            more = false;
            proof {
                if sweep.second_size.step > 0 {
                    assert(along(l + sweep.second_size.step, sweep.second_size.max as int, sweep.second_size.step as int, f)
                        =~= Seq::<Strategy>::empty());
                }
                assert(along(l as int, sweep.second_size.max as int, sweep.second_size.step as int, f) =~= f(l as int));
            }
        } else {
            proof {
                let tail = along(
                    l + sweep.second_size.step,
                    sweep.second_size.max as int,
                    sweep.second_size.step as int,
                    f,
                );
                assert(before + (f(l as int) + tail) =~= out@ + tail);
            }
            l += sweep.second_size.step;
        }
    }
}

fn sweep_first(out: &mut Vec<Strategy>, sweep: &Sweep, tp: u64, sl: u64)
    ensures
        final(out)@ == old(out)@ + sl_level(*sweep, tp as int)(sl as int),
{
    let ghost f = first_level(*sweep, tp as int, sl as int);
    let ghost whole = out@ + along(
        sweep.first_size.min as int,
        sweep.first_size.max as int,
        sweep.first_size.step as int,
        f,
    );
    let mut k: usize = sweep.first_size.min;
    let mut more: bool = sweep.first_size.min <= sweep.first_size.max;
    proof {
        if !more {
            assert(out@ + Seq::<Strategy>::empty() =~= out@);
        }
    }
    while more
        invariant
            more ==> k <= sweep.first_size.max && whole == out@ + along(
                k as int,
                sweep.first_size.max as int,
                sweep.first_size.step as int,
                f,
            ),
            !more ==> whole == out@,
            f == first_level(*sweep, tp as int, sl as int),
        decreases sweep.first_size.max - k, (if more { 1int } else { 0int }),
    {
        let ghost before = out@;
        sweep_second(out, sweep, tp, sl, k);
        if sweep.first_size.step == 0 || sweep.first_size.max - k < sweep.first_size.step {
            more = false;
            proof {
                if sweep.first_size.step > 0 {
                    assert(along(k + sweep.first_size.step, sweep.first_size.max as int, sweep.first_size.step as int, f)
                        =~= Seq::<Strategy>::empty());
                }
                assert(along(k as int, sweep.first_size.max as int, sweep.first_size.step as int, f) =~= f(k as int));
            }
        } else {
            proof {
                let tail = along(
                    k + sweep.first_size.step,
                    sweep.first_size.max as int,
                    sweep.first_size.step as int,
                    f,
                );
                assert(before + (f(k as int) + tail) =~= out@ + tail);
            }
            k += sweep.first_size.step;
        }
    }
}

fn sweep_sl(out: &mut Vec<Strategy>, sweep: &Sweep, tp: u64)
    ensures
        final(out)@ == old(out)@ + tp_level(*sweep)(tp as int),
{
    let ghost f = sl_level(*sweep, tp as int);
    let ghost whole = out@ + along(
        sweep.sl.min as int,
        sweep.sl.max as int,
        sweep.sl.step as int,
        f,
    );
    let mut j: u64 = sweep.sl.min;
    let mut more: bool = sweep.sl.min <= sweep.sl.max;
    proof {
        if !more {
            assert(out@ + Seq::<Strategy>::empty() =~= out@);
        }
    }
    while more
        invariant
            more ==> j <= sweep.sl.max && whole == out@ + along(
                j as int,
                sweep.sl.max as int,
                sweep.sl.step as int,
                f,
            ),
            !more ==> whole == out@,
            f == sl_level(*sweep, tp as int),
        decreases sweep.sl.max - j, (if more { 1int } else { 0int }),
    {
        let ghost before = out@;
        sweep_first(out, sweep, tp, j);
        if sweep.sl.step == 0 || sweep.sl.max - j < sweep.sl.step {
            more = false;
            proof {
                if sweep.sl.step > 0 {
                    assert(along(j + sweep.sl.step, sweep.sl.max as int, sweep.sl.step as int, f)
                        =~= Seq::<Strategy>::empty());
                }
                assert(along(j as int, sweep.sl.max as int, sweep.sl.step as int, f) =~= f(j as int));
            }
        } else {
            proof {
                let tail = along(j + sweep.sl.step, sweep.sl.max as int, sweep.sl.step as int, f);
                assert(before + (f(j as int) + tail) =~= out@ + tail);
            }
            j += sweep.sl.step;
        }
    }
}

/// Makes the strategies of a sweep, in the order of `grid`.
pub fn create_strategies(sweep: &Sweep) -> (strategies: Vec<Strategy>)
    ensures
        strategies@ == grid(*sweep),
{
    let mut strategies: Vec<Strategy> = Vec::new();
    let ghost f = tp_level(*sweep);
    let mut i: u64 = sweep.tp.min;
    let mut more: bool = sweep.tp.min <= sweep.tp.max;
    proof {
        assert(Seq::<Strategy>::empty() + grid(*sweep) =~= grid(*sweep));
    }
    while more
        invariant
            more ==> i <= sweep.tp.max && grid(*sweep) == strategies@ + along(
                i as int,
                sweep.tp.max as int,
                sweep.tp.step as int,
                f,
            ),
            !more ==> grid(*sweep) == strategies@,
            f == tp_level(*sweep),
        decreases sweep.tp.max - i, (if more { 1int } else { 0int }),
    {
        let ghost before = strategies@;
        sweep_sl(&mut strategies, sweep, i);
        if sweep.tp.step == 0 || sweep.tp.max - i < sweep.tp.step {
            more = false;
            proof {
                if sweep.tp.step > 0 {
                    assert(along(i + sweep.tp.step, sweep.tp.max as int, sweep.tp.step as int, f)
                        =~= Seq::<Strategy>::empty());
                }
                assert(along(i as int, sweep.tp.max as int, sweep.tp.step as int, f) =~= f(i as int));
            }
        } else {
            proof {
                let tail = along(i + sweep.tp.step, sweep.tp.max as int, sweep.tp.step as int, f);
                assert(before + (f(i as int) + tail) =~= strategies@ + tail);
            }
            i += sweep.tp.step;
        }
    }
    strategies
}

/// Makes the strategies that trade double bottoms and double tops: for each
/// combination of values one strategy on the double bottom and one on the
/// double top.
pub fn create_w_and_m_pattern_strategies(
    start_money: i64,
    tp: ParamMultiplier<u64>,
    sl: ParamMultiplier<u64>,
    klines_repetitions: ParamMultiplier<usize>,
    klines_range: ParamMultiplier<usize>,
    risk: ParamMultiplier<u64>,
    market_type: MarketType,
) -> (strategies: Vec<Strategy>)
    ensures
        strategies@ == grid(
            Sweep {
                kind: GridKind::WAndM,
                start_money,
                market_type,
                tp,
                sl,
                first_size: klines_repetitions,
                second_size: klines_range,
                risk,
            },
        ),
{
    create_strategies(
        &Sweep {
            kind: GridKind::WAndM,
            start_money,
            market_type,
            tp,
            sl,
            first_size: klines_repetitions,
            second_size: klines_range,
            risk,
        },
    )
}

/// Makes the strategies that trade bullish reversals, one for each
/// combination of values.
pub fn create_reversal_pattern_strategies(
    start_money: i64,
    tp: ParamMultiplier<u64>,
    sl: ParamMultiplier<u64>,
    trend_size: ParamMultiplier<usize>,
    counter_trend_size: ParamMultiplier<usize>,
    risk: ParamMultiplier<u64>,
    market_type: MarketType,
) -> (strategies: Vec<Strategy>)
    ensures
        strategies@ == grid(
            Sweep {
                kind: GridKind::Reversal,
                start_money,
                market_type,
                tp,
                sl,
                first_size: trend_size,
                second_size: counter_trend_size,
                risk,
            },
        ),
{
    create_strategies(
        &Sweep {
            kind: GridKind::Reversal,
            start_money,
            market_type,
            tp,
            sl,
            first_size: trend_size,
            second_size: counter_trend_size,
            risk,
        },
    )
}

} // verus!
