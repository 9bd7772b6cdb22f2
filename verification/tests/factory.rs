use backtester::backtest::{Status, StrategyName};
use backtester::patterns::{
    MPatternParams, MathKLine, PatternName, ReversalPatternParams, WPatternParams,
};
use backtester::strategies::{
    create_bull_reversal_trades, create_mpattern_trades, create_wpattern_trades, MarketType,
    StrategyParams,
};
use std::sync::mpsc::channel;

fn kline(index: i64, open: i64, close: i64) -> MathKLine {
    MathKLine {
        open_time: index * 60,
        open,
        high: if open > close { open + 5 } else { close + 5 },
        low: if open < close { open - 5 } else { close - 5 },
        close,
        volume: 0,
        close_time: index * 60 + 59,
        quote_asset_volume: 0,
        number_of_trades: 0,
        taker_buy_base_asset_volume: 0,
        taker_buy_quote_asset_volume: 0,
    }
}

fn series(bodies: &[(i64, i64)]) -> Vec<MathKLine> {
    let mut out = Vec::new();
    for (i, (open, close)) in bodies.iter().enumerate() {
        out.push(kline(i as i64, *open, *close));
    }
    out
}

fn params(tp_multiplier: u64, sl_multiplier: u64, name: StrategyName) -> StrategyParams {
    StrategyParams {
        tp_multiplier,
        sl_multiplier,
        risk_per_trade: 100,
        money: 1_000_000,
        name,
        market_type: MarketType::Spot,
    }
}

fn double_bottom() -> Vec<MathKLine> {
    series(&[
        (1000, 980),
        (980, 960),
        (960, 940),
        (940, 960),
        (960, 980),
        (980, 1000),
        (1000, 980),
        (980, 970),
        (970, 990),
        (990, 1020),
        (1020, 1030),
        (1030, 1040),
        (1040, 1050),
        (1050, 1060),
        (1060, 1070),
        (1070, 1080),
        (1080, 1090),
        (1090, 1100),
        (1100, 1110),
        (1110, 1120),
    ])
}

#[test]
fn clean_double_bottom_yields_exactly_one_trade() {
    let v = double_bottom();
    let w = WPatternParams { klines_repetitions: 3, klines_range: 5, name: PatternName::W };
    let trades = create_wpattern_trades(&v, None, params(200, 150, StrategyName::W), w, false);
    assert_eq!(trades.len(), 1);
    let trade = trades[0];
    // the neckline is the high of candle 5, the anchor the low of candle 2
    assert_eq!(trade.entry_price, 1005);
    // 935 - (1005 - 935) * (1.5 - 1)
    assert_eq!(trade.sl, 900);
    // 1005 + (1005 - 935) * 2
    assert_eq!(trade.tp, 1145);
    assert_eq!(trade.open_time, 9 * 60 + 59);
    assert_eq!(trade.opening_kline, v[9]);
    assert_eq!(trade.status, Status::NotOpened);
    assert_eq!(trade.strategy, StrategyName::W);
    assert_eq!(trade.lots, 0);
    assert_eq!(trade.closing_kline, None);
    assert!(trade.sl < 965);
}

#[test]
fn stop_multiplier_of_one_puts_the_stop_on_the_anchor() {
    let v = double_bottom();
    let w = WPatternParams { klines_repetitions: 3, klines_range: 5, name: PatternName::W };
    let trades = create_wpattern_trades(&v, None, params(100, 100, StrategyName::W), w, false);
    assert_eq!(trades.len(), 1);
    assert_eq!(trades[0].sl, 935);
    assert_eq!(trades[0].tp, 1075);
}

#[test]
fn potential_trades_open_at_time_zero() {
    let v = double_bottom();
    let w = WPatternParams { klines_repetitions: 3, klines_range: 5, name: PatternName::W };
    let trades = create_wpattern_trades(&v, None, params(200, 100, StrategyName::W), w, true);
    assert_eq!(trades.len(), 1);
    assert_eq!(trades[0].open_time, 0);
    assert_eq!(trades[0].opening_kline, v[8]);
}

#[test]
fn double_top_trade_has_its_stop_above_and_target_below() {
    let v = series(&[
        (1000, 1020),
        (1020, 1040),
        (1040, 1060),
        (1060, 1040),
        (1040, 1020),
        (1020, 1000),
        (1000, 1020),
        (1020, 1030),
        (1030, 1010),
        (1010, 980),
        (980, 970),
        (970, 960),
        (960, 950),
        (950, 940),
    ]);
    let m = MPatternParams { klines_repetitions: 3, klines_range: 5, name: PatternName::M };
    let trades = create_mpattern_trades(&v, None, params(200, 150, StrategyName::M), m, false);
    assert_eq!(trades.len(), 1);
    assert_eq!(trades[0].entry_price, 995);
    // 1065 - (995 - 1065) * 0.5
    assert_eq!(trades[0].sl, 1100);
    // 995 + (995 - 1065) * 2
    assert_eq!(trades[0].tp, 855);
    assert_eq!(trades[0].strategy, StrategyName::M);
}

#[test]
fn reversal_trades_follow_one_another() {
    let v = series(&[
        (50, 60),
        (60, 50),
        (50, 40),
        (40, 45),
        (45, 50),
        (50, 45),
        (45, 41),
        (41, 48),
        (48, 52),
        (52, 53),
    ]);
    let r = ReversalPatternParams { trend_size: 2, counter_trend_size: 2, name: PatternName::BullReversal };
    let trades =
        create_bull_reversal_trades(&v, None, params(150, 90, StrategyName::BullReversal), r, false);
    assert_eq!(trades.len(), 2);
    assert_eq!(trades[0].entry_price, 50);
    // 40 * 0.9
    assert_eq!(trades[0].sl, 36);
    // 50 + (50 - 40) * 1.5
    assert_eq!(trades[0].tp, 65);
    assert_eq!(trades[0].open_time, 4 * 60 + 59);
    assert_eq!(trades[1].entry_price, 52);
    // 41 * 0.9 = 36.9, rounded down
    assert_eq!(trades[1].sl, 36);
    // 52 + 11 * 1.5 = 68.5, rounded down
    assert_eq!(trades[1].tp, 68);
    assert_eq!(trades[1].open_time, 8 * 60 + 59);
}

#[test]
fn factory_reports_progress_on_long_series() {
    let mut bodies = Vec::new();
    for i in 0..2500 {
        bodies.push((1000 + i, 1001 + i));
    }
    let v = series(&bodies);
    let w = WPatternParams { klines_repetitions: 3, klines_range: 5, name: PatternName::W };
    let (tx, rx) = channel::<u32>();
    let trades = create_wpattern_trades(&v, Some(&tx), params(200, 100, StrategyName::W), w, false);
    assert!(trades.is_empty());
    let sent: Vec<u32> = rx.try_iter().collect();
    // after candle 1001 and candle 2002: 1001 * 5000 / 2500 and 2002 * 5000 / 2500
    assert_eq!(sent, vec![2002, 4004]);
}
