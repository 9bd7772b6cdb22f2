use backtester::backtest::{Backtester, Status, StrategyName, TradeResult};
use backtester::patterns::{MathKLine, PatternName, PatternSettings, WPatternParams};
use backtester::strategies::{MarketType, Strategy, StrategyParams};
use std::sync::mpsc::channel;
use std::sync::Arc;

fn kline(index: i64, open: i64, close: i64) -> MathKLine {
    MathKLine {
        open_time: index * 60,
        open,
        high: if open > close { open + 5 } else { close + 5 },
        low: if open < close { open - 5 } else { close - 5 },
        close,
        volume: 0,
        close_time: index * 60 + 59,
        quote_asset_volume: 0,
        number_of_trades: 0,
        taker_buy_base_asset_volume: 0,
        taker_buy_quote_asset_volume: 0,
    }
}

fn double_bottom() -> Vec<MathKLine> {
    let bodies = [
        (1000, 980),
        (980, 960),
        (960, 940),
        (940, 960),
        (960, 980),
        (980, 1000),
        (1000, 980),
        (980, 970),
        (970, 990),
        (990, 1020),
        (1020, 1030),
        (1030, 1040),
        (1040, 1050),
        (1050, 1060),
        (1060, 1070),
        (1070, 1080),
        (1080, 1090),
        (1090, 1100),
        (1100, 1110),
        (1110, 1120),
    ];
    let mut out = Vec::new();
    for (i, (open, close)) in bodies.iter().enumerate() {
        out.push(kline(i as i64, *open, *close));
    }
    out
}

fn w_strategy(tp_multiplier: u64, money: i64) -> Strategy {
    Strategy {
        params: StrategyParams {
            tp_multiplier,
            sl_multiplier: 100,
            risk_per_trade: 100,
            money,
            name: StrategyName::W,
            market_type: MarketType::Spot,
        },
        pattern: PatternSettings::W(WPatternParams {
            klines_repetitions: 3,
            klines_range: 5,
            name: PatternName::W,
        }),
    }
}

#[test]
fn sweep_runs_each_strategy_on_its_own_equity() {
    let (tx, rx) = channel::<(u32, usize)>();
    let mut backtester = Backtester::new(Arc::new(double_bottom()), tx, 7);
    backtester.add_strategy(w_strategy(100, 1_000_000));
    let mut more = vec![w_strategy(1000, 2_000_000)];
    backtester.add_strategies(&mut more);
    assert!(more.is_empty());
    backtester.start();
    let results = backtester.get_results();
    assert_eq!(results.len(), 2);

    // entry 1005, stop 935, target 1005 + 70: the breakout candle holds 1005
    // within its range, so the trade runs from candle 9 on, and candle 14,
    // with a high of 1075, is the first to reach the target
    let first = &results[0];
    assert_eq!(first.name, StrategyName::W);
    assert_eq!(first.total_win, 1);
    assert_eq!(first.total_lose, 0);
    assert_eq!(first.total_closed, 1);
    assert_eq!(first.total_unclosed, 0);
    assert_eq!(first.win_ratio, Some(10_000));
    assert_eq!(first.lose_ratio, Some(0));
    assert_eq!(first.unknown_ratio, Some(0));
    assert_eq!(first.total_unknown, 0);
    assert_eq!(first.needed_win_percentage, Some(5000));
    assert_eq!(first.rr_ratio, Some(50));
    assert_eq!(first.efficiency, Some(200));
    // lots = 1_000_000 * 100 * 100 * 1e8 / (10_000 * 100 * 70) = 14_285_714_285 (rounded down),
    // gain = lots * 70 / 1e8 = 9_999 (rounded down)
    assert_eq!(first.money_evolution, vec![1_009_999]);
    assert_eq!(first.final_money, 1_009_999);
    assert_eq!(first.strategy_params.money, 1_009_999);
    assert_eq!(first.halted, None);

    // target 1005 + 700 is never reached, and the stop neither
    let second = &results[1];
    assert_eq!(second.total_closed, 0);
    assert_eq!(second.total_unclosed, 1);
    assert_eq!(second.win_ratio, None);
    assert_eq!(second.final_money, 2_000_000);
    assert!(second.money_evolution.is_empty());

    // between two runs no trade is under way
    assert_eq!(backtester.get_num_closed(), 0);
    assert_eq!(backtester.get_num_status(Status::Closed(TradeResult::Win)), 0);
    assert_eq!(backtester.get_wr_ratio(), (None, None, None, 0));
    assert_eq!(backtester.get_wr_ratio_with_strategy(StrategyName::W), (None, None, None, 0));

    let sent: Vec<(u32, usize)> = rx.try_iter().collect();
    assert_eq!(sent.last(), Some(&(10_000, 7)));
}

#[test]
fn second_start_appends_to_the_records() {
    let (tx, _rx) = channel::<(u32, usize)>();
    let mut backtester = Backtester::new(Arc::new(double_bottom()), tx, 0);
    backtester.add_strategy(w_strategy(100, 1_000_000));
    backtester.start();
    backtester.start();
    let results = backtester.get_results();
    assert_eq!(results.len(), 2);
    assert_eq!(results[0], results[1]);
}

#[test]
fn sweep_without_strategies_reports_its_end() {
    let (tx, rx) = channel::<(u32, usize)>();
    let mut backtester = Backtester::new(Arc::new(Vec::new()), tx, 3);
    backtester.start();
    assert!(backtester.get_results().is_empty());
    let sent: Vec<(u32, usize)> = rx.try_iter().collect();
    assert_eq!(sent, vec![(10_000, 3)]);
}

#[test]
fn long_series_relays_the_progress_of_each_run() {
    let mut klines = Vec::new();
    for i in 0..2500 {
        klines.push(kline(i, 1000 + i, 1001 + i));
    }
    let (tx, rx) = channel::<(u32, usize)>();
    let mut backtester = Backtester::new(Arc::new(klines), tx, 1);
    backtester.add_strategy(w_strategy(100, 1_000_000));
    backtester.add_strategy(w_strategy(200, 1_000_000));
    backtester.start();
    let sent: Vec<u32> = rx.try_iter().map(|(share, _)| share).collect();
    // each run reports 20.02 %, 40.04 %, 70.02 % and 90.04 % of itself;
    // the first run is the first half of the sweep, the second the other
    assert_eq!(sent, vec![1001, 2002, 3501, 4502, 6001, 7002, 8501, 9502, 10_000]);
}
