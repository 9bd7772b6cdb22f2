use backtester::backtest::{Status, StrategyName, Trade};
use backtester::patterns::{
    _create_test_kline, check_all, check_all_well_formed, KlineTest, MPatternParams, MathKLine,
    PatternName, PatternParams, PatternSettings, ReversalPatternParams, WPatternParams,
};
use backtester::resolver::check_all_trades_well_formed;
use backtester::strategies::{MarketType, StrategyParams};

#[test]
fn trial_candle_has_wicks_beyond_its_body() {
    let rising = _create_test_kline(7, 100, 120, 5);
    assert_eq!((rising.open, rising.high, rising.low, rising.close), (100, 125, 95, 120));
    assert_eq!((rising.open_time, rising.close_time), (7, 8));
    assert_eq!(rising.volume, 0);
    assert!(rising.is_well_formed());
    let falling = _create_test_kline(8, 120, 100, 5);
    assert_eq!((falling.high, falling.low), (125, 95));
    let flat = _create_test_kline(9, 100, 100, 0);
    assert_eq!((flat.high, flat.low), (100, 100));
    assert!(flat.is_well_formed());
}

#[test]
fn candle_tests_read_the_right_price() {
    let k = _create_test_kline(0, 100, 120, 5);
    assert!(KlineTest::IsUp.check(&k));
    assert!(!KlineTest::IsDown.check(&k));
    assert!(KlineTest::BreaksUpwards(124).check(&k));
    assert!(!KlineTest::BreaksUpwards(125).check(&k));
    assert!(KlineTest::NotBreaksUpwards(125).check(&k));
    assert!(KlineTest::BreaksDownwards(96).check(&k));
    assert!(!KlineTest::BreaksDownwards(95).check(&k));
    assert!(KlineTest::NotBreaksDownwards(95).check(&k));
    assert!(KlineTest::HigherThan(119).check(&k));
    assert!(!KlineTest::HigherThan(120).check(&k));
    assert!(KlineTest::LowerThan(121).check(&k));
    assert!(!KlineTest::LowerThan(120).check(&k));
    let flat = _create_test_kline(0, 100, 100, 5);
    assert!(!KlineTest::IsUp.check(&flat));
    assert!(!KlineTest::IsDown.check(&flat));
    assert!(check_all(&vec![KlineTest::IsUp, KlineTest::LowerThan(121)], &k));
    assert!(!check_all(&vec![KlineTest::IsUp, KlineTest::LowerThan(120)], &k));
    assert!(check_all(&Vec::new(), &k));
}

#[test]
fn malformed_candles_are_found() {
    let good = _create_test_kline(0, 100, 120, 5);
    assert!(check_all_well_formed(&[good, good]));
    assert!(check_all_well_formed(&[]));
    let mut low_above_open = good;
    low_above_open.low = 101;
    assert!(!low_above_open.is_well_formed());
    let mut high_below_close = good;
    high_below_close.high = 119;
    assert!(!high_below_close.is_well_formed());
    let mut huge = good;
    huge.high = 1_000_000_000_000_001;
    assert!(!huge.is_well_formed());
    huge.high = 1_000_000_000_000_000;
    assert!(huge.is_well_formed());
    let mut deep = good;
    deep.low = -1_000_000_000_000_001;
    assert!(!deep.is_well_formed());
    assert!(!check_all_well_formed(&[good, deep, good]));
}

#[test]
fn limits_of_trades_and_parameters_are_tested() {
    let params = StrategyParams {
        tp_multiplier: 10_000,
        sl_multiplier: 10_000,
        risk_per_trade: 1_000_000,
        money: i64::MIN,
        name: StrategyName::Unset,
        market_type: MarketType::Futures,
    };
    assert!(params.is_well_formed());
    assert!(!StrategyParams { tp_multiplier: 10_001, ..params }.is_well_formed());
    assert!(!StrategyParams { sl_multiplier: 10_001, ..params }.is_well_formed());
    assert!(!StrategyParams { risk_per_trade: 1_000_001, ..params }.is_well_formed());
    let trade = Trade {
        entry_price: 1_000_000_000_000_000_000,
        sl: -1_000_000_000_000_000_000,
        tp: 0,
        status: Status::NotOpened,
        open_time: 0,
        close_time: 0,
        money: 0,
        benefits: 0,
        loss: 0,
        taxes: 0,
        lots: 0,
        closing_kline: None,
        opening_kline: _create_test_kline(0, 1, 1, 0),
        strategy: StrategyName::Unset,
    };
    assert!(trade.is_well_formed());
    assert!(!Trade { tp: 1_000_000_000_000_000_001, ..trade }.is_well_formed());
    assert!(!Trade { sl: -1_000_000_000_000_000_001, ..trade }.is_well_formed());
    assert!(check_all_trades_well_formed(&vec![trade, trade]));
    assert!(!check_all_trades_well_formed(&vec![trade, Trade { entry_price: i64::MAX, ..trade }]));
}

#[test]
fn names_are_written_out() {
    assert_eq!(PatternName::Unset.to_string(), "None");
    assert_eq!(PatternName::W.to_string(), "W");
    assert_eq!(PatternName::M.to_string(), "M");
    assert_eq!(PatternName::BullReversal.to_string(), "Bull Reversal");
    assert_eq!(StrategyName::Unset.to_string(), "None");
    assert_eq!(StrategyName::W.to_string(), "W");
    assert_eq!(StrategyName::M.to_string(), "M");
    assert_eq!(StrategyName::BullReversal.to_string(), "Bull Reversal");
}

#[test]
fn parameters_say_which_pattern_they_belong_to() {
    let w = WPatternParams { klines_repetitions: 3, klines_range: 8, name: PatternName::W };
    let m = MPatternParams { klines_repetitions: 4, klines_range: 9, name: PatternName::M };
    let r = ReversalPatternParams {
        trend_size: 5,
        counter_trend_size: 2,
        name: PatternName::BullReversal,
    };
    assert_eq!(w.get_params(), PatternSettings::W(w));
    assert_eq!(m.get_params(), PatternSettings::M(m));
    assert_eq!(r.get_params(), PatternSettings::BullReversal(r));
}

#[test]
fn candles_compare_by_their_fields() {
    let a: MathKLine = _create_test_kline(0, 100, 120, 5);
    let mut b = a;
    assert_eq!(a, b);
    b.number_of_trades = 1;
    assert_ne!(a, b);
}
