use backtester::patterns::{
    find_bull_reversal, find_m_pattern, find_potential_w_pattern, find_w_pattern, KlineTest,
    MPatternParams, MathKLine, PatternName, ReversalPatternParams, WPatternParams,
};
use backtester::scans::{find_kline, test_multiple_klines, Extreme};

// A candle in ticks of a tenth: the wicks reach half a unit beyond the body.
fn kline(index: i64, open: i64, close: i64) -> MathKLine {
    MathKLine {
        open_time: index * 60,
        open,
        high: if open > close { open + 5 } else { close + 5 },
        low: if open < close { open - 5 } else { close - 5 },
        close,
        volume: 0,
        close_time: index * 60 + 59,
        quote_asset_volume: 0,
        number_of_trades: 0,
        taker_buy_base_asset_volume: 0,
        taker_buy_quote_asset_volume: 0,
    }
}

fn series(bodies: &[(i64, i64)]) -> Vec<MathKLine> {
    let mut out = Vec::new();
    for (i, (open, close)) in bodies.iter().enumerate() {
        out.push(kline(i as i64, *open, *close));
    }
    out
}

fn double_bottom() -> Vec<MathKLine> {
    series(&[
        (1000, 980),
        (980, 960),
        (960, 940),
        (940, 960),
        (960, 980),
        (980, 1000),
        (1000, 980),
        (980, 970),
        (970, 990),
        (990, 1020),
        (1020, 1030),
        (1030, 1040),
        (1040, 1050),
        (1050, 1060),
        (1060, 1070),
        (1070, 1080),
        (1080, 1090),
        (1090, 1100),
        (1100, 1110),
        (1110, 1120),
    ])
}

fn w_params(klines_repetitions: usize, klines_range: usize) -> WPatternParams {
    WPatternParams { klines_repetitions, klines_range, name: PatternName::W }
}

#[test]
fn run_test_finds_the_first_run() {
    let v = series(&[(10, 20), (20, 10), (10, 5), (5, 8), (8, 4), (4, 2), (2, 1)]);
    let down = vec![KlineTest::IsDown];
    assert_eq!(test_multiple_klines(&v, 0, v.len(), 2, &down), Some(1));
    assert_eq!(test_multiple_klines(&v, 0, v.len(), 3, &down), Some(4));
    assert_eq!(test_multiple_klines(&v, 0, v.len(), 4, &down), None);
    assert_eq!(test_multiple_klines(&v, 2, v.len(), 2, &down), Some(4));
    assert_eq!(test_multiple_klines(&v, 0, 6, 3, &down), None);
    assert_eq!(test_multiple_klines(&v, 0, v.len(), 0, &down), None);
    assert_eq!(test_multiple_klines(&v, 0, v.len() + 1, 1, &down), None);
}

#[test]
fn run_test_wants_every_test_on_the_same_candle() {
    let v = series(&[(10, 20), (20, 30), (30, 40)]);
    let both = vec![KlineTest::IsUp, KlineTest::NotBreaksDownwards(15)];
    // candle 0 rises but trades at 5, below 15
    assert_eq!(test_multiple_klines(&v, 0, 3, 2, &both), Some(1));
    assert_eq!(test_multiple_klines(&v, 0, 3, 3, &both), None);
}

#[test]
fn extreme_scan_keeps_the_earlier_of_two_equal_closes() {
    let v = series(&[(100, 90), (90, 80), (85, 80), (80, 95)]);
    let found = find_kline(
        &v,
        0,
        4,
        Extreme::LowestBelow(100),
        KlineTest::BreaksDownwards(0),
        KlineTest::BreaksUpwards(1000),
    );
    assert_eq!(found, Some(1));
}

#[test]
fn extreme_scan_fails_before_it_stops() {
    let v = series(&[(100, 90), (90, 40), (40, 200)]);
    // candle 1 trades at 35, below the floor of 50
    let found = find_kline(
        &v,
        0,
        3,
        Extreme::LowestBelow(100),
        KlineTest::BreaksDownwards(50),
        KlineTest::BreaksUpwards(150),
    );
    assert_eq!(found, None);
}

#[test]
fn extreme_scan_counts_the_candle_that_stops_it() {
    let v = series(&[(100, 90), (90, 80), (80, 70), (70, 60)]);
    // candle 2 trades below 70: it stops the scan and is the lowest close
    let found = find_kline(
        &v,
        0,
        4,
        Extreme::LowestBelow(100),
        KlineTest::BreaksDownwards(0),
        KlineTest::BreaksDownwards(70),
    );
    assert_eq!(found, Some(2));
}

#[test]
fn double_bottom_is_found_and_confirmed() {
    let v = double_bottom();
    let (potential, second) = find_potential_w_pattern(&v, w_params(3, 5)).unwrap();
    assert_eq!(potential.start_index, 5);
    assert_eq!(potential.start_time, 0);
    assert_eq!(potential.end_index, 8);
    assert_eq!(potential.end_time, 0);
    assert_eq!(potential.lower_price, 935);
    assert_eq!(potential.neckline_price, 1005);
    assert_eq!(second, 8);
    let confirmed = find_w_pattern(&v, w_params(3, 5), false).unwrap();
    assert_eq!(confirmed.end_index, 9);
    assert_eq!(confirmed.end_time, 9 * 60 + 59);
    assert_eq!(confirmed.lower_price, 935);
    assert_eq!(confirmed.neckline_price, 1005);
    assert!(confirmed.neckline_price > confirmed.lower_price);
    assert_eq!(find_w_pattern(&v, w_params(3, 5), true), Some(potential));
}

#[test]
fn short_series_holds_no_pattern() {
    let v = double_bottom();
    for len in 0..8 {
        assert_eq!(find_w_pattern(&v[..len], w_params(3, 5), false), None);
        assert_eq!(find_w_pattern(&v[..len], w_params(3, 5), true), None);
    }
    let m = MPatternParams { klines_repetitions: 3, klines_range: 5, name: PatternName::M };
    assert_eq!(find_m_pattern(&v[..7], m, false), None);
    let r = ReversalPatternParams { trend_size: 3, counter_trend_size: 3, name: PatternName::BullReversal };
    for len in 0..6 {
        assert_eq!(find_bull_reversal(&v[..len], r, false), None);
    }
    assert!(find_bull_reversal(&v[..6], r, false).is_some());
    let empty: Vec<MathKLine> = Vec::new();
    assert_eq!(find_w_pattern(&empty, w_params(0, 0), false), None);
    assert_eq!(find_bull_reversal(&empty, r, false), None);
}

#[test]
fn degenerate_parameters_find_nothing() {
    let v = double_bottom();
    assert_eq!(find_w_pattern(&v, w_params(0, 5), false), None);
    assert_eq!(find_w_pattern(&v, w_params(3, 2), false), None);
    assert_eq!(find_w_pattern(&v, w_params(usize::MAX, usize::MAX), false), None);
    let r = ReversalPatternParams { trend_size: 0, counter_trend_size: 1, name: PatternName::BullReversal };
    assert_eq!(find_bull_reversal(&v, r, false), None);
}

#[test]
fn breached_anchor_cancels_the_double_bottom() {
    let mut v = double_bottom();
    // the pullback trades below the anchor low of 935
    v[7].low = 930;
    assert_eq!(find_w_pattern(&v, w_params(3, 5), false), None);
    assert_eq!(find_w_pattern(&v, w_params(3, 5), true), None);
}

#[test]
fn unconfirmed_double_bottom_is_only_potential() {
    let mut v = double_bottom();
    // nothing closes above the neckline of 1005 within the range behind the pullback
    for i in 9..20 {
        v[i] = kline(i as i64, 990, 1000);
    }
    assert!(find_w_pattern(&v, w_params(3, 5), true).is_some());
    assert_eq!(find_w_pattern(&v, w_params(3, 5), false), None);
}

#[test]
fn double_top_mirrors_the_double_bottom() {
    let v = series(&[
        (1000, 1020),
        (1020, 1040),
        (1040, 1060),
        (1060, 1040),
        (1040, 1020),
        (1020, 1000),
        (1000, 1020),
        (1020, 1030),
        (1030, 1010),
        (1010, 980),
        (980, 970),
        (970, 960),
        (960, 950),
        (950, 940),
    ]);
    let m = MPatternParams { klines_repetitions: 3, klines_range: 5, name: PatternName::M };
    let found = find_m_pattern(&v, m, false).unwrap();
    assert_eq!(found.start_index, 5);
    assert_eq!(found.higher_price, 1065);
    assert_eq!(found.neckline_price, 995);
    assert_eq!(found.end_index, 9);
    assert_eq!(found.end_time, 9 * 60 + 59);
    assert!(found.neckline_price < found.higher_price);
}

#[test]
fn bull_reversal_ends_on_the_last_rising_candle() {
    let v = series(&[(50, 60), (60, 50), (50, 40), (40, 45), (45, 44), (44, 50), (50, 60), (60, 70)]);
    let r = ReversalPatternParams { trend_size: 2, counter_trend_size: 3, name: PatternName::BullReversal };
    let found = find_bull_reversal(&v, r, false).unwrap();
    assert_eq!(found.start_index, 0);
    assert_eq!(found.start_time, 0);
    assert_eq!(found.peak_price, 40);
    assert_eq!(found.end_index, 7);
    assert_eq!(found.end_price, 70);
    assert_eq!(found.end_time, 7 * 60 + 59);
    assert_eq!(find_bull_reversal(&v, r, true), Some(found));
}
