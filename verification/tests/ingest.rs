use backtester::backtest::Backtester;
use backtester::ingest::{parse_decimal, to_math_kline};
use backtester::patterns::check_all_well_formed;
use binance::model::KlineSummary;

fn exchange_kline(open: &str, high: &str, low: &str, close: &str) -> KlineSummary {
    KlineSummary {
        open_time: 1_499_040_000_000,
        open: open.to_string(),
        high: high.to_string(),
        low: low.to_string(),
        close: close.to_string(),
        volume: "148976.11427815".to_string(),
        close_time: 1_499_644_799_999,
        quote_asset_volume: "2434.19055334".to_string(),
        number_of_trades: 308,
        taker_buy_base_asset_volume: "1756.87402397".to_string(),
        taker_buy_quote_asset_volume: "28.46694368".to_string(),
    }
}

#[test]
fn decimal_texts_are_read_exactly() {
    let limit = 1_000_000_000_000_000;
    assert_eq!(parse_decimal(b"0.01634790", 8, limit), Some(1_634_790));
    assert_eq!(parse_decimal(b"123", 2, limit), Some(12_300));
    assert_eq!(parse_decimal(b"123.4", 2, limit), Some(12_340));
    assert_eq!(parse_decimal(b"123.45", 2, limit), Some(12_345));
    assert_eq!(parse_decimal(b"123.456", 2, limit), Some(12_345));
    assert_eq!(parse_decimal(b"123.999", 0, limit), Some(123));
    assert_eq!(parse_decimal(b"-0.5", 1, limit), Some(-5));
    assert_eq!(parse_decimal(b"-7", 0, limit), Some(-7));
    assert_eq!(parse_decimal(b"0", 3, limit), Some(0));
    assert_eq!(parse_decimal(b"-0", 3, limit), Some(0));
    assert_eq!(parse_decimal(b"007.10", 1, limit), Some(71));
}

#[test]
fn other_texts_write_no_number() {
    let limit = 1_000_000_000_000_000;
    for text in [
        "", "-", ".", ".5", "5.", "-.5", "+5", "1e5", "1.2.3", "1,5", " 1", "1 ", "12a", "1.2a",
        "1.234a", "--1", "inf", "NaN", "1.-2",
    ] {
        assert_eq!(parse_decimal(text.as_bytes(), 2, limit), None, "{}", text);
    }
}

#[test]
fn numbers_beyond_the_limit_are_not_read() {
    assert_eq!(parse_decimal(b"1000", 0, 1000), Some(1000));
    assert_eq!(parse_decimal(b"1001", 0, 1000), None);
    assert_eq!(parse_decimal(b"-1000", 0, 1000), Some(-1000));
    assert_eq!(parse_decimal(b"-1001", 0, 1000), None);
    assert_eq!(parse_decimal(b"10.00", 2, 1000), Some(1000));
    assert_eq!(parse_decimal(b"10.01", 2, 1000), None);
    assert_eq!(parse_decimal(b"1", 40, i64::MAX), None);
    assert_eq!(parse_decimal(b"0", 40, i64::MAX), Some(0));
    assert_eq!(parse_decimal(b"9223372036854775807", 0, i64::MAX), Some(i64::MAX));
    assert_eq!(parse_decimal(b"9223372036854775808", 0, i64::MAX), None);
    assert_eq!(
        parse_decimal(b"99999999999999999999999999999999999999999999999999", 0, i64::MAX),
        None
    );
}

#[test]
fn exchange_candle_becomes_a_candle_in_ticks() {
    let kline = exchange_kline("0.01634790", "0.80000000", "0.01575800", "0.01577100");
    let candle = to_math_kline(&kline, 8).unwrap();
    assert_eq!(candle.open_time, 1_499_040_000_000);
    assert_eq!(candle.close_time, 1_499_644_799_999);
    assert_eq!(candle.open, 1_634_790);
    assert_eq!(candle.high, 80_000_000);
    assert_eq!(candle.low, 1_575_800);
    assert_eq!(candle.close, 1_577_100);
    assert_eq!(candle.volume, 14_897_611_427_815);
    assert_eq!(candle.quote_asset_volume, 243_419_055_334);
    assert_eq!(candle.number_of_trades, 308);
    assert_eq!(candle.taker_buy_base_asset_volume, 175_687_402_397);
    assert_eq!(candle.taker_buy_quote_asset_volume, 2_846_694_368);
}

#[test]
fn malformed_candles_are_turned_away() {
    // the high lies below the low
    assert_eq!(to_math_kline(&exchange_kline("1.0", "0.5", "0.9", "1.0"), 2), None);
    // the close lies above the high
    assert_eq!(to_math_kline(&exchange_kline("1.0", "1.5", "0.9", "1.6"), 2), None);
    // a price that is no decimal text
    assert_eq!(to_math_kline(&exchange_kline("1.0", "abc", "0.9", "1.0"), 2), None);
    // a price beyond the limit of 10^15 ticks
    assert_eq!(to_math_kline(&exchange_kline("1.0", "10000000000000.01", "0.9", "1.0"), 2), None);
    assert!(to_math_kline(&exchange_kline("1.0", "10000000000000.00", "0.9", "1.0"), 2).is_some());
    let mut odd = exchange_kline("1.0", "1.5", "0.9", "1.2");
    odd.volume = "12,5".to_string();
    assert_eq!(to_math_kline(&odd, 2), None);
}

#[test]
fn series_is_read_whole_or_not_at_all() {
    let good = vec![
        exchange_kline("1.0", "1.5", "0.9", "1.2"),
        exchange_kline("1.2", "1.3", "1.1", "1.25"),
    ];
    let read = Backtester::to_all_math_kline(good.clone(), 2).unwrap();
    assert_eq!(read.len(), 2);
    assert_eq!(read[1].close, 125);
    assert!(check_all_well_formed(&read));
    let mut bad = good;
    bad.push(exchange_kline("1.0", "0.5", "0.9", "1.0"));
    assert_eq!(Backtester::to_all_math_kline(bad, 2), None);
    assert_eq!(Backtester::to_all_math_kline(Vec::new(), 2), Some(Vec::new()));
}
