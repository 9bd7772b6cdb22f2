//! Candles as the exchange hands them out, with their prices and volumes
//! as decimal texts, and their conversion into candles in ticks.

use vstd::prelude::*;
use vstd::slice::slice_subrange;
use vstd::utf8::encode_utf8;
use binance::model::KlineSummary;
use crate::backtest::Backtester;
use crate::fixed::PRICE_LIMIT;
use crate::patterns::all_well_formed;
use crate::patterns::MathKLine;

verus! {

/// `binance::model::KlineSummary`, one candle of the exchange, declared with
/// its fields as the crate has them: its times and its number of trades as
/// integers, its prices and volumes as decimal texts.
#[verifier::external_type_specification]
pub struct ExKlineSummary(KlineSummary);

/// Beyond this a number that is being read is no longer counted exactly:
/// it is too large for any field.
pub const SATURATION: u128 = 1_000_000_000_000_000_000_000_000_000_000;

pub open spec fn is_digit(byte: u8) -> bool {
    48 <= byte <= 57
}

pub open spec fn all_digits(s: Seq<u8>) -> bool {
    forall|i: int| 0 <= i < s.len() ==> is_digit(#[trigger] s[i])
}

/// The number that a row of decimal digits writes.
pub open spec fn digits_value(s: Seq<u8>) -> nat
    decreases s.len(),
{
    if s.len() == 0 {
        0
    } else {
        (digits_value(s.drop_last()) * 10 + (s.last() - 48)) as nat
    }
}

/// The first byte at or behind `from` that is no digit, or the length
/// where every byte from there on is one.
pub open spec fn first_non_digit(s: Seq<u8>, from: int) -> int
    decreases s.len() - from,
{
    if from < 0 || from >= s.len() {
        s.len() as int
    } else if !is_digit(s[from]) {
        from
    } else {
        first_non_digit(s, from + 1)
    }
}

pub open spec fn zeros(n: nat) -> Seq<u8> {
    Seq::new(n, |i: int| 48u8)
}

/// The first `decimals` digits of a fraction, which is filled up with
/// zeros where it is shorter.
pub open spec fn fraction_digits(fraction: Seq<u8>, decimals: nat) -> Seq<u8> {
    if fraction.len() >= decimals {
        fraction.take(decimals as int)
    } else {
        fraction + zeros((decimals - fraction.len()) as nat)
    }
}

/// The number of ticks that an unsigned decimal text writes, a tick being
/// `10^-decimals`. The text is one digit or more, alone or followed by a
/// point and one digit or more. The digits of the fraction beyond the
/// precision are dropped. Any other text writes no number.
pub open spec fn magnitude(body: Seq<u8>, decimals: nat) -> Option<nat> {
    let point = first_non_digit(body, 0);
    let whole = body.take(point);
    let fraction = body.skip(point + 1);
    if point == 0 {
        None
    } else if point == body.len() {
        Some(digits_value(whole + zeros(decimals)))
    } else if body[point] != 46 || fraction.len() == 0 || !all_digits(fraction) {
        None
    } else {
        Some(digits_value(whole + fraction_digits(fraction, decimals)))
    }
}

/// The number of ticks that a decimal text writes, with or without a minus
/// sign before it; no number where the text writes none, or one that is
/// beyond `limit` on either side of zero.
pub open spec fn decimal_ticks(text: Seq<u8>, decimals: nat, limit: i64) -> Option<i64> {
    let negative = text.len() > 0 && text[0] == 45;
    let body = if negative {
        text.skip(1)
    } else {
        text
    };
    match magnitude(body, decimals) {
        Some(m) => if m <= limit {
            Some(
                (if negative {
                    -m
                } else {
                    m as int
                }) as i64,
            )
        } else {
            None
        },
        None => None,
    }
}

/// A number as it is counted while it is read: exactly, up to `SATURATION`.
pub open spec fn saturated(value: nat) -> u128 {
    if value >= SATURATION {
        SATURATION
    } else {
        value as u128
    }
}

proof fn lemma_digits_push(s: Seq<u8>, byte: u8)
    requires
        is_digit(byte),
    ensures
        digits_value(s.push(byte)) == digits_value(s) * 10 + (byte - 48),
{
    assert(s.push(byte).drop_last() =~= s);
}

fn append_digit(count: u128, digit: u8, Ghost(read): Ghost<Seq<u8>>) -> (next: u128)
    requires
        is_digit(digit),
        count == saturated(digits_value(read)),
    ensures
        next == saturated(digits_value(read.push(digit))),
{
    proof {
        lemma_digits_push(read, digit);
    }
    let next: u128 = count * 10 + ((digit - 48) as u128);
    if next >= SATURATION {
        SATURATION
    } else {
        next
    }
}

#[verifier::loop_isolation(false)]
fn read_magnitude(body: &[u8], decimals: u32) -> (count: Option<u128>)
    ensures
        count == match magnitude(body@, decimals as nat) {
            Some(m) => Some(saturated(m)),
            None => None,
        },
{
    let n: usize = body.len();
    let mut count: u128 = 0;
    let mut i: usize = 0;
    while i < n && 48 <= body[i] && body[i] <= 57
        invariant
            i <= n,
            count == saturated(digits_value(body@.take(i as int))),
            first_non_digit(body@, 0) == first_non_digit(body@, i as int),
        decreases n - i,
    {
        proof {
            assert(body@.take(i + 1) =~= body@.take(i as int).push(body@[i as int]));
        }
        count = append_digit(count, body[i], Ghost(body@.take(i as int)));
        i += 1;
    }
    let ghost whole = body@.take(i as int);
    let ghost fraction = body@.skip(i + 1);
    assert(first_non_digit(body@, 0) == i);
    if i == 0 {
        return None;
    }
    if i < n && body[i] != 46 {
        return None;
    }
    if i < n && n - i == 1 {
        return None;
    }
    // What is left is nothing, or a point and at least one byte.
    let from: usize = if i < n {
        i + 1
    } else {
        n
    };
    proof {
        assert(whole + zeros(0) =~= whole);
        assert(whole + fraction_digits(fraction, 0) =~= whole);
        if i < n {
            assert(fraction.len() == n - from);
        }
    }
    let mut k: u32 = 0;
    while k < decimals
        invariant
            k <= decimals,
            forall|t: int| from <= t < from + k && t < n ==> is_digit(#[trigger] body@[t]),
            i < n ==> count == saturated(digits_value(whole + fraction_digits(fraction, k as nat))),
            i == n ==> count == saturated(digits_value(whole + zeros(k as nat))),
        decreases decimals - k,
    {
        let ghost read = if i < n {
            whole + fraction_digits(fraction, k as nat)
        } else {
            whole + zeros(k as nat)
        };
        if (k as usize) < n - from {
            let byte: u8 = body[from + k as usize];
            assert(fraction[k as int] == byte);
            if !(48 <= byte && byte <= 57) {
                return None;
            }
            proof {
                assert(fraction.take(k + 1) =~= fraction.take(k as int).push(byte));
                assert(whole + fraction_digits(fraction, (k + 1) as nat) =~= read.push(byte));
            }
            count = append_digit(count, byte, Ghost(read));
        } else {
            proof {
                if i < n {
                    assert(whole + fraction_digits(fraction, (k + 1) as nat) =~= read.push(48u8));
                } else {
                    assert(whole + zeros((k + 1) as nat) =~= read.push(48u8));
                }
            }
            count = append_digit(count, 48, Ghost(read));
        }
        k += 1;
    }
    // The digits beyond the precision are dropped, and digits they must be.
    let mut j: usize = if (decimals as usize) < n - from {
        from + decimals as usize
    } else {
        n
    };
    while j < n
        invariant
            from <= j <= n,
            forall|t: int| from <= t < j ==> is_digit(#[trigger] body@[t]),
        decreases n - j,
    {
        if !(48 <= body[j] && body[j] <= 57) {
            assert(fraction[j - from] == body@[j as int]);
            return None;
        }
        j += 1;
    }
    proof {
        if i < n {
            assert forall|t: int| 0 <= t < fraction.len() implies is_digit(
                #[trigger] fraction[t],
            ) by {
                assert(fraction[t] == body@[from + t]);
            }
        }
    }
    Some(count)
}

/// Reads a decimal text as a number of ticks of `10^-decimals`.
pub fn parse_decimal(text: &[u8], decimals: u32, limit: i64) -> (ticks: Option<i64>)
    ensures
        ticks == decimal_ticks(text@, decimals as nat, limit),
{
    let negative: bool = text.len() > 0 && text[0] == 45;
    let body = if negative {
        slice_subrange(text, 1, text.len())
    } else {
        text
    };
    proof {
        if negative {
            assert(body@ =~= text@.skip(1));
        }
    }
    match read_magnitude(body, decimals) {
        Some(count) => {
            if limit >= 0 && count <= limit as u128 {
                let m: i64 = count as i64;
                if negative {
                    Some(-m)
                } else {
                    Some(m)
                }
            } else {
                None
            }
        },
        None => None,
    }
}

/// The ticks that a text of the exchange writes.
pub open spec fn text_ticks(text: Seq<char>, decimals: nat, limit: i64) -> Option<i64> {
    decimal_ticks(encode_utf8(text), decimals, limit)
}

/// The candle in ticks of `10^-decimals` that a candle of the exchange
/// stands for: its times and its number of trades as they are, its four
/// prices read within the limit of candle prices, its four volumes read
/// within the range of their fields. There is none where a text writes no
/// such number, or where the candle read is not well formed.
pub open spec fn candle_of(kline: KlineSummary, decimals: nat) -> Option<MathKLine> {
    match (
        text_ticks(kline.open@, decimals, PRICE_LIMIT),
        text_ticks(kline.high@, decimals, PRICE_LIMIT),
        text_ticks(kline.low@, decimals, PRICE_LIMIT),
        text_ticks(kline.close@, decimals, PRICE_LIMIT),
        text_ticks(kline.volume@, decimals, i64::MAX),
        text_ticks(kline.quote_asset_volume@, decimals, i64::MAX),
        text_ticks(kline.taker_buy_base_asset_volume@, decimals, i64::MAX),
        text_ticks(kline.taker_buy_quote_asset_volume@, decimals, i64::MAX),
    ) {
        (
            Some(open),
            Some(high),
            Some(low),
            Some(close),
            Some(volume),
            Some(quote_asset_volume),
            Some(taker_buy_base_asset_volume),
            Some(taker_buy_quote_asset_volume),
        ) => {
            let candle = MathKLine {
                open_time: kline.open_time,
                open,
                high,
                low,
                close,
                volume,
                close_time: kline.close_time,
                quote_asset_volume,
                number_of_trades: kline.number_of_trades,
                taker_buy_base_asset_volume,
                taker_buy_quote_asset_volume,
            };
            if candle.well_formed() {
                Some(candle)
            } else {
                None
            }
        },
        _ => None,
    }
}

fn parse_text(text: &String, decimals: u32, limit: i64) -> (ticks: Option<i64>)
    ensures
        ticks == text_ticks(text@, decimals as nat, limit),
{
    parse_decimal(text.as_str().as_bytes(), decimals, limit)
}

/// Reads one candle of the exchange.
pub fn to_math_kline(kline: &KlineSummary, decimals: u32) -> (candle: Option<MathKLine>)
    ensures
        candle == candle_of(*kline, decimals as nat),
        candle matches Some(c) ==> c.well_formed(),
{
    let open = parse_text(&kline.open, decimals, PRICE_LIMIT);
    let high = parse_text(&kline.high, decimals, PRICE_LIMIT);
    let low = parse_text(&kline.low, decimals, PRICE_LIMIT);
    let close = parse_text(&kline.close, decimals, PRICE_LIMIT);
    let volume = parse_text(&kline.volume, decimals, i64::MAX);
    let quote = parse_text(&kline.quote_asset_volume, decimals, i64::MAX);
    let taker_base = parse_text(&kline.taker_buy_base_asset_volume, decimals, i64::MAX);
    let taker_quote = parse_text(&kline.taker_buy_quote_asset_volume, decimals, i64::MAX);
    match (open, high, low, close, volume, quote, taker_base, taker_quote) {
        (
            Some(open),
            Some(high),
            Some(low),
            Some(close),
            Some(volume),
            Some(quote_asset_volume),
            Some(taker_buy_base_asset_volume),
            Some(taker_buy_quote_asset_volume),
        ) => {
            let candle = MathKLine {
                open_time: kline.open_time,
                open,
                high,
                low,
                close,
                volume,
                close_time: kline.close_time,
                quote_asset_volume,
                number_of_trades: kline.number_of_trades,
                taker_buy_base_asset_volume,
                taker_buy_quote_asset_volume,
            };
            if candle.is_well_formed() {
                Some(candle)
            } else {
                None
            }
        },
        _ => None,
    }
}

impl Backtester {
    /// Reads the candles of the exchange, in their order, in ticks of
    /// `10^-decimals`. Where one of them stands for no candle, nothing is
    /// read.
    pub fn to_all_math_kline(klines: Vec<KlineSummary>, decimals: u32) -> (candles: Option<
        Vec<MathKLine>,
    >)
        ensures
            match candles {
                Some(read) => {
                    &&& read@.len() == klines@.len()
                    &&& forall|i: int|
                        0 <= i < klines@.len() ==> candle_of(
                            #[trigger] klines@[i],
                            decimals as nat,
                        ) == Some(read@[i])
                    &&& all_well_formed(read@)
                },
                None => exists|i: int|
                    0 <= i < klines@.len() && candle_of(#[trigger] klines@[i], decimals as nat)
                        is None,
            },
    {
        let mut result: Vec<MathKLine> = Vec::new();
        let mut i: usize = 0;
        while i < klines.len()
            invariant
                i <= klines.len(),
                result@.len() == i,
                forall|k: int|
                    0 <= k < i ==> candle_of(#[trigger] klines@[k], decimals as nat) == Some(
                        result@[k],
                    ),
                all_well_formed(result@),
            decreases klines.len() - i,
        {
            match to_math_kline(&klines[i], decimals) {
                Some(candle) => {
                    result.push(candle);
                },
                None => {
                    return None;
                },
            }
            i += 1;
        }
        Some(result)
    }
}

} // verus!
