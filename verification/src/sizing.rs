//! The size of a position and the amounts that are fixed when it opens.

use vstd::prelude::*;
use vstd::arithmetic::div_mod::lemma_fundamental_div_mod;
use vstd::arithmetic::div_mod::lemma_mod_bound;
use crate::backtest::Trade;
use crate::fixed::div_floor;
use crate::fixed::fits_i64;
use crate::fixed::lemma_div_magnitude;
use crate::fixed::lemma_mul_bounds;
use crate::fixed::LOT_SCALE;
use crate::fixed::RISK_SCALE;
use crate::fixed::TRADE_PRICE_LIMIT;
use crate::strategies::MarketType;
use crate::strategies::StrategyParams;

verus! {

/// Fee of a futures position: one part in 5000 of its notional, 0.02 %.
pub const TAXES_FUTURES_DIVISOR: i64 = 5000;

/// The notional of a spot position is at most this many times the equity.
pub const MAX_LEVERAGE: i64 = 10;

/// The size that risks the given share of the equity between entry and
/// stop, scaled by the ratio of the two multipliers and rounded down:
/// `money * risk * (sl_multiplier / tp_multiplier) / (entry - sl)`.
/// Where that quotient has no value, the size is zero.
pub open spec fn raw_position(money: int, params: StrategyParams, entry: int, sl: int) -> int {
    let num = money * params.risk_per_trade * params.sl_multiplier * LOT_SCALE;
    let den = RISK_SCALE * params.tp_multiplier * (entry - sl);
    let mirrored_num = -num;
    let mirrored_den = -den;
    if den > 0 {
        num / den
    } else if den < 0 {
        mirrored_num / mirrored_den
    } else {
        0
    }
}

/// A size cut down so that its notional, `lots * entry`, does not exceed
/// `MAX_LEVERAGE` times the equity. At an entry price of zero every notional
/// is zero and the size stays.
pub open spec fn capped_position(lots: int, money: int, entry: int) -> int {
    let limit = money * MAX_LEVERAGE * LOT_SCALE;
    let distance = -entry;
    if entry > 0 {
        let most = limit / entry;
        if lots <= most {
            lots
        } else {
            most
        }
    } else if entry < 0 {
        let least = -(limit / distance);
        if lots >= least {
            lots
        } else {
            least
        }
    } else {
        lots
    }
}

/// The size of a position: capped on the spot market, as computed on the
/// futures market.
pub open spec fn position_size(money: int, params: StrategyParams, entry: int, sl: int) -> int {
    match params.market_type {
        MarketType::Spot => capped_position(raw_position(money, params, entry, sl), money, entry),
        MarketType::Futures => raw_position(money, params, entry, sl),
    }
}

/// The fee charged when a position is opened, rounded down.
pub open spec fn opening_fee(market: MarketType, lots: int, entry: int) -> int {
    match market {
        MarketType::Spot => 0,
        MarketType::Futures => {
            let notional = lots * entry;
            let divisor = LOT_SCALE * TAXES_FUTURES_DIVISOR;
            notional / divisor
        },
    }
}

/// What a position gains between `from` and `to`, rounded down.
pub open spec fn price_move_value(lots: int, from: int, to: int) -> int {
    let value = lots * (to - from);
    let scale = LOT_SCALE as int;
    value / scale
}

/// An amount as it is stored, or `None` where 64 bits cannot hold it.
pub open spec fn stored(x: int) -> Option<i64> {
    if fits_i64(x) {
        Some(x as i64)
    } else {
        None
    }
}

/// On the spot market the notional of a position, its size times the entry
/// price, is at most `MAX_LEVERAGE` times the equity. The one exception is an
/// entry price of zero with an equity below zero, where the notional is
/// zero whatever the size.
pub proof fn lemma_spot_position_within_leverage(
    money: int,
    params: StrategyParams,
    entry: int,
    sl: int,
)
    requires
        params.market_type == MarketType::Spot,
        !(entry == 0 && money < 0),
    ensures
        position_size(money, params, entry, sl) * entry <= money * MAX_LEVERAGE * LOT_SCALE,
{
    let limit = money * MAX_LEVERAGE * LOT_SCALE;
    let raw = raw_position(money, params, entry, sl);
    let lots = capped_position(raw, money, entry);
    if entry > 0 {
        let bound = limit / entry;
        lemma_fundamental_div_mod(limit, entry);
        lemma_mod_bound(limit, entry);
        assert(lots * entry <= limit) by (nonlinear_arith)
            requires
                lots <= bound,
                limit == entry * bound + limit % entry,
                0 <= limit % entry,
                entry > 0,
        ;
    } else if entry < 0 {
        let bound = limit / (-entry);
        lemma_fundamental_div_mod(limit, -entry);
        lemma_mod_bound(limit, -entry);
        assert(lots * entry <= limit) by (nonlinear_arith)
            requires
                lots >= -bound,
                limit == (-entry) * bound + limit % (-entry),
                0 <= limit % (-entry),
                entry < 0,
        ;
    } else {
        assert(lots * entry == 0) by (nonlinear_arith)
            requires
                entry == 0,
        ;
        assert(limit >= 0) by (nonlinear_arith)
            requires
                limit == money * MAX_LEVERAGE * LOT_SCALE,
                money >= 0,
                MAX_LEVERAGE == 10,
                LOT_SCALE == 100_000_000,
        ;
    }
}

pub(crate) fn store(x: i128) -> (r: Option<i64>)
    ensures
        r == stored(x as int),
{
    if x < i64::MIN as i128 || x > i64::MAX as i128 {
        None
    } else {
        Some(x as i64)
    }
}

/// Computes the size of the position that a trade opens with.
pub fn compute_lots(money: i64, params: &StrategyParams, entry_price: i64, sl: i64) -> (lots:
    Option<i64>)
    requires
        params.well_formed(),
        -TRADE_PRICE_LIMIT <= entry_price <= TRADE_PRICE_LIMIT,
        -TRADE_PRICE_LIMIT <= sl <= TRADE_PRICE_LIMIT,
    ensures
        lots == stored(position_size(money as int, *params, entry_price as int, sl as int)),
        lots is Some && params.market_type == MarketType::Spot && !(entry_price == 0 && money < 0)
            ==> lots->0 * entry_price <= money * MAX_LEVERAGE * LOT_SCALE,
{
    proof {
        if params.market_type == MarketType::Spot && !(entry_price == 0 && money < 0) {
            lemma_spot_position_within_leverage(
                money as int,
                *params,
                entry_price as int,
                sl as int,
            );
        }
    }
    proof {
        let word: int = 0x8000_0000_0000_0000;
        let span: int = 2_000_000_000_000_000_000;
        lemma_mul_bounds(money as int, word, params.risk_per_trade as int, 1_000_000);
        lemma_mul_bounds(
            money * params.risk_per_trade,
            word * 1_000_000,
            params.sl_multiplier as int,
            10_000,
        );
        lemma_mul_bounds(
            money * params.risk_per_trade * params.sl_multiplier,
            word * 1_000_000 * 10_000,
            LOT_SCALE as int,
            100_000_000,
        );
        lemma_mul_bounds(RISK_SCALE as int, 10_000, params.tp_multiplier as int, 10_000);
        lemma_mul_bounds(RISK_SCALE * params.tp_multiplier, 100_000_000, entry_price - sl, span);
        lemma_mul_bounds(money as int, word, MAX_LEVERAGE as int, 10);
        lemma_mul_bounds(money * MAX_LEVERAGE, word * 10, LOT_SCALE as int, 100_000_000);
    }
    let num: i128 = (money as i128) * (params.risk_per_trade as i128) * (params.sl_multiplier
        as i128) * (LOT_SCALE as i128);
    let den: i128 = (RISK_SCALE as i128) * (params.tp_multiplier as i128) * ((entry_price as i128)
        - (sl as i128));
    let raw: i128 = if den > 0 {
        div_floor(num, den)
    } else if den < 0 {
        div_floor(-num, -den)
    } else {
        0
    };
    let lots: i128 = match params.market_type {
        MarketType::Futures => raw,
        MarketType::Spot => {
            let limit: i128 = (money as i128) * (MAX_LEVERAGE as i128) * (LOT_SCALE as i128);
            if entry_price > 0 {
                let bound: i128 = div_floor(limit, entry_price as i128);
                if raw <= bound {
                    raw
                } else {
                    bound
                }
            } else if entry_price < 0 {
                let q: i128 = div_floor(limit, -(entry_price as i128));
                proof {
                    lemma_div_magnitude(limit as int, -(entry_price as int));
                }
                let bound: i128 = -q;
                if raw >= bound {
                    raw
                } else {
                    bound
                }
            } else {
                raw
            }
        },
    };
    store(lots)
}

/// The amounts that are fixed when a trade opens: its size, the fee, the
/// equity that is left, and what the trade gains at its target and loses at
/// its stop.
#[derive(Clone, Copy, PartialEq, Eq, Debug, Structural)]
pub struct Opening {
    pub lots: i64,
    pub taxes: i64,
    pub money: i64,
    pub benefits: i64,
    pub loss: i64,
}

/// The opening amounts of a trade on an account that holds `params.money`,
/// or `None` where one of them does not fit in 64 bits.
pub open spec fn opening_of(trade: Trade, params: StrategyParams) -> Option<Opening> {
    let lots = position_size(
        params.money as int,
        params,
        trade.entry_price as int,
        trade.sl as int,
    );
    let taxes = opening_fee(params.market_type, lots, trade.entry_price as int);
    let money = params.money - taxes;
    let benefits = price_move_value(lots, trade.entry_price as int, trade.tp as int);
    let loss = price_move_value(lots, trade.sl as int, trade.entry_price as int);
    if fits_i64(lots) && fits_i64(taxes) && fits_i64(money) && fits_i64(benefits) && fits_i64(
        loss,
    ) {
        Some(
            Opening {
                lots: lots as i64,
                taxes: taxes as i64,
                money: money as i64,
                benefits: benefits as i64,
                loss: loss as i64,
            },
        )
    } else {
        None
    }
}

/// Computes the opening amounts of a trade.
pub fn open_position(trade: &Trade, params: &StrategyParams) -> (opening: Option<Opening>)
    requires
        trade.well_formed(),
        params.well_formed(),
    ensures
        opening == opening_of(*trade, *params),
        opening matches Some(amounts) ==> (params.market_type == MarketType::Spot && !(
        trade.entry_price == 0 && params.money < 0) ==> amounts.lots * trade.entry_price
            <= params.money * MAX_LEVERAGE * LOT_SCALE),
{
    let lots: i64 = match compute_lots(params.money, params, trade.entry_price, trade.sl) {
        Some(l) => l,
        None => {
            return None;
        },
    };
    proof {
        let word: int = 0x8000_0000_0000_0000;
        let span: int = 2_000_000_000_000_000_000;
        lemma_mul_bounds(lots as int, word, trade.entry_price as int, span);
        lemma_mul_bounds(lots as int, word, trade.tp - trade.entry_price, span);
        lemma_mul_bounds(lots as int, word, trade.entry_price - trade.sl, span);
    }
    let notional: i128 = (lots as i128) * (trade.entry_price as i128);
    let taxes: i128 = match params.market_type {
        MarketType::Spot => 0,
        MarketType::Futures => div_floor(
            notional,
            (LOT_SCALE as i128) * (TAXES_FUTURES_DIVISOR as i128),
        ),
    };
    proof {
        if params.market_type == MarketType::Futures {
            lemma_div_magnitude(notional as int, LOT_SCALE * TAXES_FUTURES_DIVISOR);
        }
    }
    let money: i128 = (params.money as i128) - taxes;
    let benefits: i128 = div_floor(
        (lots as i128) * ((trade.tp as i128) - (trade.entry_price as i128)),
        LOT_SCALE as i128,
    );
    let loss: i128 = div_floor(
        (lots as i128) * ((trade.entry_price as i128) - (trade.sl as i128)),
        LOT_SCALE as i128,
    );
    match (store(taxes), store(money), store(benefits), store(loss)) {
        (Some(t), Some(m), Some(b), Some(l)) => Some(
            Opening { lots, taxes: t, money: m, benefits: b, loss: l },
        ),
        _ => None,
    }
}

} // verus!
