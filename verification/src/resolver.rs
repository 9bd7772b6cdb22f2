//! The steps that a candle makes a trade take, and the pass that replays
//! a candle series over the trades of one run.

use vstd::prelude::*;
use std::sync::mpsc::Sender;
use crate::backtest::Status;
use crate::backtest::Trade;
use crate::backtest::TradeResult;
use crate::patterns::MathKLine;
use crate::progress::phase_progress;
use crate::progress::report;
use crate::progress::HALF;
use crate::progress::REPORT_EVERY;
use crate::sizing::open_position;
use crate::sizing::opening_of;
use crate::sizing::store;
use crate::sizing::stored;
use crate::strategies::StrategyParams;

verus! {

/// Why a pass over the candles stopped before their end.
#[derive(Clone, Copy, PartialEq, Eq, Debug, Structural)]
pub enum Halt {
    /// The equity fell to zero or below.
    EquityExhausted,
    /// An amount left the range of 64 bits; the step that computed it was
    /// not applied.
    AmountOverflow,
}

/// What one candle does to one trade: the trade and the equity after it,
/// whether the equity is to be recorded, and whether the pass stops.
#[derive(Clone, Copy, PartialEq, Eq, Debug)]
pub struct TradeStep {
    pub trade: Trade,
    pub money: i64,
    pub recorded: bool,
    pub halt: Option<Halt>,
}

/// The candle's range reaches the price.
pub open spec fn touches(kline: MathKLine, price: i64) -> bool {
    kline.low <= price <= kline.high
}

pub open spec fn exhausted(money: i64) -> Option<Halt> {
    if money <= 0 {
        Some(Halt::EquityExhausted)
    } else {
        None
    }
}

/// The trade, closed by the candle with the given result.
pub open spec fn closed_by(trade: Trade, kline: MathKLine, result: TradeResult) -> Trade {
    Trade {
        status: Status::Closed(result),
        close_time: kline.close_time,
        closing_kline: Some(kline),
        ..trade
    }
}

/// A candle shown to a running trade. Stop and target both within the
/// candle: the trade closes `Unknown` and the equity stays. The stop alone:
/// it closes `Lost` and its loss leaves the equity. The target alone: it
/// closes `Win` and its gain joins the equity. Neither: nothing changes.
/// Afterwards an equity of zero or less stops the pass.
pub open spec fn settle(trade: Trade, kline: MathKLine, money: i64) -> TradeStep {
    let at_stop = kline.low <= trade.sl;
    let at_target = kline.high >= trade.tp;
    if at_stop && at_target {
        TradeStep {
            trade: closed_by(trade, kline, TradeResult::Unknown),
            money,
            recorded: false,
            halt: exhausted(money),
        }
    } else if at_stop {
        match stored(money - trade.loss) {
            Some(left) => TradeStep {
                trade: closed_by(trade, kline, TradeResult::Lost),
                money: left,
                recorded: true,
                halt: exhausted(left),
            },
            None => TradeStep { trade, money, recorded: false, halt: Some(Halt::AmountOverflow) },
        }
    } else if at_target {
        match stored(money + trade.benefits) {
            Some(grown) => TradeStep {
                trade: closed_by(trade, kline, TradeResult::Win),
                money: grown,
                recorded: true,
                halt: exhausted(grown),
            },
            None => TradeStep { trade, money, recorded: false, halt: Some(Halt::AmountOverflow) },
        }
    } else {
        TradeStep { trade, money, recorded: false, halt: exhausted(money) }
    }
}

/// A candle shown to a trade that is not closed.
///
/// A trade that is not opened opens on the candle that closes at its
/// `open_time`: its amounts are fixed, the fee leaves the equity, and it
/// runs if the candle reaches its entry price, else it waits untriggered.
/// An untriggered trade starts to run on the first later candle that
/// reaches its entry price. A running trade is settled by every candle
/// after the one it opened on, never by the candle that set it running.
pub open spec fn step_trade(trade: Trade, kline: MathKLine, params: StrategyParams) -> TradeStep {
    let idle = TradeStep { trade, money: params.money, recorded: false, halt: None };
    match trade.status {
        Status::NotOpened => if kline.close_time == trade.open_time {
            match opening_of(trade, params) {
                Some(opening) => TradeStep {
                    trade: Trade {
                        status: if touches(kline, trade.entry_price) {
                            Status::Running
                        } else {
                            Status::NotTriggered
                        },
                        money: opening.money,
                        lots: opening.lots,
                        taxes: opening.taxes,
                        benefits: opening.benefits,
                        loss: opening.loss,
                        ..trade
                    },
                    money: opening.money,
                    recorded: false,
                    halt: None,
                },
                None => TradeStep { halt: Some(Halt::AmountOverflow), ..idle },
            }
        } else {
            idle
        },
        Status::NotTriggered => if kline.close_time > trade.open_time && touches(
            kline,
            trade.entry_price,
        ) {
            TradeStep { trade: Trade { status: Status::Running, ..trade }, ..idle }
        } else {
            idle
        },
        Status::Running => if kline.close_time > trade.open_time {
            settle(trade, kline, params.money)
        } else {
            idle
        },
        Status::Closed(_) => idle,
    }
}

/// A candle that holds both the stop and the target of a running trade
/// closes it with an unknown result, and the equity stays as it is and is
/// not recorded.
pub proof fn lemma_ambiguous_candle(trade: Trade, kline: MathKLine, params: StrategyParams)
    requires
        trade.status == Status::Running,
        kline.close_time > trade.open_time,
        kline.low <= trade.sl,
        kline.high >= trade.tp,
    ensures
        ({
            let step = step_trade(trade, kline, params);
            &&& step.trade.status == Status::Closed(TradeResult::Unknown)
            &&& step.money == params.money
            &&& !step.recorded
        }),
{
}

/// Settles a running trade against one candle.
pub fn settle_trade(trade: &Trade, kline: &MathKLine, money: i64) -> (step: TradeStep)
    ensures
        step == settle(*trade, *kline, money),
        kline.low <= trade.sl && kline.high >= trade.tp ==> step.trade.status == Status::Closed(
            TradeResult::Unknown,
        ) && step.money == money && !step.recorded,
{
    let at_stop: bool = kline.low <= trade.sl;
    let at_target: bool = kline.high >= trade.tp;
    if at_stop && at_target {
        TradeStep {
            trade: Trade {
                status: Status::Closed(TradeResult::Unknown),
                close_time: kline.close_time,
                closing_kline: Some(*kline),
                ..*trade
            },
            money,
            recorded: false,
            halt: halt_if_exhausted(money),
        }
    } else if at_stop {
        match store((money as i128) - (trade.loss as i128)) {
            Some(left) => TradeStep {
                trade: Trade {
                    status: Status::Closed(TradeResult::Lost),
                    close_time: kline.close_time,
                    closing_kline: Some(*kline),
                    ..*trade
                },
                money: left,
                recorded: true,
                halt: halt_if_exhausted(left),
            },
            None => TradeStep {
                trade: *trade,
                money,
                recorded: false,
                halt: Some(Halt::AmountOverflow),
            },
        }
    } else if at_target {
        match store((money as i128) + (trade.benefits as i128)) {
            Some(grown) => TradeStep {
                trade: Trade {
                    status: Status::Closed(TradeResult::Win),
                    close_time: kline.close_time,
                    closing_kline: Some(*kline),
                    ..*trade
                },
                money: grown,
                recorded: true,
                halt: halt_if_exhausted(grown),
            },
            None => TradeStep {
                trade: *trade,
                money,
                recorded: false,
                halt: Some(Halt::AmountOverflow),
            },
        }
    } else {
        TradeStep { trade: *trade, money, recorded: false, halt: halt_if_exhausted(money) }
    }
}

fn halt_if_exhausted(money: i64) -> (halt: Option<Halt>)
    ensures
        halt == exhausted(money),
{
    if money <= 0 {
        Some(Halt::EquityExhausted)
    } else {
        None
    }
}

/// Shows one candle to one trade.
pub fn advance_trade(trade: &Trade, kline: &MathKLine, params: &StrategyParams) -> (step:
    TradeStep)
    requires
        trade.well_formed(),
        params.well_formed(),
    ensures
        step == step_trade(*trade, *kline, *params),
        step.trade.well_formed(),
{
    let idle = TradeStep { trade: *trade, money: params.money, recorded: false, halt: None };
    match trade.status {
        Status::NotOpened => {
            if kline.close_time == trade.open_time {
                match open_position(trade, params) {
                    Some(opening) => {
                        let status = if kline.low <= trade.entry_price && trade.entry_price
                            <= kline.high {
                            Status::Running
                        } else {
                            Status::NotTriggered
                        };
                        TradeStep {
                            trade: Trade {
                                status,
                                money: opening.money,
                                lots: opening.lots,
                                taxes: opening.taxes,
                                benefits: opening.benefits,
                                loss: opening.loss,
                                ..*trade
                            },
                            money: opening.money,
                            recorded: false,
                            halt: None,
                        }
                    },
                    None => TradeStep {
                        trade: *trade,
                        money: params.money,
                        recorded: false,
                        halt: Some(Halt::AmountOverflow),
                    },
                }
            } else {
                idle
            }
        },
        Status::NotTriggered => {
            if kline.close_time > trade.open_time && kline.low <= trade.entry_price
                && trade.entry_price <= kline.high {
                TradeStep {
                    trade: Trade { status: Status::Running, ..*trade },
                    money: params.money,
                    recorded: false,
                    halt: None,
                }
            } else {
                idle
            }
        },
        Status::Running => {
            if kline.close_time > trade.open_time {
                settle_trade(trade, kline, params.money)
            } else {
                idle
            }
        },
        Status::Closed(_) => idle,
    }
}

/// The state of a run: its trades, its equity, the equity after each trade
/// that was won or lost, and whether the pass has stopped.
pub struct Account {
    pub trades: Seq<Trade>,
    pub money: i64,
    pub evolution: Seq<i64>,
    pub halt: Option<Halt>,
}

pub open spec fn all_trades_well_formed(trades: Seq<Trade>) -> bool {
    forall|i: int| 0 <= i < trades.len() ==> (#[trigger] trades[i]).well_formed()
}

/// Tests the trades of a run, as a caller does before it hands them to a
/// pass.
pub fn check_all_trades_well_formed(trades: &Vec<Trade>) -> (b: bool)
    ensures
        b == all_trades_well_formed(trades@),
{
    let mut i: usize = 0;
    while i < trades.len()
        invariant
            i <= trades.len(),
            forall|k: int| 0 <= k < i ==> (#[trigger] trades@[k]).well_formed(),
        decreases trades.len() - i,
    {
        if !trades[i].is_well_formed() {
            return false;
        }
        i += 1;
    }
    true
}

/// One candle shown to the trades from index `j` on, in their order. Closed
/// trades are passed over. The first open trade that is not due yet, its
/// `open_time` past the candle's close, ends the candle: the trades are in
/// the order of their opening. A step that stops the pass ends it too.
pub open spec fn pass_trades(account: Account, j: int, kline: MathKLine, params: StrategyParams)
    -> Account
    decreases account.trades.len() - j,
{
    if j < 0 || j >= account.trades.len() || account.halt is Some {
        account
    } else {
        let trade = account.trades[j];
        if trade.status is Closed {
            pass_trades(account, j + 1, kline, params)
        } else if trade.open_time > kline.close_time {
            account
        } else {
            let step = step_trade(trade, kline, params.with_money(account.money));
            let next = Account {
                trades: account.trades.update(j, step.trade),
                money: step.money,
                evolution: if step.recorded {
                    account.evolution.push(step.money)
                } else {
                    account.evolution
                },
                halt: step.halt,
            };
            pass_trades(next, j + 1, kline, params)
        }
    }
}

/// The candles from index `i` on shown to the account one after the other,
/// until the series ends or the pass stops.
pub open spec fn resolve(account: Account, klines: Seq<MathKLine>, i: int, params: StrategyParams)
    -> Account
    decreases klines.len() - i,
{
    if i < 0 || i >= klines.len() || account.halt is Some {
        account
    } else {
        resolve(pass_trades(account, 0, klines[i], params), klines, i + 1, params)
    }
}

/// A trade that closed with a gain or a loss.
pub open spec fn decided(trade: Trade) -> bool {
    trade.status == Status::Closed(TradeResult::Win) || trade.status == Status::Closed(
        TradeResult::Lost,
    )
}

/// How many of the trades closed with a gain or a loss.
pub open spec fn count_decided(trades: Seq<Trade>) -> nat
    decreases trades.len(),
{
    if trades.len() == 0 {
        0
    } else {
        count_decided(trades.drop_last()) + if decided(trades.last()) {
            1nat
        } else {
            0nat
        }
    }
}

proof fn lemma_count_decided_update(trades: Seq<Trade>, j: int, trade: Trade)
    requires
        0 <= j < trades.len(),
    ensures
        count_decided(trades.update(j, trade)) + (if decided(trades[j]) {
            1nat
        } else {
            0nat
        }) == count_decided(trades) + (if decided(trade) {
            1nat
        } else {
            0nat
        }),
    decreases trades.len(),
{
    let updated = trades.update(j, trade);
    if j == trades.len() - 1 {
        assert(updated.drop_last() =~= trades.drop_last());
    } else {
        assert(updated.drop_last() =~= trades.drop_last().update(j, trade));
        lemma_count_decided_update(trades.drop_last(), j, trade);
    }
}

/// What every step keeps: the trade's three prices and its opening time;
/// and a step records the equity exactly when it closes the trade with a
/// gain or a loss.
pub proof fn lemma_step_trade(trade: Trade, kline: MathKLine, params: StrategyParams)
    requires
        !(trade.status is Closed),
    ensures
        ({
            let step = step_trade(trade, kline, params);
            &&& step.trade.entry_price == trade.entry_price
            &&& step.trade.sl == trade.sl
            &&& step.trade.tp == trade.tp
            &&& step.trade.open_time == trade.open_time
            &&& step.recorded == decided(step.trade)
            &&& !step.recorded ==> step.money == params.money || trade.status == Status::NotOpened
            &&& step.trade.status.rank() >= trade.status.rank()
        }),
{
}

/// One candle changes no closed trade, keeps the number and the prices of
/// the trades, and lengthens the record by one for each trade that it
/// closes with a gain or a loss.
pub proof fn lemma_pass_trades(account: Account, j: int, kline: MathKLine, params: StrategyParams)
    requires
        0 <= j,
    ensures
        ({
            let after = pass_trades(account, j, kline, params);
            &&& after.trades.len() == account.trades.len()
            &&& forall|i: int|
                0 <= i < account.trades.len() && (#[trigger] account.trades[i]).status is Closed
                    ==> after.trades[i] == account.trades[i]
            &&& forall|i: int| 0 <= i < j && i < account.trades.len() ==> after.trades[i]
                == #[trigger] account.trades[i]
            &&& forall|i: int|
                0 <= i < account.trades.len() ==> (#[trigger] after.trades[i]).status.rank()
                    >= account.trades[i].status.rank()
            &&& all_trades_well_formed(account.trades) ==> all_trades_well_formed(after.trades)
            &&& after.evolution.len() - account.evolution.len() == count_decided(after.trades)
                - count_decided(account.trades)
            &&& account.halt is Some ==> after == account
        }),
    decreases account.trades.len() - j,
{
    if j >= account.trades.len() || account.halt is Some {
    } else {
        let trade = account.trades[j];
        if trade.status is Closed {
            lemma_pass_trades(account, j + 1, kline, params);
        } else if trade.open_time > kline.close_time {
        } else {
            let step = step_trade(trade, kline, params.with_money(account.money));
            let next = Account {
                trades: account.trades.update(j, step.trade),
                money: step.money,
                evolution: if step.recorded {
                    account.evolution.push(step.money)
                } else {
                    account.evolution
                },
                halt: step.halt,
            };
            lemma_step_trade(trade, kline, params.with_money(account.money));
            lemma_count_decided_update(account.trades, j, step.trade);
            lemma_pass_trades(next, j + 1, kline, params);
            let after = pass_trades(next, j + 1, kline, params);
            assert(after.trades[j] == next.trades[j]);
            assert forall|i: int|
                0 <= i < account.trades.len() && (#[trigger] account.trades[i]).status is Closed
                implies after.trades[i] == account.trades[i] by {
                assert(next.trades[i] == account.trades[i]);
                assert(next.trades[i].status is Closed);
            }
            assert forall|i: int| 0 <= i < j implies after.trades[i]
                == #[trigger] account.trades[i] by {
                assert(next.trades[i] == account.trades[i]);
            }
            assert forall|i: int| 0 <= i < account.trades.len() implies (
            #[trigger] after.trades[i]).status.rank() >= account.trades[i].status.rank() by {
                assert(after.trades[i].status.rank() >= next.trades[i].status.rank());
            }
            if all_trades_well_formed(account.trades) {
                assert(account.trades[j].well_formed());
                assert forall|i: int| 0 <= i < next.trades.len() implies (
                #[trigger] next.trades[i]).well_formed() by {
                    if i != j {
                        assert(account.trades[i].well_formed());
                    }
                }
            }
        }
    }
}

/// A pass changes no closed trade, moves no trade back to an earlier
/// state, keeps the number and the prices of the trades, and lengthens the
/// record by one for each trade that it closes with a gain or a loss.
pub proof fn lemma_resolve(account: Account, klines: Seq<MathKLine>, i: int, params: StrategyParams)
    requires
        0 <= i,
    ensures
        ({
            let after = resolve(account, klines, i, params);
            &&& after.trades.len() == account.trades.len()
            &&& forall|t: int|
                0 <= t < account.trades.len() && (#[trigger] account.trades[t]).status is Closed
                    ==> after.trades[t] == account.trades[t]
            &&& forall|t: int|
                0 <= t < account.trades.len() ==> (#[trigger] after.trades[t]).status.rank()
                    >= account.trades[t].status.rank()
            &&& all_trades_well_formed(account.trades) ==> all_trades_well_formed(after.trades)
            &&& after.evolution.len() - account.evolution.len() == count_decided(after.trades)
                - count_decided(account.trades)
        }),
    decreases klines.len() - i,
{
    if i >= klines.len() || account.halt is Some {
    } else {
        let next = pass_trades(account, 0, klines[i], params);
        lemma_pass_trades(account, 0, klines[i], params);
        lemma_resolve(next, klines, i + 1, params);
        let after = resolve(next, klines, i + 1, params);
        assert forall|t: int|
            0 <= t < account.trades.len() && (#[trigger] account.trades[t]).status is Closed
            implies after.trades[t] == account.trades[t] by {
            assert(next.trades[t] == account.trades[t]);
            assert(next.trades[t].status is Closed);
        }
        assert forall|t: int| 0 <= t < account.trades.len() implies (
        #[trigger] after.trades[t]).status.rank() >= account.trades[t].status.rank() by {
            assert(after.trades[t].status.rank() >= next.trades[t].status.rank());
            assert(next.trades[t].status.rank() >= account.trades[t].status.rank());
        }
    }
}

/// Closed trades before the cursor do not matter to a candle.
proof fn lemma_pass_skips_closed(
    account: Account,
    j: int,
    k: int,
    kline: MathKLine,
    params: StrategyParams,
)
    requires
        0 <= j <= k <= account.trades.len(),
        forall|i: int| j <= i < k ==> (#[trigger] account.trades[i]).status is Closed,
    ensures
        pass_trades(account, j, kline, params) == pass_trades(account, k, kline, params),
    decreases k - j,
{
    if j < k && account.halt is None {
        assert(account.trades[j].status is Closed);
        lemma_pass_skips_closed(account, j + 1, k, kline, params);
    }
}

/// The first trade at or after `start` that is not closed, or the number of
/// trades where all of those are closed.
fn skip_closed(trades: &Vec<Trade>, start: usize) -> (next: usize)
    requires
        start <= trades.len(),
    ensures
        start <= next <= trades.len(),
        forall|i: int| start <= i < next ==> (#[trigger] trades@[i]).status is Closed,
        next < trades.len() ==> !(trades@[next as int].status is Closed),
{
    let mut next: usize = start;
    while next < trades.len()
        invariant
            start <= next <= trades.len(),
            forall|i: int| start <= i < next ==> (#[trigger] trades@[i]).status is Closed,
        decreases trades.len() - next,
    {
        match trades[next].status {
            Status::Closed(_) => {
                next += 1;
            },
            _ => {
                return next;
            },
        }
    }
    next
}

/// Shows one candle to the trades from index `start` on.
fn pass_candle(
    kline: &MathKLine,
    trades: &mut Vec<Trade>,
    strategy_params: &mut StrategyParams,
    money_evolution: &mut Vec<i64>,
    start: usize,
) -> (halt: Option<Halt>)
    requires
        old(strategy_params).well_formed(),
        all_trades_well_formed(old(trades)@),
        start <= old(trades).len(),
    ensures
        ({
            let before = Account {
                trades: old(trades)@,
                money: old(strategy_params).money,
                evolution: old(money_evolution)@,
                halt: None,
            };
            let after = pass_trades(before, start as int, *kline, *old(strategy_params));
            &&& final(trades)@ == after.trades
            &&& *final(strategy_params) == old(strategy_params).with_money(after.money)
            &&& final(money_evolution)@ == after.evolution
            &&& halt == after.halt
        }),
{
    let ghost params = *strategy_params;
    let ghost before = Account {
        trades: trades@,
        money: strategy_params.money,
        evolution: money_evolution@,
        halt: None,
    };
    let mut j: usize = start;
    while j < trades.len()
        invariant
            start <= j <= trades.len(),
            strategy_params.well_formed(),
            all_trades_well_formed(trades@),
            params == *old(strategy_params),
            before.trades == old(trades)@,
            before.money == old(strategy_params).money,
            before.evolution == old(money_evolution)@,
            before.halt is None,
            *strategy_params == params.with_money(strategy_params.money),
            pass_trades(before, start as int, *kline, params) == pass_trades(
                Account {
                    trades: trades@,
                    money: strategy_params.money,
                    evolution: money_evolution@,
                    halt: None,
                },
                j as int,
                *kline,
                params,
            ),
        decreases trades.len() - j,
    {
        let trade = trades[j];
        let ghost current = Account {
            trades: trades@,
            money: strategy_params.money,
            evolution: money_evolution@,
            halt: None,
        };
        let closed: bool = match trade.status {
            Status::Closed(_) => true,
            _ => false,
        };
        if closed {
            j += 1;
        } else if trade.open_time > kline.close_time {
            return None;
        } else {
            assert(trades@[j as int].well_formed());
            let step = advance_trade(&trade, kline, strategy_params);
            trades.set(j, step.trade);
            strategy_params.money = step.money;
            if step.recorded {
                money_evolution.push(step.money);
            }
            proof {
                assert forall|i: int| 0 <= i < trades@.len() implies (
                #[trigger] trades@[i]).well_formed() by {
                    if i != j {
                        assert(current.trades[i].well_formed());
                    }
                }
                let next = Account {
                    trades: trades@,
                    money: strategy_params.money,
                    evolution: money_evolution@,
                    halt: step.halt,
                };
                assert(strategy_params.well_formed());
                assert(pass_trades(current, j as int, *kline, params) == pass_trades(
                    next,
                    j + 1,
                    *kline,
                    params,
                ));
            }
            if step.halt.is_some() {
                return step.halt;
            }
            j += 1;
        }
    }
    None
}

/// Replays the candles over the trades of one run.
///
/// Each candle in turn is shown to the trades that are not closed, in their
/// order, which is the order of their opening. The pass ends with the last
/// candle, or as soon as a step leaves the equity at zero or below, or as
/// soon as an amount does not fit in 64 bits; the result says which. The
/// equity is `strategy_params.money`, and `money_evolution` receives it
/// after every trade that closes with a gain or a loss.
///
/// While it works the pass reports the second half of the run's progress.
#[verifier::loop_isolation(false)]
pub fn resolve_trades(
    klines: &[MathKLine],
    trades: &mut Vec<Trade>,
    strategy_params: &mut StrategyParams,
    money_evolution: &mut Vec<i64>,
    progression_tracker: Option<&Sender<u32>>,
) -> (halt: Option<Halt>)
    requires
        old(strategy_params).well_formed(),
        all_trades_well_formed(old(trades)@),
    ensures
        ({
            let before = Account {
                trades: old(trades)@,
                money: old(strategy_params).money,
                evolution: old(money_evolution)@,
                halt: None,
            };
            let after = resolve(before, klines@, 0, *old(strategy_params));
            &&& final(trades)@ == after.trades
            &&& *final(strategy_params) == old(strategy_params).with_money(after.money)
            &&& final(money_evolution)@ == after.evolution
            &&& halt == after.halt
        }),
        final(trades).len() == old(trades).len(),
        all_trades_well_formed(final(trades)@),
        forall|t: int|
            0 <= t < old(trades).len() && (#[trigger] old(trades)@[t]).status is Closed
                ==> final(trades)@[t] == old(trades)@[t],
        forall|t: int|
            0 <= t < old(trades).len() ==> (#[trigger] final(trades)@[t]).status.rank() >= old(
                trades,
            )@[t].status.rank(),
        final(money_evolution).len() - old(money_evolution).len() == count_decided(
            final(trades)@,
        ) - count_decided(old(trades)@),
{
    let ghost params = *strategy_params;
    let ghost before = Account {
        trades: trades@,
        money: strategy_params.money,
        evolution: money_evolution@,
        halt: None,
    };
    proof {
        lemma_resolve(before, klines@, 0, params);
    }
    let mut i: usize = 0;
    let mut start: usize = 0;
    let mut last_sent: usize = 0;
    while i < klines.len()
        invariant
            i <= klines.len(),
            last_sent <= i,
            start <= trades.len(),
            strategy_params.well_formed(),
            all_trades_well_formed(trades@),
            params == *old(strategy_params),
            before.trades == old(trades)@,
            before.money == old(strategy_params).money,
            before.evolution == old(money_evolution)@,
            before.halt is None,
            *strategy_params == params.with_money(strategy_params.money),
            forall|t: int| 0 <= t < start ==> (#[trigger] trades@[t]).status is Closed,
            resolve(before, klines@, 0, params) == resolve(
                Account {
                    trades: trades@,
                    money: strategy_params.money,
                    evolution: money_evolution@,
                    halt: None,
                },
                klines@,
                i as int,
                params,
            ),
        decreases klines.len() - i,
    {
        let ghost current = Account {
            trades: trades@,
            money: strategy_params.money,
            evolution: money_evolution@,
            halt: None,
        };
        start = skip_closed(trades, start);
        proof {
            lemma_pass_skips_closed(current, 0, start as int, klines@[i as int], params);
            lemma_pass_trades(current, start as int, klines@[i as int], params);
            lemma_pass_trades(current, 0, klines@[i as int], params);
        }
        proof {
            lemma_pass_ignores_money(
                current,
                start as int,
                klines@[i as int],
                params,
                current.money,
            );
        }
        let halt = pass_candle(&klines[i], trades, strategy_params, money_evolution, start);
        proof {
            let next = Account {
                trades: trades@,
                money: strategy_params.money,
                evolution: money_evolution@,
                halt,
            };
            assert(next == pass_trades(current, 0, klines@[i as int], params));
            assert(resolve(current, klines@, i as int, params) == resolve(
                next,
                klines@,
                i + 1,
                params,
            ));
            assert forall|t: int| 0 <= t < start implies (#[trigger] trades@[t]).status is Closed by {
                assert(current.trades[t].status is Closed);
            }
        }
        if halt.is_some() {
            return halt;
        }
        if i - last_sent > REPORT_EVERY {
            report(progression_tracker, phase_progress(i, klines.len()) + HALF);
            last_sent = i;
        }
        i += 1;
    }
    None
}

/// A candle reads the equity from the account, not from the parameters.
proof fn lemma_pass_ignores_money(
    account: Account,
    j: int,
    kline: MathKLine,
    params: StrategyParams,
    money: i64,
)
    requires
        0 <= j,
    ensures
        pass_trades(account, j, kline, params) == pass_trades(
            account,
            j,
            kline,
            params.with_money(money),
        ),
    decreases account.trades.len() - j,
{
    if j >= account.trades.len() || account.halt is Some {
    } else {
        let trade = account.trades[j];
        if trade.status is Closed {
            lemma_pass_ignores_money(account, j + 1, kline, params, money);
        } else if trade.open_time > kline.close_time {
        } else {
            assert(params.with_money(account.money) == params.with_money(money).with_money(
                account.money,
            ));
            let step = step_trade(trade, kline, params.with_money(account.money));
            let next = Account {
                trades: account.trades.update(j, step.trade),
                money: step.money,
                evolution: if step.recorded {
                    account.evolution.push(step.money)
                } else {
                    account.evolution
                },
                halt: step.halt,
            };
            lemma_pass_ignores_money(next, j + 1, kline, params, money);
        }
    }
}

pub open spec fn all_closed(trades: Seq<Trade>) -> bool {
    forall|i: int| 0 <= i < trades.len() ==> (#[trigger] trades[i]).status is Closed
}

/// A pass over trades that are all closed changes nothing: neither a
/// trade, nor the equity, nor the record. So a second pass over a list that
/// a first pass has closed is idle.
pub proof fn lemma_closed_list_is_fixed(
    account: Account,
    klines: Seq<MathKLine>,
    i: int,
    params: StrategyParams,
)
    requires
        0 <= i,
        all_closed(account.trades),
    ensures
        resolve(account, klines, i, params) == account,
    decreases klines.len() - i,
{
    if i < klines.len() && account.halt is None {
        lemma_pass_skips_closed(account, 0, account.trades.len() as int, klines[i], params);
        lemma_closed_list_is_fixed(account, klines, i + 1, params);
    }
}

} // verus!
