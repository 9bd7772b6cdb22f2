//! Trades, the statistics of a run, and the sweep that runs strategies
//! over a series of candles.

use vstd::prelude::*;
use std::sync::mpsc::Sender;
use std::sync::Arc;
use crate::fixed::round_div;
use crate::fixed::rounded_ratio;
use crate::fixed::PERCENT_SCALE;
use crate::fixed::TRADE_PRICE_LIMIT;
use crate::patterns::all_well_formed;
use crate::patterns::MathKLine;
use crate::patterns::PatternSettings;
use crate::progress::relay;
use crate::progress::send_sweep_share;
use crate::progress::share_channel;
use crate::progress::REPORT_EVERY;
use crate::resolver::all_trades_well_formed;
use crate::resolver::count_decided;
use crate::resolver::lemma_resolve;
use crate::resolver::resolve;
use crate::resolver::resolve_trades;
use crate::resolver::Account;
use crate::resolver::Halt;
use crate::strategies::create_trades;
use crate::strategies::lemma_trades_from;
use crate::strategies::trades_from;
use crate::strategies::Strategy;
use crate::strategies::StrategyParams;

verus! {

#[derive(Clone, Copy, PartialEq, Eq, Debug, Structural)]
pub enum StrategyName {
    Unset,
    W,
    M,
    BullReversal,
}

impl StrategyName {
    /// The name as it is written out.
    pub open spec fn label(self) -> Seq<char> {
        match self {
            StrategyName::Unset => "None"@,
            StrategyName::W => "W"@,
            StrategyName::M => "M"@,
            StrategyName::BullReversal => "Bull Reversal"@,
        }
    }

    pub fn to_string(&self) -> (text: String)
        ensures
            text@ == self.label(),
    {
        match self {
            StrategyName::Unset => "None".to_owned(),
            StrategyName::W => "W".to_owned(),
            StrategyName::M => "M".to_owned(),
            StrategyName::BullReversal => "Bull Reversal".to_owned(),
        }
    }
}

#[derive(Clone, Copy, PartialEq, Eq, Debug, Structural)]
pub enum TradeResult {
    Win,
    Lost,
    Unknown,
}

/// Where a trade stands. It moves from `NotOpened` to `NotTriggered` or
/// `Running`, from `NotTriggered` to `Running`, and from `Running` to
/// `Closed`, never back.
#[derive(Clone, Copy, PartialEq, Eq, Debug, Structural)]
pub enum Status {
    NotOpened,
    NotTriggered,
    Running,
    Closed(TradeResult),
}

impl Status {
    /// How far a trade has come: a trade goes to states of the same or a
    /// higher rank only.
    pub open spec fn rank(self) -> nat {
        match self {
            Status::NotOpened => 0,
            Status::NotTriggered => 1,
            Status::Running => 2,
            Status::Closed(_) => 3,
        }
    }
}

/// One trade. The prices are in ticks, `lots` in hundred-millionths of a
/// unit, and `money`, `benefits`, `loss` and `taxes` in ticks.
#[derive(Clone, Copy, PartialEq, Eq, Debug)]
pub struct Trade {
    pub entry_price: i64,
    pub sl: i64,
    pub tp: i64,
    pub status: Status,
    pub open_time: i64,
    pub close_time: i64,
    pub money: i64,
    pub benefits: i64,
    pub loss: i64,
    pub taxes: i64,
    pub lots: i64,
    pub closing_kline: Option<MathKLine>,
    pub opening_kline: MathKLine,
    pub strategy: StrategyName,
}

impl Trade {
    /// The three prices are within what the arithmetic can take.
    pub open spec fn well_formed(self) -> bool {
        &&& -TRADE_PRICE_LIMIT <= self.entry_price <= TRADE_PRICE_LIMIT
        &&& -TRADE_PRICE_LIMIT <= self.sl <= TRADE_PRICE_LIMIT
        &&& -TRADE_PRICE_LIMIT <= self.tp <= TRADE_PRICE_LIMIT
    }

    pub fn is_well_formed(&self) -> (b: bool)
        ensures
            b == self.well_formed(),
    {
        -TRADE_PRICE_LIMIT <= self.entry_price && self.entry_price <= TRADE_PRICE_LIMIT
            && -TRADE_PRICE_LIMIT <= self.sl && self.sl <= TRADE_PRICE_LIMIT && -TRADE_PRICE_LIMIT
            <= self.tp && self.tp <= TRADE_PRICE_LIMIT
    }
}

/// Which trades a count takes in.
#[derive(Clone, Copy, PartialEq, Eq, Debug, Structural)]
pub enum TradeFilter {
    /// The trades in the given state.
    Is(Status),
    /// The closed trades, whatever their result.
    Closed,
    /// The trades of a strategy in the given state.
    IsOf(Status, StrategyName),
    /// The closed trades of a strategy.
    ClosedOf(StrategyName),
}

impl TradeFilter {
    pub open spec fn accepts(self, trade: Trade) -> bool {
        match self {
            TradeFilter::Is(status) => trade.status == status,
            TradeFilter::Closed => trade.status is Closed,
            TradeFilter::IsOf(status, strategy) => trade.status == status && trade.strategy
                == strategy,
            TradeFilter::ClosedOf(strategy) => trade.status is Closed && trade.strategy
                == strategy,
        }
    }

    pub fn test(&self, trade: &Trade) -> (b: bool)
        ensures
            b == self.accepts(*trade),
    {
        let closed: bool = match trade.status {
            Status::Closed(_) => true,
            _ => false,
        };
        match self {
            TradeFilter::Is(status) => trade.status == *status,
            TradeFilter::Closed => closed,
            TradeFilter::IsOf(status, strategy) => trade.status == *status && trade.strategy
                == *strategy,
            TradeFilter::ClosedOf(strategy) => closed && trade.strategy == *strategy,
        }
    }
}

/// How many of the trades the filter takes in.
pub open spec fn count_trades(trades: Seq<Trade>, filter: TradeFilter) -> nat
    decreases trades.len(),
{
    if trades.len() == 0 {
        0
    } else {
        count_trades(trades.drop_last(), filter) + if filter.accepts(trades.last()) {
            1nat
        } else {
            0nat
        }
    }
}

/// A count is at most the number of trades.
pub proof fn lemma_count_trades_bound(trades: Seq<Trade>, filter: TradeFilter)
    ensures
        count_trades(trades, filter) <= trades.len(),
    decreases trades.len(),
{
    if trades.len() > 0 {
        lemma_count_trades_bound(trades.drop_last(), filter);
    }
}

/// The closed trades are those won, those lost and those of unknown
/// result; the trades that a record counts are those won and those lost.
pub proof fn lemma_counts_add_up(trades: Seq<Trade>)
    ensures
        count_trades(trades, TradeFilter::Closed) == count_trades(
            trades,
            TradeFilter::Is(Status::Closed(TradeResult::Win)),
        ) + count_trades(trades, TradeFilter::Is(Status::Closed(TradeResult::Lost)))
            + count_trades(trades, TradeFilter::Is(Status::Closed(TradeResult::Unknown))),
        count_decided(trades) == count_trades(
            trades,
            TradeFilter::Is(Status::Closed(TradeResult::Win)),
        ) + count_trades(trades, TradeFilter::Is(Status::Closed(TradeResult::Lost))),
    decreases trades.len(),
{
    if trades.len() > 0 {
        lemma_counts_add_up(trades.drop_last());
    }
}

/// Counts the trades that the filter takes in.
pub fn count_matching(trades: &Vec<Trade>, filter: TradeFilter) -> (n: usize)
    ensures
        n == count_trades(trades@, filter),
        n <= trades.len(),
{
    let mut n: usize = 0;
    let mut i: usize = 0;
    while i < trades.len()
        invariant
            i <= trades.len(),
            n <= i,
            n == count_trades(trades@.take(i as int), filter),
        decreases trades.len() - i,
    {
        proof {
            assert(trades@.take(i + 1).drop_last() =~= trades@.take(i as int));
        }
        if filter.test(&trades[i]) {
            n += 1;
        }
        i += 1;
    }
    proof {
        assert(trades@.take(trades.len() as int) =~= trades@);
    }
    n
}

/// `part` as a percentage of `total` with two decimals, in hundredths of a
/// percent and rounded to the nearest; without a value where `total` is
/// zero.
pub open spec fn percentage(part: int, total: int) -> Option<u64> {
    if total <= 0 || part < 0 || part > total {
        None
    } else {
        Some(rounded_ratio(part * PERCENT_SCALE, total) as u64)
    }
}

pub fn percent_of(part: usize, total: usize) -> (p: Option<u64>)
    ensures
        p == percentage(part as int, total as int),
        p matches Some(v) ==> v <= PERCENT_SCALE,
{
    if total == 0 || part > total {
        return None;
    }
    let q: u128 = ((part as u128) * 10_000 + (total as u128) / 2) / (total as u128);
    proof {
        lemma_rounded_share(part as int, total as int);
    }
    Some(q as u64)
}

/// A part of a whole is at most 100 % of it, rounded or not.
proof fn lemma_rounded_share(part: int, total: int)
    requires
        0 <= part <= total,
        0 < total,
    ensures
        0 <= rounded_ratio(part * PERCENT_SCALE, total) <= PERCENT_SCALE,
{
    let num = part * 10_000 + total / 2;
    let q = num / total;
    let r = num % total;
    vstd::arithmetic::div_mod::lemma_fundamental_div_mod(num, total);
    vstd::arithmetic::div_mod::lemma_mod_bound(num, total);
    assert(0 <= q <= 10_000) by (nonlinear_arith)
        requires
            num == total * q + r,
            0 <= r < total,
            part * 10_000 <= num <= part * 10_000 + total / 2,
            0 <= part <= total,
            total > 0,
            total / 2 < total,
    ;
}

/// The share of winning trades from which a strategy breaks even,
/// `1 / (1 + tp / sl)`, as a percentage with two decimals; without a value
/// where both multipliers are zero.
pub open spec fn needed_win_percentage(params: StrategyParams) -> Option<u64> {
    let total = params.sl_multiplier + params.tp_multiplier;
    if total == 0 {
        None
    } else {
        Some(rounded_ratio(params.sl_multiplier * PERCENT_SCALE, total) as u64)
    }
}

/// The share of winning trades over the share that is needed, with two
/// decimals, in hundredths; without a value where one of the two has none
/// or the needed share is zero.
pub open spec fn efficiency_of(win_ratio: Option<u64>, needed: Option<u64>) -> Option<u64> {
    match (win_ratio, needed) {
        (Some(won), Some(wanted)) => if wanted == 0 || won > PERCENT_SCALE {
            None
        } else {
            Some(rounded_ratio(won * 100, wanted as int) as u64)
        },
        _ => None,
    }
}

/// The needed share as a fraction with two decimals, in hundredths.
pub open spec fn rr_ratio_of(needed: Option<u64>) -> Option<u64> {
    match needed {
        Some(wanted) => Some(rounded_ratio(wanted as int, 100) as u64),
        None => None,
    }
}

pub fn compute_needed_win_percentage(params: &StrategyParams) -> (needed: Option<u64>)
    ensures
        needed == needed_win_percentage(*params),
        needed matches Some(v) ==> v <= PERCENT_SCALE,
{
    let part: u128 = params.sl_multiplier as u128;
    let total: u128 = (params.sl_multiplier as u128) + (params.tp_multiplier as u128);
    if total == 0 {
        return None;
    }
    let q: u128 = (part * 10_000 + total / 2) / total;
    proof {
        lemma_rounded_share(part as int, total as int);
    }
    Some(q as u64)
}

pub fn compute_efficiency(win_ratio: Option<u64>, needed: Option<u64>) -> (efficiency: Option<u64>)
    ensures
        efficiency == efficiency_of(win_ratio, needed),
{
    match (win_ratio, needed) {
        (Some(won), Some(wanted)) => {
            if wanted == 0 || won > 10_000 {
                None
            } else {
                round_div(won * 100, wanted)
            }
        },
        _ => None,
    }
}

/// The record of one run, as contracts speak of it.
pub struct StrategyOutcome {
    pub name: StrategyName,
    pub strategy_params: StrategyParams,
    pub patterns_params: PatternSettings,
    pub win_ratio: Option<u64>,
    pub lose_ratio: Option<u64>,
    pub unknown_ratio: Option<u64>,
    pub total_win: usize,
    pub total_lose: usize,
    pub total_unknown: usize,
    pub total_closed: usize,
    pub total_unclosed: usize,
    pub needed_win_percentage: Option<u64>,
    pub rr_ratio: Option<u64>,
    pub efficiency: Option<u64>,
    pub final_money: i64,
    pub money_evolution: Seq<i64>,
    pub halted: Option<Halt>,
}

/// The record of one run. The three ratios are percentages of the closed
/// trades with two decimals, in hundredths of a percent, and so is the
/// share of winning trades that the strategy needs to break even;
/// `rr_ratio`, which is that share as a fraction, and `efficiency` are in
/// hundredths. A ratio that has no value, because no
/// trade closed, is `None`. `halted` says why the run stopped before the
/// last candle, if it did.
#[derive(Clone, Debug, PartialEq, Eq)]
pub struct StrategyResult {
    pub name: StrategyName,
    pub strategy_params: StrategyParams,
    pub patterns_params: PatternSettings,
    pub win_ratio: Option<u64>,
    pub lose_ratio: Option<u64>,
    pub unknown_ratio: Option<u64>,
    pub total_win: usize,
    pub total_lose: usize,
    pub total_unknown: usize,
    pub total_closed: usize,
    pub total_unclosed: usize,
    pub needed_win_percentage: Option<u64>,
    pub rr_ratio: Option<u64>,
    pub efficiency: Option<u64>,
    pub final_money: i64,
    pub money_evolution: Vec<i64>,
    pub halted: Option<Halt>,
}

impl View for StrategyResult {
    type V = StrategyOutcome;

    open spec fn view(&self) -> StrategyOutcome {
        StrategyOutcome {
            name: self.name,
            strategy_params: self.strategy_params,
            patterns_params: self.patterns_params,
            win_ratio: self.win_ratio,
            lose_ratio: self.lose_ratio,
            unknown_ratio: self.unknown_ratio,
            total_win: self.total_win,
            total_lose: self.total_lose,
            total_unknown: self.total_unknown,
            total_closed: self.total_closed,
            total_unclosed: self.total_unclosed,
            needed_win_percentage: self.needed_win_percentage,
            rr_ratio: self.rr_ratio,
            efficiency: self.efficiency,
            final_money: self.final_money,
            money_evolution: self.money_evolution@,
            halted: self.halted,
        }
    }
}

/// The record of a run that ended with the given trades, equity and
/// evolution of the equity.
pub open spec fn outcome(
    strategy: Strategy,
    money: i64,
    trades: Seq<Trade>,
    evolution: Seq<i64>,
    halted: Option<Halt>,
) -> StrategyOutcome {
    let won = count_trades(trades, TradeFilter::Is(Status::Closed(TradeResult::Win)));
    let lost = count_trades(trades, TradeFilter::Is(Status::Closed(TradeResult::Lost)));
    let unknown = count_trades(trades, TradeFilter::Is(Status::Closed(TradeResult::Unknown)));
    let closed = count_trades(trades, TradeFilter::Closed);
    let win_ratio = percentage(won as int, closed as int);
    let needed = needed_win_percentage(strategy.params);
    StrategyOutcome {
        name: strategy.params.name,
        strategy_params: strategy.params.with_money(money),
        patterns_params: strategy.pattern,
        win_ratio,
        lose_ratio: percentage(lost as int, closed as int),
        unknown_ratio: percentage(unknown as int, closed as int),
        total_win: won as usize,
        total_lose: lost as usize,
        total_unknown: unknown as usize,
        total_closed: closed as usize,
        total_unclosed: (trades.len() - closed) as usize,
        needed_win_percentage: needed,
        rr_ratio: rr_ratio_of(needed),
        efficiency: efficiency_of(win_ratio, needed),
        final_money: money,
        money_evolution: evolution,
        halted,
    }
}

fn copy_amounts(amounts: &Vec<i64>) -> (copy: Vec<i64>)
    ensures
        copy@ == amounts@,
{
    let mut copy: Vec<i64> = Vec::new();
    let mut i: usize = 0;
    while i < amounts.len()
        invariant
            i <= amounts.len(),
            copy@ == amounts@.take(i as int),
        decreases amounts.len() - i,
    {
        copy.push(amounts[i]);
        proof {
            assert(amounts@.take(i + 1) =~= amounts@.take(i as int).push(amounts@[i as int]));
        }
        i += 1;
    }
    proof {
        assert(amounts@.take(amounts.len() as int) =~= amounts@);
    }
    copy
}

fn copy_result(result: &StrategyResult) -> (copy: StrategyResult)
    ensures
        copy@ == result@,
{
    StrategyResult {
        name: result.name,
        strategy_params: result.strategy_params,
        patterns_params: result.patterns_params,
        win_ratio: result.win_ratio,
        lose_ratio: result.lose_ratio,
        unknown_ratio: result.unknown_ratio,
        total_win: result.total_win,
        total_lose: result.total_lose,
        total_unknown: result.total_unknown,
        total_closed: result.total_closed,
        total_unclosed: result.total_unclosed,
        needed_win_percentage: result.needed_win_percentage,
        rr_ratio: result.rr_ratio,
        efficiency: result.efficiency,
        final_money: result.final_money,
        money_evolution: copy_amounts(&result.money_evolution),
        halted: result.halted,
    }
}

/// Draws up the record of a run from its trades.
pub fn generate_results(
    strategy: &Strategy,
    money: i64,
    trades: &Vec<Trade>,
    money_evolution: &Vec<i64>,
    halted: Option<Halt>,
) -> (result: StrategyResult)
    ensures
        result@ == outcome(*strategy, money, trades@, money_evolution@, halted),
{
    let total_win = count_matching(trades, TradeFilter::Is(Status::Closed(TradeResult::Win)));
    let total_lose = count_matching(trades, TradeFilter::Is(Status::Closed(TradeResult::Lost)));
    let total_unknown = count_matching(
        trades,
        TradeFilter::Is(Status::Closed(TradeResult::Unknown)),
    );
    let total_closed = count_matching(trades, TradeFilter::Closed);
    proof {
        lemma_counts_add_up(trades@);
    }
    let total_unclosed = trades.len() - total_closed;
    let win_ratio = percent_of(total_win, total_closed);
    let lose_ratio = percent_of(total_lose, total_closed);
    let unknown_ratio = percent_of(total_unknown, total_closed);
    let needed = compute_needed_win_percentage(&strategy.params);
    let efficiency = compute_efficiency(win_ratio, needed);
    let rr_ratio = match needed {
        Some(wanted) => round_div(wanted, 100),
        None => None,
    };
    let evolution = copy_amounts(money_evolution);
    StrategyResult {
        name: strategy.params.name,
        strategy_params: StrategyParams {
            tp_multiplier: strategy.params.tp_multiplier,
            sl_multiplier: strategy.params.sl_multiplier,
            risk_per_trade: strategy.params.risk_per_trade,
            money,
            name: strategy.params.name,
            market_type: strategy.params.market_type,
        },
        patterns_params: strategy.pattern,
        win_ratio,
        lose_ratio,
        unknown_ratio,
        total_win,
        total_lose,
        total_unknown,
        total_closed,
        total_unclosed,
        needed_win_percentage: needed,
        rr_ratio,
        efficiency,
        final_money: money,
        money_evolution: evolution,
        halted,
    }
}

/// The record of the run of one strategy over a series: the trades of the
/// series are made, confirmed patterns only, the series is replayed over
/// them from the strategy's starting equity, and the record is drawn up.
pub open spec fn run_outcome(klines: Seq<MathKLine>, strategy: Strategy) -> StrategyOutcome {
    let pending = trades_from(klines, 0, strategy.params, strategy.pattern, false);
    let end = resolve(
        Account {
            trades: pending,
            money: strategy.params.money,
            evolution: Seq::empty(),
            halt: None,
        },
        klines,
        0,
        strategy.params,
    );
    outcome(strategy, end.money, end.trades, end.evolution, end.halt)
}

/// The records of the runs of the strategies, in their order.
pub open spec fn run_outcomes(klines: Seq<MathKLine>, strategies: Seq<Strategy>) -> Seq<
    StrategyOutcome,
> {
    Seq::new(strategies.len(), |i: int| run_outcome(klines, strategies[i]))
}

/// The record of a run holds one equity for each trade that the run won
/// or lost, and none for the others.
pub proof fn lemma_evolution_counts_decided_trades(klines: Seq<MathKLine>, strategy: Strategy)
    requires
        klines.len() <= usize::MAX,
    ensures
        ({
            let record = run_outcome(klines, strategy);
            record.money_evolution.len() == record.total_win + record.total_lose
        }),
{
    let pending = trades_from(klines, 0, strategy.params, strategy.pattern, false);
    let start = Account {
        trades: pending,
        money: strategy.params.money,
        evolution: Seq::empty(),
        halt: None,
    };
    let end = resolve(start, klines, 0, strategy.params);
    lemma_trades_from(klines, 0, strategy.params, strategy.pattern, false);
    lemma_none_decided(pending);
    lemma_resolve(start, klines, 0, strategy.params);
    lemma_counts_add_up(end.trades);
    let won = TradeFilter::Is(Status::Closed(TradeResult::Win));
    let lost = TradeFilter::Is(Status::Closed(TradeResult::Lost));
    lemma_count_trades_bound(end.trades, won);
    lemma_count_trades_bound(end.trades, lost);
}

/// Trades of which none is closed hold none that was won or lost.
proof fn lemma_none_decided(trades: Seq<Trade>)
    requires
        forall|i: int| 0 <= i < trades.len() ==> (#[trigger] trades[i]).status == Status::NotOpened,
    ensures
        count_decided(trades) == 0,
    decreases trades.len(),
{
    if trades.len() > 0 {
        assert(trades.last().status == Status::NotOpened);
        assert forall|i: int| 0 <= i < trades.drop_last().len() implies (
        #[trigger] trades.drop_last()[i]).status == Status::NotOpened by {
            assert(trades[i].status == Status::NotOpened);
        }
        lemma_none_decided(trades.drop_last());
    }
}

pub open spec fn all_strategies_well_formed(strategies: Seq<Strategy>) -> bool {
    forall|i: int| 0 <= i < strategies.len() ==> (#[trigger] strategies[i]).params.well_formed()
}

/// Runs strategies over one series of candles, one after the other, and
/// keeps their records.
pub struct Backtester {
    klines_data: Arc<Vec<MathKLine>>,
    trades: Vec<Trade>,
    strategies: Vec<Strategy>,
    results: Vec<StrategyResult>,
    current_strategy_money_evolution: Vec<i64>,
    progression_tracker: Sender<(u32, usize)>,
    id: usize,
}

impl Backtester {
    /// The series of candles.
    pub closed spec fn klines(&self) -> Seq<MathKLine> {
        self.klines_data@
    }

    /// The trades of the run that is under way; none between two runs.
    pub closed spec fn current_trades(&self) -> Seq<Trade> {
        self.trades@
    }

    /// The strategies that were added, in the order in which they came.
    pub closed spec fn strategies(&self) -> Seq<Strategy> {
        self.strategies@
    }

    /// The records of the runs so far.
    pub closed spec fn outcomes(&self) -> Seq<StrategyOutcome> {
        Seq::new(self.results@.len(), |i: int| self.results@[i]@)
    }

    /// The number under which the sweep reports its progress.
    pub closed spec fn sweep_id(&self) -> usize {
        self.id
    }

    /// The candles and the strategies are well formed, and no run is under
    /// way.
    pub closed spec fn well_formed(&self) -> bool {
        &&& all_well_formed(self.klines_data@)
        &&& all_strategies_well_formed(self.strategies@)
        &&& self.trades@.len() == 0
        &&& self.current_strategy_money_evolution@.len() == 0
    }

    pub fn new(
        klines_data: Arc<Vec<MathKLine>>,
        progression_tracker: Sender<(u32, usize)>,
        id: usize,
    ) -> (backtester: Self)
        requires
            all_well_formed(klines_data@),
        ensures
            backtester.well_formed(),
            backtester.klines() == klines_data@,
            backtester.strategies() == Seq::<Strategy>::empty(),
            backtester.outcomes() == Seq::<StrategyOutcome>::empty(),
            backtester.current_trades() == Seq::<Trade>::empty(),
            backtester.sweep_id() == id,
    {
        let backtester = Backtester {
            klines_data,
            trades: Vec::new(),
            strategies: Vec::new(),
            results: Vec::new(),
            current_strategy_money_evolution: Vec::new(),
            progression_tracker,
            id,
        };
        assert(backtester.outcomes() =~= Seq::<StrategyOutcome>::empty());
        backtester
    }

    /// Runs every strategy over the series, in the order in which they were
    /// added, and appends the record of each run. The runs share nothing
    /// but the candles: each starts from its own parameters. While it works
    /// the sweep reports its progress, and 100 % at the end.
    pub fn start(&mut self) -> (this: &mut Self)
        requires
            old(self).well_formed(),
        ensures
            *final(self) == *final(this),
            this.well_formed(),
            this.klines() == old(self).klines(),
            this.strategies() == old(self).strategies(),
            this.sweep_id() == old(self).sweep_id(),
            this.current_trades() == Seq::<Trade>::empty(),
            this.outcomes() == old(self).outcomes() + run_outcomes(
                old(self).klines(),
                old(self).strategies(),
            ),
    {
        let total: usize = self.strategies.len();
        let budget: usize = self.klines_data.len() / REPORT_EVERY + 1;
        let (sender, receiver) = share_channel();
        let ghost before = self.outcomes();
        let mut i: usize = 0;
        while i < total
            invariant
                i <= total,
                total == self.strategies@.len(),
                self.well_formed(),
                self.klines_data == old(self).klines_data,
                self.strategies == old(self).strategies,
                self.id == old(self).id,
                before == old(self).outcomes(),
                self.outcomes() == before + run_outcomes(
                    self.klines_data@,
                    self.strategies@.take(i as int),
                ),
            decreases total - i,
        {
            let strategy = self.strategies[i];
            let ghost sofar = self.outcomes();
            assert(strategy.params.well_formed());
            self.create_trades_from_strategy(&strategy, &sender);
            relay(&receiver, &self.progression_tracker, self.id, i, total, budget);
            let mut params = strategy.params;
            assert(self.current_strategy_money_evolution@ =~= Seq::<i64>::empty());
            let halted = resolve_trades(
                self.klines_data.as_slice(),
                &mut self.trades,
                &mut params,
                &mut self.current_strategy_money_evolution,
                Some(&sender),
            );
            relay(&receiver, &self.progression_tracker, self.id, i, total, budget);
            let result = generate_results(
                &strategy,
                params.money,
                &self.trades,
                &self.current_strategy_money_evolution,
                halted,
            );
            assert(result@ == run_outcome(self.klines_data@, strategy));
            self.results.push(result);
            self.clean_trades();
            proof {
                let done = self.strategies@.take(i as int);
                let next = self.strategies@.take(i + 1);
                assert(result@ == run_outcome(self.klines_data@, strategy));
                assert(self.outcomes() =~= sofar.push(result@));
                assert(run_outcomes(self.klines_data@, next) =~= run_outcomes(
                    self.klines_data@,
                    done,
                ).push(run_outcome(self.klines_data@, strategy)));
                assert(self.outcomes() =~= before + run_outcomes(self.klines_data@, next));
            }
            i += 1;
        }
        proof {
            assert(self.strategies@.take(total as int) =~= self.strategies@);
        }
        send_sweep_share(&self.progression_tracker, 10_000, self.id);
        self
    }

    fn create_trades_from_strategy(&mut self, strategy: &Strategy, progression_tracker: &Sender<u32>)
        requires
            all_well_formed(old(self).klines_data@),
            strategy.params.well_formed(),
        ensures
            final(self).trades@ == trades_from(
                old(self).klines_data@,
                0,
                strategy.params,
                strategy.pattern,
                false,
            ),
            all_trades_well_formed(final(self).trades@),
            final(self).klines_data == old(self).klines_data,
            final(self).strategies == old(self).strategies,
            final(self).results == old(self).results,
            final(self).current_strategy_money_evolution == old(
                self,
            ).current_strategy_money_evolution,
            final(self).progression_tracker == old(self).progression_tracker,
            final(self).id == old(self).id,
    {
        self.trades = create_trades(
            &self.klines_data,
            Some(progression_tracker),
            strategy.params,
            strategy.pattern,
            false,
        );
    }

    fn clean_trades(&mut self)
        ensures
            final(self).trades@ == Seq::<Trade>::empty(),
            final(self).current_strategy_money_evolution@ == Seq::<i64>::empty(),
            final(self).klines_data == old(self).klines_data,
            final(self).strategies == old(self).strategies,
            final(self).results == old(self).results,
            final(self).progression_tracker == old(self).progression_tracker,
            final(self).id == old(self).id,
    {
        self.trades.clear();
        self.current_strategy_money_evolution.clear();
    }

    pub fn add_strategy(&mut self, strategy: Strategy) -> (this: &mut Self)
        requires
            old(self).well_formed(),
            strategy.params.well_formed(),
        ensures
            *final(self) == *final(this),
            this.well_formed(),
            this.strategies() == old(self).strategies().push(strategy),
            this.klines() == old(self).klines(),
            this.outcomes() == old(self).outcomes(),
            this.current_trades() == old(self).current_trades(),
            this.sweep_id() == old(self).sweep_id(),
    {
        let ghost before = self.strategies@;
        self.strategies.push(strategy);
        proof {
            assert forall|i: int| 0 <= i < self.strategies@.len() implies (
            #[trigger] self.strategies@[i]).params.well_formed() by {
                if i < before.len() {
                    assert(before[i].params.well_formed());
                }
            }
        }
        self
    }

    /// Adds the strategies in their order and leaves the given list empty.
    pub fn add_strategies(&mut self, strategies: &mut Vec<Strategy>) -> (this: &mut Self)
        requires
            old(self).well_formed(),
            all_strategies_well_formed(old(strategies)@),
        ensures
            *final(self) == *final(this),
            this.well_formed(),
            this.strategies() == old(self).strategies() + old(strategies)@,
            final(strategies)@ == Seq::<Strategy>::empty(),
            this.klines() == old(self).klines(),
            this.outcomes() == old(self).outcomes(),
            this.current_trades() == old(self).current_trades(),
            this.sweep_id() == old(self).sweep_id(),
    {
        let ghost before = self.strategies@;
        let ghost added = strategies@;
        self.strategies.append(strategies);
        proof {
            assert forall|i: int| 0 <= i < self.strategies@.len() implies (
            #[trigger] self.strategies@[i]).params.well_formed() by {
                if i < before.len() {
                    assert(before[i].params.well_formed());
                } else {
                    assert(added[i - before.len()].params.well_formed());
                }
            }
        }
        self
    }

    /// The shares of the closed trades of the current run that were won,
    /// lost and of unknown result, as percentages with two decimals, and
    /// the number of closed trades.
    pub fn get_wr_ratio(&self) -> (ratios: (Option<u64>, Option<u64>, Option<u64>, usize))
        ensures
            ({
                let trades = self.current_trades();
                let closed = count_trades(trades, TradeFilter::Closed);
                &&& ratios.3 == closed
                &&& ratios.0 == percentage(
                    count_trades(trades, TradeFilter::Is(Status::Closed(TradeResult::Win))) as int,
                    closed as int,
                )
                &&& ratios.1 == percentage(
                    count_trades(trades, TradeFilter::Is(Status::Closed(TradeResult::Lost))) as int,
                    closed as int,
                )
                &&& ratios.2 == percentage(
                    count_trades(
                        trades,
                        TradeFilter::Is(Status::Closed(TradeResult::Unknown)),
                    ) as int,
                    closed as int,
                )
            }),
    {
        let total_closed = count_matching(&self.trades, TradeFilter::Closed);
        let win = count_matching(&self.trades, TradeFilter::Is(Status::Closed(TradeResult::Win)));
        let loss = count_matching(
            &self.trades,
            TradeFilter::Is(Status::Closed(TradeResult::Lost)),
        );
        let unknown = count_matching(
            &self.trades,
            TradeFilter::Is(Status::Closed(TradeResult::Unknown)),
        );
        (
            percent_of(win, total_closed),
            percent_of(loss, total_closed),
            percent_of(unknown, total_closed),
            total_closed,
        )
    }

    /// As `get_wr_ratio`, of the trades of one strategy.
    pub fn get_wr_ratio_with_strategy(&self, strategy: StrategyName) -> (ratios: (
        Option<u64>,
        Option<u64>,
        Option<u64>,
        usize,
    ))
        ensures
            ({
                let trades = self.current_trades();
                let closed = count_trades(trades, TradeFilter::ClosedOf(strategy));
                &&& ratios.3 == closed
                &&& ratios.0 == percentage(
                    count_trades(
                        trades,
                        TradeFilter::IsOf(Status::Closed(TradeResult::Win), strategy),
                    ) as int,
                    closed as int,
                )
                &&& ratios.1 == percentage(
                    count_trades(
                        trades,
                        TradeFilter::IsOf(Status::Closed(TradeResult::Lost), strategy),
                    ) as int,
                    closed as int,
                )
                &&& ratios.2 == percentage(
                    count_trades(
                        trades,
                        TradeFilter::IsOf(Status::Closed(TradeResult::Unknown), strategy),
                    ) as int,
                    closed as int,
                )
            }),
    {
        let total_closed = count_matching(&self.trades, TradeFilter::ClosedOf(strategy));
        let win = count_matching(
            &self.trades,
            TradeFilter::IsOf(Status::Closed(TradeResult::Win), strategy),
        );
        let loss = count_matching(
            &self.trades,
            TradeFilter::IsOf(Status::Closed(TradeResult::Lost), strategy),
        );
        let unknown = count_matching(
            &self.trades,
            TradeFilter::IsOf(Status::Closed(TradeResult::Unknown), strategy),
        );
        (
            percent_of(win, total_closed),
            percent_of(loss, total_closed),
            percent_of(unknown, total_closed),
            total_closed,
        )
    }

    pub fn get_num_closed(&self) -> (n: usize)
        ensures
            n == count_trades(self.current_trades(), TradeFilter::Closed),
    {
        count_matching(&self.trades, TradeFilter::Closed)
    }

    pub fn get_num_status(&self, trade_status: Status) -> (n: usize)
        ensures
            n == count_trades(self.current_trades(), TradeFilter::Is(trade_status)),
    {
        count_matching(&self.trades, TradeFilter::Is(trade_status))
    }

    /// A copy of the records of the runs so far.
    pub fn get_results(&self) -> (results: Vec<StrategyResult>)
        ensures
            results@.len() == self.outcomes().len(),
            forall|i: int| 0 <= i < results@.len() ==> (#[trigger] results@[i])@ == self.outcomes()[i],
    {
        let mut results: Vec<StrategyResult> = Vec::new();
        let mut i: usize = 0;
        while i < self.results.len()
            invariant
                i <= self.results.len(),
                results@.len() == i,
                forall|k: int| 0 <= k < i ==> (#[trigger] results@[k])@ == self.results@[k]@,
            decreases self.results.len() - i,
        {
            let copy = copy_result(&self.results[i]);
            results.push(copy);
            i += 1;
        }
        results
    }
}

} // verus!
