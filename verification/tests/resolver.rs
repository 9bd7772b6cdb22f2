use backtester::backtest::{Status, StrategyName, Trade, TradeResult};
use backtester::resolver::{advance_trade, settle_trade, Halt};
use backtester::sizing::{compute_lots, open_position};
use backtester::patterns::MathKLine;
use backtester::resolver::resolve_trades;
use backtester::strategies::{MarketType, StrategyParams};

fn candle(close_time: i64, open: i64, high: i64, low: i64, close: i64) -> MathKLine {
    MathKLine {
        open_time: close_time - 1,
        open,
        high,
        low,
        close,
        volume: 0,
        close_time,
        quote_asset_volume: 0,
        number_of_trades: 0,
        taker_buy_base_asset_volume: 0,
        taker_buy_quote_asset_volume: 0,
    }
}

fn pending(entry_price: i64, sl: i64, tp: i64, open_time: i64) -> Trade {
    Trade {
        entry_price,
        sl,
        tp,
        status: Status::NotOpened,
        open_time,
        close_time: 0,
        money: 0,
        benefits: 0,
        loss: 0,
        taxes: 0,
        lots: 0,
        closing_kline: None,
        opening_kline: candle(open_time, entry_price, entry_price, entry_price, entry_price),
        strategy: StrategyName::W,
    }
}

fn params(market_type: MarketType, money: i64) -> StrategyParams {
    StrategyParams {
        tp_multiplier: 200,
        sl_multiplier: 100,
        risk_per_trade: 100,
        money,
        name: StrategyName::W,
        market_type,
    }
}

#[test]
fn winning_trade_credits_its_gain() {
    // entry 1000, stop 900, target 1200, equity 1_000_000:
    // lots = 1_000_000 * 100 * 100 * 1e8 / (10_000 * 200 * 100) = 5_000_000_000
    let klines = vec![
        candle(10, 990, 1010, 980, 1000),
        candle(20, 1000, 1100, 950, 1050),
        candle(30, 1050, 1250, 1000, 1200),
    ];
    let mut trades = vec![pending(1000, 900, 1200, 10)];
    let mut sp = params(MarketType::Spot, 1_000_000);
    let mut curve = Vec::new();
    let halt = resolve_trades(&klines, &mut trades, &mut sp, &mut curve, None);
    assert_eq!(halt, None);
    assert_eq!(trades[0].lots, 5_000_000_000);
    assert_eq!(trades[0].taxes, 0);
    assert_eq!(trades[0].benefits, 10_000);
    assert_eq!(trades[0].loss, 5_000);
    assert_eq!(trades[0].status, Status::Closed(TradeResult::Win));
    assert_eq!(trades[0].close_time, 30);
    assert_eq!(sp.money, 1_010_000);
    assert_eq!(curve, vec![1_010_000]);
}

#[test]
fn exhausted_equity_stops_the_pass() {
    let klines = vec![
        candle(10, 990, 1010, 980, 1000),
        candle(20, 1000, 1100, 850, 900),
        candle(30, 900, 1250, 800, 1200),
    ];
    let mut trades = vec![pending(1000, 900, 1200, 10), pending(1000, 900, 1200, 20)];
    let mut sp = params(MarketType::Spot, 5_000);
    sp.risk_per_trade = 20_000;
    let mut curve = Vec::new();
    let halt = resolve_trades(&klines, &mut trades, &mut sp, &mut curve, None);
    assert_eq!(halt, Some(Halt::EquityExhausted));
    assert_eq!(trades[0].status, Status::Closed(TradeResult::Lost));
    assert_eq!(trades[1].status, Status::NotOpened);
    assert!(sp.money <= 0);
    assert_eq!(curve.len(), 1);
}

#[test]
fn futures_position_pays_its_fee_when_it_opens() {
    let klines = vec![candle(10, 990, 1010, 980, 1000)];
    let mut trades = vec![pending(1000, 900, 1200, 10)];
    let mut sp = params(MarketType::Futures, 1_000_000);
    let mut curve = Vec::new();
    let halt = resolve_trades(&klines, &mut trades, &mut sp, &mut curve, None);
    assert_eq!(halt, None);
    // notional 5_000_000_000 * 1000 / 1e8 = 50_000, of which 0.02 % is 10
    assert_eq!(trades[0].lots, 5_000_000_000);
    assert_eq!(trades[0].taxes, 10);
    assert_eq!(trades[0].money, 999_990);
    assert_eq!(trades[0].status, Status::Running);
    assert_eq!(sp.money, 999_990);
    assert!(curve.is_empty());
}

#[test]
fn spot_position_is_capped_at_ten_times_the_equity() {
    let sp = StrategyParams {
        tp_multiplier: 100,
        sl_multiplier: 100,
        risk_per_trade: 10_000,
        money: 1_000_000,
        name: StrategyName::W,
        market_type: MarketType::Spot,
    };
    // uncapped: 1_000_000 * 1e8 / 1 = 1e14 lots, a notional of a hundred times the equity
    let lots = compute_lots(sp.money, &sp, 1000, 999).unwrap();
    assert_eq!(lots, 1_000_000_000_000);
    assert!((lots as i128) * 1000 <= (sp.money as i128) * 10 * 100_000_000);
    let mut futures = sp;
    futures.market_type = MarketType::Futures;
    assert_eq!(compute_lots(sp.money, &futures, 1000, 999), Some(100_000_000_000_000));
    // a notional between one and ten times the equity is left as it is
    let mut mild = sp;
    mild.risk_per_trade = 50;
    assert_eq!(compute_lots(sp.money, &mild, 1000, 999), Some(500_000_000_000));
    // the cap rounds down
    let mut bold = sp;
    bold.risk_per_trade = 1_000_000;
    assert_eq!(compute_lots(1, &bold, 3, 2), Some(333_333_333));
}

#[test]
fn position_without_a_risk_distance_is_empty() {
    let sp = params(MarketType::Futures, 1_000_000);
    assert_eq!(compute_lots(sp.money, &sp, 1000, 1000), Some(0));
    let mut no_target = sp;
    no_target.tp_multiplier = 0;
    assert_eq!(compute_lots(sp.money, &no_target, 1000, 900), Some(0));
}

#[test]
fn short_position_has_a_negative_size() {
    let sp = params(MarketType::Futures, 1_000_000);
    // entry below the stop: 1e18 / (2e6 * -100)
    assert_eq!(compute_lots(sp.money, &sp, 1000, 1100), Some(-5_000_000_000));
    let trade = pending(1000, 1100, 800, 10);
    let opening = open_position(&trade, &sp).unwrap();
    assert_eq!(opening.lots, -5_000_000_000);
    // the fee follows the notional: -50_000 / 5000
    assert_eq!(opening.taxes, -10);
    assert_eq!(opening.money, 1_000_010);
    assert_eq!(opening.benefits, 10_000);
    assert_eq!(opening.loss, 5_000);
}

#[test]
fn position_too_large_for_its_field_stops_the_pass() {
    let klines = vec![candle(10, 990, 1010, 980, 1000), candle(20, 1000, 1300, 990, 1250)];
    let mut trades = vec![pending(1000, 900, 1200, 10)];
    let mut sp = params(MarketType::Spot, i64::MAX);
    let mut curve = Vec::new();
    let before = trades.clone();
    let halt = resolve_trades(&klines, &mut trades, &mut sp, &mut curve, None);
    assert_eq!(halt, Some(Halt::AmountOverflow));
    assert_eq!(trades, before);
    assert_eq!(sp.money, i64::MAX);
    assert!(curve.is_empty());
}

#[test]
fn gain_beyond_the_range_leaves_the_trade_running() {
    let mut trade = pending(1000, 900, 1200, 10);
    trade.status = Status::Running;
    trade.benefits = i64::MAX;
    let step = settle_trade(&trade, &candle(20, 1000, 1300, 990, 1250), 1);
    assert_eq!(step.halt, Some(Halt::AmountOverflow));
    assert_eq!(step.trade, trade);
    assert_eq!(step.money, 1);
    assert!(!step.recorded);
}

#[test]
fn candle_that_holds_stop_and_target_leaves_the_result_unknown() {
    let mut trade = pending(1000, 900, 1200, 10);
    trade.status = Status::Running;
    trade.benefits = 10_000;
    trade.loss = 5_000;
    let wide = candle(20, 1000, 1200, 900, 1100);
    let step = settle_trade(&trade, &wide, 777);
    assert_eq!(step.trade.status, Status::Closed(TradeResult::Unknown));
    assert_eq!(step.trade.close_time, 20);
    assert_eq!(step.trade.closing_kline, Some(wide));
    assert_eq!(step.money, 777);
    assert!(!step.recorded);
    assert_eq!(step.halt, None);

    let klines = vec![candle(10, 990, 1010, 980, 1000), wide];
    let mut trades = vec![pending(1000, 900, 1200, 10)];
    let mut sp = params(MarketType::Spot, 1_000_000);
    let mut curve = Vec::new();
    resolve_trades(&klines, &mut trades, &mut sp, &mut curve, None);
    assert_eq!(trades[0].status, Status::Closed(TradeResult::Unknown));
    assert_eq!(sp.money, 1_000_000);
    assert!(curve.is_empty());
}

#[test]
fn stop_alone_debits_the_loss() {
    let mut trade = pending(1000, 900, 1200, 10);
    trade.status = Status::Running;
    trade.benefits = 10_000;
    trade.loss = 5_000;
    let step = settle_trade(&trade, &candle(20, 1000, 1100, 900, 950), 20_000);
    assert_eq!(step.trade.status, Status::Closed(TradeResult::Lost));
    assert_eq!(step.money, 15_000);
    assert!(step.recorded);
    assert_eq!(step.halt, None);
    let quiet = settle_trade(&trade, &candle(20, 1000, 1100, 901, 950), 20_000);
    assert_eq!(quiet.trade, trade);
    assert_eq!(quiet.money, 20_000);
    assert!(!quiet.recorded);
    let ruined = settle_trade(&trade, &candle(20, 1000, 1100, 900, 950), 5_000);
    assert_eq!(ruined.money, 0);
    assert_eq!(ruined.halt, Some(Halt::EquityExhausted));
}

#[test]
fn trade_is_not_settled_on_the_candle_it_opens_on() {
    // the opening candle reaches the target, and the trade still runs
    let klines = vec![candle(10, 990, 1300, 980, 1000)];
    let mut trades = vec![pending(1000, 900, 1200, 10)];
    let mut sp = params(MarketType::Spot, 1_000_000);
    let mut curve = Vec::new();
    resolve_trades(&klines, &mut trades, &mut sp, &mut curve, None);
    assert_eq!(trades[0].status, Status::Running);
    assert_eq!(trades[0].close_time, 0);
}

#[test]
fn entry_out_of_reach_waits_for_a_retrace() {
    let klines = vec![
        candle(10, 1010, 1020, 1005, 1015),
        candle(20, 1015, 1300, 1001, 1250),
        candle(30, 1250, 1260, 1000, 1010),
        candle(40, 1010, 1250, 1005, 1240),
    ];
    let mut trades = vec![pending(1000, 900, 1200, 10)];
    let mut sp = params(MarketType::Spot, 1_000_000);
    let mut curve = Vec::new();
    let step = advance_trade(&trades[0], &klines[0], &sp);
    assert_eq!(step.trade.status, Status::NotTriggered);
    assert_eq!(step.trade.lots, 5_000_000_000);
    let still = advance_trade(&step.trade, &klines[1], &sp);
    assert_eq!(still.trade.status, Status::NotTriggered);
    let running = advance_trade(&still.trade, &klines[2], &sp);
    // candle 30 reaches the entry and the target, and only sets the trade running
    assert_eq!(running.trade.status, Status::Running);
    resolve_trades(&klines, &mut trades, &mut sp, &mut curve, None);
    assert_eq!(trades[0].status, Status::Closed(TradeResult::Win));
    assert_eq!(trades[0].close_time, 40);
    assert_eq!(curve, vec![1_010_000]);
}

#[test]
fn trade_whose_opening_candle_is_missing_never_opens() {
    let klines = vec![candle(5, 990, 1010, 980, 1000), candle(20, 1000, 1300, 800, 1250)];
    let mut trades = vec![pending(1000, 900, 1200, 10)];
    let mut sp = params(MarketType::Spot, 1_000_000);
    let mut curve = Vec::new();
    assert_eq!(resolve_trades(&klines, &mut trades, &mut sp, &mut curve, None), None);
    assert_eq!(trades[0].status, Status::NotOpened);
}

#[test]
fn second_pass_over_closed_trades_changes_nothing() {
    let klines = vec![
        candle(10, 990, 1010, 980, 1000),
        candle(20, 1000, 1100, 850, 900),
        candle(30, 900, 1250, 800, 1200),
        candle(40, 1200, 1260, 1190, 1250),
    ];
    let mut trades = vec![pending(1000, 900, 1200, 10), pending(1000, 950, 1200, 20)];
    let mut sp = params(MarketType::Spot, 1_000_000);
    let mut curve = Vec::new();
    assert_eq!(resolve_trades(&klines, &mut trades, &mut sp, &mut curve, None), None);
    assert_eq!(trades[0].status, Status::Closed(TradeResult::Lost));
    assert_eq!(trades[1].status, Status::Closed(TradeResult::Unknown));
    assert_eq!(curve.len(), 1);
    let (trades_before, money_before, curve_before) = (trades.clone(), sp.money, curve.clone());
    assert_eq!(resolve_trades(&klines, &mut trades, &mut sp, &mut curve, None), None);
    assert_eq!(trades, trades_before);
    assert_eq!(sp.money, money_before);
    assert_eq!(curve, curve_before);
}

#[test]
fn record_grows_with_wins_and_losses_only() {
    let klines = vec![
        candle(10, 990, 1010, 980, 1000),
        candle(20, 1000, 1010, 990, 1000),
        candle(30, 1000, 1250, 990, 1200),
        candle(40, 1200, 1210, 890, 900),
        candle(50, 900, 1300, 800, 1000),
    ];
    let mut trades = vec![
        pending(1000, 900, 1200, 10),
        pending(1000, 900, 1400, 20),
        pending(1000, 700, 1250, 30),
        pending(1000, 100, 5000, 40),
    ];
    let mut sp = params(MarketType::Spot, 1_000_000);
    let mut curve = Vec::new();
    assert_eq!(resolve_trades(&klines, &mut trades, &mut sp, &mut curve, None), None);
    assert_eq!(trades[0].status, Status::Closed(TradeResult::Win));
    assert_eq!(trades[1].status, Status::Closed(TradeResult::Lost));
    assert_eq!(trades[2].status, Status::Closed(TradeResult::Win));
    assert_eq!(trades[3].status, Status::Running);
    assert_eq!(curve.len(), 3);
    assert_eq!(*curve.last().unwrap(), sp.money);
}

#[test]
fn pass_reports_the_second_half_of_the_progress() {
    let mut klines = Vec::new();
    for i in 0..2500 {
        klines.push(candle(i, 1000, 1001, 999, 1000));
    }
    let mut trades: Vec<Trade> = Vec::new();
    let mut sp = params(MarketType::Spot, 1_000_000);
    let mut curve = Vec::new();
    let (tx, rx) = std::sync::mpsc::channel::<u32>();
    resolve_trades(&klines, &mut trades, &mut sp, &mut curve, Some(&tx));
    let sent: Vec<u32> = rx.try_iter().collect();
    assert_eq!(sent, vec![7002, 9004]);
}
