use dca_core::cfg::Api;
use dca_core::cfg::Cfg;
use dca_core::cfg::StratDips;
use dca_core::cfg::StratStatic;
use dca_core::cfg::flag;
use dca_core::strats::dca_dips::DipStrat;
use dca_core::strats::dca_static::StaticStrat;
use dca_core::strats::gateway::OrderHandle;
use dca_core::strats::gateway::OrderKind;
use dca_core::strats::gateway::OrderRequest;
use dca_core::strats::gateway::OrderStatus;
use dca_core::strats::gateway::Progress;
use dca_core::strats::gateway::Reply;
use dca_core::strats::gateway::Request;
use dca_core::strats::gateway::SymbolDetail;
use dca_core::strats::gateway::Ticker;
use dca_core::strats::strat::Phase;
use dca_core::strats::strat::Strat;
use dca_core::strats::strat_util::WaitTime;
use dca_core::strats::strat_util::SCALE;

const RETRY: Request = Request::Wait(WaitTime { secs: 15, nanos: 0 });
const OPEN: Reply = Reply::SymbolDetail(Some(SymbolDetail { is_open: true }));

fn quote(ask: u64) -> Reply {
    Reply::Ticker(Some(Ticker { ask: Some(ask) }))
}

fn report(id: u64, live: bool, cancelled: bool) -> Reply {
    Reply::Order(Some(OrderStatus {
        order_id: Some(id),
        client_order_id: None,
        is_live: live,
        is_cancelled: cancelled,
        would_post: false,
        remaining_amount: None,
        price: None,
    }))
}

fn ids(orders: &Vec<OrderHandle>) -> Vec<u64> {
    orders.iter().map(|o| o.order_id).collect()
}

fn is_weekly_wait(r: Request) -> bool {
    match r {
        Request::Wait(w) => w.secs <= 7 * 86_400 + 3600 && w.nanos < 1_000_000_000 && w.secs != 15,
        _ => false,
    }
}

/// A scheduler with a dip strategy of three tiers whose two resting orders, 101 and 102, are out.
fn with_two_orders_out() -> (Strat, DipStrat) {
    let mut s = Strat::new("btcusd", 3, 10, 0, 0);
    let mut d = DipStrat::new(300, 5, 15).unwrap();
    assert_eq!(s.run(&mut d, Some(true), None), Request::Wait(WaitTime { secs: 0, nanos: 0 }));
    assert_eq!(s.run(&mut d, None, Some(Reply::Woke(false))), Request::SymbolDetail);
    assert_eq!(s.run(&mut d, None, Some(OPEN)), Request::Ticker);
    assert!(matches!(s.run(&mut d, None, Some(quote(100 * SCALE))), Request::NewOrder(_)));
    assert!(matches!(s.run(&mut d, None, Some(report(100, false, false))), Request::NewOrder(_)));
    assert!(matches!(s.run(&mut d, None, Some(report(101, true, false))), Request::NewOrder(_)));
    assert!(is_weekly_wait(s.run(&mut d, None, Some(report(102, true, false)))));
    assert_eq!(
        s.orders(),
        &vec![
            OrderHandle { order_id: 101, client_order_id: 2 },
            OrderHandle { order_id: 102, client_order_id: 3 },
        ]
    );
    assert_eq!(s.phase(), Phase::Waiting);
    (s, d)
}

#[test]
fn scheduler_starts_ready_with_an_empty_ledger() {
    let s = Strat::new("btcusd", 3, 10, 0, 0);
    assert_eq!(s.phase(), Phase::Ready);
    assert_eq!(s.symbol(), "btcusd");
    assert!(s.orders().is_empty());
}

#[test]
fn immediate_start_waits_for_nothing() {
    let mut s = Strat::new("btcusd", 3, 10, 0, 0);
    let mut ctx = StaticStrat::new(25 * SCALE);
    assert_eq!(s.run(&mut ctx, Some(true), None), Request::Wait(WaitTime { secs: 0, nanos: 0 }));
    assert_eq!(s.phase(), Phase::Waiting);
}

#[test]
fn scheduled_start_waits_for_the_target() {
    for immediate in [None, Some(false)] {
        let mut s = Strat::new("btcusd", 3, 10, 0, 0);
        let mut ctx = StaticStrat::new(25 * SCALE);
        let r = s.run(&mut ctx, immediate, None);
        match r {
            Request::Wait(w) => assert!(w.secs <= 7 * 86_400 + 3600 && w.nanos < 1_000_000_000),
            other => panic!("no wait: {:?}", other),
        }
        assert_eq!(s.phase(), Phase::Waiting);
    }
}

#[test]
fn target_that_is_no_moment_of_the_week_never_trades_and_never_exits() {
    for (day, hr) in [(8, 10), (3, 24)] {
        let mut s = Strat::new("btcusd", day, hr, 0, 0);
        let mut ctx = StaticStrat::new(25 * SCALE);
        assert_eq!(s.run(&mut ctx, None, None), RETRY);
        assert_eq!(s.phase(), Phase::Rearming);
        for _ in 0..5 {
            assert_eq!(s.run(&mut ctx, None, Some(Reply::Woke(false))), RETRY);
            assert_eq!(s.phase(), Phase::Rearming);
        }
        assert_eq!(s.run(&mut ctx, None, Some(OPEN)), RETRY);
        assert_eq!(s.phase(), Phase::Rearming);
        assert!(!ctx.placing);
        assert_eq!(s.run(&mut ctx, None, Some(Reply::Woke(true))), Request::Exit);
        assert_eq!(s.phase(), Phase::Terminated);
    }
}

#[test]
fn worker_exits_only_on_shutdown() {
    let mut s = Strat::new("btcusd", 3, 10, 0, 0);
    let mut ctx = StaticStrat::new(25 * SCALE);
    let mut request = s.run(&mut ctx, Some(true), None);
    // Every way a cycle can go wrong, over and over.
    let replies = [
        Reply::Woke(false),
        Reply::SymbolDetail(None),
        Reply::Woke(false),
        OPEN,
        Reply::Ticker(None),
        Reply::Woke(false),
        OPEN,
        quote(100 * SCALE),
        Reply::Order(None),
        Reply::Ticker(None),
        Reply::Woke(false),
        OPEN,
        quote(100 * SCALE),
        report(5, false, false),
        OPEN,
    ];
    for _ in 0..4 {
        for reply in replies {
            assert_ne!(request, Request::Exit);
            request = s.run(&mut ctx, None, Some(reply));
        }
    }
    assert_ne!(request, Request::Exit);
    assert_ne!(s.phase(), Phase::Terminated);
}

#[test]
fn fixed_amount_cycle_runs_and_rearms() {
    let mut s = Strat::new("ethusd", 5, 17, 30, 0);
    let mut ctx = StaticStrat::new(25 * SCALE);
    s.run(&mut ctx, Some(true), None);
    assert_eq!(s.run(&mut ctx, None, Some(Reply::Woke(false))), Request::SymbolDetail);
    assert_eq!(s.phase(), Phase::Detail);
    assert_eq!(s.run(&mut ctx, None, Some(OPEN)), Request::Ticker);
    assert_eq!(s.phase(), Phase::Ticker);
    assert_eq!(
        s.run(&mut ctx, None, Some(quote(2_000 * SCALE))),
        Request::NewOrder(OrderRequest {
            client_order_id: 0,
            amount: 1_250_000,
            price: 2_000 * SCALE,
            kind: OrderKind::ImmediateOrCancel,
        })
    );
    assert_eq!(s.phase(), Phase::Executing);
    assert!(is_weekly_wait(s.run(&mut ctx, None, Some(report(55, false, false)))));
    assert_eq!(s.phase(), Phase::Waiting);
    assert_eq!(s.orders(), &vec![OrderHandle { order_id: 55, client_order_id: 0 }]);
}

#[test]
fn missing_symbol_status_is_retried_in_fifteen_seconds() {
    let mut s = Strat::new("btcusd", 3, 10, 0, 0);
    let mut ctx = StaticStrat::new(25 * SCALE);
    s.run(&mut ctx, Some(true), None);
    s.run(&mut ctx, None, Some(Reply::Woke(false)));
    assert_eq!(s.run(&mut ctx, None, Some(Reply::SymbolDetail(None))), RETRY);
    assert_eq!(s.phase(), Phase::Waiting);
    assert!(!ctx.placing);
    // The retry runs the cycle again, and its success waits for the weekly target.
    assert_eq!(s.run(&mut ctx, None, Some(Reply::Woke(false))), Request::SymbolDetail);
    assert_eq!(s.run(&mut ctx, None, Some(OPEN)), Request::Ticker);
    assert!(matches!(s.run(&mut ctx, None, Some(quote(100 * SCALE))), Request::NewOrder(_)));
    let rearm = s.run(&mut ctx, None, Some(report(7, false, false)));
    assert!(is_weekly_wait(rearm));
    let direct = dca_core::strats::strat_util::get_dur_until_next_target_date(3, 10, 0, 0).unwrap();
    match rearm {
        Request::Wait(w) => assert!(w.secs == direct.secs || w.secs == direct.secs + 1),
        _ => unreachable!(),
    }
}

#[test]
fn closed_symbol_and_missing_quote_are_retried() {
    let mut s = Strat::new("btcusd", 3, 10, 0, 0);
    let mut ctx = StaticStrat::new(25 * SCALE);
    s.run(&mut ctx, Some(true), None);
    s.run(&mut ctx, None, Some(Reply::Woke(false)));
    assert_eq!(s.run(&mut ctx, None, Some(Reply::SymbolDetail(Some(SymbolDetail { is_open: false })))), RETRY);
    for bad in [
        Reply::Ticker(None),
        Reply::Ticker(Some(Ticker { ask: None })),
        Reply::Ticker(Some(Ticker { ask: Some(0) })),
    ] {
        s.run(&mut ctx, None, Some(Reply::Woke(false)));
        s.run(&mut ctx, None, Some(OPEN));
        assert_eq!(s.run(&mut ctx, None, Some(bad)), RETRY);
        assert_eq!(s.phase(), Phase::Waiting);
        assert!(!ctx.placing);
    }
}

#[test]
fn failed_cycle_is_retried_in_fifteen_seconds() {
    let mut s = Strat::new("btcusd", 3, 10, 0, 0);
    let mut ctx = StaticStrat::new(25 * SCALE);
    s.run(&mut ctx, Some(true), None);
    s.run(&mut ctx, None, Some(Reply::Woke(false)));
    s.run(&mut ctx, None, Some(OPEN));
    s.run(&mut ctx, None, Some(quote(100 * SCALE)));
    let would_post = Reply::Order(Some(OrderStatus {
        order_id: Some(9),
        client_order_id: None,
        is_live: false,
        is_cancelled: true,
        would_post: true,
        remaining_amount: None,
        price: None,
    }));
    assert_eq!(s.run(&mut ctx, None, Some(would_post)), RETRY);
    assert!(s.orders().is_empty());
    assert_eq!(s.phase(), Phase::Waiting);
}

#[test]
fn reply_to_another_request_fails_the_cycle() {
    let mut s = Strat::new("btcusd", 3, 10, 0, 0);
    let mut ctx = StaticStrat::new(25 * SCALE);
    s.run(&mut ctx, Some(true), None);
    assert_eq!(s.run(&mut ctx, None, Some(OPEN)), RETRY);
    assert_eq!(s.run(&mut ctx, None, None), RETRY);
    s.run(&mut ctx, None, Some(Reply::Woke(false)));
    assert_eq!(s.run(&mut ctx, None, Some(quote(100 * SCALE))), RETRY);
    s.run(&mut ctx, None, Some(Reply::Woke(false)));
    s.run(&mut ctx, None, Some(OPEN));
    assert_eq!(s.run(&mut ctx, None, Some(Reply::Woke(false))), RETRY);
    // Inside a cycle a reply that is no report counts as no answer.
    s.run(&mut ctx, None, Some(Reply::Woke(false)));
    s.run(&mut ctx, None, Some(OPEN));
    s.run(&mut ctx, None, Some(quote(100 * SCALE)));
    assert_eq!(s.run(&mut ctx, None, Some(Reply::Woke(true))), RETRY);
    assert!(s.orders().is_empty());
}

#[test]
fn shutdown_with_two_live_orders_cancels_both() {
    let (mut s, mut d) = with_two_orders_out();
    assert_eq!(s.run(&mut d, None, Some(Reply::Woke(true))), Request::OrderStatus(101));
    assert_eq!(s.phase(), Phase::Draining);
    assert_eq!(s.run(&mut d, None, Some(report(101, true, false))), Request::CancelOrder(101));
    assert_eq!(s.run(&mut d, None, Some(report(101, false, true))), Request::OrderStatus(102));
    assert_eq!(s.run(&mut d, None, Some(report(102, true, false))), Request::CancelOrder(102));
    assert_eq!(s.run(&mut d, None, Some(report(102, false, true))), Request::Exit);
    assert_eq!(s.phase(), Phase::Terminated);
    assert!(d.is_idle());
}

#[test]
fn terminated_scheduler_only_exits() {
    let (mut s, mut d) = with_two_orders_out();
    s.run(&mut d, None, Some(Reply::Woke(true)));
    s.run(&mut d, None, Some(report(101, false, false)));
    assert_eq!(s.run(&mut d, None, Some(report(102, false, true))), Request::Exit);
    for reply in [Some(Reply::Woke(false)), Some(Reply::Woke(true)), Some(OPEN), Some(quote(SCALE)), None] {
        assert_eq!(s.run(&mut d, Some(true), reply), Request::Exit);
        assert_eq!(s.phase(), Phase::Terminated);
    }
    assert_eq!(ids(s.orders()), vec![101, 102]);
}

#[test]
fn shutdown_goes_on_past_a_missing_status() {
    let (mut s, mut d) = with_two_orders_out();
    s.run(&mut d, None, Some(Reply::Woke(true)));
    assert_eq!(s.run(&mut d, None, Some(Reply::Order(None))), Request::OrderStatus(102));
    assert_eq!(s.run(&mut d, None, Some(Reply::Woke(false))), Request::Exit);
    assert_eq!(s.phase(), Phase::Terminated);
}

#[test]
fn shutdown_with_an_empty_ledger_exits_at_once() {
    let mut s = Strat::new("btcusd", 3, 10, 0, 0);
    let mut ctx = StaticStrat::new(25 * SCALE);
    s.run(&mut ctx, Some(true), None);
    assert_eq!(s.run(&mut ctx, None, Some(Reply::Woke(true))), Request::Exit);
    assert_eq!(s.phase(), Phase::Terminated);
}

#[test]
fn dip_cycle_after_a_week_reconciles_the_ledger() {
    let (mut s, mut d) = with_two_orders_out();
    assert_eq!(s.run(&mut d, None, Some(Reply::Woke(false))), Request::SymbolDetail);
    assert_eq!(s.run(&mut d, None, Some(OPEN)), Request::Ticker);
    assert_eq!(s.run(&mut d, None, Some(quote(100 * SCALE))), Request::OrderStatus(101));
    assert_eq!(s.run(&mut d, None, Some(Reply::Order(None))), RETRY);
    assert_eq!(ids(s.orders()), vec![101, 102]);
    assert!(d.is_idle());
}

#[test]
fn configuration_builds_schedulers_and_strategies() {
    let fixed = StratStatic {
        symbol: String::from("btcusd"),
        sandbox: Some(true),
        usd_per_trade: 25 * SCALE,
        trade_day: 3,
        trade_hr: 10,
        trade_min: 0,
        trade_sec: 0,
        immediate: None,
    };
    assert!(fixed.on_sandbox());
    assert_eq!(fixed.scheduler().symbol(), "btcusd");
    assert_eq!(fixed.scheduler().phase(), Phase::Ready);
    assert_eq!(fixed.strategy().usd_per_trade, 25 * SCALE);
    assert!(!fixed.strategy().placing);
    let dips = StratDips {
        symbol: String::from("ethusd"),
        sandbox: None,
        usd_per_window: 150,
        trade_day: 5,
        trade_hr: 17,
        trade_min: 30,
        trade_sec: 0,
        immediate: Some(true),
    };
    assert!(!dips.on_sandbox());
    let d = dips.strategy().unwrap();
    assert_eq!(d.n_trades(), 15);
    assert_eq!(d.usd_per_trade(), 10 * SCALE);
    assert_eq!(dips.scheduler().symbol(), "ethusd");
    assert!(flag(dips.immediate));
    assert!(!flag(Some(false)));
    assert!(!flag(None));
    let cfg = Cfg {
        api: Api { url: String::from("a"), key: String::from("k"), sec: String::from("s") },
        sandbox: Api { url: String::from("b"), key: String::from("k"), sec: String::from("s") },
        strat_static: vec![fixed],
        strat_dips: vec![dips],
    };
    assert_eq!(cfg.strat_static.len() + cfg.strat_dips.len(), 2);
    assert_eq!(cfg.api.url, "a");
    assert_eq!(cfg.sandbox.url, "b");
}

#[test]
fn progress_tells_request_from_result() {
    assert_ne!(Progress::Ask(Request::Exit), Progress::Done(true));
    assert_ne!(Progress::Done(false), Progress::Done(true));
}

#[test]
fn cycle_result_decides_the_next_wait() {
    let week = WaitTime { secs: 600_000, nanos: 5 };
    let mut s = Strat::new("btcusd", 3, 10, 0, 0);
    assert_eq!(s.conclude(Progress::Done(false), Some(week)), RETRY);
    assert_eq!(s.phase(), Phase::Waiting);
    assert_eq!(s.conclude(Progress::Done(true), Some(week)), Request::Wait(week));
    assert_eq!(s.phase(), Phase::Waiting);
    assert_eq!(s.conclude(Progress::Ask(Request::CancelOrder(4)), Some(week)), Request::CancelOrder(4));
    assert_eq!(s.phase(), Phase::Executing);
    assert_eq!(s.conclude(Progress::Done(true), None), RETRY);
    assert_eq!(s.phase(), Phase::Rearming);
}

#[test]
fn success_without_a_wait_rearms_and_keeps_the_ledger() {
    let (mut s, mut d) = with_two_orders_out();
    assert_eq!(s.conclude(Progress::Done(true), None), RETRY);
    assert_eq!(s.phase(), Phase::Rearming);
    // The wait is worked out anew; no cycle runs in between.
    assert!(is_weekly_wait(s.run(&mut d, None, Some(Reply::Woke(false)))));
    assert_eq!(s.phase(), Phase::Waiting);
    assert!(d.is_idle());
    assert_eq!(ids(s.orders()), vec![101, 102]);
    s.conclude(Progress::Done(true), None);
    assert_eq!(s.run(&mut d, None, Some(Reply::Woke(true))), Request::OrderStatus(101));
    assert_eq!(s.run(&mut d, None, Some(report(101, false, false))), Request::OrderStatus(102));
    assert_eq!(s.run(&mut d, None, Some(report(102, false, false))), Request::Exit);
}
