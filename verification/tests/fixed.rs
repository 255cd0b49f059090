use dca_core::strats::dca_static::StaticStrat;
use dca_core::strats::gateway::OrderHandle;
use dca_core::strats::gateway::OrderKind;
use dca_core::strats::gateway::OrderRequest;
use dca_core::strats::gateway::OrderStatus;
use dca_core::strats::gateway::Progress;
use dca_core::strats::gateway::Request;
use dca_core::strats::strat::Execute;
use dca_core::strats::strat_util::SCALE;

fn report(id: Option<u64>, cancelled: bool, would_post: bool) -> OrderStatus {
    OrderStatus {
        order_id: id,
        client_order_id: None,
        is_live: false,
        is_cancelled: cancelled,
        would_post,
        remaining_amount: None,
        price: None,
    }
}

fn ledger(ids: &[u64]) -> Vec<OrderHandle> {
    ids.iter().map(|id| OrderHandle { order_id: *id, client_order_id: 0 }).collect()
}

fn placed(s: &mut StaticStrat, orders: &mut Vec<OrderHandle>, ask: u64) {
    let p = s.execute(orders, ask, None);
    assert!(matches!(p, Progress::Ask(Request::NewOrder(_))));
}

#[test]
fn cycle_places_one_immediate_order_for_the_budget() {
    let mut s = StaticStrat::new(25 * SCALE);
    let mut orders: Vec<OrderHandle> = vec![];
    assert_eq!(
        s.execute(&mut orders, 50_000 * SCALE, None),
        Progress::Ask(Request::NewOrder(OrderRequest {
            client_order_id: 0,
            amount: 50_000,
            price: 50_000 * SCALE,
            kind: OrderKind::ImmediateOrCancel,
        }))
    );
    assert!(s.placing);
    assert!(orders.is_empty());
}

#[test]
fn filled_order_becomes_the_sole_slot() {
    let mut s = StaticStrat::new(25 * SCALE);
    let mut orders: Vec<OrderHandle> = vec![];
    placed(&mut s, &mut orders, 100 * SCALE);
    assert_eq!(s.execute(&mut orders, 100 * SCALE, Some(report(Some(7), false, false))), Progress::Done(true));
    assert_eq!(orders, ledger(&[7]));
    assert!(!s.placing);
}

#[test]
fn next_purchase_overwrites_the_slot() {
    let mut s = StaticStrat::new(25 * SCALE);
    let mut orders = ledger(&[7]);
    placed(&mut s, &mut orders, 100 * SCALE);
    assert_eq!(s.execute(&mut orders, 100 * SCALE, Some(report(Some(8), false, false))), Progress::Done(true));
    assert_eq!(orders, ledger(&[8]));
    placed(&mut s, &mut orders, 100 * SCALE);
    assert_eq!(s.execute(&mut orders, 100 * SCALE, Some(report(Some(9), true, false))), Progress::Done(true));
    assert_eq!(orders, ledger(&[9]));
}

#[test]
fn order_that_would_post_fails_the_cycle() {
    let mut s = StaticStrat::new(25 * SCALE);
    let mut orders = ledger(&[7]);
    placed(&mut s, &mut orders, 100 * SCALE);
    assert_eq!(s.execute(&mut orders, 100 * SCALE, Some(report(Some(8), true, true))), Progress::Done(false));
    assert_eq!(orders, ledger(&[7]));
    assert!(!s.placing);
}

#[test]
fn would_post_on_an_order_not_cancelled_is_recorded() {
    let mut s = StaticStrat::new(25 * SCALE);
    let mut orders: Vec<OrderHandle> = vec![];
    placed(&mut s, &mut orders, 100 * SCALE);
    assert_eq!(s.execute(&mut orders, 100 * SCALE, Some(report(Some(8), false, true))), Progress::Done(true));
    assert_eq!(orders, ledger(&[8]));
}

#[test]
fn placement_without_answer_fails_the_cycle() {
    let mut s = StaticStrat::new(25 * SCALE);
    let mut orders = ledger(&[7]);
    placed(&mut s, &mut orders, 100 * SCALE);
    assert_eq!(s.execute(&mut orders, 100 * SCALE, None), Progress::Done(false));
    assert_eq!(orders, ledger(&[7]));
    placed(&mut s, &mut orders, 100 * SCALE);
    assert_eq!(s.execute(&mut orders, 100 * SCALE, Some(report(None, false, false))), Progress::Done(false));
    assert_eq!(orders, ledger(&[7]));
}

#[test]
fn ask_of_zero_fails_the_cycle_before_any_order() {
    let mut s = StaticStrat::new(25 * SCALE);
    let mut orders: Vec<OrderHandle> = vec![];
    assert_eq!(s.execute(&mut orders, 0, None), Progress::Done(false));
    assert!(!s.placing);
    let mut big = StaticStrat::new(u64::MAX);
    assert_eq!(big.execute(&mut orders, 1, None), Progress::Done(false));
}

#[test]
fn longer_ledger_keeps_its_other_entries() {
    let mut s = StaticStrat::new(25 * SCALE);
    let mut orders = ledger(&[1, 2, 3]);
    placed(&mut s, &mut orders, 100 * SCALE);
    assert_eq!(s.execute(&mut orders, 100 * SCALE, Some(report(Some(8), false, false))), Progress::Done(true));
    assert_eq!(orders[0], OrderHandle { order_id: 8, client_order_id: 0 });
    assert_eq!(orders[1..], ledger(&[2, 3])[..]);
}

#[test]
fn fixed_strategy_is_always_in_shape() {
    let mut s = StaticStrat::new(25 * SCALE);
    assert!(s.valid());
    let mut orders: Vec<OrderHandle> = vec![];
    placed(&mut s, &mut orders, 100 * SCALE);
    assert!(s.valid());
}
