use dca_core::strats::gateway::order_side;
use dca_core::strats::gateway::order_type;
use dca_core::strats::gateway::OrderHandle;
use dca_core::strats::gateway::OrderKind;
use dca_core::strats::gateway::OrderRequest;
use dca_core::strats::gateway::OrderStatus;
use dca_core::strats::gateway::Progress;
use dca_core::strats::gateway::Reply;
use dca_core::strats::gateway::Request;
use dca_core::strats::gateway::SymbolDetail;
use dca_core::strats::gateway::Ticker;
use dca_core::strats::order_util::cancel_orders_if_open;
use dca_core::strats::order_util::new_maker_order;
use dca_core::strats::order_util::new_order;
use dca_core::strats::order_util::new_taker_order;
use dca_core::strats::order_util::CancelSweep;
use dca_core::strats::order_util::SweepStage;
use dca_core::strats::strat_util::get_info;
use dca_core::strats::strat_util::sleep_or_die;
use dca_core::strats::strat_util::symbol_open;

fn ledger(ids: &[u64]) -> Vec<OrderHandle> {
    ids.iter().map(|id| OrderHandle { order_id: *id, client_order_id: 2 }).collect()
}

fn report(id: u64, live: bool, cancelled: bool) -> OrderStatus {
    OrderStatus {
        order_id: Some(id),
        client_order_id: None,
        is_live: live,
        is_cancelled: cancelled,
        would_post: false,
        remaining_amount: None,
        price: None,
    }
}

#[test]
fn placement_without_answer_counts_as_cancelled() {
    let st = new_order(None);
    assert!(st.is_cancelled);
    assert!(!st.is_live);
    assert!(!st.would_post);
    assert_eq!(st.order_id, None);
    assert_eq!(st.client_order_id, None);
    assert_eq!(st.remaining_amount, None);
    assert_eq!(st.price, None);
}

#[test]
fn placement_with_answer_is_handed_on() {
    let st = report(77, true, false);
    assert_eq!(new_order(Some(st)), st);
    let gone = report(78, false, true);
    assert_eq!(new_order(Some(gone)), gone);
}

#[test]
fn maker_and_taker_orders_differ_in_kind_only() {
    assert_eq!(
        new_maker_order(3, 150, 9000),
        OrderRequest { client_order_id: 3, amount: 150, price: 9000, kind: OrderKind::MakerOrCancel }
    );
    assert_eq!(
        new_taker_order(0, 150, 9000),
        OrderRequest {
            client_order_id: 0,
            amount: 150,
            price: 9000,
            kind: OrderKind::ImmediateOrCancel
        }
    );
}

#[test]
fn order_words_of_the_exchange() {
    assert_eq!(OrderKind::MakerOrCancel.option(), "maker-or-cancel");
    assert_eq!(OrderKind::ImmediateOrCancel.option(), "immediate-or-cancel");
    assert_eq!(order_side(), "buy");
    assert_eq!(order_type(), "exchange limit");
}

#[test]
fn sweep_cancels_two_live_orders() {
    let ids = ledger(&[41, 42]);
    let mut sweep = CancelSweep::new();
    assert_eq!(
        cancel_orders_if_open(&mut sweep, &ids, None),
        Progress::Ask(Request::OrderStatus(41))
    );
    assert_eq!(
        cancel_orders_if_open(&mut sweep, &ids, Some(report(41, true, false))),
        Progress::Ask(Request::CancelOrder(41))
    );
    assert_eq!(
        cancel_orders_if_open(&mut sweep, &ids, Some(report(41, false, true))),
        Progress::Ask(Request::OrderStatus(42))
    );
    assert_eq!(
        cancel_orders_if_open(&mut sweep, &ids, Some(report(42, true, false))),
        Progress::Ask(Request::CancelOrder(42))
    );
    assert_eq!(
        cancel_orders_if_open(&mut sweep, &ids, Some(report(42, false, true))),
        Progress::Done(true)
    );
    assert_eq!(sweep.stage, SweepStage::Finished);
    assert_eq!(cancel_orders_if_open(&mut sweep, &ids, None), Progress::Done(true));
}

#[test]
fn sweep_passes_over_orders_that_are_not_live() {
    let ids = ledger(&[41, 42, 43]);
    let mut sweep = CancelSweep::new();
    assert_eq!(
        cancel_orders_if_open(&mut sweep, &ids, None),
        Progress::Ask(Request::OrderStatus(41))
    );
    assert_eq!(
        cancel_orders_if_open(&mut sweep, &ids, Some(report(41, false, false))),
        Progress::Ask(Request::OrderStatus(42))
    );
    assert_eq!(
        cancel_orders_if_open(&mut sweep, &ids, Some(report(42, false, true))),
        Progress::Ask(Request::OrderStatus(43))
    );
    assert_eq!(
        cancel_orders_if_open(&mut sweep, &ids, Some(report(43, false, false))),
        Progress::Done(true)
    );
}

#[test]
fn sweep_goes_on_after_a_missing_status() {
    let ids = ledger(&[41, 42]);
    let mut sweep = CancelSweep::new();
    cancel_orders_if_open(&mut sweep, &ids, None);
    assert_eq!(
        cancel_orders_if_open(&mut sweep, &ids, None),
        Progress::Ask(Request::OrderStatus(42))
    );
    assert!(!sweep.complete);
    assert_eq!(
        cancel_orders_if_open(&mut sweep, &ids, Some(report(42, true, false))),
        Progress::Ask(Request::CancelOrder(42))
    );
    assert_eq!(
        cancel_orders_if_open(&mut sweep, &ids, Some(report(42, false, true))),
        Progress::Done(false)
    );
}

#[test]
fn sweep_marks_an_unconfirmed_cancellation() {
    let ids = ledger(&[41]);
    let mut sweep = CancelSweep::new();
    cancel_orders_if_open(&mut sweep, &ids, None);
    cancel_orders_if_open(&mut sweep, &ids, Some(report(41, true, false)));
    assert_eq!(
        cancel_orders_if_open(&mut sweep, &ids, Some(report(41, true, false))),
        Progress::Done(false)
    );
    let mut again = CancelSweep::new();
    cancel_orders_if_open(&mut again, &ids, None);
    cancel_orders_if_open(&mut again, &ids, Some(report(41, true, false)));
    assert_eq!(cancel_orders_if_open(&mut again, &ids, None), Progress::Done(false));
}

#[test]
fn sweep_over_nothing_is_done_at_once() {
    let ids: Vec<OrderHandle> = vec![];
    let mut sweep = CancelSweep::new();
    assert_eq!(cancel_orders_if_open(&mut sweep, &ids, None), Progress::Done(true));
}

#[test]
fn wait_without_shutdown_runs_on() {
    let ids = ledger(&[41, 42]);
    let mut sweep = CancelSweep::new();
    assert_eq!(sleep_or_die(false, &mut sweep, &ids), Progress::Done(true));
    assert_eq!(sweep, CancelSweep::new());
}

#[test]
fn wait_cut_short_by_shutdown_starts_the_sweep() {
    let ids = ledger(&[41, 42]);
    let mut sweep = CancelSweep { stage: SweepStage::Finished, next: 1, complete: false };
    assert_eq!(sleep_or_die(true, &mut sweep, &ids), Progress::Ask(Request::OrderStatus(41)));
    assert_eq!(sweep, CancelSweep { stage: SweepStage::Status, next: 0, complete: true });
    let none: Vec<OrderHandle> = vec![];
    let mut idle = CancelSweep::new();
    assert_eq!(sleep_or_die(true, &mut idle, &none), Progress::Done(false));
}

#[test]
fn snapshot_needs_an_open_symbol_and_an_ask() {
    let open = Some(SymbolDetail { is_open: true });
    let closed = Some(SymbolDetail { is_open: false });
    let quote = Some(Ticker { ask: Some(5) });
    assert_eq!(get_info(open, quote), Some((SymbolDetail { is_open: true }, Ticker { ask: Some(5) })));
    assert_eq!(get_info(closed, quote), None);
    assert_eq!(get_info(None, quote), None);
    assert_eq!(get_info(open, None), None);
    assert_eq!(get_info(open, Some(Ticker { ask: None })), None);
    assert_eq!(get_info(open, Some(Ticker { ask: Some(0) })), None);
    assert!(symbol_open(&open));
    assert!(!symbol_open(&closed));
    assert!(!symbol_open(&None));
}

#[test]
fn reports_are_read_from_text() {
    let st = OrderStatus::parse(
        "106817811",
        Some("3"),
        true,
        false,
        None,
        "0.5",
        "80.00",
    );
    assert_eq!(
        st,
        OrderStatus {
            order_id: Some(106_817_811),
            client_order_id: Some(3),
            is_live: true,
            is_cancelled: false,
            would_post: false,
            remaining_amount: Some(50_000_000),
            price: Some(8_000_000_000),
        }
    );
    let gone = OrderStatus::parse("9", None, false, true, Some("ImmediateOrCancelWouldPost"), "", "x");
    assert_eq!(
        gone,
        OrderStatus {
            order_id: Some(9),
            client_order_id: None,
            is_live: false,
            is_cancelled: true,
            would_post: true,
            remaining_amount: None,
            price: None,
        }
    );
    let odd = OrderStatus::parse("", Some("4294967296"), false, true, Some("MakerOrCancelWouldTake"), "1", "1");
    assert_eq!(odd.order_id, None);
    assert_eq!(odd.client_order_id, None);
    assert!(!odd.would_post);
    assert_eq!(OrderStatus::parse("1", Some("4294967295"), false, false, None, "1", "1").client_order_id, Some(u32::MAX));
    assert_eq!(OrderStatus::parse("1", Some(""), false, false, None, "1", "1").client_order_id, None);
}

#[test]
fn status_and_quote_are_read_from_text() {
    assert!(SymbolDetail::parse("open").is_open);
    assert!(!SymbolDetail::parse("closed").is_open);
    assert!(!SymbolDetail::parse("Open").is_open);
    assert!(!SymbolDetail::parse("").is_open);
    assert_eq!(Ticker::parse("9168.23").ask, Some(916_823_000_000));
    assert_eq!(Ticker::parse("n/a").ask, None);
}

#[test]
fn reply_hands_out_its_report() {
    let st = report(5, true, false);
    assert_eq!(Reply::Order(Some(st)).order(), Some(st));
    assert_eq!(Reply::Order(None).order(), None);
    assert_eq!(Reply::Woke(true).order(), None);
    assert_eq!(Reply::Ticker(None).order(), None);
}
