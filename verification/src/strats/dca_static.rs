//! The fixed-amount strategy: one immediate-or-cancel buy per cycle.
use crate::strats::gateway::OrderHandle;
use crate::strats::gateway::OrderStatus;
use crate::strats::gateway::Progress;
use crate::strats::gateway::Request;
use crate::strats::order_util::new_order;
use crate::strats::order_util::new_taker_order;
use crate::strats::order_util::placement_result;
use crate::strats::gateway::OrderKind;
use crate::strats::gateway::OrderRequest;
use crate::strats::strat::Execute;
use crate::strats::strat_util::amount_bought;
use crate::strats::strat_util::get_amount;
use vstd::prelude::*;

verus! {

/// Buys a fixed USD amount at the current ask.
pub struct StaticStrat {
    /// Budget of one purchase, in units of 1/SCALE USD.
    pub usd_per_trade: u64,
    /// The order of this cycle was placed and its report is awaited.
    pub placing: bool,
}

/// The ledger after a purchase was recorded: the order is its sole slot.
pub open spec fn record_sole(orders: Seq<OrderHandle>, id: u64) -> Seq<OrderHandle> {
    let order = OrderHandle { order_id: id, client_order_id: 0 };
    if orders.len() == 0 {
        seq![order]
    } else {
        orders.update(0, order)
    }
}

/// The order that a cycle places, where the budget buys a representable
/// amount at the ask.
pub open spec fn static_order(usd_per_trade: u64, ask: u64) -> Option<OrderRequest> {
    if ask > 0 && amount_bought(ask as int, usd_per_trade as int) <= u64::MAX {
        Some(
            OrderRequest {
                client_order_id: 0,
                amount: amount_bought(ask as int, usd_per_trade as int) as u64,
                price: ask,
                kind: OrderKind::ImmediateOrCancel,
            },
        )
    } else {
        None
    }
}

/// Whether a settled placement counts as a purchase to record: not one
/// that was cancelled because it would have rested on the book, and one
/// that carries an order identifier.
pub open spec fn static_recorded(st: OrderStatus) -> Option<u64> {
    if st.is_cancelled && st.would_post {
        None
    } else {
        st.order_id
    }
}

impl StaticStrat {
    pub fn new(usd_per_trade: u64) -> (s: StaticStrat)
        ensures
            s == (StaticStrat { usd_per_trade, placing: false }),
    {
        StaticStrat { usd_per_trade, placing: false }
    }
}

impl Execute for StaticStrat {
    open spec fn inv(&self) -> bool {
        true
    }

    open spec fn progress(&self, orders: Seq<OrderHandle>, ask: u64, reply: Option<OrderStatus>) -> Progress {
        if !self.placing {
            match static_order(self.usd_per_trade, ask) {
                Some(req) => Progress::Ask(Request::NewOrder(req)),
                None => Progress::Done(false),
            }
        } else {
            Progress::Done(static_recorded(placement_result(reply)) is Some)
        }
    }

    open spec fn ledger_after(&self, orders: Seq<OrderHandle>, ask: u64, reply: Option<OrderStatus>) -> Seq<OrderHandle> {
        if self.placing && static_recorded(placement_result(reply)) is Some {
            record_sole(orders, static_recorded(placement_result(reply))->0)
        } else {
            orders
        }
    }

    open spec fn steps_to(
        &self,
        orders: Seq<OrderHandle>,
        ask: u64,
        reply: Option<OrderStatus>,
        next: &Self,
    ) -> bool {
        next.usd_per_trade == self.usd_per_trade && next.placing == (self.progress(
            orders,
            ask,
            reply,
        ) is Ask)
    }

    fn valid(&self) -> (ok: bool) {
        true
    }

    /// An idle strategy sizes the purchase and asks for its placement, or
    /// fails where no amount can be computed. The report of the placement
    /// ends the cycle: failure, with the ledger untouched, where the order
    /// was cancelled because it would have rested on the book or carries
    /// no identifier; else success, with the order as the ledger's sole
    /// slot.
    fn execute(&mut self, orders: &mut Vec<OrderHandle>, ask: u64, reply: Option<OrderStatus>) -> (p:
        Progress)
        ensures
            final(orders)@.len() <= 1 || final(orders)@.len() == old(orders)@.len(),
    {
        if !self.placing {
            match get_amount(ask, self.usd_per_trade) {
                Some(amount) => {
                    self.placing = true;
                    Progress::Ask(Request::NewOrder(new_taker_order(0, amount, ask)))
                },
                None => Progress::Done(false),
            }
        } else {
            self.placing = false;
            let st = new_order(reply);
            if st.is_cancelled && st.would_post {
                return Progress::Done(false);
            }
            match st.order_id {
                None => Progress::Done(false),
                Some(id) => {
                    let order = OrderHandle { order_id: id, client_order_id: 0 };
                    if orders.len() == 0 {
                        orders.push(order);
                    } else {
                        orders.set(0, order);
                    }
                    Progress::Done(true)
                },
            }
        }
    }
}

/// The ledger of the fixed-amount strategy holds at most one order: a
/// ledger of at most one entry stays so through every step, a cycle that
/// succeeds leaves the order just placed as its only entry, and a step
/// that does not end a cycle in success leaves the ledger as it was.
pub proof fn lemma_static_ledger_single(
    s: StaticStrat,
    orders: Seq<OrderHandle>,
    ask: u64,
    reply: Option<OrderStatus>,
)
    requires
        orders.len() <= 1,
    ensures
        s.ledger_after(orders, ask, reply).len() <= 1,
        s.progress(orders, ask, reply) == Progress::Done(true) ==> s.ledger_after(
            orders,
            ask,
            reply,
        ) == seq![
            OrderHandle { order_id: static_recorded(placement_result(reply))->0, client_order_id: 0 },
        ],
        s.progress(orders, ask, reply) != Progress::Done(true) ==> s.ledger_after(orders, ask, reply)
            == orders,
{
    if s.placing && static_recorded(placement_result(reply)) is Some {
        let id = static_recorded(placement_result(reply))->0;
        assert(record_sole(orders, id) =~= seq![OrderHandle { order_id: id, client_order_id: 0 }]);
    }
}

} // verus!
