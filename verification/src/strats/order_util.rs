//! Placing orders and sweeping cancellations in a uniform shape.
use crate::strats::gateway::OrderHandle;
use crate::strats::gateway::OrderKind;
use crate::strats::gateway::OrderRequest;
use crate::strats::gateway::OrderStatus;
use crate::strats::gateway::Progress;
use crate::strats::gateway::Request;
use vstd::prelude::*;

verus! {

/// The report that stands in for a placement that got no answer: a
/// cancelled order without identifier.
pub open spec fn cancelled_report() -> OrderStatus {
    OrderStatus {
        order_id: None,
        client_order_id: None,
        is_live: false,
        is_cancelled: true,
        would_post: false,
        remaining_amount: None,
        price: None,
    }
}

/// What a placement came to: the gateway's report, or the cancelled
/// stand-in where there was none.
pub open spec fn placement_result(reply: Option<OrderStatus>) -> OrderStatus {
    match reply {
        Some(st) => st,
        None => cancelled_report(),
    }
}

/// Settles a placement: every caller gets a report, cancelled where the
/// gateway gave no answer.
pub fn new_order(reply: Option<OrderStatus>) -> (st: OrderStatus)
    ensures
        st == placement_result(reply),
{
    match reply {
        Some(st) => st,
        None => OrderStatus {
            order_id: None,
            client_order_id: None,
            is_live: false,
            is_cancelled: true,
            would_post: false,
            remaining_amount: None,
            price: None,
        },
    }
}

/// A post-only buy order.
pub fn new_maker_order(client_order_id: u32, amount: u64, price: u64) -> (req: OrderRequest)
    ensures
        req == (OrderRequest { client_order_id, amount, price, kind: OrderKind::MakerOrCancel }),
{
    OrderRequest { client_order_id, amount, price, kind: OrderKind::MakerOrCancel }
}

/// An immediate-or-cancel buy order.
pub fn new_taker_order(client_order_id: u32, amount: u64, price: u64) -> (req: OrderRequest)
    ensures
        req == (OrderRequest { client_order_id, amount, price, kind: OrderKind::ImmediateOrCancel }),
{
    OrderRequest { client_order_id, amount, price, kind: OrderKind::ImmediateOrCancel }
}

/// Where a cancellation sweep stands.
#[derive(Clone, Copy, Debug, PartialEq, Eq)]
pub enum SweepStage {
    /// Nothing asked yet.
    Start,
    /// The status of the order at `next` was asked for.
    Status,
    /// The cancellation of the order at `next` was asked for.
    Cancel,
    /// Every order was gone through.
    Finished,
}

/// A sweep over a ledger of orders that cancels those still live.
#[derive(Clone, Copy, Debug, PartialEq, Eq)]
pub struct CancelSweep {
    pub stage: SweepStage,
    /// Position of the order in hand.
    pub next: usize,
    /// No status was missing and no cancellation failed so far.
    pub complete: bool,
}

/// A sweep that has asked nothing yet.
pub open spec fn fresh_sweep() -> CancelSweep {
    CancelSweep { stage: SweepStage::Start, next: 0, complete: true }
}

/// The sweep turns to the order at position `i`, or finishes past the end.
pub open spec fn sweep_turn_to(sweep: CancelSweep, ids: Seq<OrderHandle>, i: int) -> (CancelSweep, Progress) {
    if 0 <= i < ids.len() && i <= usize::MAX {
        (
            CancelSweep { stage: SweepStage::Status, next: i as usize, complete: sweep.complete },
            Progress::Ask(Request::OrderStatus(ids[i].order_id)),
        )
    } else {
        (
            CancelSweep { stage: SweepStage::Finished, next: sweep.next, complete: sweep.complete },
            Progress::Done(sweep.complete),
        )
    }
}

/// One step of the sweep: the state and the request that follow a reply.
///
/// A missing status marks the sweep incomplete and the sweep moves on. A
/// live order is cancelled; a cancellation that is not confirmed marks the
/// sweep incomplete. An order that is not live is passed over.
pub open spec fn sweep_step(sweep: CancelSweep, ids: Seq<OrderHandle>, reply: Option<OrderStatus>) -> (
    CancelSweep,
    Progress,
) {
    match sweep.stage {
        SweepStage::Start => sweep_turn_to(
            CancelSweep { stage: SweepStage::Start, next: 0, complete: true },
            ids,
            0,
        ),
        SweepStage::Status => {
            if sweep.next >= ids.len() {
                sweep_turn_to(sweep, ids, ids.len() as int)
            } else {
                match reply {
                    None => sweep_turn_to(
                        CancelSweep { complete: false, ..sweep },
                        ids,
                        sweep.next + 1,
                    ),
                    Some(st) => if st.is_live {
                        (
                            CancelSweep { stage: SweepStage::Cancel, ..sweep },
                            Progress::Ask(Request::CancelOrder(ids[sweep.next as int].order_id)),
                        )
                    } else {
                        sweep_turn_to(sweep, ids, sweep.next + 1)
                    },
                }
            }
        },
        SweepStage::Cancel => {
            let confirmed = reply matches Some(st) && st.is_cancelled;
            sweep_turn_to(
                CancelSweep { complete: sweep.complete && confirmed, ..sweep },
                ids,
                sweep.next + 1,
            )
        },
        SweepStage::Finished => (sweep, Progress::Done(sweep.complete)),
    }
}

impl CancelSweep {
    /// A sweep that has asked nothing yet.
    pub fn new() -> (sweep: CancelSweep)
        ensures
            sweep == fresh_sweep(),
    {
        CancelSweep { stage: SweepStage::Start, next: 0, complete: true }
    }

    fn turn_to(&mut self, order_ids: &Vec<OrderHandle>, i: usize) -> (p: Progress)
        ensures
            (*final(self), p) == sweep_turn_to(*old(self), order_ids@, i as int),
    {
        if i < order_ids.len() {
            self.stage = SweepStage::Status;
            self.next = i;
            Progress::Ask(Request::OrderStatus(order_ids[i].order_id))
        } else {
            self.stage = SweepStage::Finished;
            Progress::Done(self.complete)
        }
    }
}

/// Takes the sweep one step on: `reply` answers the request that the
/// previous step handed out (it is not read at the start), and the result
/// is the next request, or `Done` with `true` where no status was missing
/// and every cancellation was confirmed.
pub fn cancel_orders_if_open(
    sweep: &mut CancelSweep,
    order_ids: &Vec<OrderHandle>,
    reply: Option<OrderStatus>,
) -> (p: Progress)
    ensures
        (*final(sweep), p) == sweep_step(*old(sweep), order_ids@, reply),
{
    match sweep.stage {
        SweepStage::Start => {
            sweep.next = 0;
            sweep.complete = true;
            sweep.turn_to(order_ids, 0)
        },
        SweepStage::Status => {
            if sweep.next >= order_ids.len() {
                sweep.turn_to(order_ids, order_ids.len())
            } else {
                match reply {
                    None => {
                        sweep.complete = false;
                        let i: usize = sweep.next + 1;
                        sweep.turn_to(order_ids, i)
                    },
                    Some(st) => {
                        if st.is_live {
                            sweep.stage = SweepStage::Cancel;
                            Progress::Ask(Request::CancelOrder(order_ids[sweep.next].order_id))
                        } else {
                            let i: usize = sweep.next + 1;
                            sweep.turn_to(order_ids, i)
                        }
                    },
                }
            }
        },
        SweepStage::Cancel => {
            let confirmed = match reply {
                Some(st) => st.is_cancelled,
                None => false,
            };
            sweep.complete = sweep.complete && confirmed;
            if sweep.next < usize::MAX {
                let i: usize = sweep.next + 1;
                sweep.turn_to(order_ids, i)
            } else {
                sweep.turn_to(order_ids, order_ids.len())
            }
        },
        SweepStage::Finished => Progress::Done(sweep.complete),
    }
}

/// What the sweep hands out, step by step, as the replies come in.
pub open spec fn sweep_requests(
    sweep: CancelSweep,
    ids: Seq<OrderHandle>,
    replies: Seq<Option<OrderStatus>>,
) -> Seq<Progress>
    decreases replies.len(),
{
    if replies.len() == 0 {
        Seq::empty()
    } else {
        let next = sweep_step(sweep, ids, replies[0]);
        seq![next.1] + sweep_requests(next.0, ids, replies.skip(1))
    }
}

/// Where the sweep stands once the replies came in.
pub open spec fn sweep_end(sweep: CancelSweep, ids: Seq<OrderHandle>, replies: Seq<Option<OrderStatus>>) -> CancelSweep
    decreases replies.len(),
{
    if replies.len() == 0 {
        sweep
    } else {
        sweep_end(sweep_step(sweep, ids, replies[0]).0, ids, replies.skip(1))
    }
}

/// An order reported live is cancelled at once.
pub proof fn lemma_sweep_cancels_live(sweep: CancelSweep, ids: Seq<OrderHandle>, st: OrderStatus)
    requires
        sweep.stage is Status,
        sweep.next < ids.len(),
        st.is_live,
    ensures
        sweep_step(sweep, ids, Some(st)).1 == Progress::Ask(
            Request::CancelOrder(ids[sweep.next as int].order_id),
        ),
{
}

/// A sweep under way that reaches its end has asked for the status of
/// every order behind the one in hand.
proof fn lemma_sweep_covers_from(
    sweep: CancelSweep,
    ids: Seq<OrderHandle>,
    replies: Seq<Option<OrderStatus>>,
    i: int,
)
    requires
        sweep.stage is Status || sweep.stage is Cancel,
        sweep.next < i < ids.len() <= usize::MAX,
        sweep_end(sweep, ids, replies).stage is Finished,
    ensures
        sweep_requests(sweep, ids, replies).contains(Progress::Ask(Request::OrderStatus(ids[i].order_id))),
    decreases replies.len(),
{
    let wanted = Progress::Ask(Request::OrderStatus(ids[i].order_id));
    let next = sweep_step(sweep, ids, replies[0]);
    let rest = sweep_requests(next.0, ids, replies.skip(1));
    let all = sweep_requests(sweep, ids, replies);
    assert(all == seq![next.1] + rest);
    if next.1 == wanted {
        assert(all[0] == wanted);
    } else {
        lemma_sweep_covers_from(next.0, ids, replies.skip(1), i);
        let j = choose|j: int| 0 <= j < rest.len() && rest[j] == wanted;
        assert(all[j + 1] == wanted);
    }
}

/// A sweep that reaches its end has asked for the status of every order
/// on the list: none is passed over, whatever the gateway answered.
pub proof fn lemma_sweep_covers(ids: Seq<OrderHandle>, replies: Seq<Option<OrderStatus>>, i: int)
    requires
        0 <= i < ids.len() <= usize::MAX,
        sweep_end(fresh_sweep(), ids, replies).stage is Finished,
    ensures
        sweep_requests(fresh_sweep(), ids, replies).contains(
            Progress::Ask(Request::OrderStatus(ids[i].order_id)),
        ),
{
    let wanted = Progress::Ask(Request::OrderStatus(ids[i].order_id));
    let next = sweep_step(fresh_sweep(), ids, replies[0]);
    let rest = sweep_requests(next.0, ids, replies.skip(1));
    let all = sweep_requests(fresh_sweep(), ids, replies);
    assert(all == seq![next.1] + rest);
    if i == 0 {
        assert(all[0] == wanted);
    } else {
        lemma_sweep_covers_from(next.0, ids, replies.skip(1), i);
        let j = choose|j: int| 0 <= j < rest.len() && rest[j] == wanted;
        assert(all[j + 1] == wanted);
    }
}

} // verus!
