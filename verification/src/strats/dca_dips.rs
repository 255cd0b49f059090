//! The dip-bucket strategy: a weekly budget split over price tiers below
//! the ask, with what a tier's order left unfilled carried into the tier's
//! next order.
use crate::strats::gateway::OrderHandle;
use crate::strats::gateway::OrderKind;
use crate::strats::gateway::OrderRequest;
use crate::strats::gateway::OrderStatus;
use crate::strats::gateway::Progress;
use crate::strats::gateway::Request;
use crate::strats::order_util::new_maker_order;
use crate::strats::order_util::new_order;
use crate::strats::order_util::new_taker_order;
use crate::strats::order_util::placement_result;
use crate::strats::strat::Execute;
use crate::strats::strat_util::amount_bought;
use crate::strats::strat_util::get_amount;
use crate::strats::strat_util::get_usd;
use crate::strats::strat_util::lemma_amount_within_budget;
use crate::strats::strat_util::usd_value;
use crate::strats::strat_util::SCALE;
use vstd::prelude::*;

verus! {

/// Where a cycle of the dip-bucket strategy stands.
#[derive(Clone, Copy, Debug, PartialEq, Eq)]
pub enum DipStage {
    /// Between cycles.
    Idle,
    /// The status of the ledger's order at `cursor` was asked for.
    Status,
    /// The cancellation of the ledger's order at `cursor` was asked for.
    Cancel,
    /// The buy-now order was placed.
    Taker,
    /// The resting order of tier `cursor` was placed.
    Maker,
}

/// The dip-bucket strategy as a mathematical value.
pub struct DipModel {
    pub usd_per_window: u32,
    /// Percent between one tier and the next.
    pub interval: u32,
    /// Number of buckets.
    pub n_trades: u32,
    /// Nominal amount of each bucket.
    pub usd_per_trade: u64,
    /// Bucket of tier `i + 1` at index `i`.
    pub buckets: Seq<u64>,
    pub stage: DipStage,
    pub cursor: usize,
    /// The ask that the cycle in hand began with.
    pub ask: u64,
}

impl DipModel {
    /// Well-formedness: at least one bucket, the nominal amount an equal
    /// share of the window's budget, and, inside a cycle, an ask at which
    /// the nominal amount can be bought.
    pub open spec fn wf(self) -> bool {
        &&& 1 <= self.interval
        &&& 1 <= self.n_trades
        &&& self.buckets.len() == self.n_trades
        &&& self.usd_per_trade == (self.usd_per_window * SCALE) / (self.n_trades as int)
        &&& self.stage != DipStage::Idle ==> taker_order(self.usd_per_trade, self.ask) is Some
        &&& self.stage == DipStage::Maker ==> self.cursor <= self.n_trades
    }
}

/// Buckets after the refill that opens a cycle.
pub open spec fn nominal(n_trades: nat, usd_per_trade: u64) -> Seq<u64> {
    Seq::new(n_trades, |i: int| usd_per_trade)
}

/// Sum of the buckets.
pub open spec fn total(buckets: Seq<u64>) -> int
    decreases buckets.len(),
{
    if buckets.len() == 0 {
        0
    } else {
        total(buckets.drop_last()) + buckets.last()
    }
}

/// USD that an order of the previous cycle leaves to carry over: the
/// value of what is unfilled if the order is live or was cancelled,
/// nothing if it was filled. `None` where that value cannot be read.
pub open spec fn carry_over(st: OrderStatus) -> Option<u64> {
    if st.is_live || st.is_cancelled {
        match (st.remaining_amount, st.price) {
            (Some(amount), Some(price)) => if usd_value(amount as int, price as int) <= u64::MAX {
                Some(usd_value(amount as int, price as int) as u64)
            } else {
                None
            },
            _ => None,
        }
    } else {
        Some(0)
    }
}

/// Buckets after the carry-over of the order tagged `tag` went to the
/// bucket that the tag names. `None` where the report is unusable: it
/// carries another tag than the order was placed with or none, the tag
/// names no bucket, a value is unreadable, or the bucket would go beyond
/// `u64`.
pub open spec fn credit(buckets: Seq<u64>, tag: u32, st: OrderStatus) -> Option<Seq<u64>> {
    match carry_over(st) {
        Some(usd) => if st.client_order_id == Some(tag) && 1 <= tag <= buckets.len() && buckets[tag
            - 1] + usd <= u64::MAX {
            Some(buckets.update(tag - 1, (buckets[tag - 1] + usd) as u64))
        } else {
            None
        },
        None => None,
    }
}

/// The buy-now order: the nominal amount at the ask, where that amount can
/// be bought.
pub open spec fn taker_order(usd_per_trade: u64, ask: u64) -> Option<OrderRequest> {
    if ask > 0 && amount_bought(ask as int, usd_per_trade as int) <= u64::MAX {
        Some(
            OrderRequest {
                client_order_id: 0,
                amount: amount_bought(ask as int, usd_per_trade as int) as u64,
                price: ask,
                kind: OrderKind::ImmediateOrCancel,
            },
        )
    } else {
        None
    }
}

/// Price of a tier: the ask less `tier * interval` percent, rounded down.
pub open spec fn tier_price(ask: u64, tier: int, interval: u32) -> int {
    ask * (100 - tier * interval) / 100
}

/// The resting order of a tier from 2 up: the bucket's current amount at
/// the tier's price, tagged with the tier. `None` where the price is no
/// more than zero (the tier lies a hundred percent or more below the ask,
/// or the price rounds to nothing) or the amount is beyond `u64`.
pub open spec fn maker_order(m: DipModel, tier: int) -> Option<OrderRequest> {
    let price = tier_price(m.ask, tier, m.interval);
    if 2 <= tier <= m.n_trades && tier <= m.buckets.len() && 0 < price <= u64::MAX
        && amount_bought(price, m.buckets[tier - 1] as int) <= u64::MAX {
        Some(
            OrderRequest {
                client_order_id: tier as u32,
                amount: amount_bought(price, m.buckets[tier - 1] as int) as u64,
                price: price as u64,
                kind: OrderKind::MakerOrCancel,
            },
        )
    } else {
        None
    }
}

/// The cycle fails and may be retried; the ledger stays as it is.
pub open spec fn dip_abort(m: DipModel, orders: Seq<OrderHandle>) -> (DipModel, Seq<OrderHandle>, Progress) {
    (DipModel { stage: DipStage::Idle, ..m }, orders, Progress::Done(false))
}

/// The buy-now order is placed.
pub open spec fn dip_taker(m: DipModel, orders: Seq<OrderHandle>) -> (DipModel, Seq<OrderHandle>, Progress) {
    match taker_order(m.usd_per_trade, m.ask) {
        Some(req) => (
            DipModel { stage: DipStage::Taker, ..m },
            orders,
            Progress::Ask(Request::NewOrder(req)),
        ),
        None => dip_abort(m, orders),
    }
}

/// A cycle opens: every bucket is refilled to the nominal amount, and the
/// first order of the ledger is asked about, or, with nothing to
/// reconcile, the buy-now order is placed. Where the nominal amount cannot
/// be bought at the ask the cycle fails at once.
pub open spec fn dip_begin(m: DipModel, orders: Seq<OrderHandle>, ask: u64) -> (
    DipModel,
    Seq<OrderHandle>,
    Progress,
) {
    if taker_order(m.usd_per_trade, ask) is Some {
        let fresh = DipModel { buckets: nominal(m.n_trades as nat, m.usd_per_trade), ask, ..m };
        if orders.len() == 0 {
            dip_taker(fresh, orders)
        } else {
            (
                DipModel { stage: DipStage::Status, cursor: 0, ..fresh },
                orders,
                Progress::Ask(Request::OrderStatus(orders[0].order_id)),
            )
        }
    } else {
        dip_abort(m, orders)
    }
}

/// Reconciliation moves to the ledger's next order; after the last one
/// the ledger is cleared and the buy-now order is placed.
pub open spec fn dip_advance(m: DipModel, orders: Seq<OrderHandle>) -> (DipModel, Seq<OrderHandle>, Progress) {
    if m.cursor + 1 < orders.len() {
        (
            DipModel { stage: DipStage::Status, cursor: (m.cursor + 1) as usize, ..m },
            orders,
            Progress::Ask(Request::OrderStatus(orders[m.cursor + 1].order_id)),
        )
    } else {
        dip_taker(m, Seq::empty())
    }
}

/// The resting order of the first tier from `tier` up that has one is
/// placed; with none left the cycle ends in success.
pub open spec fn place_from(m: DipModel, orders: Seq<OrderHandle>, tier: int) -> (
    DipModel,
    Seq<OrderHandle>,
    Progress,
)
    decreases m.n_trades + 1 - tier,
{
    if tier < 2 || tier > m.n_trades {
        (DipModel { stage: DipStage::Idle, ..m }, orders, Progress::Done(true))
    } else {
        match maker_order(m, tier) {
            Some(req) => (
                DipModel { stage: DipStage::Maker, cursor: tier as usize, ..m },
                orders,
                Progress::Ask(Request::NewOrder(req)),
            ),
            None => place_from(m, orders, tier + 1),
        }
    }
}

/// Buckets after the buy-now order was settled: a cancelled one puts the
/// nominal amount back into the first bucket (as far as `u64` holds it).
pub open spec fn after_taker(m: DipModel, st: OrderStatus) -> Seq<u64> {
    if st.is_cancelled && m.buckets.len() > 0 && m.buckets[0] + m.usd_per_trade <= u64::MAX {
        m.buckets.update(0, (m.buckets[0] + m.usd_per_trade) as u64)
    } else {
        m.buckets
    }
}

/// Whether a resting order was accepted but reported without a readable
/// identifier, so that it cannot be tracked.
pub open spec fn unreadable(st: OrderStatus) -> bool {
    !st.is_cancelled && st.order_id is None
}

/// Ledger after the resting order of a tier was settled: an accepted
/// order is tracked under the tier's tag, a rejected one is not.
pub open spec fn after_maker(orders: Seq<OrderHandle>, tier: usize, st: OrderStatus) -> Seq<
    OrderHandle,
> {
    if !st.is_cancelled && st.order_id is Some {
        orders.push(OrderHandle { order_id: st.order_id->0, client_order_id: tier as u32 })
    } else {
        orders
    }
}

/// One step of a cycle: the strategy, the ledger and the result that
/// follow a reply.
///
/// Reconciliation asks about each order of the ledger in turn. A report
/// that cannot be used fails the cycle. A live order's carry-over is
/// credited and the order cancelled; a cancelled order's carry-over is
/// credited; a filled order changes nothing. Then the ledger is cleared,
/// the buy-now order placed, and one resting order per tier from 2 up.
/// A resting order that is rejected is not credited back; one that was
/// accepted but cannot be tracked for want of a readable identifier fails
/// the cycle.
pub open spec fn dip_step(
    m: DipModel,
    orders: Seq<OrderHandle>,
    ask: u64,
    reply: Option<OrderStatus>,
) -> (DipModel, Seq<OrderHandle>, Progress) {
    match m.stage {
        DipStage::Idle => dip_begin(m, orders, ask),
        DipStage::Status => {
            if m.cursor >= orders.len() {
                dip_abort(m, orders)
            } else {
                match reply {
                    None => dip_abort(m, orders),
                    Some(st) => match credit(
                        m.buckets,
                        orders[m.cursor as int].client_order_id,
                        st,
                    ) {
                        None => dip_abort(m, orders),
                        Some(b) => if st.is_live {
                            (
                                DipModel { buckets: b, stage: DipStage::Cancel, ..m },
                                orders,
                                Progress::Ask(Request::CancelOrder(orders[m.cursor as int].order_id)),
                            )
                        } else {
                            dip_advance(DipModel { buckets: b, ..m }, orders)
                        },
                    },
                }
            }
        },
        DipStage::Cancel => dip_advance(m, orders),
        DipStage::Taker => place_from(
            DipModel { buckets: after_taker(m, placement_result(reply)), ..m },
            orders,
            2,
        ),
        DipStage::Maker => if unreadable(placement_result(reply)) {
            dip_abort(m, orders)
        } else {
            place_from(m, after_maker(orders, m.cursor, placement_result(reply)), m.cursor + 1)
        },
    }
}

/// The dip-bucket strategy.
pub struct DipStrat {
    pub usd_per_window: u32,
    dip_interval: u32,
    n_trades: u32,
    buckets: Vec<u64>,
    usd_per_trade: u64,
    stage: DipStage,
    cursor: usize,
    ask: u64,
}

impl View for DipStrat {
    type V = DipModel;

    closed spec fn view(&self) -> DipModel {
        DipModel {
            usd_per_window: self.usd_per_window,
            interval: self.dip_interval,
            n_trades: self.n_trades,
            usd_per_trade: self.usd_per_trade,
            buckets: self.buckets@,
            stage: self.stage,
            cursor: self.cursor,
            ask: self.ask,
        }
    }
}

/// The strategy that `DipStrat::new` builds, where it builds one.
pub open spec fn dip_initial(usd_per_window: u32, dip_interval: u32, dip_bot: u32) -> DipModel {
    let n_trades = (dip_bot / dip_interval) as u32;
    let usd_per_trade = ((usd_per_window * SCALE) / (n_trades as int)) as u64;
    DipModel {
        usd_per_window,
        interval: dip_interval,
        n_trades,
        usd_per_trade,
        buckets: Seq::new(n_trades as nat, |i: int| 0u64),
        stage: DipStage::Idle,
        cursor: 0,
        ask: 0,
    }
}

impl DipStrat {
    /// A strategy that splits `usd_per_window` USD over one bucket per
    /// `dip_interval` percent down to `dip_bot` percent below the ask.
    /// `None` where that gives no bucket (`dip_interval` is zero or above
    /// `dip_bot`).
    pub fn new(usd_per_window: u32, dip_interval: u32, dip_bot: u32) -> (r: Option<DipStrat>)
        ensures
            r is Some <==> 1 <= dip_interval <= dip_bot,
            r matches Some(d) ==> d@ == dip_initial(usd_per_window, dip_interval, dip_bot)
                && d@.wf(),
    {
        if dip_interval == 0 || dip_bot < dip_interval {
            return None;
        }
        let n_trades: u32 = dip_bot / dip_interval;
        assert(1 <= n_trades <= dip_bot && n_trades * dip_interval <= dip_bot) by (nonlinear_arith)
            requires
                n_trades == dip_bot / dip_interval,
                1 <= dip_interval <= dip_bot,
        ;
        let budget: u64 = (usd_per_window as u64) * SCALE;
        let usd_per_trade: u64 = budget / (n_trades as u64);
        let mut buckets: Vec<u64> = Vec::new();
        let mut i: u32 = 0;
        while i < n_trades
            invariant
                i <= n_trades,
                buckets@ =~= Seq::new(i as nat, |j: int| 0u64),
            decreases n_trades - i,
        {
            buckets.push(0);
            i = i + 1;
        }
        let d = DipStrat {
            usd_per_window,
            dip_interval,
            n_trades,
            buckets,
            usd_per_trade,
            stage: DipStage::Idle,
            cursor: 0,
            ask: 0,
        };
        assert(d@ == dip_initial(usd_per_window, dip_interval, dip_bot));
        Some(d)
    }

    /// Current amount of each bucket, tier 1 first.
    pub fn buckets(&self) -> (b: &Vec<u64>)
        ensures
            b@ == self@.buckets,
    {
        &self.buckets
    }

    /// Number of buckets.
    pub fn n_trades(&self) -> (k: u32)
        ensures
            k == self@.n_trades,
    {
        self.n_trades
    }

    /// Nominal amount of each bucket.
    pub fn usd_per_trade(&self) -> (n: u64)
        ensures
            n == self@.usd_per_trade,
    {
        self.usd_per_trade
    }

    /// Whether the strategy is between cycles.
    pub fn is_idle(&self) -> (b: bool)
        ensures
            b == (self@.stage == DipStage::Idle),
    {
        matches!(self.stage, DipStage::Idle)
    }
}

impl DipStrat {
    fn abort(&mut self) -> (p: Progress)
        requires
            old(self)@.wf(),
        ensures
            final(self)@ == (DipModel { stage: DipStage::Idle, ..old(self)@ }),
            final(self)@.wf(),
            p == Progress::Done(false),
    {
        self.stage = DipStage::Idle;
        Progress::Done(false)
    }

    fn taker(&mut self) -> (p: Progress)
        requires
            old(self)@.wf(),
        ensures
            final(self)@ == dip_taker(old(self)@, Seq::empty()).0,
            p == dip_taker(old(self)@, Seq::empty()).2,
            final(self)@.wf(),
            p matches Progress::Ask(r) ==> r.is_order_request(),
    {
        match get_amount(self.ask, self.usd_per_trade) {
            Some(amount) => {
                self.stage = DipStage::Taker;
                Progress::Ask(Request::NewOrder(new_taker_order(0, amount, self.ask)))
            },
            None => self.abort(),
        }
    }

    fn refill(&mut self)
        requires
            old(self)@.wf(),
        ensures
            final(self)@ == (DipModel {
                buckets: nominal(old(self)@.n_trades as nat, old(self)@.usd_per_trade),
                ..old(self)@
            }),
    {
        let n: usize = self.buckets.len();
        let mut i: usize = 0;
        while i < n
            invariant
                i <= n,
                n == self.buckets@.len(),
                self@ == (DipModel { buckets: self.buckets@, ..old(self)@ }),
                forall|j: int| 0 <= j < i ==> self.buckets@[j] == self.usd_per_trade,
            decreases n - i,
        {
            self.buckets.set(i, self.usd_per_trade);
            i = i + 1;
        }
        assert(self.buckets@ =~= nominal(old(self)@.n_trades as nat, old(self)@.usd_per_trade));
    }

    fn begin(&mut self, orders: &Vec<OrderHandle>, ask: u64) -> (p: Progress)
        requires
            old(self)@.wf(),
        ensures
            final(self)@ == dip_begin(old(self)@, orders@, ask).0,
            p == dip_begin(old(self)@, orders@, ask).2,
            final(self)@.wf(),
            p matches Progress::Ask(r) ==> r.is_order_request(),
    {
        match get_amount(ask, self.usd_per_trade) {
            None => self.abort(),
            Some(_) => {
                self.stage = DipStage::Idle;
                self.ask = ask;
                self.refill();
                if orders.len() == 0 {
                    self.taker()
                } else {
                    self.stage = DipStage::Status;
                    self.cursor = 0;
                    Progress::Ask(Request::OrderStatus(orders[0].order_id))
                }
            },
        }
    }

    fn advance(&mut self, orders: &mut Vec<OrderHandle>) -> (p: Progress)
        requires
            old(self)@.wf(),
            old(self)@.stage != DipStage::Idle,
            old(self)@.cursor < old(orders)@.len(),
        ensures
            (final(self)@, final(orders)@, p) == dip_advance(old(self)@, old(orders)@),
            final(self)@.wf(),
            p matches Progress::Ask(r) ==> r.is_order_request(),
    {
        let n: usize = orders.len();
        if self.cursor + 1 < n {
            self.stage = DipStage::Status;
            self.cursor = self.cursor + 1;
            Progress::Ask(Request::OrderStatus(orders[self.cursor].order_id))
        } else {
            orders.clear();
            self.taker()
        }
    }

    fn credit_bucket(&mut self, tag: u32, st: &OrderStatus) -> (ok: bool)
        requires
            old(self)@.wf(),
        ensures
            match credit(old(self)@.buckets, tag, *st) {
                Some(b) => ok && final(self)@ == (DipModel { buckets: b, ..old(self)@ }),
                None => !ok && final(self)@ == old(self)@,
            },
            final(self)@.wf(),
    {
        match st.client_order_id {
            Some(t) => {
                if t != tag {
                    return false;
                }
            },
            None => {
                return false;
            },
        }
        let usd: u64 = match carry(st) {
            Some(u) => u,
            None => {
                return false;
            },
        };
        if tag < 1 || tag as usize > self.buckets.len() {
            return false;
        }
        let slot: usize = (tag - 1) as usize;
        let held: u64 = self.buckets[slot];
        if held > u64::MAX - usd {
            return false;
        }
        self.buckets.set(slot, held + usd);
        true
    }

    fn tier_price_of(&self, tier: u32) -> (price: Option<u64>)
        ensures
            match price {
                Some(p) => p == tier_price(self@.ask, tier as int, self@.interval) && p > 0,
                None => tier_price(self@.ask, tier as int, self@.interval) <= 0,
            },
    {
        assert(0 <= tier * self.dip_interval <= u32::MAX * u32::MAX) by (nonlinear_arith)
            requires
                0 <= tier <= u32::MAX,
                0 <= self.dip_interval <= u32::MAX,
        ;
        let pct: u64 = (tier as u64) * (self.dip_interval as u64);
        if pct >= 100 {
            assert(self.ask * (100 - pct) <= 0) by (nonlinear_arith)
                requires
                    self.ask >= 0,
                    pct >= 100,
            ;
            return None;
        }
        let factor: u128 = (100 - pct) as u128;
        assert(0 <= (self.ask as int) * (factor as int) <= (self.ask as int) * 100)
            by (nonlinear_arith)
            requires
                0 <= factor <= 100,
                self.ask >= 0,
        ;
        let scaled: u128 = (self.ask as u128) * factor;
        let price: u64 = (scaled / 100) as u64;
        if price == 0 {
            None
        } else {
            Some(price)
        }
    }

    fn maker(&self, tier: u32) -> (r: Option<OrderRequest>)
        requires
            self@.wf(),
        ensures
            r == maker_order(self@, tier as int),
    {
        if tier < 2 || tier > self.n_trades {
            return None;
        }
        let price: u64 = match self.tier_price_of(tier) {
            Some(p) => p,
            None => {
                return None;
            },
        };
        let bucket: u64 = self.buckets[(tier - 1) as usize];
        match get_amount(price, bucket) {
            Some(amount) => Some(new_maker_order(tier, amount, price)),
            None => None,
        }
    }

    fn place(&mut self, orders: &Vec<OrderHandle>, start: u64) -> (p: Progress)
        requires
            old(self)@.wf(),
            old(self)@.stage != DipStage::Idle,
        ensures
            (final(self)@, orders@, p) == place_from(old(self)@, orders@, start as int),
            final(self)@.wf(),
            p matches Progress::Ask(r) ==> r.is_order_request(),
    {
        let mut tier: u64 = start;
        while 2 <= tier && tier <= self.n_trades as u64
            invariant
                self@ == old(self)@,
                self@.wf(),
                self@.stage != DipStage::Idle,
                place_from(self@, orders@, tier as int) == place_from(
                    old(self)@,
                    orders@,
                    start as int,
                ),
            decreases self.n_trades + 1 - tier,
        {
            match self.maker(tier as u32) {
                Some(req) => {
                    self.stage = DipStage::Maker;
                    self.cursor = tier as usize;
                    return Progress::Ask(Request::NewOrder(req));
                },
                None => {
                    tier = tier + 1;
                },
            }
        }
        self.stage = DipStage::Idle;
        Progress::Done(true)
    }
}

/// The carry-over of an order of the previous cycle.
pub fn carry(st: &OrderStatus) -> (r: Option<u64>)
    ensures
        r == carry_over(*st),
{
    if st.is_live || st.is_cancelled {
        match (st.remaining_amount, st.price) {
            (Some(amount), Some(price)) => get_usd(amount, price),
            _ => None,
        }
    } else {
        Some(0)
    }
}

impl Execute for DipStrat {
    open spec fn inv(&self) -> bool {
        self@.wf()
    }

    open spec fn progress(
        &self,
        orders: Seq<OrderHandle>,
        ask: u64,
        reply: Option<OrderStatus>,
    ) -> Progress {
        dip_step(self@, orders, ask, reply).2
    }

    open spec fn ledger_after(
        &self,
        orders: Seq<OrderHandle>,
        ask: u64,
        reply: Option<OrderStatus>,
    ) -> Seq<OrderHandle> {
        dip_step(self@, orders, ask, reply).1
    }

    open spec fn steps_to(
        &self,
        orders: Seq<OrderHandle>,
        ask: u64,
        reply: Option<OrderStatus>,
        next: &Self,
    ) -> bool {
        next@ == dip_step(self@, orders, ask, reply).0
    }

    fn valid(&self) -> (ok: bool) {
        if self.dip_interval < 1 || self.n_trades < 1 {
            return false;
        }
        if self.buckets.len() != self.n_trades as usize {
            return false;
        }
        let budget: u64 = (self.usd_per_window as u64) * SCALE;
        if self.usd_per_trade != budget / (self.n_trades as u64) {
            return false;
        }
        let in_cycle = !matches!(self.stage, DipStage::Idle);
        if in_cycle && get_amount(self.ask, self.usd_per_trade).is_none() {
            return false;
        }
        let placing = matches!(self.stage, DipStage::Maker);
        !(placing && self.cursor > self.n_trades as usize)
    }

    /// Takes the cycle one step on, as `dip_step` says. `ask` is read when
    /// the cycle opens and holds for the whole cycle.
    fn execute(&mut self, orders: &mut Vec<OrderHandle>, ask: u64, reply: Option<OrderStatus>) -> (p:
        Progress) {
        match self.stage {
            DipStage::Idle => self.begin(orders, ask),
            DipStage::Status => {
                if self.cursor >= orders.len() {
                    return self.abort();
                }
                match reply {
                    None => self.abort(),
                    Some(st) => {
                        let tag: u32 = orders[self.cursor].client_order_id;
                        if !self.credit_bucket(tag, &st) {
                            self.abort()
                        } else if st.is_live {
                            self.stage = DipStage::Cancel;
                            Progress::Ask(Request::CancelOrder(orders[self.cursor].order_id))
                        } else {
                            self.advance(orders)
                        }
                    },
                }
            },
            DipStage::Cancel => {
                if self.cursor >= orders.len() {
                    orders.clear();
                    return self.taker();
                }
                self.advance(orders)
            },
            DipStage::Taker => {
                let st = new_order(reply);
                if st.is_cancelled && self.buckets.len() > 0 {
                    let held: u64 = self.buckets[0];
                    if held <= u64::MAX - self.usd_per_trade {
                        self.buckets.set(0, held + self.usd_per_trade);
                    }
                }
                self.place(orders, 2)
            },
            DipStage::Maker => {
                let st = new_order(reply);
                if !st.is_cancelled {
                    match st.order_id {
                        Some(id) => {
                            orders.push(
                                OrderHandle { order_id: id, client_order_id: self.cursor as u32 },
                            );
                        },
                        None => {
                            return self.abort();
                        },
                    }
                }
                let next: u64 = self.cursor as u64 + 1;
                self.place(orders, next)
            },
        }
    }
}

/// Whether the tags of a ledger name tiers from 2 up to below `below`,
/// each tier at most once and in rising order.
pub open spec fn tiers_ascend(orders: Seq<OrderHandle>, below: int) -> bool {
    &&& forall|i: int|
        0 <= i < orders.len() ==> 2 <= (#[trigger] orders[i]).client_order_id < below
    &&& forall|i: int, j: int|
        0 <= i < j < orders.len() ==> (#[trigger] orders[i]).client_order_id < (
        #[trigger] orders[j]).client_order_id
}

/// What holds of the ledger that the strategy keeps: between cycles and
/// through reconciliation it holds at most one order per tier from 2 up,
/// in rising order; it is empty while the buy-now order is out; and while
/// the resting orders go out it holds the tiers below the one in hand.
pub open spec fn ledger_wf(m: DipModel, orders: Seq<OrderHandle>) -> bool {
    match m.stage {
        DipStage::Taker => orders.len() == 0,
        DipStage::Maker => 2 <= m.cursor && tiers_ascend(orders, m.cursor as int),
        _ => tiers_ascend(orders, m.n_trades + 1),
    }
}

/// Buckets after the reports on the orders of the ledger were gone
/// through in turn, starting from `buckets`. `None` where a report is
/// unusable.
pub open spec fn reconciled(
    buckets: Seq<u64>,
    orders: Seq<OrderHandle>,
    reports: Seq<OrderStatus>,
) -> Option<Seq<u64>>
    recommends
        orders.len() == reports.len(),
    decreases reports.len(),
{
    if reports.len() == 0 || orders.len() == 0 {
        Some(buckets)
    } else {
        match reconciled(buckets, orders.drop_last(), reports.drop_last()) {
            Some(b) => credit(b, orders.last().client_order_id, reports.last()),
            None => None,
        }
    }
}

/// USD carried over by all the reports together.
pub open spec fn carried(reports: Seq<OrderStatus>) -> int
    decreases reports.len(),
{
    if reports.len() == 0 {
        0
    } else {
        carried(reports.drop_last()) + match carry_over(reports.last()) {
            Some(usd) => usd as int,
            None => 0,
        }
    }
}

/// USD that a cycle offers to the exchange: the nominal amount bought at
/// once and the current amount of every bucket from tier 2 up.
pub open spec fn offered(usd_per_trade: u64, buckets: Seq<u64>) -> int {
    usd_per_trade + total(buckets.skip(1))
}

/// Changing one bucket changes the sum by the difference.
pub proof fn lemma_total_update(buckets: Seq<u64>, i: int, v: u64)
    requires
        0 <= i < buckets.len(),
    ensures
        total(buckets.update(i, v)) == total(buckets) - buckets[i] + v,
    decreases buckets.len(),
{
    let after = buckets.update(i, v);
    if i == buckets.len() - 1 {
        assert(after.drop_last() =~= buckets.drop_last());
    } else {
        assert(after.drop_last() =~= buckets.drop_last().update(i, v));
        lemma_total_update(buckets.drop_last(), i, v);
    }
}

/// The refill puts the nominal amount into every bucket.
pub proof fn lemma_total_nominal(n_trades: nat, usd_per_trade: u64)
    ensures
        total(nominal(n_trades, usd_per_trade)) == n_trades * usd_per_trade,
    decreases n_trades,
{
    let all = nominal(n_trades, usd_per_trade);
    if n_trades > 0 {
        assert(all.drop_last() =~= nominal((n_trades - 1) as nat, usd_per_trade));
        lemma_total_nominal((n_trades - 1) as nat, usd_per_trade);
        assert(all.last() == usd_per_trade);
        assert(total(all) == total(all.drop_last()) + all.last());
        assert(n_trades * usd_per_trade == (n_trades - 1) * usd_per_trade + usd_per_trade)
            by (nonlinear_arith);
    } else {
        assert(total(all) == 0);
        assert(n_trades * usd_per_trade == 0) by (nonlinear_arith)
            requires
                n_trades == 0,
        ;
    }
}

/// The sum of the buckets is the first bucket and the sum of the rest.
pub proof fn lemma_total_split(buckets: Seq<u64>)
    requires
        buckets.len() > 0,
    ensures
        total(buckets) == buckets[0] + total(buckets.skip(1)),
    decreases buckets.len(),
{
    let rest = buckets.skip(1);
    assert(total(buckets) == total(buckets.drop_last()) + buckets.last());
    if buckets.len() == 1 {
        assert(total(buckets.drop_last()) == 0);
        assert(total(rest) == 0);
    } else {
        lemma_total_split(buckets.drop_last());
        assert(buckets.drop_last().skip(1) =~= rest.drop_last());
        assert(rest.last() == buckets.last());
        assert(total(rest) == total(rest.drop_last()) + rest.last());
    }
}

/// Crediting a report adds exactly its carry-over to the bucket of the
/// order's tier: no bucket is lost and nothing else changes.
pub proof fn lemma_credit_conserves(buckets: Seq<u64>, tag: u32, st: OrderStatus)
    requires
        credit(buckets, tag, st) is Some,
    ensures
        carry_over(st) is Some,
        1 <= tag <= buckets.len(),
        (credit(buckets, tag, st)->0).len() == buckets.len(),
        total(credit(buckets, tag, st)->0) == total(buckets) + carry_over(st)->0,
        forall|i: int|
            0 <= i < buckets.len() && i != tag - 1 ==> (credit(buckets, tag, st)->0)[i]
                == buckets[i],
{
    let usd = carry_over(st)->0;
    lemma_total_update(buckets, tag - 1, (buckets[tag - 1] + usd) as u64);
}

/// A ledger without its last order keeps its tiers in rising order.
proof fn lemma_tiers_ascend_prefix(orders: Seq<OrderHandle>, below: int)
    requires
        tiers_ascend(orders, below),
        orders.len() > 0,
    ensures
        tiers_ascend(orders.drop_last(), below),
        2 <= orders.last().client_order_id < below,
{
    let front = orders.drop_last();
    assert forall|i: int| 0 <= i < front.len() implies 2 <= (#[trigger] front[i]).client_order_id
        < below by {
        assert(front[i] == orders[i]);
    }
    assert forall|i: int, j: int| 0 <= i < j < front.len() implies (
    #[trigger] front[i]).client_order_id < (#[trigger] front[j]).client_order_id by {
        assert(front[i] == orders[i]);
        assert(front[j] == orders[j]);
    }
    assert(orders.last() == orders[orders.len() - 1]);
}

/// Conservation through reconciliation: after a cycle's refill and the
/// reports on the previous cycle's orders, the buckets hold the nominal
/// refills and the carried-over remainders, to the last unit; and where
/// no order is tagged with the first tier, the first bucket holds its
/// nominal amount.
pub proof fn lemma_reconcile_conserves(
    n_trades: nat,
    usd_per_trade: u64,
    orders: Seq<OrderHandle>,
    reports: Seq<OrderStatus>,
)
    requires
        orders.len() == reports.len(),
        reconciled(nominal(n_trades, usd_per_trade), orders, reports) is Some,
    ensures
        ({
            let b = reconciled(nominal(n_trades, usd_per_trade), orders, reports)->0;
            &&& b.len() == n_trades
            &&& total(b) == n_trades * usd_per_trade + carried(reports)
            &&& n_trades > 0 && tiers_ascend(orders, n_trades as int + 1) ==> b[0] == usd_per_trade
        }),
    decreases reports.len(),
{
    if reports.len() == 0 {
        lemma_total_nominal(n_trades, usd_per_trade);
    } else {
        let before = reconciled(
            nominal(n_trades, usd_per_trade),
            orders.drop_last(),
            reports.drop_last(),
        );
        lemma_reconcile_conserves(n_trades, usd_per_trade, orders.drop_last(), reports.drop_last());
        lemma_credit_conserves(before->0, orders.last().client_order_id, reports.last());
        if n_trades > 0 && tiers_ascend(orders, n_trades as int + 1) {
            lemma_tiers_ascend_prefix(orders, n_trades as int + 1);
        }
    }
}

/// Conservation through placement: what the buckets hold is offered to
/// the exchange in full, but for what reports credited to the first
/// bucket beyond its nominal amount (the first tier is bought at once, at
/// the nominal amount).
pub proof fn lemma_offer_accounts(usd_per_trade: u64, buckets: Seq<u64>)
    requires
        buckets.len() > 0,
    ensures
        offered(usd_per_trade, buckets) + (buckets[0] - usd_per_trade) == total(buckets),
{
    lemma_total_split(buckets);
}

/// Conservation over a cycle: with a ledger that holds at most one order
/// per tier from 2 up, what the cycle offers to the exchange is exactly
/// the nominal refills and the remainders carried over from the previous
/// cycle's orders. From there a bucket's amount leaves only with its
/// order: accepted and tracked in the ledger, or rejected at placement
/// and lost.
pub proof fn lemma_cycle_conserves(m: DipModel, orders: Seq<OrderHandle>, reports: Seq<OrderStatus>)
    requires
        m.wf(),
        orders.len() == reports.len(),
        tiers_ascend(orders, m.n_trades + 1),
        reconciled(nominal(m.n_trades as nat, m.usd_per_trade), orders, reports) is Some,
    ensures
        offered(
            m.usd_per_trade,
            reconciled(nominal(m.n_trades as nat, m.usd_per_trade), orders, reports)->0,
        ) == m.n_trades * m.usd_per_trade + carried(reports),
{
    lemma_reconcile_conserves(m.n_trades as nat, m.usd_per_trade, orders, reports);
    lemma_offer_accounts(
        m.usd_per_trade,
        reconciled(nominal(m.n_trades as nat, m.usd_per_trade), orders, reports)->0,
    );
}

/// A tier's resting order is sized from the tier's bucket and never
/// costs more than the bucket holds.
pub proof fn lemma_maker_within_bucket(m: DipModel, tier: int)
    requires
        maker_order(m, tier) is Some,
    ensures
        ({
            let req = maker_order(m, tier)->0;
            &&& req.client_order_id == tier
            &&& req.price == tier_price(m.ask, tier, m.interval)
            &&& req.amount == amount_bought(req.price as int, m.buckets[tier - 1] as int)
            &&& usd_value(req.amount as int, req.price as int) <= m.buckets[tier - 1]
        }),
{
    lemma_amount_within_budget(tier_price(m.ask, tier, m.interval), m.buckets[tier - 1] as int);
}

/// The nominal amounts add up to the window's budget, short of it by less
/// than one unit per bucket (what the division drops).
pub proof fn lemma_nominal_shares(m: DipModel)
    requires
        m.wf(),
    ensures
        m.n_trades * m.usd_per_trade <= m.usd_per_window * SCALE < m.n_trades * m.usd_per_trade
            + m.n_trades,
{
    let budget = m.usd_per_window * SCALE;
    let k = m.n_trades as int;
    vstd::arithmetic::div_mod::lemma_fundamental_div_mod(budget, k);
    assert(0 <= budget % k < k) by (nonlinear_arith)
        requires
            k > 0,
    ;
    assert(k * (budget / k) == m.n_trades * m.usd_per_trade) by (nonlinear_arith)
        requires
            m.usd_per_trade == budget / k,
            k == m.n_trades,
    ;
}

/// Placing resting orders changes neither the buckets, nor the ledger,
/// nor the shape of the strategy, keeps the strategy well formed, and
/// moves on to a tier not below the one it started from.
pub proof fn lemma_place_keeps(m: DipModel, orders: Seq<OrderHandle>, tier: int)
    requires
        m.wf(),
        m.stage != DipStage::Idle,
    ensures
        ({
            let n = place_from(m, orders, tier).0;
            &&& n.wf()
            &&& n.buckets == m.buckets
            &&& n.n_trades == m.n_trades
            &&& n.interval == m.interval
            &&& n.usd_per_trade == m.usd_per_trade
            &&& n.usd_per_window == m.usd_per_window
            &&& n.stage is Idle || (n.stage is Maker && 2 <= n.cursor && tier <= n.cursor
                <= m.n_trades)
            &&& place_from(m, orders, tier).1 == orders
        }),
    decreases m.n_trades + 1 - tier,
{
    if 2 <= tier <= m.n_trades {
        if maker_order(m, tier) is None {
            lemma_place_keeps(m, orders, tier + 1);
        }
    }
}

/// The number of buckets, the tier interval and the nominal amount are
/// fixed when the strategy is built: no step changes them, and every step
/// keeps the strategy well formed.
pub proof fn lemma_step_keeps_shape(
    m: DipModel,
    orders: Seq<OrderHandle>,
    ask: u64,
    reply: Option<OrderStatus>,
)
    requires
        m.wf(),
    ensures
        ({
            let n = dip_step(m, orders, ask, reply).0;
            &&& n.wf()
            &&& n.n_trades == m.n_trades
            &&& n.interval == m.interval
            &&& n.usd_per_trade == m.usd_per_trade
            &&& n.usd_per_window == m.usd_per_window
        }),
{
    match m.stage {
        DipStage::Taker => {
            lemma_place_keeps(
                DipModel { buckets: after_taker(m, placement_result(reply)), ..m },
                orders,
                2,
            );
        },
        DipStage::Maker => {
            if !unreadable(placement_result(reply)) {
                lemma_place_keeps(
                    m,
                    after_maker(orders, m.cursor, placement_result(reply)),
                    m.cursor + 1,
                );
            }
        },
        _ => {},
    }
}

/// The tags of the ledger stay unique and stable: a ledger that holds at
/// most one order per tier from 2 up, in rising order, is left so by
/// every step, whatever the gateway answers.
pub proof fn lemma_step_keeps_ledger(
    m: DipModel,
    orders: Seq<OrderHandle>,
    ask: u64,
    reply: Option<OrderStatus>,
)
    requires
        m.wf(),
        ledger_wf(m, orders),
    ensures
        ledger_wf(dip_step(m, orders, ask, reply).0, dip_step(m, orders, ask, reply).1),
{
    match m.stage {
        DipStage::Taker => {
            lemma_place_keeps(
                DipModel { buckets: after_taker(m, placement_result(reply)), ..m },
                orders,
                2,
            );
        },
        DipStage::Maker => {
            if !unreadable(placement_result(reply)) {
                let kept = after_maker(orders, m.cursor, placement_result(reply));
                lemma_place_keeps(m, kept, m.cursor + 1);
                assert(tiers_ascend(kept, m.cursor + 1));
            }
        },
        _ => {},
    }
}

/// USD that a step brings into the buckets: the refill where a cycle
/// opens, the carry-over where a usable report on an order of the
/// previous cycle comes in, the nominal amount where the buy-now order
/// was cancelled, and nothing otherwise.
pub open spec fn inflow(
    m: DipModel,
    orders: Seq<OrderHandle>,
    ask: u64,
    reply: Option<OrderStatus>,
) -> int {
    match m.stage {
        DipStage::Idle => if taker_order(m.usd_per_trade, ask) is Some {
            m.n_trades * m.usd_per_trade - total(m.buckets)
        } else {
            0
        },
        DipStage::Status => if m.cursor < orders.len() && reply is Some && credit(
            m.buckets,
            orders[m.cursor as int].client_order_id,
            reply->0,
        ) is Some {
            carry_over(reply->0)->0 as int
        } else {
            0
        },
        DipStage::Taker => total(after_taker(m, placement_result(reply))) - total(m.buckets),
        _ => 0,
    }
}

/// Conservation step by step: the buckets change by what the step brings
/// in and by nothing else. Opening a cycle replaces what the buckets held
/// by the refill; a report adds its carry-over to the bucket of the
/// order's tier; the buy-now order, if cancelled, puts the nominal amount
/// back; cancelling an order and placing resting orders, accepted or
/// rejected, leave every bucket as it is.
pub proof fn lemma_step_accounts(
    m: DipModel,
    orders: Seq<OrderHandle>,
    ask: u64,
    reply: Option<OrderStatus>,
)
    requires
        m.wf(),
    ensures
        total(dip_step(m, orders, ask, reply).0.buckets) == total(m.buckets) + inflow(
            m,
            orders,
            ask,
            reply,
        ),
        m.stage is Taker ==> inflow(m, orders, ask, reply) == 0 || inflow(m, orders, ask, reply)
            == m.usd_per_trade,
        m.stage is Cancel || m.stage is Maker ==> dip_step(m, orders, ask, reply).0.buckets
            == m.buckets,
{
    match m.stage {
        DipStage::Idle => {
            lemma_total_nominal(m.n_trades as nat, m.usd_per_trade);
        },
        DipStage::Status => {
            if m.cursor < orders.len() && reply is Some {
                let tag = orders[m.cursor as int].client_order_id;
                if credit(m.buckets, tag, reply->0) is Some {
                    lemma_credit_conserves(m.buckets, tag, reply->0);
                }
            }
        },
        DipStage::Cancel => {},
        DipStage::Taker => {
            let after = DipModel { buckets: after_taker(m, placement_result(reply)), ..m };
            lemma_place_keeps(after, orders, 2);
            if after.buckets != m.buckets {
                lemma_total_update(m.buckets, 0, (m.buckets[0] + m.usd_per_trade) as u64);
            }
        },
        DipStage::Maker => {
            if !unreadable(placement_result(reply)) {
                lemma_place_keeps(
                    m,
                    after_maker(orders, m.cursor, placement_result(reply)),
                    m.cursor + 1,
                );
            }
        },
    }
}

/// What one step of the strategy is given.
pub struct DipInput {
    pub ask: u64,
    pub reply: Option<OrderStatus>,
}

/// The strategy and its ledger after a run of steps, over any number of
/// cycles.
pub open spec fn dip_run(m: DipModel, orders: Seq<OrderHandle>, inputs: Seq<DipInput>) -> (
    DipModel,
    Seq<OrderHandle>,
)
    decreases inputs.len(),
{
    if inputs.len() == 0 {
        (m, orders)
    } else {
        let before = dip_run(m, orders, inputs.drop_last());
        let next = dip_step(before.0, before.1, inputs.last().ask, inputs.last().reply);
        (next.0, next.1)
    }
}

/// USD that a run of steps brings into the buckets.
pub open spec fn run_inflow(m: DipModel, orders: Seq<OrderHandle>, inputs: Seq<DipInput>) -> int
    decreases inputs.len(),
{
    if inputs.len() == 0 {
        0
    } else {
        let before = dip_run(m, orders, inputs.drop_last());
        run_inflow(m, orders, inputs.drop_last()) + inflow(
            before.0,
            before.1,
            inputs.last().ask,
            inputs.last().reply,
        )
    }
}

/// Conservation over any run of steps, whatever the gateway answers and
/// however many cycles fail: the strategy stays well formed with the
/// buckets it was built with, its ledger keeps at most one order per tier
/// from 2 up, and the buckets hold what they held before and what the
/// steps brought in, no more and no less.
pub proof fn lemma_run_conserves(m: DipModel, orders: Seq<OrderHandle>, inputs: Seq<DipInput>)
    requires
        m.wf(),
        ledger_wf(m, orders),
    ensures
        ({
            let after = dip_run(m, orders, inputs);
            &&& after.0.wf()
            &&& ledger_wf(after.0, after.1)
            &&& after.0.n_trades == m.n_trades
            &&& after.0.interval == m.interval
            &&& after.0.usd_per_trade == m.usd_per_trade
            &&& after.0.usd_per_window == m.usd_per_window
            &&& total(after.0.buckets) == total(m.buckets) + run_inflow(m, orders, inputs)
        }),
    decreases inputs.len(),
{
    if inputs.len() > 0 {
        lemma_run_conserves(m, orders, inputs.drop_last());
        let before = dip_run(m, orders, inputs.drop_last());
        let x = inputs.last();
        lemma_step_keeps_shape(before.0, before.1, x.ask, x.reply);
        lemma_step_keeps_ledger(before.0, before.1, x.ask, x.reply);
        lemma_step_accounts(before.0, before.1, x.ask, x.reply);
    }
}

} // verus!
