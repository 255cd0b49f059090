//! The weekly scheduler: waits for the target time, runs one cycle of a
//! strategy, and retries a failed cycle without moving the schedule.
use crate::strats::gateway::OrderHandle;
use crate::strats::gateway::OrderStatus;
use crate::strats::gateway::Progress;
use crate::strats::gateway::Reply;
use crate::strats::gateway::Request;
use crate::strats::gateway::SymbolDetail;
use crate::strats::gateway::Ticker;
use crate::strats::order_util::cancel_orders_if_open;
use crate::strats::order_util::fresh_sweep;
use crate::strats::order_util::sweep_step;
use crate::strats::order_util::CancelSweep;
use crate::strats::strat_util::after_wait;
use crate::strats::strat_util::get_dur_until_next_target_date;
use crate::strats::strat_util::get_info;
use crate::strats::strat_util::sleep_or_die;
use crate::strats::strat_util::snapshot;
use crate::strats::strat_util::symbol_open;
use crate::strats::strat_util::wait_until_target;
use crate::strats::strat_util::WaitTime;
use vstd::prelude::*;

verus! {

/// A purchase strategy, run one gateway exchange at a time.
///
/// A cycle begins with a call on an idle strategy; each further call hands
/// in the answer to the request that the previous call returned. The cycle
/// is over when a call returns `Done`: `true` for success, `false` for a
/// failure that is worth retrying.
pub trait Execute {
    /// What holds of the strategy between any two steps.
    spec fn inv(&self) -> bool;

    /// The step that `execute` takes: its result.
    spec fn progress(
        &self,
        orders: Seq<OrderHandle>,
        ask: u64,
        reply: Option<OrderStatus>,
    ) -> Progress;

    /// The step that `execute` takes: the ledger it leaves.
    spec fn ledger_after(
        &self,
        orders: Seq<OrderHandle>,
        ask: u64,
        reply: Option<OrderStatus>,
    ) -> Seq<OrderHandle>;

    /// The step that `execute` takes: whether `next` is the strategy it
    /// leaves.
    spec fn steps_to(
        &self,
        orders: Seq<OrderHandle>,
        ask: u64,
        reply: Option<OrderStatus>,
        next: &Self,
    ) -> bool;

    /// Whether the strategy is in the shape that `execute` asks for.
    fn valid(&self) -> (ok: bool)
        ensures
            ok == self.inv(),
    ;

    /// Takes the cycle one step on. `orders` is the ledger of orders
    /// believed outstanding, `ask` the current best ask, `reply` the
    /// answer to the previous request, if there was one.
    fn execute(&mut self, orders: &mut Vec<OrderHandle>, ask: u64, reply: Option<OrderStatus>) -> (p:
        Progress)
        requires
            old(self).inv(),
        ensures
            final(self).inv(),
            p == old(self).progress(old(orders)@, ask, reply),
            final(orders)@ == old(self).ledger_after(old(orders)@, ask, reply),
            old(self).steps_to(old(orders)@, ask, reply, final(self)),
            p matches Progress::Ask(r) ==> r.is_order_request(),
    ;
}

/// Where a scheduler stands.
#[derive(Clone, Copy, Debug, PartialEq, Eq)]
pub enum Phase {
    /// Built, not yet run.
    Ready,
    /// A wait was asked for.
    Waiting,
    /// No wait until the target could be worked out: the retry interval
    /// is waited for, then the wait is worked out anew. No cycle runs
    /// meanwhile.
    Rearming,
    /// The symbol's status was asked for.
    Detail,
    /// The symbol's quote was asked for.
    Ticker,
    /// The strategy's cycle is under way.
    Executing,
    /// Shutdown: the ledger's orders are being cancelled.
    Draining,
    /// Nothing more will be asked.
    Terminated,
}

/// A scheduler as a mathematical value.
pub struct StratModel {
    pub symbol: Seq<char>,
    /// Target weekday, Monday = 1.
    pub day: i64,
    pub hr: u32,
    pub min: u32,
    pub sec: u32,
    pub phase: Phase,
    /// Orders believed outstanding.
    pub orders: Seq<OrderHandle>,
    pub sweep: CancelSweep,
    /// The symbol's status of the cycle in hand.
    pub detail: Option<SymbolDetail>,
    /// The ask of the cycle in hand.
    pub ask: u64,
}

/// The wait before a failed cycle is tried again.
pub open spec fn retry_interval() -> WaitTime {
    WaitTime { secs: 15, nanos: 0 }
}

/// The cycle failed: wait for the retry interval.
pub open spec fn retry(m: StratModel) -> (StratModel, Request) {
    (StratModel { phase: Phase::Waiting, ..m }, Request::Wait(retry_interval()))
}

/// The worker winds down: the sweep's request goes out, or, once the
/// sweep is over, the worker exits.
pub open spec fn drain(m: StratModel, swept: (CancelSweep, Progress)) -> (StratModel, Request) {
    match swept.1 {
        Progress::Ask(r) => (StratModel { phase: Phase::Draining, sweep: swept.0, ..m }, r),
        Progress::Done(_) => (
            StratModel { phase: Phase::Terminated, sweep: swept.0, ..m },
            Request::Exit,
        ),
    }
}

/// The worker begins to wind down: a fresh sweep over the whole ledger.
pub open spec fn begin_drain(m: StratModel) -> (StratModel, Request) {
    drain(m, after_wait(true, m.sweep, m.orders))
}

/// The wait until the weekly target is asked for. Where there is none
/// (the target is no moment of the week, or the clock is outside the
/// supported range) the retry interval is waited for and the wait worked
/// out anew, without a cycle in between.
pub open spec fn scheduled(m: StratModel, wait: Option<WaitTime>) -> (StratModel, Request) {
    match wait {
        Some(w) => (StratModel { phase: Phase::Waiting, ..m }, Request::Wait(w)),
        None => (StratModel { phase: Phase::Rearming, ..m }, Request::Wait(retry_interval())),
    }
}

/// What follows a step of the strategy. A request of the strategy goes
/// out. A failed cycle is retried after the retry interval. A cycle that
/// succeeded is followed by the wait until the weekly target, `wait`.
pub open spec fn conclude(m: StratModel, p: Progress, wait: Option<WaitTime>) -> (
    StratModel,
    Request,
) {
    match p {
        Progress::Ask(r) => (StratModel { phase: Phase::Executing, ..m }, r),
        Progress::Done(false) => retry(m),
        Progress::Done(true) => scheduled(m, wait),
    }
}

/// The first wait: none where the worker is to start at once, else the
/// wait until the weekly target.
pub open spec fn first_wait(m: StratModel, immediate: Option<bool>, wait: Option<WaitTime>) -> (
    StratModel,
    Request,
) {
    if immediate == Some(true) {
        (StratModel { phase: Phase::Waiting, ..m }, Request::Wait(WaitTime { secs: 0, nanos: 0 }))
    } else {
        scheduled(m, wait)
    }
}

/// The ask and the report that the strategy is handed at a step: a fresh
/// ask and no report where the cycle opens, else the cycle's ask and the
/// report that came in.
pub open spec fn handed(m: StratModel, reply: Option<Reply>) -> (u64, Option<OrderStatus>) {
    match (m.phase, reply) {
        (Phase::Ticker, Some(Reply::Ticker(Some(t)))) => (
            match t.ask {
                Some(a) => a,
                None => 0,
            },
            None,
        ),
        (_, Some(r)) => (m.ask, r.order_report()),
        (_, None) => (m.ask, None),
    }
}

/// Whether the strategy takes a step on this reply: the quote that
/// completes the market snapshot came in, or a cycle is under way.
pub open spec fn strategy_steps(m: StratModel, reply: Option<Reply>) -> bool {
    match m.phase {
        Phase::Ticker => reply matches Some(Reply::Ticker(t)) && snapshot(m.detail, t) is Some,
        Phase::Executing => true,
        _ => false,
    }
}

/// One step of the scheduler: the state and the request that follow a
/// reply. `p` and `ledger` are what the strategy's step gave, read only
/// where the strategy takes one; `wait` is the wait until the weekly
/// target, read only where one is due.
///
/// A scheduler that was not run yet asks for its first wait. After a wait,
/// a shutdown request winds the worker down; else the symbol's status is
/// fetched, then its quote, then the strategy runs its cycle. A snapshot
/// that cannot be had, and a reply that answers another request than the
/// one that is out, fail the cycle. The target (weekday, time of day)
/// never changes, and the worker exits only once a shutdown request has
/// wound it down.
pub open spec fn strat_step(
    m: StratModel,
    immediate: Option<bool>,
    reply: Option<Reply>,
    p: Progress,
    ledger: Seq<OrderHandle>,
    wait: Option<WaitTime>,
) -> (StratModel, Request) {
    match m.phase {
        Phase::Ready => first_wait(m, immediate, wait),
        Phase::Waiting => match reply {
            Some(Reply::Woke(true)) => begin_drain(m),
            Some(Reply::Woke(false)) => (
                StratModel { phase: Phase::Detail, ..m },
                Request::SymbolDetail,
            ),
            _ => retry(m),
        },
        Phase::Rearming => match reply {
            Some(Reply::Woke(true)) => begin_drain(m),
            Some(Reply::Woke(false)) => scheduled(m, wait),
            _ => scheduled(m, None),
        },
        Phase::Detail => match reply {
            Some(Reply::SymbolDetail(Some(d))) => if d.is_open {
                (StratModel { phase: Phase::Ticker, detail: Some(d), ..m }, Request::Ticker)
            } else {
                retry(m)
            },
            _ => retry(m),
        },
        Phase::Ticker => if strategy_steps(m, reply) {
            conclude(StratModel { ask: handed(m, reply).0, orders: ledger, ..m }, p, wait)
        } else {
            retry(m)
        },
        Phase::Executing => conclude(StratModel { orders: ledger, ..m }, p, wait),
        Phase::Draining => drain(
            m,
            sweep_step(
                m.sweep,
                m.orders,
                match reply {
                    Some(r) => r.order_report(),
                    None => None,
                },
            ),
        ),
        Phase::Terminated => (m, Request::Exit),
    }
}

/// The scheduler of one strategy on one symbol.
pub struct Strat {
    symbol: String,
    day: i64,
    hr: u32,
    min: u32,
    sec: u32,
    phase: Phase,
    orders: Vec<OrderHandle>,
    sweep: CancelSweep,
    detail: Option<SymbolDetail>,
    ask: u64,
}

impl View for Strat {
    type V = StratModel;

    closed spec fn view(&self) -> StratModel {
        StratModel {
            symbol: self.symbol@,
            day: self.day,
            hr: self.hr,
            min: self.min,
            sec: self.sec,
            phase: self.phase,
            orders: self.orders@,
            sweep: self.sweep,
            detail: self.detail,
            ask: self.ask,
        }
    }
}

/// The wait until the target of `m`, counted from the given instant.
pub open spec fn wait_from(m: StratModel, now_secs: int, now_nanos: int) -> Option<WaitTime> {
    wait_until_target(now_secs, now_nanos, m.day as int, m.hr as int, m.min as int, m.sec as int)
}

impl Strat {
    /// The scheduler that `new` builds.
    pub open spec fn new_spec(symbol: Seq<char>, day: i64, hr: u32, min: u32, sec: u32) -> StratModel {
        StratModel {
            symbol,
            day,
            hr,
            min,
            sec,
            phase: Phase::Ready,
            orders: Seq::empty(),
            sweep: fresh_sweep(),
            detail: None,
            ask: 0,
        }
    }

    /// A scheduler for `symbol` with the weekly target `day` (Monday = 1)
    /// at `hr:min:sec` Mountain time, not yet run and with an empty ledger.
    pub fn new(symbol: &str, day: i64, hr: u32, min: u32, sec: u32) -> (s: Strat)
        ensures
            s@ == Strat::new_spec(symbol@, day, hr, min, sec),
    {
        Strat {
            symbol: symbol.to_owned(),
            day,
            hr,
            min,
            sec,
            phase: Phase::Ready,
            orders: Vec::new(),
            sweep: CancelSweep::new(),
            detail: None,
            ask: 0,
        }
    }

    /// The symbol that the scheduler trades.
    pub fn symbol(&self) -> (s: &str)
        ensures
            s@ == self@.symbol,
    {
        self.symbol.as_str()
    }

    /// Where the scheduler stands.
    pub fn phase(&self) -> (p: Phase)
        ensures
            p == self@.phase,
    {
        self.phase
    }

    /// The orders believed outstanding.
    pub fn orders(&self) -> (o: &Vec<OrderHandle>)
        ensures
            o@ == self@.orders,
    {
        &self.orders
    }

    fn retry(&mut self) -> (req: Request)
        ensures
            (final(self)@, req) == retry(old(self)@),
            req == Request::Wait(retry_interval()),
    {
        self.phase = Phase::Waiting;
        Request::Wait(WaitTime { secs: 15, nanos: 0 })
    }

    fn drain(&mut self, p: Progress) -> (req: Request)
        ensures
            (final(self)@, req) == drain(old(self)@, (old(self)@.sweep, p)),
    {
        match p {
            Progress::Ask(r) => {
                self.phase = Phase::Draining;
                r
            },
            Progress::Done(_) => {
                self.phase = Phase::Terminated;
                Request::Exit
            },
        }
    }

    fn begin_drain(&mut self) -> (req: Request)
        ensures
            (final(self)@, req) == begin_drain(old(self)@),
    {
        let p = sleep_or_die(true, &mut self.sweep, &self.orders);
        self.drain(p)
    }

    /// What follows a step of the strategy that gave `p`, with `wait` the
    /// wait until the weekly target.
    pub fn conclude(&mut self, p: Progress, wait: Option<WaitTime>) -> (req: Request)
        ensures
            (final(self)@, req) == conclude(old(self)@, p, wait),
            p is Done ==> (req matches Request::Wait(w) ==> w == retry_interval() || wait == Some(
                w,
            )),
    {
        match p {
            Progress::Ask(r) => {
                self.phase = Phase::Executing;
                r
            },
            Progress::Done(false) => self.retry(),
            Progress::Done(true) => self.schedule(wait),
        }
    }

    fn schedule(&mut self, wait: Option<WaitTime>) -> (req: Request)
        ensures
            (final(self)@, req) == scheduled(old(self)@, wait),
            req matches Request::Wait(w) && (w == retry_interval() || wait == Some(w)),
    {
        match wait {
            Some(w) => {
                self.phase = Phase::Waiting;
                Request::Wait(w)
            },
            None => {
                self.phase = Phase::Rearming;
                Request::Wait(WaitTime { secs: 15, nanos: 0 })
            },
        }
    }

    fn schedule_now(&mut self) -> (req: Request)
        ensures
            exists|now_secs: int, now_nanos: int|
                0 <= now_nanos < 1_000_000_000 && (final(self)@, req) == scheduled(
                    old(self)@,
                    #[trigger] wait_from(old(self)@, now_secs, now_nanos),
                ),
            req matches Request::Wait(w) && w.wf(),
    {
        let wait = get_dur_until_next_target_date(self.day, self.hr, self.min, self.sec);
        let ghost (s, n) = choose|s: int, n: int|
            0 <= n < 1_000_000_000 && wait == #[trigger] wait_until_target(
                s,
                n,
                self.day as int,
                self.hr as int,
                self.min as int,
                self.sec as int,
            );
        let req = self.schedule(wait);
        assert((self@, req) == scheduled(old(self)@, wait_from(old(self)@, s, n)));
        req
    }
}

/// One step of the scheduler with the strategy `ctx`: `strat_step` on
/// what the strategy's own step gives.
pub open spec fn run_step<T: Execute>(
    m: StratModel,
    ctx: &T,
    immediate: Option<bool>,
    reply: Option<Reply>,
    wait: Option<WaitTime>,
) -> (StratModel, Request) {
    let h = handed(m, reply);
    strat_step(
        m,
        immediate,
        reply,
        ctx.progress(m.orders, h.0, h.1),
        ctx.ledger_after(m.orders, h.0, h.1),
        wait,
    )
}

impl Strat {
    fn first(&mut self, immediate: Option<bool>) -> (req: Request)
        ensures
            exists|now_secs: int, now_nanos: int|
                0 <= now_nanos < 1_000_000_000 && (final(self)@, req)
                    == first_wait(
                    old(self)@,
                    immediate,
                    #[trigger] wait_from(old(self)@, now_secs, now_nanos),
                ),
            req matches Request::Wait(w) ==> w.wf(),
    {
        let at_once = match immediate {
            Some(b) => b,
            None => false,
        };
        if at_once {
            self.phase = Phase::Waiting;
            proof {
                let w = wait_from(old(self)@, 0, 0);
                assert((self@, Request::Wait(WaitTime { secs: 0, nanos: 0 })) == first_wait(
                    old(self)@,
                    immediate,
                    w,
                ));
            }
            Request::Wait(WaitTime { secs: 0, nanos: 0 })
        } else {
            let req = self.schedule_now();
            let ghost (s, n) = choose|s: int, n: int|
                0 <= n < 1_000_000_000 && (self@, req) == scheduled(
                    old(self)@,
                    #[trigger] wait_from(old(self)@, s, n),
                );
            assert((self@, req) == first_wait(old(self)@, immediate, wait_from(old(self)@, s, n)));
            req
        }
    }

    fn finish(&mut self, p: Progress) -> (req: Request)
        ensures
            exists|now_secs: int, now_nanos: int|
                0 <= now_nanos < 1_000_000_000 && (final(self)@, req) == conclude(
                    old(self)@,
                    p,
                    #[trigger] wait_from(old(self)@, now_secs, now_nanos),
                ),
            p is Done ==> (req matches Request::Wait(w) ==> w.wf()),
            p matches Progress::Ask(r) ==> req == r,
    {
        match p {
            Progress::Done(true) => {
                let req = self.schedule_now();
                let ghost (s, n) = choose|s: int, n: int|
                    0 <= n < 1_000_000_000 && (self@, req) == scheduled(
                        old(self)@,
                        #[trigger] wait_from(old(self)@, s, n),
                    );
                assert((self@, req) == conclude(old(self)@, p, wait_from(old(self)@, s, n)));
                req
            },
            _ => {
                let req = self.conclude(p, None);
                proof {
                    let w = wait_from(old(self)@, 0, 0);
                    assert((self@, req) == conclude(old(self)@, p, w));
                }
                req
            },
        }
    }

    /// Takes the scheduler one step on. `reply` answers the request that
    /// the previous step returned; the first step reads `immediate`
    /// instead. The result is the next request.
    ///
    /// The step is `strat_step` on what the strategy's own step gives,
    /// with the wait until the weekly target counted from the instant that
    /// the clock shows when the wait is computed. The strategy is touched
    /// only where it takes a step.
    pub fn run<T: Execute>(&mut self, ctx: &mut T, immediate: Option<bool>, reply: Option<Reply>) -> (req:
        Request)
        requires
            old(ctx).inv(),
        ensures
            final(ctx).inv(),
            exists|now_secs: int, now_nanos: int|
                0 <= now_nanos < 1_000_000_000 && (final(self)@, req) == run_step(
                    old(self)@,
                    old(ctx),
                    immediate,
                    reply,
                    #[trigger] wait_from(old(self)@, now_secs, now_nanos),
                ),
            !(old(self)@.phase is Ready) && !(old(self)@.phase is Rearming) && !strategy_steps(
                old(self)@,
                reply,
            ) ==> (final(self)@, req) == run_step(old(self)@, old(ctx), immediate, reply, None),
            !strategy_steps(old(self)@, reply) ==> *final(ctx) == *old(ctx),
            strategy_steps(old(self)@, reply) ==> old(ctx).steps_to(
                old(self)@.orders,
                handed(old(self)@, reply).0,
                handed(old(self)@, reply).1,
                final(ctx),
            ),
            req matches Request::Wait(w) ==> w.wf(),
    {
        let ghost w0 = wait_from(old(self)@, 0, 0);
        match self.phase {
            Phase::Ready => {
                let req = self.first(immediate);
                let ghost (s, n) = choose|s: int, n: int|
                    0 <= n < 1_000_000_000 && (self@, req) == first_wait(
                        old(self)@,
                        immediate,
                        #[trigger] wait_from(old(self)@, s, n),
                    );
                assert((self@, req) == run_step(
                    old(self)@,
                    old(ctx),
                    immediate,
                    reply,
                    wait_from(old(self)@, s, n),
                ));
                req
            },
            Phase::Waiting => {
                let req = match reply {
                    Some(Reply::Woke(die)) => {
                        let p = sleep_or_die(die, &mut self.sweep, &self.orders);
                        match p {
                            Progress::Done(true) => {
                                self.phase = Phase::Detail;
                                Request::SymbolDetail
                            },
                            _ => self.drain(p),
                        }
                    },
                    _ => self.retry(),
                };
                assert((self@, req) == run_step(old(self)@, old(ctx), immediate, reply, w0));
                req
            },
            Phase::Rearming => {
                match reply {
                    Some(Reply::Woke(true)) => {
                        let req = self.begin_drain();
                        assert((self@, req) == run_step(old(self)@, old(ctx), immediate, reply, w0));
                        req
                    },
                    Some(Reply::Woke(false)) => {
                        let req = self.schedule_now();
                        let ghost (s, n) = choose|s: int, n: int|
                            0 <= n < 1_000_000_000 && (self@, req) == scheduled(
                                old(self)@,
                                #[trigger] wait_from(old(self)@, s, n),
                            );
                        assert((self@, req) == run_step(
                            old(self)@,
                            old(ctx),
                            immediate,
                            reply,
                            wait_from(old(self)@, s, n),
                        ));
                        req
                    },
                    _ => {
                        let req = self.schedule(None);
                        assert((self@, req) == run_step(old(self)@, old(ctx), immediate, reply, w0));
                        req
                    },
                }
            },
            Phase::Detail => {
                let req = match reply {
                    Some(Reply::SymbolDetail(d)) => {
                        if symbol_open(&d) {
                            self.detail = d;
                            self.phase = Phase::Ticker;
                            Request::Ticker
                        } else {
                            self.retry()
                        }
                    },
                    _ => self.retry(),
                };
                assert((self@, req) == run_step(old(self)@, old(ctx), immediate, reply, w0));
                req
            },
            Phase::Ticker => {
                let quote = match reply {
                    Some(Reply::Ticker(t)) => get_info(self.detail, t),
                    _ => None,
                };
                match quote {
                    Some((_, Ticker { ask: Some(ask) })) => {
                        self.ask = ask;
                        let p = ctx.execute(&mut self.orders, ask, None);
                        let ghost before = self@;
                        let req = self.finish(p);
                        let ghost (s, n) = choose|s: int, n: int|
                            0 <= n < 1_000_000_000 && (self@, req) == conclude(
                                before,
                                p,
                                #[trigger] wait_from(before, s, n),
                            );
                        assert((self@, req) == run_step(
                            old(self)@,
                            old(ctx),
                            immediate,
                            reply,
                            wait_from(old(self)@, s, n),
                        ));
                        req
                    },
                    _ => {
                        let req = self.retry();
                        assert((self@, req) == run_step(old(self)@, old(ctx), immediate, reply, w0));
                        req
                    },
                }
            },
            Phase::Executing => {
                let report = match reply {
                    Some(r) => r.order(),
                    None => None,
                };
                let p = ctx.execute(&mut self.orders, self.ask, report);
                let ghost before = self@;
                let req = self.finish(p);
                let ghost (s, n) = choose|s: int, n: int|
                    0 <= n < 1_000_000_000 && (self@, req) == conclude(
                        before,
                        p,
                        #[trigger] wait_from(before, s, n),
                    );
                assert((self@, req) == run_step(
                    old(self)@,
                    old(ctx),
                    immediate,
                    reply,
                    wait_from(old(self)@, s, n),
                ));
                req
            },
            Phase::Draining => {
                let report = match reply {
                    Some(r) => r.order(),
                    None => None,
                };
                let p = cancel_orders_if_open(&mut self.sweep, &self.orders, report);
                let req = self.drain(p);
                assert((self@, req) == run_step(old(self)@, old(ctx), immediate, reply, w0));
                req
            },
            Phase::Terminated => {
                assert((self@, Request::Exit) == run_step(
                    old(self)@,
                    old(ctx),
                    immediate,
                    reply,
                    w0,
                ));
                Request::Exit
            },
        }
    }
}

/// Whether two schedulers have the same symbol and weekly target.
pub open spec fn same_anchor(a: StratModel, b: StratModel) -> bool {
    a.symbol == b.symbol && a.day == b.day && a.hr == b.hr && a.min == b.min && a.sec == b.sec
}

/// What one step of a scheduler is given.
pub struct StepInput {
    pub immediate: Option<bool>,
    pub reply: Option<Reply>,
    /// Result of the strategy's step.
    pub p: Progress,
    /// Ledger after the strategy's step.
    pub ledger: Seq<OrderHandle>,
    /// Wait until the weekly target, as computed at this step.
    pub wait: Option<WaitTime>,
}

/// The scheduler after a run of steps.
pub open spec fn strat_after(m: StratModel, inputs: Seq<StepInput>) -> StratModel
    decreases inputs.len(),
{
    if inputs.len() == 0 {
        m
    } else {
        let x = inputs.last();
        strat_step(strat_after(m, inputs.drop_last()), x.immediate, x.reply, x.p, x.ledger, x.wait).0
    }
}

/// No step moves the weekly target: whatever comes in, the scheduler
/// keeps its symbol, weekday and time of day.
pub proof fn lemma_step_keeps_anchor(
    m: StratModel,
    immediate: Option<bool>,
    reply: Option<Reply>,
    p: Progress,
    ledger: Seq<OrderHandle>,
    wait: Option<WaitTime>,
)
    ensures
        same_anchor(strat_step(m, immediate, reply, p, ledger, wait).0, m),
{
}

/// However many cycles fail and are retried, the weekly target that the
/// next wait is computed from is the one the scheduler was built with.
pub proof fn lemma_anchor_never_moves(m: StratModel, inputs: Seq<StepInput>)
    ensures
        same_anchor(strat_after(m, inputs), m),
    decreases inputs.len(),
{
    if inputs.len() > 0 {
        lemma_anchor_never_moves(m, inputs.drop_last());
        let x = inputs.last();
        lemma_step_keeps_anchor(
            strat_after(m, inputs.drop_last()),
            x.immediate,
            x.reply,
            x.p,
            x.ledger,
            x.wait,
        );
    }
}

/// A cycle that fails is retried after the retry interval; one that
/// succeeds is followed by the wait until the weekly target.
pub proof fn lemma_cycle_end(
    m: StratModel,
    immediate: Option<bool>,
    reply: Option<Reply>,
    ok: bool,
    ledger: Seq<OrderHandle>,
    wait: Option<WaitTime>,
)
    requires
        strategy_steps(m, reply),
        ok ==> wait is Some,
    ensures
        ({
            let next = strat_step(m, immediate, reply, Progress::Done(ok), ledger, wait);
            &&& next.0.phase is Waiting
            &&& next.0.orders == ledger
            &&& next.1 == Request::Wait(
                if ok {
                    wait->0
                } else {
                    retry_interval()
                },
            )
        }),
{
}

/// A market snapshot that cannot be had fails the cycle before the
/// strategy is asked anything: the retry interval is waited for and the
/// ledger stays as it is.
pub proof fn lemma_no_snapshot_retries(
    m: StratModel,
    immediate: Option<bool>,
    reply: Option<Reply>,
    p: Progress,
    ledger: Seq<OrderHandle>,
    wait: Option<WaitTime>,
)
    requires
        m.phase is Detail && !(reply matches Some(Reply::SymbolDetail(Some(d))) && d.is_open)
            || m.phase is Ticker && !strategy_steps(m, reply),
    ensures
        strat_step(m, immediate, reply, p, ledger, wait) == retry(m),
{
}

/// The worker exits only after a shutdown request: a scheduler starts to
/// wind down only on a wait that a shutdown request cut short, and it asks
/// to exit only while it winds down or once it is terminated. Whatever
/// else happens (a cycle that fails, a wait that cannot be worked out, a
/// reply out of turn) it asks for another wait or goes on with its cycle.
pub proof fn lemma_exit_only_after_shutdown(
    m: StratModel,
    immediate: Option<bool>,
    reply: Option<Reply>,
    p: Progress,
    ledger: Seq<OrderHandle>,
    wait: Option<WaitTime>,
)
    requires
        p matches Progress::Ask(r) ==> r.is_order_request(),
    ensures
        ({
            let next = strat_step(m, immediate, reply, p, ledger, wait);
            let winding = m.phase is Draining || m.phase is Terminated;
            let shut = (m.phase is Waiting || m.phase is Rearming) && reply == Some(Reply::Woke(true));
            &&& next.0.phase is Draining || next.0.phase is Terminated ==> winding || shut
            &&& next.1 is Exit ==> winding || shut
        }),
{
}

/// Requests of a scheduler that winds down, report by report.
pub open spec fn drain_requests(m: StratModel, reports: Seq<Option<OrderStatus>>) -> Seq<Request>
    decreases reports.len(),
{
    if reports.len() == 0 {
        Seq::empty()
    } else {
        let next = strat_step(
            m,
            None,
            Some(Reply::Order(reports[0])),
            Progress::Done(false),
            m.orders,
            None,
        );
        seq![next.1] + drain_requests(next.0, reports.skip(1))
    }
}

/// The scheduler that winds down, after the reports came in.
pub open spec fn drain_end(m: StratModel, reports: Seq<Option<OrderStatus>>) -> StratModel
    decreases reports.len(),
{
    if reports.len() == 0 {
        m
    } else {
        drain_end(
            strat_step(
                m,
                None,
                Some(Reply::Order(reports[0])),
                Progress::Done(false),
                m.orders,
                None,
            ).0,
            reports.skip(1),
        )
    }
}

/// Whether the ledger holds an order with this identifier.
pub open spec fn holds_order(orders: Seq<OrderHandle>, id: u64) -> bool {
    exists|i: int| 0 <= i < orders.len() && #[trigger] orders[i].order_id == id
}

/// Once a scheduler winds down it runs no further cycle: whatever comes
/// in, it stays winding down or is terminated, its ledger is untouched,
/// and it asks only for the status or the cancellation of an order of the
/// ledger, or exits. A terminated scheduler stays terminated.
pub proof fn lemma_drain_runs_no_cycle(
    m: StratModel,
    immediate: Option<bool>,
    reply: Option<Reply>,
    p: Progress,
    ledger: Seq<OrderHandle>,
    wait: Option<WaitTime>,
)
    requires
        m.phase is Draining || m.phase is Terminated,
    ensures
        ({
            let next = strat_step(m, immediate, reply, p, ledger, wait);
            &&& next.0.phase is Draining || next.0.phase is Terminated
            &&& m.phase is Terminated ==> next == (m, Request::Exit)
            &&& next.0.orders == m.orders
            &&& match next.1 {
                Request::OrderStatus(id) => holds_order(m.orders, id),
                Request::CancelOrder(id) => holds_order(m.orders, id),
                Request::Exit => next.0.phase is Terminated,
                _ => false,
            }
        }),
{
}

proof fn lemma_drain_covers_from(m: StratModel, reports: Seq<Option<OrderStatus>>, i: int)
    requires
        m.phase is Draining,
        m.sweep.stage is Status || m.sweep.stage is Cancel,
        m.sweep.next < i < m.orders.len() <= usize::MAX,
        drain_end(m, reports).phase is Terminated,
    ensures
        drain_requests(m, reports).contains(Request::OrderStatus(m.orders[i].order_id)),
    decreases reports.len(),
{
    let wanted = Request::OrderStatus(m.orders[i].order_id);
    let next = strat_step(
        m,
        None,
        Some(Reply::Order(reports[0])),
        Progress::Done(false),
        m.orders,
        None,
    );
    let rest = drain_requests(next.0, reports.skip(1));
    let all = drain_requests(m, reports);
    assert(all == seq![next.1] + rest);
    if next.1 == wanted {
        assert(all[0] == wanted);
    } else {
        lemma_drain_covers_from(next.0, reports.skip(1), i);
        let j = choose|j: int| 0 <= j < rest.len() && rest[j] == wanted;
        assert(all[j + 1] == wanted);
    }
}

/// A scheduler that is woken by a shutdown request and then reaches its
/// end has asked for the status of every order of its ledger, so that
/// each one still live was cancelled: none is left unattended.
pub proof fn lemma_shutdown_attends_every_order(
    m: StratModel,
    reports: Seq<Option<OrderStatus>>,
    i: int,
)
    requires
        m.phase is Waiting,
        0 <= i < m.orders.len() <= usize::MAX,
        drain_end(begin_drain(m).0, reports).phase is Terminated,
    ensures
        strat_step(m, None, Some(Reply::Woke(true)), Progress::Done(false), m.orders, None)
            == begin_drain(m),
        begin_drain(m).1 == Request::OrderStatus(m.orders[i].order_id) || drain_requests(
            begin_drain(m).0,
            reports,
        ).contains(Request::OrderStatus(m.orders[i].order_id)),
{
    if i > 0 {
        lemma_drain_covers_from(begin_drain(m).0, reports, i);
    }
}

} // verus!
