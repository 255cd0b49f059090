//! What passes between the strategies and the exchange gateway: the
//! requests that the library hands out and the replies it takes back.
use crate::strats::decimal::parse_decimal;
use crate::strats::decimal::parse_u64;
use crate::strats::decimal::parsed_decimal;
use crate::strats::decimal::parsed_u64;
use crate::strats::decimal::same_text;
use crate::strats::strat_util::WaitTime;
use vstd::prelude::*;

verus! {

/// Execution option of a limit order.
#[derive(Clone, Copy, Debug, PartialEq, Eq)]
pub enum OrderKind {
    /// Rests on the book; cancelled if it would match at once.
    MakerOrCancel,
    /// Fills at once as far as it can; the rest is cancelled.
    ImmediateOrCancel,
}

/// A buy order to be placed.
#[derive(Clone, Copy, Debug, PartialEq, Eq)]
pub struct OrderRequest {
    /// Tag chosen by the strategy; 0 for an untagged order.
    pub client_order_id: u32,
    /// Base amount, in units of 1/SCALE.
    pub amount: u64,
    /// Limit price, in units of 1/SCALE.
    pub price: u64,
    pub kind: OrderKind,
}

/// An order believed outstanding: the identifier that the exchange gave
/// it and the tag that the strategy placed it with.
#[derive(Clone, Copy, Debug, PartialEq, Eq)]
pub struct OrderHandle {
    pub order_id: u64,
    /// The tag of the order: the dip strategy's tier, 0 for an untagged
    /// order.
    pub client_order_id: u32,
}

/// What the gateway reports of an order.
#[derive(Clone, Copy, Debug, PartialEq, Eq)]
pub struct OrderStatus {
    /// Identifier given by the exchange; `None` where it is missing or
    /// unreadable.
    pub order_id: Option<u64>,
    /// The tag the order was placed with; `None` where it is missing or
    /// unreadable.
    pub client_order_id: Option<u32>,
    pub is_live: bool,
    pub is_cancelled: bool,
    /// The order was cancelled because, placed as immediate-or-cancel, it
    /// would have rested on the book.
    pub would_post: bool,
    /// Unfilled base amount; `None` where unreadable.
    pub remaining_amount: Option<u64>,
    /// Limit price; `None` where unreadable.
    pub price: Option<u64>,
}

/// Trading status of a symbol.
#[derive(Clone, Copy, Debug, PartialEq, Eq)]
pub struct SymbolDetail {
    pub is_open: bool,
}

/// Current quote of a symbol.
#[derive(Clone, Copy, Debug, PartialEq, Eq)]
pub struct Ticker {
    /// Best ask; `None` where unreadable.
    pub ask: Option<u64>,
}

/// What the caller is asked to do next.
#[derive(Clone, Copy, Debug, PartialEq, Eq)]
pub enum Request {
    /// Wait this long, or until shutdown is requested if that comes first.
    Wait(WaitTime),
    /// Fetch the symbol's trading status.
    SymbolDetail,
    /// Fetch the symbol's quote.
    Ticker,
    /// Place a buy order.
    NewOrder(OrderRequest),
    /// Fetch the status of an order.
    OrderStatus(u64),
    /// Cancel an order.
    CancelOrder(u64),
    /// Nothing more: the worker is done.
    Exit,
}

/// What came of the last request.
#[derive(Clone, Copy, Debug, PartialEq, Eq)]
pub enum Reply {
    /// The wait is over; `true` where shutdown was requested.
    Woke(bool),
    SymbolDetail(Option<SymbolDetail>),
    Ticker(Option<Ticker>),
    /// Answer to `NewOrder`, `OrderStatus` or `CancelOrder`; `None` where
    /// the gateway gave none.
    Order(Option<OrderStatus>),
}

/// Outcome of one step of a piece of work that talks to the gateway.
#[derive(Clone, Copy, Debug, PartialEq, Eq)]
pub enum Progress {
    /// The work goes on once this request is answered.
    Ask(Request),
    /// The work is over, with this result.
    Done(bool),
}

impl Request {
    /// Whether the request concerns an order.
    pub open spec fn is_order_request(self) -> bool {
        self is NewOrder || self is OrderStatus || self is CancelOrder
    }
}

impl Reply {
    /// The order report carried by a reply, if it carries one.
    pub open spec fn order_report(self) -> Option<OrderStatus> {
        match self {
            Reply::Order(r) => r,
            _ => None,
        }
    }

    /// The order report carried by a reply, if it carries one.
    pub fn order(&self) -> (r: Option<OrderStatus>)
        ensures
            r == self.order_report(),
    {
        match self {
            Reply::Order(r) => *r,
            _ => None,
        }
    }
}

/// A tag read from text: a run of digits that names a number within
/// `u32`.
pub open spec fn parsed_tag(s: Seq<char>) -> Option<u32> {
    match parsed_u64(s) {
        Some(v) => if v <= u32::MAX {
            Some(v as u32)
        } else {
            None
        },
        None => None,
    }
}

/// The report that the gateway's text fields stand for.
pub open spec fn parsed_status(
    order_id: Seq<char>,
    client_order_id: Option<Seq<char>>,
    is_live: bool,
    is_cancelled: bool,
    reason: Option<Seq<char>>,
    remaining_amount: Seq<char>,
    price: Seq<char>,
) -> OrderStatus {
    OrderStatus {
        order_id: parsed_u64(order_id),
        client_order_id: match client_order_id {
            Some(tag) => parsed_tag(tag),
            None => None,
        },
        is_live,
        is_cancelled,
        would_post: reason == Some("ImmediateOrCancelWouldPost"@),
        remaining_amount: parsed_decimal(remaining_amount),
        price: parsed_decimal(price),
    }
}

impl OrderStatus {
    /// Reads a report from the gateway's text fields, each number once.
    /// A field that cannot be read becomes `None`.
    pub fn parse(
        order_id: &str,
        client_order_id: Option<&str>,
        is_live: bool,
        is_cancelled: bool,
        reason: Option<&str>,
        remaining_amount: &str,
        price: &str,
    ) -> (st: OrderStatus)
        ensures
            st == parsed_status(
                order_id@,
                match client_order_id {
                    Some(tag) => Some(tag@),
                    None => None,
                },
                is_live,
                is_cancelled,
                match reason {
                    Some(r) => Some(r@),
                    None => None,
                },
                remaining_amount@,
                price@,
            ),
    {
        let tag: Option<u32> = match client_order_id {
            Some(text) => match parse_u64(text) {
                Some(v) => if v <= u32::MAX as u64 {
                    Some(v as u32)
                } else {
                    None
                },
                None => None,
            },
            None => None,
        };
        let would_post = match reason {
            Some(r) => same_text(r, "ImmediateOrCancelWouldPost"),
            None => false,
        };
        OrderStatus {
            order_id: parse_u64(order_id),
            client_order_id: tag,
            is_live,
            is_cancelled,
            would_post,
            remaining_amount: parse_decimal(remaining_amount),
            price: parse_decimal(price),
        }
    }
}

impl SymbolDetail {
    /// Reads the trading status: a symbol trades where its status is
    /// `open`.
    pub fn parse(status: &str) -> (d: SymbolDetail)
        ensures
            d.is_open == (status@ == "open"@),
    {
        SymbolDetail { is_open: same_text(status, "open") }
    }
}

impl Ticker {
    /// Reads the quote's ask.
    pub fn parse(ask: &str) -> (t: Ticker)
        ensures
            t.ask == parsed_decimal(ask@),
    {
        Ticker { ask: parse_decimal(ask) }
    }
}

impl OrderKind {
    /// The execution option as the exchange names it.
    pub fn option(&self) -> (name: &'static str)
        ensures
            name@ == match *self {
                OrderKind::MakerOrCancel => "maker-or-cancel"@,
                OrderKind::ImmediateOrCancel => "immediate-or-cancel"@,
            },
    {
        match self {
            OrderKind::MakerOrCancel => "maker-or-cancel",
            OrderKind::ImmediateOrCancel => "immediate-or-cancel",
        }
    }
}

/// Side of every order that the strategies place.
pub fn order_side() -> (side: &'static str)
    ensures
        side@ == "buy"@,
{
    "buy"
}

/// Type of every order that the strategies place.
pub fn order_type() -> (name: &'static str)
    ensures
        name@ == "exchange limit"@,
{
    "exchange limit"
}

} // verus!
