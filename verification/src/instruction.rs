use vstd::prelude::*;
use crate::oracle::Decimal;
use crate::types::{OrderType, SelfTradeBehavior, Side};

verus! {

/// Parameters of a new market.
#[derive(Clone, Copy, Debug)]
pub struct CreateMarket {
    /// Native quote units in one quote lot.
    pub quote_lot_size: i64,
    /// Native base units in one base lot.
    pub base_lot_size: i64,
    /// Maker fee rate, in millionths; negative for a rebate.
    pub maker_fee: i64,
    /// Taker fee rate, in millionths.
    pub taker_fee: i64,
    /// Most orders that rest on one side of the book.
    pub book_capacity: usize,
    /// Most events that wait in the queue.
    pub event_capacity: usize,
}

/// A payment into the free balances of an open-orders account.
#[derive(Clone, Copy, Debug)]
pub struct Deposit {
    pub base_amount: u64,
    pub quote_amount: u64,
}

/// An order at a fixed price.
#[derive(Clone, Copy, Debug)]
pub struct PlaceOrder {
    pub side: Side,
    pub price_lots: i64,
    pub max_base_lots: i64,
    /// Most quote lots that the order may trade and rest for.
    pub max_quote_lots_including_fees: i64,
    pub client_order_id: u64,
    pub order_type: OrderType,
    pub self_trade_behavior: SelfTradeBehavior,
    pub expiry_timestamp: u64,
}

/// An order whose price follows the oracle.
#[derive(Clone, Copy, Debug)]
pub struct PlaceOrderPegged {
    pub side: Side,
    /// Offset of the price from the oracle price, in lots.
    pub price_offset_lots: i64,
    /// Price the order never goes beyond.
    pub peg_limit: i64,
    pub max_base_lots: i64,
    /// Most quote lots that the order may trade and rest for.
    pub max_quote_lots_including_fees: i64,
    pub client_order_id: u64,
    pub order_type: OrderType,
    pub self_trade_behavior: SelfTradeBehavior,
    pub expiry_timestamp: u64,
}

/// An order that only takes: it never rests, and what it gains is paid out
/// at once.
#[derive(Clone, Copy, Debug)]
pub struct PlaceTakeOrder {
    pub side: Side,
    pub price_lots: i64,
    pub max_base_lots: i64,
    /// Most quote lots that the order may trade and rest for.
    pub max_quote_lots_including_fees: i64,
    /// True for an order that is filled in full or fails.
    pub fill_or_kill: bool,
    pub self_trade_behavior: SelfTradeBehavior,
}

/// Applies waiting events, at most `limit` of them.
#[derive(Clone, Copy, Debug)]
pub struct ConsumeEvents {
    pub limit: usize,
}

/// Applies the waiting events with the given sequence numbers.
#[derive(Debug)]
pub struct ConsumeGivenEvents {
    pub seq_nums: Vec<u64>,
}

/// Cancels the resting order with the given sequence number.
#[derive(Clone, Copy, Debug)]
pub struct CancelOrder {
    pub order_id: u64,
}

/// Cancels the resting order placed under the given id.
#[derive(Clone, Copy, Debug)]
pub struct CancelOrderByClientOrderId {
    pub client_order_id: u64,
}

/// Cancels resting orders, at most `limit` of them.
#[derive(Clone, Copy, Debug)]
pub struct CancelAllOrders {
    pub limit: u8,
}

/// Pays out what is free.
#[derive(Clone, Copy, Debug)]
pub struct SettleFunds {}

/// Hands the market's fees to the fee admin.
#[derive(Clone, Copy, Debug)]
pub struct SweepFees {}

/// Sets the price that the stub oracle reports.
#[derive(Clone, Copy, Debug)]
pub struct StubOracleSet {
    pub price: Decimal,
}

} // verus!
