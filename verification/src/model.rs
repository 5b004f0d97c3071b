//! The venue's data shapes, as plain values.
//!
//! Numeric quantities that the venue serves as decimal text stay text
//! here, exactly as received; ids and status codes are integers. The
//! unverified boundary decodes wire JSON into these shapes and encodes
//! them back; the engine's logic reads and stores them.

use vstd::prelude::*;

verus! {

/// The generic success envelope: `{status, data, responsetime}`.
#[derive(Debug)]
pub struct GmocoinResponse<T> {
    pub status: i32,
    pub data: T,
    pub response_time: String,
}

/// One entry of a failure envelope's `messages`.
#[derive(Debug, Clone)]
pub struct GmocoinErrorMessage {
    pub message_code: String,
    pub message_string: String,
}

/// The failure envelope: `{status, messages, responsetime}`.
#[derive(Debug)]
pub struct GmocoinErrorResponse {
    pub status: i32,
    pub messages: Vec<GmocoinErrorMessage>,
    pub response_time: String,
}

/// One order as the venue reports it.
#[derive(Debug, Clone)]
pub struct Order {
    pub order_id: u64,
    pub root_order_id: Option<u64>,
    pub symbol: String,
    pub side: String,
    pub execution_type: String,
    pub settle_type: Option<String>,
    pub size: String,
    pub executed_size: String,
    pub price: Option<String>,
    pub losscut_price: Option<String>,
    pub status: String,
    pub time_in_force: Option<String>,
    pub timestamp: String,
}

/// One fill of an order.
#[derive(Debug, Clone)]
pub struct Execution {
    pub execution_id: u64,
    pub order_id: u64,
    pub symbol: String,
    pub side: String,
    pub settle_type: Option<String>,
    pub size: String,
    pub price: String,
    pub loss_gain: Option<String>,
    pub fee: String,
    pub timestamp: String,
}

/// Container for an orders-list reply.
#[derive(Debug, Clone)]
pub struct OrdersList {
    pub list: Vec<Order>,
}

/// Container for an executions-list reply.
#[derive(Debug, Clone)]
pub struct ExecutionsList {
    pub list: Vec<Execution>,
}

/// One open leverage position.
#[derive(Debug, Clone)]
pub struct Position {
    pub position_id: u64,
    pub symbol: String,
    pub side: String,
    pub size: String,
    pub ordered_size: Option<String>,
    pub price: String,
    pub loss_gain: Option<String>,
    pub leverage: Option<String>,
    pub losscut_price: Option<String>,
    pub timestamp: String,
}

/// Container for a positions-list reply.
#[derive(Debug, Clone)]
pub struct PositionsList {
    pub list: Vec<Position>,
}

/// One side's aggregate position for a symbol.
#[derive(Debug, Clone)]
pub struct PositionSummary {
    pub symbol: String,
    pub side: String,
    pub sum_position_quantity: String,
    pub sum_order_quantity: Option<String>,
    pub average_position_rate: String,
    pub position_loss_gain: String,
}

/// Container for a position-summary reply.
#[derive(Debug, Clone)]
pub struct PositionSummaryList {
    pub list: Vec<PositionSummary>,
}

/// One asset balance.
#[derive(Debug, Clone)]
pub struct Asset {
    pub amount: String,
    pub available: String,
    pub conversion_rate: Option<String>,
    pub symbol: String,
}

/// Container for an assets reply.
#[derive(Debug, Clone)]
pub struct AssetsList(pub Vec<Asset>);

/// Margin (leverage account) information.
#[derive(Debug, Clone)]
pub struct Margin {
    pub profit_loss: Option<String>,
    pub actual_profit_loss: Option<String>,
    pub margin: Option<String>,
    pub available_amount: String,
    pub margin_rate: Option<String>,
}

/// A ticker frame's fields.
#[derive(Debug, Clone)]
pub struct Ticker {
    pub ask: String,
    pub bid: String,
    pub high: String,
    pub low: String,
    pub last: String,
    pub symbol: String,
    pub timestamp: String,
    pub volume: String,
}

impl Ticker {
    pub fn new(
        ask: String,
        bid: String,
        high: String,
        low: String,
        last: String,
        symbol: String,
        timestamp: String,
        volume: String,
    ) -> (r: Ticker)
        ensures
            r.ask@ == ask@,
            r.bid@ == bid@,
            r.high@ == high@,
            r.low@ == low@,
            r.last@ == last@,
            r.symbol@ == symbol@,
            r.timestamp@ == timestamp@,
            r.volume@ == volume@,
    {
        Ticker { ask, bid, high, low, last, symbol, timestamp, volume }
    }
}

/// One price level of a depth snapshot, as decimal text.
#[derive(Debug, Clone)]
pub struct DepthEntry {
    pub price: String,
    pub size: String,
}

/// A whole-book depth snapshot as received.
#[derive(Debug, Clone)]
pub struct Depth {
    pub asks: Vec<DepthEntry>,
    pub bids: Vec<DepthEntry>,
    pub symbol: String,
    pub timestamp: String,
}

impl Depth {
    pub fn new(asks: Vec<DepthEntry>, bids: Vec<DepthEntry>, symbol: String, timestamp: String) -> (r:
        Depth)
        ensures
            r.asks@ == asks@,
            r.bids@ == bids@,
            r.symbol@ == symbol@,
            r.timestamp@ == timestamp@,
    {
        Depth { asks, bids, symbol, timestamp }
    }
}

/// One public trade.
#[derive(Debug, Clone)]
pub struct Trade {
    pub price: String,
    pub side: String,
    pub size: String,
    pub timestamp: String,
    pub symbol: Option<String>,
}

impl Trade {
    pub fn new(price: String, side: String, size: String, timestamp: String, symbol: Option<
        String,
    >) -> (r: Trade)
        ensures
            r.price@ == price@,
            r.side@ == side@,
            r.size@ == size@,
            r.timestamp@ == timestamp@,
            r.symbol == symbol,
    {
        Trade { price, side, size, timestamp, symbol }
    }
}

/// A symbol's trading rules.
#[derive(Debug, Clone)]
pub struct SymbolInfo {
    pub symbol: String,
    pub min_close_order_size: Option<String>,
    pub max_order_size: Option<String>,
    pub size_step: Option<String>,
    pub tick_size: Option<String>,
    pub min_order_size: Option<String>,
    pub taker_fee: Option<String>,
    pub maker_fee: Option<String>,
}

impl SymbolInfo {
    pub fn new(symbol: String) -> (r: SymbolInfo)
        ensures
            r.symbol@ == symbol@,
            r.min_close_order_size is None,
            r.max_order_size is None,
            r.size_step is None,
            r.tick_size is None,
            r.min_order_size is None,
            r.taker_fee is None,
            r.maker_fee is None,
    {
        SymbolInfo {
            symbol,
            min_close_order_size: None,
            max_order_size: None,
            size_step: None,
            tick_size: None,
            min_order_size: None,
            taker_fee: None,
            maker_fee: None,
        }
    }
}

/// One candle of kline data.
#[derive(Debug, Clone)]
pub struct Kline {
    pub open_time: String,
    pub open: String,
    pub high: String,
    pub low: String,
    pub close: String,
    pub volume: String,
}

} // verus!
