//! Typed models of the exchange's response bodies. Text is carried as
//! UTF-8 bytes and numbers as exact fixed-point decimals.

use vstd::prelude::*;
use crate::encoding::Decimal;

verus! {

/// The exchange's clock, milliseconds since the epoch.
#[derive(Debug, PartialEq, Eq)]
pub struct ServerTime {
    pub server_time: u64,
}

/// The result of changing a position's initial leverage.
#[derive(Debug, PartialEq, Eq)]
pub struct Leverage {
    pub leverage: u64,
    pub max_notional_value: Decimal,
    pub symbol: Vec<u8>,
}

/// An accepted order.
#[derive(Debug, PartialEq, Eq)]
pub struct Transaction {
    pub order_id: u64,
    pub symbol: Vec<u8>,
    pub side: Vec<u8>,
    pub orig_type: Vec<u8>,
    pub close_position: bool,
    pub stop_price: Decimal,
}

/// One listed trading symbol.
#[derive(Debug, PartialEq, Eq)]
pub struct Symbol {
    pub symbol: Vec<u8>,
    pub status: Vec<u8>,
    pub base_asset: Vec<u8>,
    pub quote_asset: Vec<u8>,
}

/// The exchange's trading rules and symbol catalog.
#[derive(Debug, PartialEq, Eq)]
pub struct ExchangeInformation {
    pub server_time: u64,
    pub symbols: Vec<Symbol>,
}

/// One income-history record.
#[derive(Debug, PartialEq, Eq)]
pub struct Income {
    pub symbol: Vec<u8>,
    pub income_type: Vec<u8>,
    pub income: Decimal,
    pub time: u64,
}

} // verus!
