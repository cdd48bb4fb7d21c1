//! Verified core of a client for the Wex market-place API.
//!
//! The library builds the parameters of each trade-API method, encodes them as
//! a form body, signs that body with HMAC-SHA512 and the account secret, and
//! turns the exchange's reply envelope into a `Result`.  Sending requests and
//! decoding JSON is left to the caller.

pub mod params;
pub mod request;
pub mod sign;
pub mod text;
pub mod types;

pub use params::Params;
pub use request::{
    active_orders_params, cancel_order_params, coin_deposit_address_params, get_info_params,
    order_info_params, private_request, public_url, ticker_path, trade_api_url, trade_history_params,
    trade_params, trans_history_params, PrivateRequest,
};
pub use types::{
    Account, FundRights, HistoryQuery, OrderStatus, OrderType, TradeHistorySorting,
    TransactionStatus, TransactionType, WexResult,
};
