use vstd::prelude::*;

use crate::json::{asset_ids_args_json, encode_asset_ids_args, encode_price_data, price_data_json};
use crate::types::PriceData;
use near_sdk::{AccountId, PromiseError};

verus! {

/// Prepaid gas for the oracle call, in teragas.
pub const ORACLE_CALL_TGAS: u64 = 5;

/// Prepaid gas for the continuation that reads the oracle's answer, in teragas.
pub const CALLBACK_TGAS: u64 = 5;

/// Why no snapshot text could be produced.
#[derive(Clone, Copy, Debug, PartialEq, Eq, Structural)]
pub enum RelayError {
    /// The oracle call did not complete: timeout, rejection or a bad reply.
    RemoteCallFailure,
    /// A received snapshot could not be turned into text.
    SerializationFailure,
}

/// The sentinel text that stands for an error.
pub open spec fn error_text(e: RelayError) -> Seq<char> {
    match e {
        RelayError::RemoteCallFailure => "Error fetching price data"@,
        RelayError::SerializationFailure => "Error serializing price data"@,
    }
}

/// The text handed to the caller for a typed response.
pub open spec fn response_text(r: Result<String, RelayError>) -> Seq<char> {
    match r {
        Ok(s) => s@,
        Err(e) => error_text(e),
    }
}

/// The text handed to the caller for an oracle outcome.
pub open spec fn outcome_text(call_result: Result<PriceData, PromiseError>) -> Seq<char> {
    match call_result {
        Ok(d) => price_data_json(d),
        Err(_) => error_text(RelayError::RemoteCallFailure),
    }
}

impl RelayError {
    /// The sentinel string for this error.
    pub fn message(&self) -> (r: String)
        ensures
            r@ == error_text(*self),
    {
        match self {
            RelayError::RemoteCallFailure => "Error fetching price data".to_owned(),
            RelayError::SerializationFailure => "Error serializing price data".to_owned(),
        }
    }
}

/// Turns the oracle's outcome into the snapshot text, keeping the error kind.
pub fn respond(call_result: Result<PriceData, PromiseError>) -> (r: Result<String, RelayError>)
    ensures
        match call_result {
            Ok(d) => r is Ok && r->Ok_0@ == price_data_json(d),
            Err(_) => r == Err::<String, RelayError>(RelayError::RemoteCallFailure),
        },
{
    match call_result {
        Ok(d) => Ok(encode_price_data(&d)),
        Err(_) => Err(RelayError::RemoteCallFailure),
    }
}

/// Flattens a typed response into the one string the caller gets: the text
/// itself, or the sentinel of its error.
pub fn render(r: Result<String, RelayError>) -> (t: String)
    ensures
        t@ == response_text(r),
{
    match r {
        Ok(s) => s,
        Err(e) => e.message(),
    }
}

/// What the relay asks the host to do: call `method_name` on `oracle` with
/// `args`, then run `callback_method` on itself with the outcome.
pub struct PriceQuery {
    pub oracle: AccountId,
    pub method_name: String,
    pub args: String,
    pub oracle_gas_tgas: u64,
    pub callback_method: String,
    pub callback_gas_tgas: u64,
}

/// The relay's state: the oracle it asks.
pub struct Contract {
    pub price_oracle: AccountId,
}

impl Contract {
    /// A relay bound to `price_oracle` for its whole life.
    pub fn init(price_oracle: AccountId) -> (r: Contract)
        ensures
            r.price_oracle == price_oracle,
    {
        Contract { price_oracle }
    }

    /// The one outbound query for `asset_ids` (`None`: every asset), with
    /// the continuation that will receive its outcome.
    pub fn request_prices(&self, asset_ids: Option<Vec<String>>) -> (q: PriceQuery)
        ensures
            q.oracle == self.price_oracle,
            q.method_name@ == "get_price_data"@,
            q.args@ == asset_ids_args_json(asset_ids),
            q.oracle_gas_tgas == ORACLE_CALL_TGAS,
            q.callback_method@ == "query_price_data_callback"@,
            q.callback_gas_tgas == CALLBACK_TGAS,
    {
        PriceQuery {
            oracle: self.price_oracle.clone(),
            method_name: "get_price_data".to_owned(),
            args: encode_asset_ids_args(&asset_ids),
            oracle_gas_tgas: ORACLE_CALL_TGAS,
            callback_method: "query_price_data_callback".to_owned(),
            callback_gas_tgas: CALLBACK_TGAS,
        }
    }

    /// The query for every asset the oracle knows.
    pub fn query_price_feed(&self) -> (q: PriceQuery)
        ensures
            q.oracle == self.price_oracle,
            q.method_name@ == "get_price_data"@,
            q.args@ == asset_ids_args_json(None),
            q.oracle_gas_tgas == ORACLE_CALL_TGAS,
            q.callback_method@ == "query_price_data_callback"@,
            q.callback_gas_tgas == CALLBACK_TGAS,
    {
        self.request_prices(None)
    }

    /// The continuation: the snapshot text on success, else the fixed text
    /// `Error fetching price data`.
    pub fn query_price_data_callback(&self, call_result: Result<PriceData, PromiseError>) -> (r: String)
        ensures
            r@ == outcome_text(call_result),
    {
        render(respond(call_result))
    }
}

} // verus!
