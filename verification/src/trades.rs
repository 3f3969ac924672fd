//! The outbound data provider of per-(symbol, date) trade streams.
//!
//! Fetched pages are handed to a consumer out of band (a channel in the
//! running system); the API only reports whether the paginated fetch ran to
//! completion.

use vstd::prelude::*;

verus! {

use crate::date::Date;
use crate::snp::SnP;

/// All possible errors of the Trades modules.
#[derive(Debug)]
pub enum Error {
    ApiKeyIsEmpty,
    Request(String),
    JsonParse(String),
    Channel(String),
    Server(String, String),
}

/// The API of Trades.
pub trait Api {
    fn get_trades(&self, ticker: &SnP, date: &Date) -> (r: Result<(), Error>);
}

} // verus!
