//! The outbound data provider of per-(symbol, date) reference data.
//!
//! The provider is a collaborator (an HTTP API in the running system); any
//! failure of it — transport, malformed response, non-success status — is a
//! soft failure that the orchestrator absorbs, so the API promises nothing
//! about when a fetch succeeds.

use vstd::prelude::*;

verus! {

use crate::date::Date;
use crate::snp::SnP;

/// The payload a successful fetch hands back.
#[derive(Debug, Clone, Copy, PartialEq, Eq, Structural)]
pub struct Data {
    pub active: bool,
    pub share_class_shares_outstanding: i64,
    pub total_employees: i32,
    pub weighted_shares_outstanding: i64,
}

/// All possible errors of the provider modules.
#[derive(Debug)]
pub enum Error {
    ApiKeyIsEmpty,
    Request(String),
    JsonParse(String),
    Server(String),
}

/// The API of the data provider.
pub trait Api {
    fn get_ticker_details(&self, ticker: &SnP, date: &Date) -> (r: Result<Data, Error>);
}

} // verus!
