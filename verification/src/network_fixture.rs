//! Test double for the data provider: every fetch succeeds with one fixed
//! payload.

use vstd::prelude::*;

verus! {

use crate::date::Date;
use crate::network::Api;
use crate::network::Data;
use crate::network::Error;
use crate::snp::SnP;

pub struct ServiceFake;

impl Api for ServiceFake {
    fn get_ticker_details(&self, ticker: &SnP, date: &Date) -> (r: Result<Data, Error>)
        ensures
            r matches Ok(d) && d == (Data {
                active: true,
                share_class_shares_outstanding: 453,
                total_employees: 5345,
                weighted_shares_outstanding: 7465,
            }),
    {
        Ok(
            Data {
                active: true,
                share_class_shares_outstanding: 453,
                total_employees: 5345,
                weighted_shares_outstanding: 7465,
            },
        )
    }
}

} // verus!
