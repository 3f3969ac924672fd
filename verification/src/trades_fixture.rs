//! Test double for the trades provider: every fetch reports completion.

use vstd::prelude::*;

verus! {

use crate::date::Date;
use crate::snp::SnP;
use crate::trades::Api;
use crate::trades::Error;

pub struct ServiceFake;

impl Api for ServiceFake {
    fn get_trades(&self, ticker: &SnP, date: &Date) -> (r: Result<(), Error>)
        ensures
            r is Ok,
    {
        Ok(())
    }
}

} // verus!
