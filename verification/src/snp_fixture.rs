//! Test double for the symbol service: one symbol, one code.

use vstd::prelude::*;

verus! {

use crate::date::Date;
use crate::snp::Api;
use crate::snp::Data;
use crate::snp::Error;
use crate::snp::SnP;
use vstd::string::StringExecFns;

pub struct ServiceFake;

impl Api for ServiceFake {
    fn get_snp(&self, ticker: &str) -> (r: Result<SnP, Error>)
        ensures
            r matches Ok(s) && s == SnP::AAPL,
    {
        Ok(SnP::AAPL)
    }

    fn get_symbol(&self, snp: &SnP) -> (r: String)
        ensures
            r@ == "AAPL"@,
    {
        String::from_str("AAPL")
    }

    fn get_snp_map(&self) -> (r: std::collections::HashMap<SnP, Data>) {
        std::collections::HashMap::new()
    }

    fn get_snp_by_date(&self, date: &Date) -> (r: Vec<SnP>)
        ensures
            r@.len() == 1 && r@[0] == SnP::AAPL,
    {
        let mut v: Vec<SnP> = Vec::new();
        v.push(SnP::AAPL);
        v
    }
}

} // verus!
