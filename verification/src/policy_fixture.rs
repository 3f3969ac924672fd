//! Test double for the admission policy: every admission passes at once and
//! leaves the window untouched.

use vstd::prelude::*;

verus! {

use crate::policy::Api;
use crate::policy::Data;
use crate::policy::Error;

pub struct ServiceFake;

impl Api for ServiceFake {
    open spec fn admit_rel(&self, pre: Data, post: Data) -> bool {
        post.last_requests_time@ == pre.last_requests_time@
    }

    fn handle_request_rate(&self, data: &mut Data) -> (r: Result<(), Error>)
        ensures
            r is Ok,
            final(data).last_requests_time@ == old(data).last_requests_time@,
    {
        Ok(())
    }
}

} // verus!
