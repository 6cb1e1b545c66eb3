//! The position source.

use crate::clients::http::{ClientProfile, FetchPlan};
use crate::clients::retry::RetryPolicy;
use vstd::prelude::*;

verus! {

pub struct IssClient {
    pub base_url: String,
}

pub open spec fn iss_profile() -> ClientProfile {
    ClientProfile {
        timeout_seconds: 10,
        policy: RetryPolicy { max_retries: 3, base_delay_ms: 1000 },
    }
}

impl IssClient {
    pub fn new(base_url: String) -> (c: IssClient)
        ensures
            c.base_url == base_url,
    {
        IssClient { base_url }
    }

    /// The call that reads the current position: a plain request to the
    /// configured address, retried three times, one more second of pause
    /// each time.
    pub fn fetch_current_position(&self) -> (plan: FetchPlan)
        ensures
            plan.api@ == "ISS"@,
            plan.url@ == self.base_url@,
            plan.api_key is None,
            plan.header is None,
            plan.profile == iss_profile(),
    {
        FetchPlan {
            api: String::from_str("ISS"),
            url: self.base_url.clone(),
            api_key: None,
            header: None,
            profile: ClientProfile {
                timeout_seconds: 10,
                policy: RetryPolicy { max_retries: 3, base_delay_ms: 1000 },
            },
        }
    }
}

} // verus!
