//! The launch source.

use crate::clients::http::{ClientProfile, FetchPlan};
use crate::clients::retry::RetryPolicy;
use vstd::prelude::*;

verus! {

pub struct SpaceXClient {}

pub open spec fn spacex_profile() -> ClientProfile {
    ClientProfile {
        timeout_seconds: 15,
        policy: RetryPolicy { max_retries: 3, base_delay_ms: 1000 },
    }
}

pub open spec fn next_launch_url() -> Seq<char> {
    "https://api.spacexdata.com/v4/launches/next"@
}

impl SpaceXClient {
    pub fn new() -> (c: SpaceXClient) {
        SpaceXClient {  }
    }

    /// The call that reads the next launch.
    pub fn fetch_next_launch(&self) -> (plan: FetchPlan)
        ensures
            plan.api@ == "SpaceX"@,
            plan.url@ == next_launch_url(),
            plan.api_key is None,
            plan.header is None,
            plan.profile == spacex_profile(),
    {
        FetchPlan {
            api: String::from_str("SpaceX"),
            url: String::from_str("https://api.spacexdata.com/v4/launches/next"),
            api_key: None,
            header: None,
            profile: ClientProfile {
                timeout_seconds: 15,
                policy: RetryPolicy { max_retries: 3, base_delay_ms: 1000 },
            },
        }
    }
}

} // verus!
