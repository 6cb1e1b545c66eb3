//! Reads of the next launch.

use crate::clients::http::FetchPlan;
use crate::clients::spacex_client::{next_launch_url, spacex_profile, SpaceXClient};
use crate::services::CachedFetch;
use vstd::prelude::*;

verus! {

/// Seconds the next launch stays cached.
pub const NEXT_LAUNCH_TTL_SECONDS: usize = 3600;

pub open spec fn next_launch_key() -> Seq<char> {
    "spacex:next"@
}

pub struct SpaceXService {
    pub spacex_client: SpaceXClient,
}

impl SpaceXService {
    pub fn new(spacex_client: SpaceXClient) -> (s: SpaceXService)
        ensures
            s.spacex_client == spacex_client,
    {
        SpaceXService { spacex_client }
    }

    /// The next launch, cached for an hour.
    pub fn get_next_launch(&self) -> (r: CachedFetch)
        ensures
            r.cache_key@ == next_launch_key(),
            r.ttl_seconds == NEXT_LAUNCH_TTL_SECONDS,
            r.plan.api@ == "SpaceX"@,
            r.plan.url@ == next_launch_url(),
            r.plan.api_key is None,
            r.plan.header is None,
            r.plan.profile == spacex_profile(),
    {
        CachedFetch {
            cache_key: String::from_str("spacex:next"),
            ttl_seconds: NEXT_LAUNCH_TTL_SECONDS,
            plan: self.spacex_client.fetch_next_launch(),
        }
    }
}

} // verus!
