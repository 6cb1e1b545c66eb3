//! The NASA open-data sources: picture of the day, near-earth objects and
//! space-weather events.

use crate::clients::http::{ClientProfile, FetchPlan};
use crate::clients::retry::RetryPolicy;
use vstd::prelude::*;

verus! {

pub struct NasaClient {
    pub api_key: String,
}

pub open spec fn nasa_profile() -> ClientProfile {
    ClientProfile {
        timeout_seconds: 30,
        policy: RetryPolicy { max_retries: 3, base_delay_ms: 2000 },
    }
}

/// The key that stands for "no key of one's own".
pub open spec fn demo_key() -> Seq<char> {
    "DEMO_KEY"@
}

pub open spec fn apod_url() -> Seq<char> {
    "https://api.nasa.gov/planetary/apod"@
}

pub open spec fn neo_url(start_date: Seq<char>, end_date: Seq<char>) -> Seq<char> {
    "https://api.nasa.gov/neo/rest/v1/feed?start_date="@ + start_date + "&end_date="@ + end_date
}

pub open spec fn donki_flr_url(start_date: Seq<char>, end_date: Seq<char>) -> Seq<char> {
    "https://api.nasa.gov/DONKI/FLR?startDate="@ + start_date + "&endDate="@ + end_date
}

pub open spec fn donki_cme_url(start_date: Seq<char>, end_date: Seq<char>) -> Seq<char> {
    "https://api.nasa.gov/DONKI/CME?startDate="@ + start_date + "&endDate="@ + end_date
}

impl NasaClient {
    pub fn new(api_key: String) -> (c: NasaClient)
        ensures
            c.api_key == api_key,
    {
        NasaClient { api_key }
    }

    /// The key is sent unless it is empty or the demo key.
    pub open spec fn sends_key(&self) -> bool {
        self.api_key@.len() > 0 && self.api_key@ != demo_key()
    }

    /// What a plan for `url` looks like for this client.
    pub open spec fn plans(&self, url: Seq<char>, plan: FetchPlan) -> bool {
        &&& plan.api@ == "NASA"@
        &&& plan.url@ == url
        &&& plan.header is None
        &&& plan.profile == nasa_profile()
        &&& if self.sends_key() {
            plan.api_key is Some && plan.api_key->0@ == self.api_key@
        } else {
            plan.api_key is None
        }
    }

    fn fetch_with_retry(&self, url: String) -> (plan: FetchPlan)
        ensures
            self.plans(url@, plan),
    {
        let demo = String::from_str("DEMO_KEY");
        let sends = self.api_key.as_str().unicode_len() > 0 && !(self.api_key == demo);
        FetchPlan {
            api: String::from_str("NASA"),
            url,
            api_key: if sends {
                Some(self.api_key.clone())
            } else {
                None
            },
            header: None,
            profile: ClientProfile {
                timeout_seconds: 30,
                policy: RetryPolicy { max_retries: 3, base_delay_ms: 2000 },
            },
        }
    }

    /// The call that reads the picture of the day.
    pub fn fetch_apod(&self) -> (plan: FetchPlan)
        ensures
            self.plans(apod_url(), plan),
    {
        self.fetch_with_retry(String::from_str("https://api.nasa.gov/planetary/apod"))
    }

    /// The call that reads the near-earth objects between two days.
    pub fn fetch_neo(&self, start_date: &str, end_date: &str) -> (plan: FetchPlan)
        ensures
            self.plans(neo_url(start_date@, end_date@), plan),
    {
        let mut url = String::from_str("https://api.nasa.gov/neo/rest/v1/feed?start_date=");
        url.append(start_date);
        url.append("&end_date=");
        url.append(end_date);
        self.fetch_with_retry(url)
    }

    /// The call that reads the solar flares between two days.
    pub fn fetch_donki_flr(&self, start_date: &str, end_date: &str) -> (plan: FetchPlan)
        ensures
            self.plans(donki_flr_url(start_date@, end_date@), plan),
    {
        let mut url = String::from_str("https://api.nasa.gov/DONKI/FLR?startDate=");
        url.append(start_date);
        url.append("&endDate=");
        url.append(end_date);
        self.fetch_with_retry(url)
    }

    /// The call that reads the coronal mass ejections between two days.
    pub fn fetch_donki_cme(&self, start_date: &str, end_date: &str) -> (plan: FetchPlan)
        ensures
            self.plans(donki_cme_url(start_date@, end_date@), plan),
    {
        let mut url = String::from_str("https://api.nasa.gov/DONKI/CME?startDate=");
        url.append(start_date);
        url.append("&endDate=");
        url.append(end_date);
        self.fetch_with_retry(url)
    }
}

} // verus!
