//! The dataset catalogue source.

use crate::clients::http::{settle, ClientProfile, FallbackPolicy, FetchFailure, FetchPlan};
use crate::clients::retry::RetryPolicy;
use crate::domain::models::{OsdrApiDataset, OsdrApiResponse};
use crate::text::{contains, spec_contains};
use vstd::prelude::*;

verus! {

pub struct OsdrClient {
    pub base_url: String,
    pub api_key: String,
    /// What to do when the catalogue cannot be read.
    pub fallback: FallbackPolicy,
}

/// How the catalogue is to be obtained.
#[derive(Debug)]
pub enum OsdrRequest {
    /// No call is made; the placeholder catalogue is used.
    Placeholder,
    /// The catalogue is read from the upstream.
    Call(FetchPlan),
}

pub open spec fn osdr_profile() -> ClientProfile {
    ClientProfile {
        timeout_seconds: 10,
        policy: RetryPolicy { max_retries: 1, base_delay_ms: 2000 },
    }
}

/// One row of the placeholder catalogue: accession, title, description and
/// release day.
pub struct PlaceholderRow {
    pub dataset_id: Seq<char>,
    pub title: Seq<char>,
    pub description: Seq<char>,
    pub release_date: Seq<char>,
}

/// The placeholder catalogue.
pub open spec fn placeholder_rows() -> Seq<PlaceholderRow> {
    seq![
        PlaceholderRow {
            dataset_id: "GLDS-379"@,
            title: "Rodent Research-1 (RR-1): Spaceflight-induced bone loss and immune dysregulation"@,
            description: "Gene expression changes in mice exposed to spaceflight environment"@,
            release_date: "2019-06-01"@,
        },
        PlaceholderRow {
            dataset_id: "GLDS-120"@,
            title: "NASA Twins Study: Integrated multi-omics analysis"@,
            description: "Comprehensive genomic comparison of astronaut twin in space vs on Earth"@,
            release_date: "2019-04-11"@,
        },
        PlaceholderRow {
            dataset_id: "GLDS-38"@,
            title: "APEX-03: Plant root gravitropism in microgravity"@,
            description: "Arabidopsis thaliana root growth patterns in space environment"@,
            release_date: "2018-09-15"@,
        },
        PlaceholderRow {
            dataset_id: "GLDS-47"@,
            title: "BRIC-19: C. elegans development in spaceflight"@,
            description: "Effects of microgravity on nematode muscle development"@,
            release_date: "2017-03-20"@,
        },
        PlaceholderRow {
            dataset_id: "GLDS-251"@,
            title: "Cardiovascular changes during long-duration spaceflight"@,
            description: "Physiological adaptations of human cardiovascular system in space"@,
            release_date: "2020-11-08"@,
        },
    ]
}

/// `d` carries exactly what `row` says.
pub open spec fn shows(d: OsdrApiDataset, row: PlaceholderRow) -> bool {
    &&& d.dataset_id@ == row.dataset_id
    &&& d.title@ == row.title
    &&& d.description matches Some(text) && text@ == row.description
    &&& d.release_date matches Some(day) && day@ == row.release_date
}

/// `r` is the placeholder catalogue, row for row.
pub open spec fn is_placeholder(r: OsdrApiResponse) -> bool {
    &&& r.results@.len() == placeholder_rows().len()
    &&& forall|i: int|
        0 <= i < r.results@.len() ==> shows(#[trigger] r.results@[i], placeholder_rows()[i])
}

fn placeholder(dataset_id: &str, title: &str, description: &str, release_date: &str) -> (d:
    OsdrApiDataset)
    ensures
        shows(
            d,
            PlaceholderRow {
                dataset_id: dataset_id@,
                title: title@,
                description: description@,
                release_date: release_date@,
            },
        ),
{
    OsdrApiDataset {
        dataset_id: String::from_str(dataset_id),
        title: String::from_str(title),
        description: Some(String::from_str(description)),
        release_date: Some(String::from_str(release_date)),
    }
}

impl OsdrClient {
    /// A client that surfaces failures.
    pub fn new(base_url: String, api_key: String) -> (c: OsdrClient)
        ensures
            c.base_url == base_url,
            c.api_key == api_key,
            c.fallback == FallbackPolicy::Fail,
    {
        OsdrClient { base_url, api_key, fallback: FallbackPolicy::Fail }
    }

    /// The same client with another answer to a catalogue that cannot be
    /// read.
    pub fn with_fallback(self, fallback: FallbackPolicy) -> (c: OsdrClient)
        ensures
            c.base_url == self.base_url,
            c.api_key == self.api_key,
            c.fallback == fallback,
    {
        OsdrClient { base_url: self.base_url, api_key: self.api_key, fallback }
    }

    /// No upstream is configured: the address is empty or names a mock.
    pub open spec fn unconfigured(&self) -> bool {
        self.base_url@.len() == 0 || spec_contains(self.base_url@, "mock"@)
    }

    /// What a call to the configured upstream looks like.
    pub open spec fn calls(&self, plan: FetchPlan) -> bool {
        &&& plan.api@ == "OSDR"@
        &&& plan.url@ == self.base_url@
        &&& plan.header is None
        &&& plan.profile == osdr_profile()
        &&& if self.api_key@.len() > 0 {
            plan.api_key is Some && plan.api_key->0@ == self.api_key@
        } else {
            plan.api_key is None
        }
    }

    /// How the catalogue is to be obtained: from the placeholder when no
    /// upstream is configured, else by a call to the configured address
    /// that sends the key unless it is empty, retried once after two
    /// seconds.
    pub fn fetch_datasets(&self) -> (r: OsdrRequest)
        ensures
            self.unconfigured() ==> r is Placeholder,
            !self.unconfigured() ==> r is Call && self.calls(r->Call_0),
    {
        if self.base_url.as_str().unicode_len() == 0 || contains(self.base_url.as_str(), "mock") {
            return OsdrRequest::Placeholder;
        }
        let sends = self.api_key.as_str().unicode_len() > 0;
        OsdrRequest::Call(
            FetchPlan {
                api: String::from_str("OSDR"),
                url: self.base_url.clone(),
                api_key: if sends {
                    Some(self.api_key.clone())
                } else {
                    None
                },
                header: None,
                profile: ClientProfile {
                    timeout_seconds: 10,
                    policy: RetryPolicy { max_retries: 1, base_delay_ms: 2000 },
                },
            },
        )
    }

    /// The placeholder catalogue: five well-known datasets.
    pub fn get_mock_response(&self) -> (r: OsdrApiResponse)
        ensures
            is_placeholder(r),
    {
        let mut results: Vec<OsdrApiDataset> = Vec::new();
        results.push(
            placeholder(
                "GLDS-379",
                "Rodent Research-1 (RR-1): Spaceflight-induced bone loss and immune dysregulation",
                "Gene expression changes in mice exposed to spaceflight environment",
                "2019-06-01",
            ),
        );
        results.push(
            placeholder(
                "GLDS-120",
                "NASA Twins Study: Integrated multi-omics analysis",
                "Comprehensive genomic comparison of astronaut twin in space vs on Earth",
                "2019-04-11",
            ),
        );
        results.push(
            placeholder(
                "GLDS-38",
                "APEX-03: Plant root gravitropism in microgravity",
                "Arabidopsis thaliana root growth patterns in space environment",
                "2018-09-15",
            ),
        );
        results.push(
            placeholder(
                "GLDS-47",
                "BRIC-19: C. elegans development in spaceflight",
                "Effects of microgravity on nematode muscle development",
                "2017-03-20",
            ),
        );
        results.push(
            placeholder(
                "GLDS-251",
                "Cardiovascular changes during long-duration spaceflight",
                "Physiological adaptations of human cardiovascular system in space",
                "2020-11-08",
            ),
        );
        OsdrApiResponse { results }
    }

    /// Settles one attempt at reading the catalogue: a payload is passed
    /// on; a failure is surfaced, or replaced by the placeholder catalogue
    /// when the client is set up to do so.
    pub fn try_fetch(&self, outcome: Result<OsdrApiResponse, FetchFailure>) -> (r: Result<
        OsdrApiResponse,
        FetchFailure,
    >)
        ensures
            match outcome {
                Ok(payload) => r == Ok::<OsdrApiResponse, FetchFailure>(payload),
                Err(failure) => match self.fallback {
                    FallbackPolicy::Fail => r == Err::<OsdrApiResponse, FetchFailure>(failure),
                    FallbackPolicy::Placeholder => r is Ok && is_placeholder(r->Ok_0),
                },
            },
    {
        settle(self.fallback, outcome, self.get_mock_response())
    }
}

} // verus!
