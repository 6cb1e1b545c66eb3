//! The telescope image source. It offers several addresses for the same
//! images; they are tried in a fixed order, each once.

use crate::clients::http::{ClientProfile, FallbackPolicy, FetchFailure, FetchPlan, Header};
use crate::clients::retry::RetryPolicy;
use crate::domain::error::ApiError;
use vstd::prelude::*;

verus! {

pub struct JwstClient {
    pub base_url: String,
    pub api_key: String,
    /// What to do when no address answers.
    pub fallback: FallbackPolicy,
}

/// Pause after an address has failed, in milliseconds.
pub const ENDPOINT_PAUSE_MS: u64 = 500;

pub open spec fn jwst_profile() -> ClientProfile {
    ClientProfile { timeout_seconds: 30, policy: RetryPolicy { max_retries: 0, base_delay_ms: 0 } }
}

/// The addresses for the images of a program, in the order they are tried:
/// by program, by query, and everything.
pub open spec fn spec_endpoints(base_url: Seq<char>, program_id: Seq<char>) -> Seq<Seq<char>> {
    seq![
        base_url + "/program/"@ + program_id + "/images"@,
        base_url + "/images?program="@ + program_id,
        base_url + "/all"@,
    ]
}

/// How one address answered.
#[derive(Debug)]
pub struct EndpointAttempt {
    pub url: String,
    pub outcome: Result<String, FetchFailure>,
}

/// Position of the first address that answered; the number of attempts
/// when none did.
pub open spec fn first_answer(attempts: Seq<EndpointAttempt>) -> int
    decreases attempts.len(),
{
    if attempts.len() == 0 {
        0
    } else if attempts[0].outcome is Ok {
        0
    } else {
        1 + first_answer(attempts.drop_first())
    }
}

/// What the last failed address is remembered by: its address, a colon and
/// the failure. Empty when nothing was tried.
pub open spec fn spec_last_error(attempts: Seq<EndpointAttempt>) -> Seq<char> {
    if attempts.len() == 0 {
        Seq::<char>::empty()
    } else {
        attempts.last().url@ + ": "@ + match attempts.last().outcome {
            Ok(_) => Seq::<char>::empty(),
            Err(failure) => failure.spec_message(),
        }
    }
}

pub open spec fn placeholder_text() -> Seq<char> {
    r#"[{"id":"demo_1","program":"Mock Demo Data - Carina Nebula","observation_id":"jw02731-o001_t001_nircam_clear-f200w","suffix":"i2d","details":{"mission":"JWST","instruments":["NIRCAM"],"filters":["F200W"]},"file_type":"jpg","thumbnail":"https://www.nasa.gov/wp-content/uploads/2023/03/main_image_star-forming_region_carina_nircam_final-5mb.jpg?resize=768,768","location":"https://www.nasa.gov/wp-content/uploads/2023/03/main_image_star-forming_region_carina_nircam_final-5mb.jpg"},{"id":"demo_2","program":"Mock Demo Data - Pillars of Creation","observation_id":"jw02731-o001_t001_miri_f1130w","suffix":"i2d","details":{"mission":"JWST","instruments":["MIRI"],"filters":["F1130W"]},"file_type":"jpg","thumbnail":"https://www.nasa.gov/wp-content/uploads/2023/03/main_image_deep_field_smacs0723-5mb.jpg?resize=768,768","location":"https://www.nasa.gov/wp-content/uploads/2023/03/main_image_deep_field_smacs0723-5mb.jpg"}]"#@
}

impl JwstClient {
    /// A client that surfaces failures.
    pub fn new(base_url: String, api_key: String) -> (c: JwstClient)
        ensures
            c.base_url == base_url,
            c.api_key == api_key,
            c.fallback == FallbackPolicy::Fail,
    {
        JwstClient { base_url, api_key, fallback: FallbackPolicy::Fail }
    }

    /// The same client with another answer to addresses that all fail.
    pub fn with_fallback(self, fallback: FallbackPolicy) -> (c: JwstClient)
        ensures
            c.base_url == self.base_url,
            c.api_key == self.api_key,
            c.fallback == fallback,
    {
        JwstClient { base_url: self.base_url, api_key: self.api_key, fallback }
    }

    /// What a call to `url` looks like for this client.
    pub open spec fn calls(&self, url: Seq<char>, plan: FetchPlan) -> bool {
        &&& plan.api@ == "JWST"@
        &&& plan.url@ == url
        &&& plan.api_key is None
        &&& plan.header is Some
        &&& plan.header->0.name@ == "X-API-KEY"@
        &&& plan.header->0.value@ == self.api_key@
        &&& plan.profile == jwst_profile()
    }

    fn plan_for(&self, url: String) -> (plan: FetchPlan)
        ensures
            self.calls(url@, plan),
    {
        FetchPlan {
            api: String::from_str("JWST"),
            url,
            api_key: None,
            header: Some(
                Header { name: String::from_str("X-API-KEY"), value: self.api_key.clone() },
            ),
            profile: ClientProfile {
                timeout_seconds: 30,
                policy: RetryPolicy { max_retries: 0, base_delay_ms: 0 },
            },
        }
    }

    /// The calls that read the images of a program, in the order they are
    /// to be tried. Each carries the key in a header and is tried once.
    pub fn fetch_images(&self, program_id: &str) -> (plans: Vec<FetchPlan>)
        ensures
            plans@.len() == 3,
            forall|i: int|
                0 <= i < 3 ==> self.calls(
                    spec_endpoints(self.base_url@, program_id@)[i],
                    #[trigger] plans@[i],
                ),
    {
        let mut by_program = self.base_url.clone();
        by_program.append("/program/");
        by_program.append(program_id);
        by_program.append("/images");
        let mut by_query = self.base_url.clone();
        by_query.append("/images?program=");
        by_query.append(program_id);
        let mut everything = self.base_url.clone();
        everything.append("/all");
        let mut plans: Vec<FetchPlan> = Vec::new();
        plans.push(self.plan_for(by_program));
        plans.push(self.plan_for(by_query));
        plans.push(self.plan_for(everything));
        plans
    }

    /// The placeholder images, as the text of a JSON array of two images.
    pub fn mock_jwst_data(&self) -> (s: String)
        ensures
            s@ == placeholder_text(),
    {
        String::from_str(
            r#"[{"id":"demo_1","program":"Mock Demo Data - Carina Nebula","observation_id":"jw02731-o001_t001_nircam_clear-f200w","suffix":"i2d","details":{"mission":"JWST","instruments":["NIRCAM"],"filters":["F200W"]},"file_type":"jpg","thumbnail":"https://www.nasa.gov/wp-content/uploads/2023/03/main_image_star-forming_region_carina_nircam_final-5mb.jpg?resize=768,768","location":"https://www.nasa.gov/wp-content/uploads/2023/03/main_image_star-forming_region_carina_nircam_final-5mb.jpg"},{"id":"demo_2","program":"Mock Demo Data - Pillars of Creation","observation_id":"jw02731-o001_t001_miri_f1130w","suffix":"i2d","details":{"mission":"JWST","instruments":["MIRI"],"filters":["F1130W"]},"file_type":"jpg","thumbnail":"https://www.nasa.gov/wp-content/uploads/2023/03/main_image_deep_field_smacs0723-5mb.jpg?resize=768,768","location":"https://www.nasa.gov/wp-content/uploads/2023/03/main_image_deep_field_smacs0723-5mb.jpg"}]"#,
        )
    }

    /// Settles a fetch once the addresses have been tried: the payload of
    /// the first address that answered; when none did, the placeholder
    /// images or an upstream error that names the last failure, as the
    /// client is set up.
    pub fn conclude(&self, attempts: Vec<EndpointAttempt>) -> (r: Result<String, ApiError>)
        ensures
            first_answer(attempts@) < attempts@.len() ==> r is Ok && r->Ok_0@ == attempts@[first_answer(
                attempts@,
            )].outcome->Ok_0@,
            first_answer(attempts@) >= attempts@.len() ==> match self.fallback {
                FallbackPolicy::Placeholder => r is Ok && r->Ok_0@ == placeholder_text(),
                FallbackPolicy::Fail => r is Err && r->Err_0 is UpstreamError
                    && r->Err_0->UpstreamError_0@ == "All JWST endpoints failed. Last error: "@
                    + spec_last_error(attempts@),
            },
    {
        let mut last_error = String::new();
        let mut i: usize = 0;
        while i < attempts.len()
            invariant
                i <= attempts@.len(),
                forall|j: int| 0 <= j < i ==> attempts@[j].outcome is Err,
                last_error@ == spec_last_error(attempts@.take(i as int)),
            decreases attempts@.len() - i,
        {
            match &attempts[i].outcome {
                Ok(payload) => {
                    proof {
                        lemma_first_answer(attempts@, i as int);
                    }
                    return Ok(payload.clone());
                },
                Err(failure) => {
                    let mut text = attempts[i].url.clone();
                    text.append(": ");
                    let detail = failure.message();
                    text.append(detail.as_str());
                    last_error = text;
                    proof {
                        assert(attempts@.take(i + 1).last() == attempts@[i as int]);
                    }
                },
            }
            i = i + 1;
        }
        proof {
            lemma_first_answer(attempts@, i as int);
            assert(attempts@.take(i as int) =~= attempts@);
        }
        match self.fallback {
            FallbackPolicy::Placeholder => Ok(self.mock_jwst_data()),
            FallbackPolicy::Fail => {
                let mut m = String::from_str("All JWST endpoints failed. Last error: ");
                m.append(last_error.as_str());
                Err(ApiError::UpstreamError(m))
            },
        }
    }
}

/// When the first `k` addresses failed and either the next one answered or
/// there is no next one, the first answer is at position `k`.
pub proof fn lemma_first_answer(attempts: Seq<EndpointAttempt>, k: int)
    requires
        0 <= k <= attempts.len(),
        forall|j: int| 0 <= j < k ==> attempts[j].outcome is Err,
        k < attempts.len() ==> attempts[k].outcome is Ok,
    ensures
        first_answer(attempts) == k,
    decreases k,
{
    if k > 0 {
        let rest = attempts.drop_first();
        assert(attempts[0].outcome is Err);
        assert forall|j: int| 0 <= j < k - 1 implies rest[j].outcome is Err by {
            assert(rest[j] == attempts[j + 1]);
        }
        if k - 1 < rest.len() {
            assert(rest[k - 1] == attempts[k]);
        }
        lemma_first_answer(rest, k - 1);
    }
}

} // verus!
