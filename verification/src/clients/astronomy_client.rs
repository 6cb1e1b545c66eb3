//! The astronomical events source.

use crate::clients::http::{ClientProfile, FetchPlan, Header};
use crate::clients::retry::RetryPolicy;
use base64::engine::general_purpose;
use base64::Engine;
use vstd::prelude::*;

verus! {

pub struct AstronomyClient {
    pub app_id: String,
    pub app_secret: String,
}

pub open spec fn astronomy_profile() -> ClientProfile {
    ClientProfile {
        timeout_seconds: 20,
        policy: RetryPolicy { max_retries: 3, base_delay_ms: 1500 },
    }
}

pub open spec fn events_url() -> Seq<char> {
    "https://api.astronomyapi.com/api/v2/bodies/events"@
}

/// The text the `base64` crate's standard engine, with padding, writes for
/// the bytes of `data`.
pub uninterp spec fn base64_standard(data: Seq<char>) -> Seq<char>;

/// Calls `base64::Engine::encode` on `general_purpose::STANDARD` with the
/// bytes of `data`. Claimed: the result is fixed by `data` alone. The call
/// can only fail on inputs larger than any text that fits in memory.
#[verifier::external_body]
fn encode_standard(data: &str) -> (r: String)
    ensures
        r@ == base64_standard(data@),
{
    general_purpose::STANDARD.encode(data)
}

/// The credentials as they are encoded: id, a colon, secret.
pub open spec fn credentials(app_id: Seq<char>, app_secret: Seq<char>) -> Seq<char> {
    app_id + ":"@ + app_secret
}

/// Value of the authorization header for already encoded credentials.
pub fn basic_value(encoded: &str) -> (v: String)
    ensures
        v@ == "Basic "@ + encoded@,
{
    let mut v = String::from_str("Basic ");
    v.append(encoded);
    v
}

impl AstronomyClient {
    pub fn new(app_id: String, app_secret: String) -> (c: AstronomyClient)
        ensures
            c.app_id == app_id,
            c.app_secret == app_secret,
    {
        AstronomyClient { app_id, app_secret }
    }

    /// Value of the authorization header: the scheme, then the encoded
    /// credentials.
    pub fn basic_auth(&self) -> (v: String)
        ensures
            v@ == "Basic "@ + base64_standard(credentials(self.app_id@, self.app_secret@)),
    {
        let mut plain = self.app_id.clone();
        plain.append(":");
        plain.append(self.app_secret.as_str());
        let encoded = encode_standard(plain.as_str());
        basic_value(encoded.as_str())
    }

    /// The call that reads the events: authorised by the credentials,
    /// retried three times, one and a half seconds more of pause each time.
    pub fn fetch_events(&self) -> (plan: FetchPlan)
        ensures
            plan.api@ == "Astronomy"@,
            plan.url@ == events_url(),
            plan.api_key is None,
            plan.header is Some,
            plan.header->0.name@ == "Authorization"@,
            plan.header->0.value@ == "Basic "@ + base64_standard(
                credentials(self.app_id@, self.app_secret@),
            ),
            plan.profile == astronomy_profile(),
    {
        FetchPlan {
            api: String::from_str("Astronomy"),
            url: String::from_str("https://api.astronomyapi.com/api/v2/bodies/events"),
            api_key: None,
            header: Some(
                Header { name: String::from_str("Authorization"), value: self.basic_auth() },
            ),
            profile: ClientProfile {
                timeout_seconds: 20,
                policy: RetryPolicy { max_retries: 3, base_delay_ms: 1500 },
            },
        }
    }
}

} // verus!
