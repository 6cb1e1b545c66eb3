//! Reads of the NASA open-data sources. Each read covers a window of days
//! around the present and is cached under a key that names the window.

use crate::calendar::{day_pattern, day_text, formatted_utc, shift_days, spec_shift_days};
use crate::clients::nasa_client::{apod_url, donki_cme_url, donki_flr_url, neo_url, NasaClient};
use crate::domain::error::ApiError;
use crate::services::CachedFetch;
use vstd::prelude::*;

verus! {

/// Seconds the picture of the day stays cached.
pub const APOD_TTL_SECONDS: usize = 43200;

/// Seconds the near-earth objects stay cached.
pub const NEO_TTL_SECONDS: usize = 7200;

/// Seconds the space-weather events stay cached.
pub const DONKI_TTL_SECONDS: usize = 3600;

/// Days the near-earth object window reaches ahead.
pub const NEO_WINDOW_DAYS: i64 = 7;

/// Where the space-weather window starts, in days from the present.
pub const DONKI_WINDOW_START: i64 = -30;

pub open spec fn apod_key() -> Seq<char> {
    "nasa:apod"@
}

pub open spec fn window_key(prefix: Seq<char>, first: Seq<char>, last: Seq<char>) -> Seq<char> {
    prefix + first + ":"@ + last
}

pub open spec fn window_text() -> Seq<char> {
    "the window of days cannot be written"@
}

/// The day `days` days away from `now`, written as year, month and day.
pub open spec fn spec_day_at(now: i64, days: i64) -> Option<Seq<char>> {
    match spec_shift_days(now, days) {
        Some(at) => formatted_utc(at, day_pattern()),
        None => None,
    }
}

fn day_at(now: i64, days: i64) -> (r: Option<String>)
    ensures
        match spec_day_at(now, days) {
            Some(text) => r is Some && r->0@ == text,
            None => r is None,
        },
{
    match shift_days(now, days) {
        Some(at) => day_text(at),
        None => None,
    }
}

fn window_cache_key(prefix: &str, first: &str, last: &str) -> (k: String)
    ensures
        k@ == window_key(prefix@, first@, last@),
{
    let mut k = String::from_str(prefix);
    k.append(first);
    k.append(":");
    k.append(last);
    assert(k@ =~= window_key(prefix@, first@, last@));
    k
}

fn window_failure() -> (e: ApiError)
    ensures
        e matches ApiError::InternalError(m) && m@ == window_text(),
{
    ApiError::InternalError(String::from_str("the window of days cannot be written"))
}

pub struct NasaService {
    pub nasa_client: NasaClient,
}

impl NasaService {
    pub fn new(nasa_client: NasaClient) -> (s: NasaService)
        ensures
            s.nasa_client == nasa_client,
    {
        NasaService { nasa_client }
    }

    /// The picture of the day, cached for twelve hours.
    pub fn get_apod(&self) -> (r: CachedFetch)
        ensures
            r.cache_key@ == apod_key(),
            r.ttl_seconds == APOD_TTL_SECONDS,
            self.nasa_client.plans(apod_url(), r.plan),
    {
        CachedFetch {
            cache_key: String::from_str("nasa:apod"),
            ttl_seconds: APOD_TTL_SECONDS,
            plan: self.nasa_client.fetch_apod(),
        }
    }

    /// The near-earth objects between two days already written out.
    pub fn neo_between(&self, today: &str, week_later: &str) -> (r: CachedFetch)
        ensures
            r.cache_key@ == window_key("nasa:neo:"@, today@, week_later@),
            r.ttl_seconds == NEO_TTL_SECONDS,
            self.nasa_client.plans(neo_url(today@, week_later@), r.plan),
    {
        CachedFetch {
            cache_key: window_cache_key("nasa:neo:", today, week_later),
            ttl_seconds: NEO_TTL_SECONDS,
            plan: self.nasa_client.fetch_neo(today, week_later),
        }
    }

    /// The near-earth objects of the week that starts at `now`, cached for
    /// two hours. Fails when the calendar cannot write the two days.
    pub fn get_neo(&self, now: i64) -> (r: Result<CachedFetch, ApiError>)
        ensures
            match (spec_day_at(now, 0), spec_day_at(now, NEO_WINDOW_DAYS)) {
                (Some(today), Some(week_later)) => {
                    &&& r is Ok
                    &&& r->Ok_0.cache_key@ == window_key("nasa:neo:"@, today, week_later)
                    &&& r->Ok_0.ttl_seconds == NEO_TTL_SECONDS
                    &&& self.nasa_client.plans(neo_url(today, week_later), r->Ok_0.plan)
                },
                _ => r is Err && r->Err_0 is InternalError && r->Err_0->InternalError_0@
                    == window_text(),
            },
    {
        match (day_at(now, 0), day_at(now, NEO_WINDOW_DAYS)) {
            (Some(today), Some(week_later)) => Ok(
                self.neo_between(today.as_str(), week_later.as_str()),
            ),
            _ => Err(window_failure()),
        }
    }

    /// The solar flares between two days already written out.
    pub fn donki_flr_between(&self, month_ago: &str, today: &str) -> (r: CachedFetch)
        ensures
            r.cache_key@ == window_key("nasa:donki:flr:"@, month_ago@, today@),
            r.ttl_seconds == DONKI_TTL_SECONDS,
            self.nasa_client.plans(donki_flr_url(month_ago@, today@), r.plan),
    {
        CachedFetch {
            cache_key: window_cache_key("nasa:donki:flr:", month_ago, today),
            ttl_seconds: DONKI_TTL_SECONDS,
            plan: self.nasa_client.fetch_donki_flr(month_ago, today),
        }
    }

    /// The solar flares of the thirty days that end at `now`, cached for an
    /// hour. Fails when the calendar cannot write the two days.
    pub fn get_donki_flr(&self, now: i64) -> (r: Result<CachedFetch, ApiError>)
        ensures
            match (spec_day_at(now, DONKI_WINDOW_START), spec_day_at(now, 0)) {
                (Some(month_ago), Some(today)) => {
                    &&& r is Ok
                    &&& r->Ok_0.cache_key@ == window_key("nasa:donki:flr:"@, month_ago, today)
                    &&& r->Ok_0.ttl_seconds == DONKI_TTL_SECONDS
                    &&& self.nasa_client.plans(donki_flr_url(month_ago, today), r->Ok_0.plan)
                },
                _ => r is Err && r->Err_0 is InternalError && r->Err_0->InternalError_0@
                    == window_text(),
            },
    {
        match (day_at(now, DONKI_WINDOW_START), day_at(now, 0)) {
            (Some(month_ago), Some(today)) => Ok(
                self.donki_flr_between(month_ago.as_str(), today.as_str()),
            ),
            _ => Err(window_failure()),
        }
    }

    /// The coronal mass ejections between two days already written out.
    pub fn donki_cme_between(&self, month_ago: &str, today: &str) -> (r: CachedFetch)
        ensures
            r.cache_key@ == window_key("nasa:donki:cme:"@, month_ago@, today@),
            r.ttl_seconds == DONKI_TTL_SECONDS,
            self.nasa_client.plans(donki_cme_url(month_ago@, today@), r.plan),
    {
        CachedFetch {
            cache_key: window_cache_key("nasa:donki:cme:", month_ago, today),
            ttl_seconds: DONKI_TTL_SECONDS,
            plan: self.nasa_client.fetch_donki_cme(month_ago, today),
        }
    }

    /// The coronal mass ejections of the thirty days that end at `now`,
    /// cached for an hour. Fails when the calendar cannot write the two
    /// days.
    pub fn get_donki_cme(&self, now: i64) -> (r: Result<CachedFetch, ApiError>)
        ensures
            match (spec_day_at(now, DONKI_WINDOW_START), spec_day_at(now, 0)) {
                (Some(month_ago), Some(today)) => {
                    &&& r is Ok
                    &&& r->Ok_0.cache_key@ == window_key("nasa:donki:cme:"@, month_ago, today)
                    &&& r->Ok_0.ttl_seconds == DONKI_TTL_SECONDS
                    &&& self.nasa_client.plans(donki_cme_url(month_ago, today), r->Ok_0.plan)
                },
                _ => r is Err && r->Err_0 is InternalError && r->Err_0->InternalError_0@
                    == window_text(),
            },
    {
        match (day_at(now, DONKI_WINDOW_START), day_at(now, 0)) {
            (Some(month_ago), Some(today)) => Ok(
                self.donki_cme_between(month_ago.as_str(), today.as_str()),
            ),
            _ => Err(window_failure()),
        }
    }
}

} // verus!
