//! Process configuration: the values the pipeline runs with and the rule
//! that decides whether they are usable.

use crate::text::{parse_u16, parse_u32, parse_u64, spec_parse_unsigned};
use vstd::prelude::*;

verus! {

/// Smallest polling interval, in seconds, accepted for the position source.
pub const MIN_ISS_INTERVAL_SECONDS: u64 = 10;

#[derive(Debug, Clone)]
pub struct Config {
    pub database_url: String,
    pub redis_url: String,
    pub nasa_api_url: String,
    pub nasa_api_key: String,
    pub where_iss_url: String,
    pub iss_every_seconds: u64,
    pub apod_every_seconds: u64,
    pub neo_every_seconds: u64,
    pub donki_every_seconds: u64,
    pub spacex_every_seconds: u64,
    pub rate_limit_per_minute: u32,
    pub host: String,
    pub port: u16,
}

/// Why a configuration was turned down.
#[derive(Debug, Clone, Copy, PartialEq, Eq, Structural)]
pub enum ConfigFault {
    EmptyDatabaseUrl,
    IssIntervalTooShort,
}

impl Config {
    /// The first rule the configuration breaks, if any. The database URL is
    /// looked at before the interval.
    pub open spec fn fault(&self) -> Option<ConfigFault> {
        if self.database_url@.len() == 0 {
            Some(ConfigFault::EmptyDatabaseUrl)
        } else if self.iss_every_seconds < MIN_ISS_INTERVAL_SECONDS {
            Some(ConfigFault::IssIntervalTooShort)
        } else {
            None
        }
    }

    /// Classifies the configuration without building a message.
    pub fn check(&self) -> (r: Option<ConfigFault>)
        ensures
            r == self.fault(),
    {
        if self.database_url.as_str().unicode_len() == 0 {
            Some(ConfigFault::EmptyDatabaseUrl)
        } else if self.iss_every_seconds < MIN_ISS_INTERVAL_SECONDS {
            Some(ConfigFault::IssIntervalTooShort)
        } else {
            None
        }
    }

    /// Accepts the configuration exactly when no rule is broken; otherwise
    /// the error is the message of the first broken rule.
    pub fn validate(&self) -> (r: Result<(), String>)
        ensures
            match self.fault() {
                None => r is Ok,
                Some(f) => r is Err && r->Err_0@ == fault_message(f),
            },
    {
        match self.check() {
            None => Ok(()),
            Some(ConfigFault::EmptyDatabaseUrl) => Err(
                String::from_str("DATABASE_URL cannot be empty"),
            ),
            Some(ConfigFault::IssIntervalTooShort) => Err(
                String::from_str("ISS_EVERY_SECONDS must be >= 10"),
            ),
        }
    }
}

/// The text reported for each broken rule.
pub open spec fn fault_message(f: ConfigFault) -> Seq<char> {
    match f {
        ConfigFault::EmptyDatabaseUrl => "DATABASE_URL cannot be empty"@,
        ConfigFault::IssIntervalTooShort => "ISS_EVERY_SECONDS must be >= 10"@,
    }
}

/// The settings as they were found, before defaults are applied: one text
/// per setting, absent when the setting was not given.
#[derive(Debug)]
pub struct RawConfig {
    pub database_url: Option<String>,
    pub redis_url: Option<String>,
    pub nasa_api_url: Option<String>,
    pub nasa_api_key: Option<String>,
    pub where_iss_url: Option<String>,
    pub iss_every_seconds: Option<String>,
    pub apod_every_seconds: Option<String>,
    pub neo_every_seconds: Option<String>,
    pub donki_every_seconds: Option<String>,
    pub spacex_every_seconds: Option<String>,
    pub rate_limit_per_minute: Option<String>,
    pub host: Option<String>,
    pub port: Option<String>,
}

/// A text setting: what was given, else the default.
pub open spec fn text_or(given: Option<String>, default: Seq<char>) -> Seq<char> {
    match given {
        Some(t) => t@,
        None => default,
    }
}

/// A numeric setting: what was given if it reads as a number no larger
/// than `max`, else the default.
pub open spec fn number_or(given: Option<String>, max: nat, default: nat) -> nat {
    match given {
        Some(t) => match spec_parse_unsigned(t@, max) {
            Some(n) => n,
            None => default,
        },
        None => default,
    }
}

pub open spec fn missing_database_url() -> Seq<char> {
    "DATABASE_URL not set"@
}

/// The configuration that `raw` stands for. The database URL has no
/// default.
pub open spec fn spec_from_values(raw: RawConfig, c: Config) -> bool {
    &&& raw.database_url is Some
    &&& c.database_url@ == raw.database_url->0@
    &&& c.redis_url@ == text_or(raw.redis_url, "redis://redis:6379"@)
    &&& c.nasa_api_url@ == text_or(raw.nasa_api_url, "https://api.nasa.gov"@)
    &&& c.nasa_api_key@ == text_or(raw.nasa_api_key, "DEMO_KEY"@)
    &&& c.where_iss_url@ == text_or(
        raw.where_iss_url,
        "https://api.wheretheiss.at/v1/satellites/25544"@,
    )
    &&& c.iss_every_seconds == number_or(raw.iss_every_seconds, u64::MAX as nat, 120)
    &&& c.apod_every_seconds == number_or(raw.apod_every_seconds, u64::MAX as nat, 43200)
    &&& c.neo_every_seconds == number_or(raw.neo_every_seconds, u64::MAX as nat, 7200)
    &&& c.donki_every_seconds == number_or(raw.donki_every_seconds, u64::MAX as nat, 3600)
    &&& c.spacex_every_seconds == number_or(raw.spacex_every_seconds, u64::MAX as nat, 3600)
    &&& c.rate_limit_per_minute == number_or(raw.rate_limit_per_minute, u32::MAX as nat, 30)
    &&& c.host@ == text_or(raw.host, "0.0.0.0"@)
    &&& c.port == number_or(raw.port, u16::MAX as nat, 3000)
}

fn text_setting(given: Option<String>, default: &str) -> (t: String)
    ensures
        t@ == text_or(given, default@),
{
    match given {
        Some(t) => t,
        None => String::from_str(default),
    }
}

fn u64_setting(given: &Option<String>, default: u64) -> (n: u64)
    ensures
        n == number_or(*given, u64::MAX as nat, default as nat),
{
    match given {
        Some(t) => match parse_u64(t.as_str()) {
            Some(n) => n,
            None => default,
        },
        None => default,
    }
}

fn u32_setting(given: &Option<String>, default: u32) -> (n: u32)
    ensures
        n == number_or(*given, u32::MAX as nat, default as nat),
{
    match given {
        Some(t) => match parse_u32(t.as_str()) {
            Some(n) => n,
            None => default,
        },
        None => default,
    }
}

fn u16_setting(given: &Option<String>, default: u16) -> (n: u16)
    ensures
        n == number_or(*given, u16::MAX as nat, default as nat),
{
    match given {
        Some(t) => match parse_u16(t.as_str()) {
            Some(n) => n,
            None => default,
        },
        None => default,
    }
}

impl Config {
    /// Builds the configuration from the settings that were found. Fails
    /// exactly when the database URL is missing. Every other setting falls
    /// back to its default when it is missing, and a number that cannot be
    /// read falls back to its default too.
    pub fn from_values(raw: RawConfig) -> (r: Result<Config, String>)
        ensures
            raw.database_url is None ==> r is Err && r->Err_0@ == missing_database_url(),
            raw.database_url is Some ==> r is Ok && spec_from_values(raw, r->Ok_0),
    {
        let iss_every_seconds = u64_setting(&raw.iss_every_seconds, 120);
        let apod_every_seconds = u64_setting(&raw.apod_every_seconds, 43200);
        let neo_every_seconds = u64_setting(&raw.neo_every_seconds, 7200);
        let donki_every_seconds = u64_setting(&raw.donki_every_seconds, 3600);
        let spacex_every_seconds = u64_setting(&raw.spacex_every_seconds, 3600);
        let rate_limit_per_minute = u32_setting(&raw.rate_limit_per_minute, 30);
        let port = u16_setting(&raw.port, 3000);
        let database_url = match raw.database_url {
            Some(url) => url,
            None => {
                return Err(String::from_str("DATABASE_URL not set"));
            },
        };
        Ok(
            Config {
                database_url,
                redis_url: text_setting(raw.redis_url, "redis://redis:6379"),
                nasa_api_url: text_setting(raw.nasa_api_url, "https://api.nasa.gov"),
                nasa_api_key: text_setting(raw.nasa_api_key, "DEMO_KEY"),
                where_iss_url: text_setting(
                    raw.where_iss_url,
                    "https://api.wheretheiss.at/v1/satellites/25544",
                ),
                iss_every_seconds,
                apod_every_seconds,
                neo_every_seconds,
                donki_every_seconds,
                spacex_every_seconds,
                rate_limit_per_minute,
                host: text_setting(raw.host, "0.0.0.0"),
                port,
            },
        )
    }
}

} // verus!
