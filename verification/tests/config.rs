use rust_iss::config::{Config, ConfigFault, RawConfig};

fn raw() -> RawConfig {
    RawConfig {
        database_url: Some("postgres://db".to_string()),
        redis_url: None,
        nasa_api_url: None,
        nasa_api_key: None,
        where_iss_url: None,
        iss_every_seconds: None,
        apod_every_seconds: None,
        neo_every_seconds: None,
        donki_every_seconds: None,
        spacex_every_seconds: None,
        rate_limit_per_minute: None,
        host: None,
        port: None,
    }
}

#[test]
fn defaults_fill_every_missing_setting() {
    let c = Config::from_values(raw()).unwrap();
    assert_eq!(c.database_url, "postgres://db");
    assert_eq!(c.redis_url, "redis://redis:6379");
    assert_eq!(c.nasa_api_url, "https://api.nasa.gov");
    assert_eq!(c.nasa_api_key, "DEMO_KEY");
    assert_eq!(c.where_iss_url, "https://api.wheretheiss.at/v1/satellites/25544");
    assert_eq!(c.iss_every_seconds, 120);
    assert_eq!(c.apod_every_seconds, 43200);
    assert_eq!(c.neo_every_seconds, 7200);
    assert_eq!(c.donki_every_seconds, 3600);
    assert_eq!(c.spacex_every_seconds, 3600);
    assert_eq!(c.rate_limit_per_minute, 30);
    assert_eq!(c.host, "0.0.0.0");
    assert_eq!(c.port, 3000);
    assert!(c.validate().is_ok());
}

#[test]
fn given_settings_win_over_defaults() {
    let mut r = raw();
    r.redis_url = Some("redis://cache:1".to_string());
    r.nasa_api_key = Some("secret".to_string());
    r.iss_every_seconds = Some("15".to_string());
    r.rate_limit_per_minute = Some("+60".to_string());
    r.host = Some(String::new());
    r.port = Some("8080".to_string());
    let c = Config::from_values(r).unwrap();
    assert_eq!(c.redis_url, "redis://cache:1");
    assert_eq!(c.nasa_api_key, "secret");
    assert_eq!(c.iss_every_seconds, 15);
    assert_eq!(c.rate_limit_per_minute, 60);
    assert_eq!(c.host, "");
    assert_eq!(c.port, 8080);
}

#[test]
fn unreadable_numbers_fall_back_to_the_default() {
    let mut r = raw();
    r.iss_every_seconds = Some("soon".to_string());
    r.apod_every_seconds = Some("".to_string());
    r.neo_every_seconds = Some("-5".to_string());
    r.donki_every_seconds = Some("99999999999999999999999".to_string());
    r.spacex_every_seconds = Some(" 10".to_string());
    r.rate_limit_per_minute = Some("4294967296".to_string());
    r.port = Some("70000".to_string());
    let c = Config::from_values(r).unwrap();
    assert_eq!(c.iss_every_seconds, 120);
    assert_eq!(c.apod_every_seconds, 43200);
    assert_eq!(c.neo_every_seconds, 7200);
    assert_eq!(c.donki_every_seconds, 3600);
    assert_eq!(c.spacex_every_seconds, 3600);
    assert_eq!(c.rate_limit_per_minute, 30);
    assert_eq!(c.port, 3000);
}

#[test]
fn a_missing_database_url_is_the_only_failure() {
    let mut r = raw();
    r.database_url = None;
    assert_eq!(Config::from_values(r).unwrap_err(), "DATABASE_URL not set");
}

#[test]
fn validate_names_the_first_broken_rule() {
    let mut c = Config::from_values(raw()).unwrap();
    assert_eq!(c.check(), None);

    c.iss_every_seconds = 9;
    assert_eq!(c.check(), Some(ConfigFault::IssIntervalTooShort));
    assert_eq!(c.validate().unwrap_err(), "ISS_EVERY_SECONDS must be >= 10");

    c.iss_every_seconds = 10;
    assert!(c.validate().is_ok());

    c.database_url = String::new();
    assert_eq!(c.check(), Some(ConfigFault::EmptyDatabaseUrl));
    assert_eq!(c.validate().unwrap_err(), "DATABASE_URL cannot be empty");

    c.iss_every_seconds = 0;
    assert_eq!(c.validate().unwrap_err(), "DATABASE_URL cannot be empty");
}
