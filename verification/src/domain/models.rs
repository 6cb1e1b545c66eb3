//! Records and upstream payloads.
//!
//! Instants are whole seconds since the Unix epoch. Measurements are kept as
//! the bit pattern of the double-precision number they were reported as, so
//! a value passes through the pipeline unchanged.

use crate::domain::error::ErrorDetail;
use crate::text::{decimal, u64_to_string};
use vstd::prelude::*;

verus! {

/// A measurement, as the IEEE 754 bit pattern of a double.
#[derive(Debug, Clone, Copy, PartialEq, Eq, Structural)]
pub struct Measure {
    pub bits: u64,
}

/// One observed position of the station. Its natural key is `timestamp`,
/// the second the observation was made.
#[derive(Debug, Clone, Copy, PartialEq, Eq, Structural)]
pub struct IssPosition {
    /// Assigned by storage; absent until the record has been stored.
    pub id: Option<i32>,
    pub latitude: Measure,
    pub longitude: Measure,
    pub altitude: Measure,
    pub velocity: Measure,
    pub timestamp: i64,
    /// The second the record was last written.
    pub fetched_at: i64,
}

/// What the position source reports.
#[derive(Debug, Clone, Copy, PartialEq, Eq, Structural)]
pub struct IssApiResponse {
    pub latitude: Measure,
    pub longitude: Measure,
    pub altitude: Measure,
    pub velocity: Measure,
    pub timestamp: i64,
}

pub const HISTORY_LIMIT_MIN: i32 = 1;

pub const HISTORY_LIMIT_MAX: i32 = 1000;

/// Page size used when a history query names none.
pub const HISTORY_LIMIT_DEFAULT: i32 = 100;

/// Filters of a history query.
#[derive(Debug, Clone, Copy, PartialEq, Eq, Structural)]
pub struct IssHistoryQuery {
    pub limit: Option<i32>,
    pub start_date: Option<i64>,
    pub end_date: Option<i64>,
}

impl IssHistoryQuery {
    /// A limit, when given, lies between the smallest and the largest page
    /// size. The dates are not constrained.
    pub open spec fn valid(&self) -> bool {
        match self.limit {
            Some(n) => HISTORY_LIMIT_MIN <= n <= HISTORY_LIMIT_MAX,
            None => true,
        }
    }

    pub fn validate(&self) -> (r: Result<(), ErrorDetail>)
        ensures
            r is Ok <==> self.valid(),
            r is Err ==> r->Err_0.field@ == "limit"@ && r->Err_0.message@
                == "limit must be between 1 and 1000"@,
    {
        match self.limit {
            Some(n) => {
                if n < HISTORY_LIMIT_MIN || n > HISTORY_LIMIT_MAX {
                    Err(
                        ErrorDetail {
                            field: String::from_str("limit"),
                            message: String::from_str("limit must be between 1 and 1000"),
                        },
                    )
                } else {
                    Ok(())
                }
            },
            None => Ok(()),
        }
    }

    /// The page size the query asks for.
    pub fn effective_limit(&self) -> (n: i32)
        ensures
            n == match self.limit {
                Some(l) => l,
                None => HISTORY_LIMIT_DEFAULT,
            },
    {
        match self.limit {
            Some(l) => l,
            None => HISTORY_LIMIT_DEFAULT,
        }
    }
}

/// One dataset of the catalogue. Its natural key is `dataset_id`.
#[derive(Debug, Clone)]
pub struct OsdrDataset {
    /// Assigned by storage; absent until the record has been stored.
    pub id: Option<i32>,
    pub dataset_id: String,
    pub title: String,
    pub description: Option<String>,
    /// Midnight UTC of the release day, when one is known.
    pub release_date: Option<i64>,
    /// The second the record was last written.
    pub updated_at: i64,
}

/// A dataset as contracts speak of it: the texts by their characters.
pub struct OsdrDatasetView {
    pub id: Option<i32>,
    pub dataset_id: Seq<char>,
    pub title: Seq<char>,
    pub description: Option<Seq<char>>,
    pub release_date: Option<i64>,
    pub updated_at: i64,
}

impl View for OsdrDataset {
    type V = OsdrDatasetView;

    open spec fn view(&self) -> OsdrDatasetView {
        OsdrDatasetView {
            id: self.id,
            dataset_id: self.dataset_id@,
            title: self.title@,
            description: match self.description {
                Some(d) => Some(d@),
                None => None,
            },
            release_date: self.release_date,
            updated_at: self.updated_at,
        }
    }
}

impl OsdrDataset {
    /// An independent copy with the same content.
    pub fn duplicate(&self) -> (c: OsdrDataset)
        ensures
            c@ == self@,
    {
        OsdrDataset {
            id: self.id,
            dataset_id: self.dataset_id.clone(),
            title: self.title.clone(),
            description: match &self.description {
                Some(d) => Some(d.clone()),
                None => None,
            },
            release_date: self.release_date,
            updated_at: self.updated_at,
        }
    }
}

/// What the catalogue source reports.
#[derive(Debug)]
pub struct OsdrApiResponse {
    pub results: Vec<OsdrApiDataset>,
}

#[derive(Debug)]
pub struct OsdrApiDataset {
    pub dataset_id: String,
    pub title: String,
    pub description: Option<String>,
    /// The release day as the source writes it.
    pub release_date: Option<String>,
}

/// Summary of one synchronisation of the catalogue.
#[derive(Debug)]
pub struct SyncResponse {
    pub synced_count: usize,
    pub message: String,
}

impl SyncResponse {
    pub open spec fn spec_message(count: usize) -> Seq<char> {
        "Successfully synced "@ + decimal(count as nat) + " datasets"@
    }

    /// The summary of a synchronisation that wrote `count` datasets.
    pub fn new(count: usize) -> (r: SyncResponse)
        ensures
            r.synced_count == count,
            r.message@ == SyncResponse::spec_message(count),
    {
        let mut message = String::from_str("Successfully synced ");
        let n = u64_to_string(count as u64);
        message.append(n.as_str());
        message.append(" datasets");
        SyncResponse { synced_count: count, message }
    }
}

/// One picture of the day.
#[derive(Debug)]
pub struct ApodEntry {
    pub id: i32,
    /// Midnight UTC of the day the picture belongs to.
    pub date: i64,
    pub title: String,
    pub explanation: String,
    pub url: String,
    pub hdurl: Option<String>,
    pub media_type: String,
    pub fetched_at: i64,
}

/// A value together with the second it was cached.
#[derive(Debug)]
pub struct CachedData<T> {
    pub data: T,
    pub cached_at: i64,
}

/// What the service says about its own state.
#[derive(Debug)]
pub struct HealthResponse {
    pub status: String,
    pub timestamp: i64,
    pub version: String,
}

impl HealthResponse {
    /// The answer of a service that is up.
    pub fn new(timestamp: i64, version: String) -> (r: HealthResponse)
        ensures
            r.status@ == "ok"@,
            r.timestamp == timestamp,
            r.version == version,
    {
        HealthResponse { status: String::from_str("ok"), timestamp, version }
    }
}

} // verus!
