//! A verified core for an asynchronous client of the FRED and ALFRED APIs of
//! the Federal Reserve Bank of St. Louis.
//!
//! Every request adds `file_type=json` and authenticates with the API key
//! that `FredClient::new` checks. The typed parameters in `params` and the
//! endpoint groups in `api` describe each request; `FredClient::request_url`
//! turns a description into its URL, and `FredClient::check_response` sorts
//! FRED's answer into a body to decode or an error.
use vstd::prelude::*;

pub mod api;
pub mod client;
pub mod date;
pub mod error;
pub mod models;
pub mod params;
pub mod query;
pub mod queue;
pub mod text;
pub mod urls;

pub use crate::api::{
    ApiRequest, CategoryApi, GeoFredApi, ReleaseApi, SeriesApi, SourceApi, TagsApi,
};
pub use crate::client::{
    first_record, missing_value, FredClient, FRED_BASE_URL, GEOFRED_BASE_URL,
};
pub use crate::date::Date;
pub use crate::error::{FredApiError, FredError};
pub use crate::models::{Category, Release, ReleaseDate, Series, Source, Tag};
pub use crate::params::{
    AggregationMethod, Frequency, ListOptions, Observations, OutputType, Pagination, Realtime,
    Search, SearchType, Seasonality, SortOrder, Units,
};
pub use crate::query::Query;
pub use crate::queue::{queued_reply, PageCollector, PageStep, QueueEvent};

verus! {

} // verus!
