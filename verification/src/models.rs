//! Common data models returned by FRED.
use vstd::prelude::*;
use crate::date::Date;

verus! {

/// A FRED category.
#[derive(Clone, Debug)]
pub struct Category {
    pub id: u64,
    pub name: String,
    pub parent_id: Option<u64>,
}

/// A FRED series' metadata.
#[derive(Clone, Debug)]
pub struct Series {
    pub id: String,
    pub title: String,
    pub observation_start: Option<Date>,
    pub observation_end: Option<Date>,
    pub frequency: String,
    pub units: String,
    pub seasonal_adjustment: String,
    pub last_updated: String,
    pub popularity: u32,
}

/// A data release.
#[derive(Clone, Debug)]
pub struct Release {
    pub id: u64,
    pub name: String,
    pub press_release: Option<bool>,
    pub link: Option<String>,
}

/// A source of data releases.
#[derive(Clone, Debug)]
pub struct Source {
    pub id: u64,
    pub name: String,
    pub link: Option<String>,
}

/// A FRED tag.
#[derive(Clone, Debug)]
pub struct Tag {
    pub name: String,
    pub group_id: String,
    pub notes: Option<String>,
    pub created: Option<String>,
    pub popularity: Option<u32>,
    pub series_count: Option<u64>,
}

/// The date of a release.
#[derive(Clone, Debug)]
pub struct ReleaseDate {
    pub release_id: u64,
    pub release_name: Option<String>,
    pub date: Date,
}

} // verus!
