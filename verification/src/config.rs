//! Configuration: four settings, each with a default that stands in where
//! the setting is missing or, for a number, cannot be read.

use crate::decimal::{i64_of_text, parse_i64, parse_u64, u64_of_text};
use crate::event::{optional_text, text_or};
use vstd::prelude::*;
use vstd::string::*;

verus! {

/// The base URL of the backend where none is configured.
pub const DEFAULT_LOKI_URL: &'static str = "http://loki:3100";

/// The location of the event source where none is configured.
pub const DEFAULT_DB_PATH: &'static str = "/netbird-data/events.db";

/// Seconds between two polls where none are configured.
pub const DEFAULT_CHECK_INTERVAL_SECS: u64 = 10;

/// The most events of one batch where no size is configured.
pub const DEFAULT_BATCH_SIZE: i64 = 100;

/// The settings of the exporter.
#[derive(Clone, Debug, PartialEq, Eq)]
pub struct Config {
    pub loki_url: String,
    pub db_path: String,
    pub check_interval_secs: u64,
    pub batch_size: i64,
}

/// The poll interval that a setting stands for.
pub open spec fn check_interval_of(setting: Option<Seq<char>>) -> u64 {
    match setting {
        Some(text) => match u64_of_text(text) {
            Some(secs) => secs,
            None => DEFAULT_CHECK_INTERVAL_SECS,
        },
        None => DEFAULT_CHECK_INTERVAL_SECS,
    }
}

/// The batch size that a setting stands for.
pub open spec fn batch_size_of(setting: Option<Seq<char>>) -> i64 {
    match setting {
        Some(text) => match i64_of_text(text) {
            Some(size) => size,
            None => DEFAULT_BATCH_SIZE,
        },
        None => DEFAULT_BATCH_SIZE,
    }
}

impl Config {
    /// The configuration that the four settings stand for. A missing setting
    /// gets its default, and so does a number that cannot be read: nothing
    /// here fails.
    pub fn from_vars(
        loki_url: Option<String>,
        db_path: Option<String>,
        check_interval: Option<String>,
        batch_size: Option<String>,
    ) -> (r: Config)
        ensures
            r.loki_url@ == text_or(optional_text(loki_url), DEFAULT_LOKI_URL@),
            r.db_path@ == text_or(optional_text(db_path), DEFAULT_DB_PATH@),
            r.check_interval_secs == check_interval_of(optional_text(check_interval)),
            r.batch_size == batch_size_of(optional_text(batch_size)),
    {
        let interval: u64 = match &check_interval {
            Some(text) => match parse_u64(text.as_str()) {
                Some(secs) => secs,
                None => DEFAULT_CHECK_INTERVAL_SECS,
            },
            None => DEFAULT_CHECK_INTERVAL_SECS,
        };
        let size: i64 = match &batch_size {
            Some(text) => match parse_i64(text.as_str()) {
                Some(size) => size,
                None => DEFAULT_BATCH_SIZE,
            },
            None => DEFAULT_BATCH_SIZE,
        };
        Config {
            loki_url: match loki_url {
                Some(url) => url,
                None => String::from_str(DEFAULT_LOKI_URL),
            },
            db_path: match db_path {
                Some(path) => path,
                None => String::from_str(DEFAULT_DB_PATH),
            },
            check_interval_secs: interval,
            batch_size: size,
        }
    }
}

} // verus!
