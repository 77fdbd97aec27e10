//! Rules of the local library (watch history, favorites, watch later) that
//! sit around its SQL; running the SQL is the application's business.
use vstd::prelude::*;

use crate::filters::{utc_now_millis, TIME_BOUND_MS};
use crate::models::opt_view;

verus! {

/// The two local video lists.
#[derive(Clone, Copy, PartialEq, Eq, Structural)]
pub enum Bucket {
    Favorites,
    WatchLater,
}

impl Bucket {
    /// The table a list lives in.
    pub fn table(self) -> (r: &'static str)
        ensures
            r@ == match self {
                Bucket::Favorites => "favorites"@,
                Bucket::WatchLater => "watch_later"@,
            },
    {
        match self {
            Bucket::Favorites => "favorites",
            Bucket::WatchLater => "watch_later",
        }
    }
}

/// Rows to skip for a 1-based page of `limit` rows (page 0 counts as page 1).
pub fn history_offset(page: u32, limit: u32) -> (r: u64)
    ensures
        r == (if page == 0 {
            0
        } else {
            (page - 1) * limit
        }),
{
    let p: u64 = if page == 0 {
        0
    } else {
        (page - 1) as u64
    };
    proof {
        assert(p * (limit as u64) <= (u32::MAX as u64) * (u32::MAX as u64)) by (nonlinear_arith)
            requires
                p <= u32::MAX,
                limit <= u32::MAX,
        ;
    }
    p * (limit as u64)
}

/// The instant an RFC 3339 timestamp names, in milliseconds since the epoch
/// (chrono `DateTime::parse_from_rfc3339` then `timestamp_millis`); none when
/// it does not parse.
pub uninterp spec fn rfc3339_instant_ms(text: Seq<char>) -> Option<int>;

/// chrono `DateTime::parse_from_rfc3339(text).timestamp_millis()`.
#[verifier::external_body]
pub(crate) fn parse_rfc3339_millis(text: &str) -> (r: Option<i64>)
    ensures
        match r {
            Some(ms) => rfc3339_instant_ms(text@) == Some(ms as int),
            None => rfc3339_instant_ms(text@) is None,
        },
{
    match chrono::DateTime::parse_from_rfc3339(text) {
        Ok(d) => Some(d.timestamp_millis()),
        Err(_) => None,
    }
}

/// When a history entry was watched: its timestamp, or now when that does
/// not parse.
pub fn watched_at_millis(text: &str) -> (r: i64)
    ensures
        rfc3339_instant_ms(text@) matches Some(ms) ==> r == ms,
        rfc3339_instant_ms(text@) is None ==> -TIME_BOUND_MS <= r <= TIME_BOUND_MS,
{
    match parse_rfc3339_millis(text) {
        Some(ms) => ms,
        None => utc_now_millis(),
    }
}

/// The RFC 3339 text chrono's `to_rfc3339` prints for the UTC instant `ms`
/// milliseconds after the epoch; none when chrono cannot represent it.
pub uninterp spec fn rfc3339_utc(ms: int) -> Option<Seq<char>>;

/// chrono `DateTime::from_timestamp_millis(ms)` then `to_rfc3339()`.
#[verifier::external_body]
pub(crate) fn format_rfc3339(ms: i64) -> (r: Option<String>)
    ensures
        opt_view(r) == rfc3339_utc(ms as int),
{
    match chrono::DateTime::from_timestamp_millis(ms) {
        Some(d) => Some(d.to_rfc3339()),
        None => None,
    }
}

/// How a stored watch time is shown: RFC 3339, or empty when out of range.
pub fn watched_at_text(ms: i64) -> (r: String)
    ensures
        r@ == match rfc3339_utc(ms as int) {
            Some(t) => t,
            None => Seq::<char>::empty(),
        },
{
    match format_rfc3339(ms) {
        Some(t) => t,
        None => String::new(),
    }
}

} // verus!
