//! The root mutation of the public schema: a one-shot, non-streaming ingest
//! trigger. Its fetch-and-store round trips belong to the serving layer;
//! the decision whether a stored history is stale enough to refetch is
//! here.

use vstd::prelude::*;

verus! {

/// The root mutation object of the schema.
#[derive(Clone, Copy, Debug)]
pub struct Mutation;

/// What the one-shot ingest can fail with.
#[derive(Clone, Debug)]
pub enum UpdateUserGamesError {
    UpdateError(String),
}

/// Whether a user whose latest stored game finished at
/// `latest_timestamp_seconds` should be refetched at wall-clock time
/// `now_millis`: the stored mark, read as milliseconds against the clock,
/// must lie more than one day ahead. (A mark in seconds virtually never
/// does; a fresh user, with no mark at all, is always fetched.)
pub fn should_refetch(latest_timestamp_seconds: u64, now_millis: i64) -> (r: bool)
    requires
        latest_timestamp_seconds <= i64::MAX,
    ensures
        r == (latest_timestamp_seconds - now_millis > 86_400_000),
{
    let diff: i128 = (latest_timestamp_seconds as i128) - (now_millis as i128);
    diff > 86_400_000
}

} // verus!
