//! The root query of the public schema: per-move statistics for a position.

use vstd::prelude::*;

use crate::errors::InvalidFenError;
use crate::fen::FenValidator;
use crate::game::{MoveStat, MoveStatV};
use crate::graphql_dto::{
    graphql_stat_of, spec_color_to_domain, spec_platform_to_domain, GraphQLColor, GraphQLMoveStat,
    GraphQLPlatformName,
};
use crate::service::Service;
use crate::store::{stats_correct, StatQuery};

verus! {

/// The root query object of the schema.
#[derive(Clone, Copy, Debug)]
pub struct Query;

/// What the statistics query can fail with. The store itself cannot fail
/// and second-resolution instants always name an instant, so of these only
/// the board-encoding failure is reachable through [`Query::get_move_stats`].
#[derive(Clone, Debug)]
pub enum GetMoveStatsError {
    InternalError,
    InvalidFen(InvalidFenError),
    InvalidTimestamp(String),
}

pub open spec fn widen_ts(t: Option<i32>) -> Option<i64> {
    match t {
        Some(v) => Some(v as i64),
        None => None,
    }
}

impl Query {
    /// Resolves the statistics query: validates the board encoding, widens
    /// the window bounds, queries the service, and shapes the rows for the
    /// schema.
    pub fn get_move_stats<V: FenValidator>(
        ctx: &Service<V>,
        position_fen: String,
        username: String,
        play_as: GraphQLColor,
        platform_name: GraphQLPlatformName,
        from_timestamp_seconds: Option<i32>,
        to_timestamp_seconds: Option<i32>,
    ) -> (r: Result<Vec<GraphQLMoveStat>, GetMoveStatsError>)
        ensures
            ({
                let q = StatQuery {
                    fen: position_fen@,
                    user: username@,
                    play_as: spec_color_to_domain(play_as),
                    platform: spec_platform_to_domain(platform_name),
                    from: widen_ts(from_timestamp_seconds),
                    to: widen_ts(to_timestamp_seconds),
                };
                match r {
                    Ok(out) => ctx.validator().fen_valid(position_fen@) && (exists|
                        stats: Seq<MoveStatV>,
                    |
                        #[trigger] stats_correct(ctx.store().games, ctx.store().positions, q, stats)
                            && out@.len() == stats.len() && (forall|k: int|
                            0 <= k < out.len() ==> (#[trigger] out@[k])@ == graphql_stat_of(
                                stats[k],
                            ))),
                    Err(e) => e is InvalidFen && !ctx.validator().fen_valid(position_fen@),
                }
            }),
    {
        let fen = match ctx.parse_fen(position_fen) {
            Ok(f) => f,
            Err(e) => {
                return Err(GetMoveStatsError::InvalidFen(e));
            },
        };
        let from = match from_timestamp_seconds {
            Some(s) => Some(s as i64),
            None => None,
        };
        let to = match to_timestamp_seconds {
            Some(s) => Some(s as i64),
            None => None,
        };
        let play_as_domain = play_as.to_domain();
        let platform_domain = platform_name.to_domain();
        let stats = match ctx.get_move_stats(fen, username, play_as_domain, platform_domain, from, to) {
            Ok(s) => s,
            Err(_) => {
                return Err(GetMoveStatsError::InternalError);
            },
        };
        let ghost stats_v = stats@.map_values(|m: MoveStat| m@);
        let mut out: Vec<GraphQLMoveStat> = Vec::new();
        let mut pending = stats;
        let mut i: usize = 0;
        let total = pending.len();
        #[verifier::loop_isolation(false)]
        while pending.len() > 0
            invariant
                i <= total == stats_v.len(),
                pending@.len() == total - i,
                forall|t: int| 0 <= t < pending@.len() ==> (#[trigger] pending@[t])@ == stats_v[i + t],
                out@.len() == i,
                forall|k: int| 0 <= k < i ==> (#[trigger] out@[k])@ == graphql_stat_of(stats_v[k]),
            decreases pending@.len(),
        {
            let m = pending.remove(0);
            let g = GraphQLMoveStat::from_domain(m);
            out.push(g);
            i = i + 1;
        }
        Ok(out)
    }
}

} // verus!
