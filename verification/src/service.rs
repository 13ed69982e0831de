//! The game service: the application-facing facade over the repository and
//! the board-encoding validator.

use vstd::prelude::*;

use crate::errors::{GameRepositoryError, InvalidFenError, PlatformError, StoreGamesError};
use crate::fen::{Fen, FenValidator};
use crate::game::{Color, MoveStat, NewGame};
use crate::platform::PlatformName;
use crate::store::{
    first_err, latest_timestamp, stats_correct, store_after_stream, store_inv, total_games,
    GameStore, GameStoreV, StatQuery,
};

verus! {

/// The service over the canonical store. The second parameter decides which
/// board encodings `parse_fen` accepts.
pub struct Service<V: FenValidator> {
    repo: GameStore,
    fen_validator: V,
}

impl<V: FenValidator> Service<V> {
    /// The store behind the service.
    pub closed spec fn store(&self) -> GameStoreV {
        self.repo@
    }

    /// The validator behind the service.
    pub closed spec fn validator(&self) -> V {
        self.fen_validator
    }

    pub fn new(repo: GameStore, fen_validator: V) -> (r: Self)
        ensures
            r.store() == repo@,
            r.validator() == fen_validator,
    {
        Self { repo, fen_validator }
    }

    /// A read-only view of the repository, for inspection.
    pub fn repo(&self) -> (r: &GameStore)
        ensures
            r@ == self.store(),
    {
        &self.repo
    }

    /// Drains a batch stream into the store; see [`GameStore::store_games`].
    /// The platform and user name the staging table the serving layer loads
    /// through; the fold itself does not depend on them.
    pub fn store_games(
        &mut self,
        _platform_name: &PlatformName,
        _username: &str,
        batches: Vec<Result<Vec<NewGame>, PlatformError>>,
    ) -> (r: (Result<(), StoreGamesError>, usize))
        requires
            store_inv(old(self).store()),
            old(self).store().next_id + total_games(batches@) <= u128::MAX,
        ensures
            store_inv(final(self).store()),
            final(self).validator() == old(self).validator(),
            final(self).store() == store_after_stream(old(self).store(), batches@),
            first_err(batches@) == batches@.len() ==> r.0 is Ok && r.1 == batches@.len(),
            first_err(batches@) < batches@.len() ==> r.1 == first_err(batches@) && (batches@[
                first_err(batches@)
            ] matches Err(e) && r.0 == Err::<(), StoreGamesError>(
                StoreGamesError::PlatformError(e),
            )),
    {
        self.repo.store_games(batches)
    }

    /// Maximum `finished_at` over the user's games on the platform.
    pub fn get_latest_game_timestamp_seconds(
        &self,
        platform_name: &PlatformName,
        username: &str,
    ) -> (r: Result<Option<u64>, GameRepositoryError>)
        ensures
            r == Ok::<Option<u64>, GameRepositoryError>(
                latest_timestamp(self.store().games, *platform_name, username@),
            ),
    {
        self.repo.get_latest_game_timestamp_seconds(platform_name, username)
    }

    /// Per-reply statistics for one position; see
    /// [`GameStore::get_move_stats`].
    pub fn get_move_stats(
        &self,
        position_fen: Fen,
        username: String,
        play_as: Color,
        platform_name: PlatformName,
        from_timestamp: Option<i64>,
        to_timestamp: Option<i64>,
    ) -> (r: Result<Vec<MoveStat>, GameRepositoryError>)
        ensures
            r matches Ok(stats) && stats_correct(
                self.store().games,
                self.store().positions,
                StatQuery {
                    fen: position_fen@,
                    user: username@,
                    play_as: play_as,
                    platform: platform_name,
                    from: from_timestamp,
                    to: to_timestamp,
                },
                stats@.map_values(|m: MoveStat| m@),
            ),
    {
        self.repo.get_move_stats(
            &position_fen,
            username.as_str(),
            &play_as,
            &platform_name,
            from_timestamp,
            to_timestamp,
        )
    }

    /// Wraps `fen_str` iff the validator accepts it.
    pub fn parse_fen(&self, fen_str: String) -> (r: Result<Fen, InvalidFenError>)
        ensures
            match r {
                Ok(f) => self.validator().fen_valid(fen_str@) && f@ == fen_str@,
                Err(e) => !self.validator().fen_valid(fen_str@) && e == InvalidFenError,
            },
    {
        Fen::new(fen_str.as_str(), &self.fen_validator)
    }
}

} // verus!
