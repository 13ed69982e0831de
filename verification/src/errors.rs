//! Error taxonomy of the ingest-and-aggregate core.

use vstd::prelude::*;

verus! {

/// A PGN whose movetext could not be replayed into board positions.
/// Carries the offending PGN text.
#[derive(Clone, Debug, PartialEq, Eq)]
pub struct InvalidPgnError(pub String);

/// A board encoding string that the chess rules reject.
#[derive(Clone, Copy, Debug, PartialEq, Eq, Structural)]
pub struct InvalidFenError;

/// Failure of the persistence layer.
#[derive(Clone, Debug)]
pub enum GameRepositoryError {
    /// Connectivity or constraint failure during persistence.
    DatabaseError(String),
    /// Any other failure, carried as text.
    Unknown(String),
}

/// Failure while talking to the remote game platform.
#[derive(Clone, Debug)]
pub enum PlatformError {
    /// No adapter is registered for the requested platform.
    PlatformNotFound(String),
    /// Transient or unreachable upstream after retries; retryable.
    NetworkError(String),
    /// Upstream response shape unexpected; not retryable.
    ParseError(String),
    /// Non-transient upstream error; not retryable.
    ApiError(String),
}

/// Failure of a whole store-games run: either the persistence layer or the
/// platform stream failed.
#[derive(Clone, Debug)]
pub enum StoreGamesError {
    GameRepositoryError(GameRepositoryError),
    PlatformError(PlatformError),
}

} // verus!
