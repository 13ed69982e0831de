//! The closed set of supported game platforms, and the dispatch that picks
//! the registered client for one.

use vstd::prelude::*;

use crate::errors::PlatformError;

verus! {

/// A game platform the system can ingest from.
#[derive(Clone, Copy, Debug, PartialEq, Eq, Hash, Structural)]
pub enum PlatformName {
    ChessCom,
}

/// The canonical text tag of a platform.
pub open spec fn platform_chars(p: PlatformName) -> Seq<char> {
    match p {
        PlatformName::ChessCom => "ChessCom"@,
    }
}

impl PlatformName {
    /// Canonical text tag of the platform, as stored in the
    /// `platform_name` column.
    pub fn as_str(&self) -> (r: &'static str)
        ensures
            r@ == platform_chars(*self),
    {
        match self {
            PlatformName::ChessCom => "ChessCom",
        }
    }
}

/// The platform service's dispatch: the slot of the client registered for
/// the requested platform, or — when no adapter is registered — the
/// not-found error naming the platform.
pub fn resolve_client(registered: &Vec<PlatformName>, requested: &PlatformName) -> (r: Result<
    usize,
    PlatformError,
>)
    ensures
        match r {
            Ok(i) => i < registered@.len() && registered@[i as int] == *requested,
            Err(e) => (forall|j: int| 0 <= j < registered@.len() ==> registered@[j] != *requested)
                && (e matches PlatformError::PlatformNotFound(name) && name@ == platform_chars(
                *requested,
            )),
        },
{
    let mut i: usize = 0;
    #[verifier::loop_isolation(false)]
    while i < registered.len()
        invariant
            i <= registered@.len(),
            forall|j: int| 0 <= j < i ==> registered@[j] != *requested,
        decreases registered@.len() - i,
    {
        if registered[i] == *requested {
            return Ok(i);
        }
        i = i + 1;
    }
    Err(PlatformError::PlatformNotFound(requested.as_str().to_owned()))
}

} // verus!
