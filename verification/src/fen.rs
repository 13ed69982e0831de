//! The validated board-encoding value object.

use vstd::prelude::*;

use crate::errors::InvalidFenError;

verus! {

/// Whether the chess-rule library accepts `s` as a board encoding.
/// Acceptance depends on the characters alone.
pub uninterp spec fn shakmaty_accepts_fen(s: Seq<char>) -> bool;

/// Decides whether a string is a valid board encoding.
pub trait FenValidator: Sized {
    /// What this validator accepts, as a predicate on the characters.
    spec fn fen_valid(&self, s: Seq<char>) -> bool;

    fn is_valid_fen(&self, fen: &str) -> (r: bool)
        ensures
            r == self.fen_valid(fen@),
    ;
}

/// Relies on shakmaty's `fen::Fen::from_ascii`: whether a board encoding
/// parses depends on its characters alone.
#[verifier::external_body]
fn shakmaty_is_valid_fen(fen: &str) -> (r: bool)
    ensures
        r == shakmaty_accepts_fen(fen@),
{
    shakmaty::fen::Fen::from_ascii(fen.as_bytes()).is_ok()
}

/// The production validator, backed by the chess-rule library.
pub struct Validator;

impl FenValidator for Validator {
    open spec fn fen_valid(&self, s: Seq<char>) -> bool {
        shakmaty_accepts_fen(s)
    }

    fn is_valid_fen(&self, fen: &str) -> (r: bool) {
        shakmaty_is_valid_fen(fen)
    }
}

/// A valid Forsyth–Edwards Notation string.
#[derive(Clone, Debug, Hash)]
pub struct Fen(String);

impl View for Fen {
    type V = Seq<char>;

    closed spec fn view(&self) -> Seq<char> {
        self.0@
    }
}

impl PartialEq for Fen {
    fn eq(&self, other: &Fen) -> (r: bool) {
        self.0 == other.0
    }
}

impl vstd::std_specs::cmp::PartialEqSpecImpl for Fen {
    open spec fn obeys_eq_spec() -> bool {
        true
    }

    open spec fn eq_spec(&self, other: &Fen) -> bool {
        self@ == other@
    }
}

impl Fen {
    /// Wraps `fen_str` iff the validator accepts it.
    pub fn new<V: FenValidator>(fen_str: &str, validator: &V) -> (r: Result<Self, InvalidFenError>)
        ensures
            match r {
                Ok(f) => validator.fen_valid(fen_str@) && f@ == fen_str@,
                Err(e) => !validator.fen_valid(fen_str@) && e == InvalidFenError,
            },
    {
        if validator.is_valid_fen(fen_str) {
            Ok(Self(fen_str.to_owned()))
        } else {
            Err(InvalidFenError)
        }
    }

    /// Wraps a string from a source already known to hold valid encodings.
    pub fn new_unchecked(fen_str: &str) -> (r: Self)
        ensures
            r@ == fen_str@,
    {
        Self(fen_str.to_owned())
    }

    /// The underlying text of the encoding.
    pub fn as_str(&self) -> (r: &str)
        ensures
            r@ == self@,
    {
        self.0.as_str()
    }
}

} // verus!
