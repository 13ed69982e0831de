//! Position expansion: replaying the mainline of a PGN into an ordered list
//! of board encodings with the move played from each.

use vstd::prelude::*;

use shakmaty::Position as _;

use crate::errors::InvalidPgnError;
use crate::fen::Fen;
use crate::pgn::{san_tokens, san_tokens_of};

verus! {

/// The standard initial position, encoded as the chess-rule library encodes
/// its default setup.
pub open spec fn initial_fen() -> Seq<char> {
    "rnbqkbnr/pppppppp/8/8/8/8/PPPPPPPP/RNBQKBNR w KQkq - 0 1"@
}

/// Returns the initial board encoding.
pub fn initial_fen_exec() -> (r: String)
    ensures
        r@ == initial_fen(),
{
    "rnbqkbnr/pppppppp/8/8/8/8/PPPPPPPP/RNBQKBNR w KQkq - 0 1".to_owned()
}

/// What one replay step of the chess-rule library yields on a board encoding
/// and a SAN token: `None` if the token is not a legal move there, otherwise
/// the move's UCI text and the encoding of the following position (with
/// en-passant targets recorded unconditionally). The result depends on the
/// two strings alone.
pub uninterp spec fn san_step_of(fen: Seq<char>, san: Seq<char>) -> Option<(Seq<char>, Seq<char>)>;

/// Replays one SAN token on a board encoding.
///
/// Relies on shakmaty: `fen::Fen::from_ascii` and `Fen::into_position`
/// (standard castling) read the current board; `san::SanPlus::from_ascii`
/// and `San::to_move` resolve the token; `Position::play` applies it;
/// `Position::to_setup` (en-passant mode "always"), `Fen::try_from_setup`
/// and `Move::to_uci` re-encode the outcome. All of these depend on their
/// arguments alone.
#[verifier::external_body]
fn san_step(fen: &str, san_token: &Vec<char>) -> (r: Option<(String, String)>)
    ensures
        match r {
            Some(p) => san_step_of(fen@, san_token@) == Some((p.0@, p.1@)),
            None => san_step_of(fen@, san_token@) is None,
        },
{
    let tok: String = san_token.iter().collect();
    let pos: shakmaty::Chess = shakmaty::fen::Fen::from_ascii(fen.as_bytes())
        .ok()?
        .into_position(shakmaty::CastlingMode::Standard)
        .ok()?;
    let mv = shakmaty::san::SanPlus::from_ascii(tok.as_bytes()).ok()?.san.to_move(&pos).ok()?;
    let next = pos.play(mv).ok()?;
    let next_fen = shakmaty::fen::Fen::try_from_setup(
        next.to_setup(shakmaty::EnPassantMode::Always),
    ).ok()?;
    Some((mv.to_uci(shakmaty::CastlingMode::Standard).to_string(), next_fen.to_string()))
}

/// One emitted row: a board encoding and the UCI of the move played from it
/// (`None` on the terminal position).
#[derive(Clone, Debug)]
pub struct PositionMetadata {
    pub fen: Fen,
    pub next_move_uci: Option<String>,
}

impl View for PositionMetadata {
    type V = (Seq<char>, Option<Seq<char>>);

    open spec fn view(&self) -> (Seq<char>, Option<Seq<char>>) {
        (
            self.fen@,
            match self.next_move_uci {
                Some(u) => Some(u@),
                None => None,
            },
        )
    }
}

impl PartialEq for PositionMetadata {
    fn eq(&self, other: &Self) -> (r: bool) {
        let uci_eq = match (&self.next_move_uci, &other.next_move_uci) {
            (Some(a), Some(b)) => *a == *b,
            (None, None) => true,
            _ => false,
        };
        uci_eq && self.fen == other.fen
    }
}

impl vstd::std_specs::cmp::PartialEqSpecImpl for PositionMetadata {
    open spec fn obeys_eq_spec() -> bool {
        true
    }

    open spec fn eq_spec(&self, other: &Self) -> bool {
        self@ == other@
    }
}

/// The mathematical value of a sequence of emitted rows.
pub open spec fn metas_view(v: Seq<PositionMetadata>) -> Seq<(Seq<char>, Option<Seq<char>>)> {
    v.map_values(|m: PositionMetadata| m@)
}

/// Replaying `toks` from the position encoded by `fen`: the emitted rows,
/// or `None` as soon as a token cannot be replayed.
pub open spec fn expand_from(fen: Seq<char>, toks: Seq<Seq<char>>) -> Option<
    Seq<(Seq<char>, Option<Seq<char>>)>,
>
    decreases toks.len(),
{
    if toks.len() == 0 {
        Some(seq![(fen, None::<Seq<char>>)])
    } else {
        match san_step_of(fen, toks[0]) {
            None => None,
            Some(step) => match expand_from(step.1, toks.drop_first()) {
                None => None,
                Some(rest) => Some(seq![(fen, Some(step.0))] + rest),
            },
        }
    }
}

/// What expanding a whole PGN record yields: replay of its mainline SAN
/// tokens from the initial position.
pub open spec fn expansion_of(pgn: Seq<char>) -> Option<Seq<(Seq<char>, Option<Seq<char>>)>> {
    expand_from(initial_fen(), san_tokens_of(pgn))
}

/// A successful replay of `toks` emits one row per token plus the terminal
/// row, whose `next_move_uci` alone is `None`.
pub proof fn lemma_expand_shape(fen: Seq<char>, toks: Seq<Seq<char>>)
    requires
        expand_from(fen, toks) is Some,
    ensures
        expand_from(fen, toks).unwrap().len() == toks.len() + 1,
        forall|k: int|
            0 <= k < toks.len() ==> #[trigger] expand_from(fen, toks).unwrap()[k].1 is Some,
        expand_from(fen, toks).unwrap()[toks.len() as int].1 is None,
        expand_from(fen, toks).unwrap()[0].0 == fen,
    decreases toks.len(),
{
    if toks.len() > 0 {
        let step = san_step_of(fen, toks[0]).unwrap();
        lemma_expand_shape(step.1, toks.drop_first());
    }
}

/// Walks a PGN, ignored tags and all, and replays its mainline moves.
pub struct PositionVisitor {
    pgn: String,
}

impl PositionVisitor {
    pub fn new(pgn: String) -> (r: Self)
        ensures
            r@ == pgn@,
    {
        Self { pgn }
    }

    /// Expands the held PGN; see [`expand_pgn`].
    pub fn expand(&self) -> (r: Result<Vec<PositionMetadata>, InvalidPgnError>)
        ensures
            match r {
                Ok(v) => Some(metas_view(v@)) == expansion_of(self@),
                Err(e) => expansion_of(self@) is None && e.0@ == self@,
            },
    {
        expand_pgn(self.pgn.as_str())
    }
}

impl View for PositionVisitor {
    type V = Seq<char>;

    closed spec fn view(&self) -> Seq<char> {
        self.pgn@
    }
}

/// Collects the characters of a string.
pub fn str_chars(s: &str) -> (r: Vec<char>)
    ensures
        r@ == s@,
{
    let n = s.unicode_len();
    let mut v: Vec<char> = Vec::new();
    let mut i: usize = 0;
    while i < n
        invariant
            i <= n,
            n == s@.len(),
            v@ == s@.take(i as int),
        decreases n - i,
    {
        v.push(s.get_char(i));
        proof {
            assert(v@ =~= s@.take(i as int + 1));
        }
        i = i + 1;
    }
    proof {
        assert(v@ =~= s@);
    }
    v
}

/// Expands a PGN record into its ordered list of `(fen, next_move_uci)`
/// rows: row 0 is the initial position, each following row the position
/// after one more mainline move, and the terminal row alone carries no move.
/// Fails, returning the PGN, iff some mainline SAN token cannot be replayed.
pub fn expand_pgn(pgn: &str) -> (r: Result<Vec<PositionMetadata>, InvalidPgnError>)
    ensures
        match r {
            Ok(v) => Some(metas_view(v@)) == expansion_of(pgn@),
            Err(e) => expansion_of(pgn@) is None && e.0@ == pgn@,
        },
{
    let chars = str_chars(pgn);
    let toks = san_tokens(&chars);
    let ghost all_toks = toks.deep_view();
    let mut rows: Vec<PositionMetadata> = Vec::new();
    let mut fen: String = initial_fen_exec();
    let mut k: usize = 0;
    proof {
        assert(all_toks.skip(0) =~= all_toks);
    }
    while k < toks.len()
        invariant
            k <= toks@.len(),
            all_toks == toks.deep_view(),
            all_toks.len() == toks@.len(),
            forall|j: int| 0 <= j < toks@.len() ==> all_toks[j] == #[trigger] toks@[j]@,
            rows@.len() == k,
            expansion_of(pgn@) == match expand_from(fen@, all_toks.skip(k as int)) {
                None => None::<Seq<(Seq<char>, Option<Seq<char>>)>>,
                Some(rest) => Some(metas_view(rows@) + rest),
            },
        decreases toks@.len() - k,
    {
        let ghost rem = all_toks.skip(k as int);
        proof {
            assert(rem[0] == all_toks[k as int]);
            assert(rem.drop_first() =~= all_toks.skip(k as int + 1));
        }
        match san_step(fen.as_str(), &toks[k]) {
            None => {
                return Err(InvalidPgnError(pgn.to_owned()));
            },
            Some(step) => {
                let (uci, next_fen) = step;
                let row = PositionMetadata { fen: Fen::new_unchecked(fen.as_str()), next_move_uci: Some(uci) };
                let ghost prev_rows = rows@;
                rows.push(row);
                fen = next_fen;
                proof {
                    assert(metas_view(rows@) =~= metas_view(prev_rows).push(row@));
                    let rest = expand_from(fen@, all_toks.skip(k as int + 1));
                    if rest is Some {
                        assert(metas_view(rows@) + rest.unwrap() =~= metas_view(prev_rows) + (seq![
                            (row@.0, row@.1),
                        ] + rest.unwrap()));
                    }
                }
                k = k + 1;
            },
        }
    }
    let terminal = PositionMetadata { fen: Fen::new_unchecked(fen.as_str()), next_move_uci: None };
    let ghost prev_rows = rows@;
    rows.push(terminal);
    proof {
        assert(all_toks.skip(k as int) =~= Seq::<Seq<char>>::empty());
        assert(metas_view(rows@) =~= metas_view(prev_rows).push(terminal@));
        assert(metas_view(rows@) =~= metas_view(prev_rows) + seq![(fen@, None::<Seq<char>>)]);
    }
    Ok(rows)
}

} // verus!
