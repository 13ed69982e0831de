//! The canonical store, modeled relationally: a `game` table, a
//! `game_position` table, and a row-id counter standing for UUID assignment.
//!
//! Persistence is idempotent: the natural key (white, black, finished_at,
//! platform) is the sole dedup barrier. Position rows exist exactly for the
//! games whose PGN replayed successfully, one row per mainline half-move
//! plus a terminal row.

use vstd::prelude::*;

use crate::errors::{GameRepositoryError, PlatformError, StoreGamesError};
use crate::expand::{expand_pgn, expansion_of};
use crate::fen::Fen;
use crate::game::{Color, Game, GameV, MoveStat, MoveStatV, NewGame, NewGameV};
use crate::platform::PlatformName;

verus! {

/// Compares two strings by their characters.
pub fn str_eq(a: &str, b: &str) -> (r: bool)
    ensures
        r == (a@ == b@),
{
    let sa: String = a.to_owned();
    let sb: String = b.to_owned();
    sa == sb
}

/// The natural key of a game row; two rows with equal keys describe the
/// same game and the second one is never inserted.
#[verifier::ext_equal]
pub ghost struct NaturalKey {
    pub white: Seq<char>,
    pub black: Seq<char>,
    pub finished_at: u64,
    pub platform_name: PlatformName,
}

pub open spec fn game_key(g: GameV) -> NaturalKey {
    NaturalKey {
        white: g.white,
        black: g.black,
        finished_at: g.finished_at,
        platform_name: g.platform_name,
    }
}

pub open spec fn new_game_key(n: NewGameV) -> NaturalKey {
    NaturalKey {
        white: n.white,
        black: n.black,
        finished_at: n.finished_at,
        platform_name: n.platform_name,
    }
}

pub open spec fn key_present(gs: Seq<GameV>, k: NaturalKey) -> bool {
    exists|i: int| 0 <= i < gs.len() && game_key(#[trigger] gs[i]) == k
}

/// One row of the `game_position` table. `move_idx` 0 is the initial
/// position; `next_move_uci` is NULL on the terminal position only.
pub struct GamePositionRow {
    pub game_id: u128,
    pub move_idx: usize,
    pub fen: Fen,
    pub next_move_uci: Option<String>,
}

/// Mathematical value of a [`GamePositionRow`].
#[verifier::ext_equal]
pub ghost struct GamePositionRowV {
    pub game_id: u128,
    pub move_idx: int,
    pub fen: Seq<char>,
    pub next_move_uci: Option<Seq<char>>,
}

impl View for GamePositionRow {
    type V = GamePositionRowV;

    open spec fn view(&self) -> GamePositionRowV {
        GamePositionRowV {
            game_id: self.game_id,
            move_idx: self.move_idx as int,
            fen: self.fen@,
            next_move_uci: match self.next_move_uci {
                Some(u) => Some(u@),
                None => None,
            },
        }
    }
}

pub open spec fn games_view(v: Seq<Game>) -> Seq<GameV> {
    v.map_values(|g: Game| g@)
}

pub open spec fn positions_view(v: Seq<GamePositionRow>) -> Seq<GamePositionRowV> {
    v.map_values(|p: GamePositionRow| p@)
}

pub open spec fn new_games_view(v: Seq<NewGame>) -> Seq<NewGameV> {
    v.map_values(|n: NewGame| n@)
}

/// The game row a [`NewGame`] becomes under a fresh id.
pub open spec fn game_of_new(n: NewGameV, id: u128) -> GameV {
    GameV {
        id,
        white: n.white,
        white_elo: n.white_elo,
        black: n.black,
        black_elo: n.black_elo,
        winner: n.winner,
        platform_name: n.platform_name,
        pgn: n.pgn,
        finished_at: n.finished_at,
    }
}

/// Left fold of idempotent insertion: each batch element whose natural key
/// is not yet present is appended under the next fresh id; the rest are
/// skipped. Yields the extended table and the next fresh id.
pub open spec fn insert_games(gs: Seq<GameV>, batch: Seq<NewGameV>, next_id: u128) -> (Seq<
    GameV,
>, u128)
    decreases batch.len(),
{
    if batch.len() == 0 {
        (gs, next_id)
    } else {
        let n = batch[0];
        if key_present(gs, new_game_key(n)) {
            insert_games(gs, batch.drop_first(), next_id)
        } else {
            insert_games(
                gs.push(game_of_new(n, next_id)),
                batch.drop_first(),
                (next_id + 1) as u128,
            )
        }
    }
}

/// The rows a batch adds to the table.
pub open spec fn inserted_games(gs: Seq<GameV>, batch: Seq<NewGameV>, next_id: u128) -> Seq<
    GameV,
> {
    insert_games(gs, batch, next_id).0.skip(gs.len() as int)
}

/// The position rows of one game: its full expansion, indexed from 0, or
/// nothing when the PGN does not replay.
pub open spec fn positions_of_game(g: GameV) -> Seq<GamePositionRowV> {
    match expansion_of(g.pgn) {
        Some(rows) => Seq::new(
            rows.len(),
            |k: int|
                GamePositionRowV {
                    game_id: g.id,
                    move_idx: k,
                    fen: rows[k].0,
                    next_move_uci: rows[k].1,
                },
        ),
        None => Seq::empty(),
    }
}

pub open spec fn positions_of_games(gs: Seq<GameV>) -> Seq<GamePositionRowV>
    decreases gs.len(),
{
    if gs.len() == 0 {
        Seq::empty()
    } else {
        positions_of_game(gs[0]) + positions_of_games(gs.drop_first())
    }
}

/// Mathematical value of the whole store.
#[verifier::ext_equal]
pub ghost struct GameStoreV {
    pub games: Seq<GameV>,
    pub positions: Seq<GamePositionRowV>,
    pub next_id: u128,
}

/// What one idempotent bulk load does to the store: the batch is folded
/// into the game table, and the position table grows by the expansions of
/// exactly the newly inserted games.
pub open spec fn store_after_batch(s: GameStoreV, batch: Seq<NewGameV>) -> GameStoreV {
    GameStoreV {
        games: insert_games(s.games, batch, s.next_id).0,
        positions: s.positions + positions_of_games(inserted_games(s.games, batch, s.next_id)),
        next_id: insert_games(s.games, batch, s.next_id).1,
    }
}

/// Well-formedness of the store: distinct row ids below the id counter,
/// distinct natural keys, and a position table that is exactly the
/// concatenated expansions of the game table.
pub open spec fn store_inv(s: GameStoreV) -> bool {
    &&& forall|i: int, j: int|
        0 <= i < j < s.games.len() ==> (#[trigger] s.games[i]).id != (#[trigger] s.games[j]).id
    &&& forall|i: int, j: int|
        0 <= i < j < s.games.len() ==> game_key(#[trigger] s.games[i]) != game_key(
            #[trigger] s.games[j],
        )
    &&& forall|i: int| 0 <= i < s.games.len() ==> (#[trigger] s.games[i]).id < s.next_id
    &&& s.positions == positions_of_games(s.games)
}

/// The insert shape of the normalized variant's `position` table, which
/// keys distinct board encodings by surrogate id. The denormalized variant
/// served here carries the encoding on each `game_position` row instead.
pub struct NewPositionDto {
    pub fen: String,
}

/// The in-memory canonical store.
pub struct GameStore {
    games: Vec<Game>,
    positions: Vec<GamePositionRow>,
    next_id: u128,
}

impl View for GameStore {
    type V = GameStoreV;

    closed spec fn view(&self) -> GameStoreV {
        GameStoreV {
            games: games_view(self.games@),
            positions: positions_view(self.positions@),
            next_id: self.next_id,
        }
    }
}

proof fn lemma_insert_games_extends(gs: Seq<GameV>, batch: Seq<NewGameV>, next_id: u128)
    ensures
        insert_games(gs, batch, next_id).0.len() >= gs.len(),
        insert_games(gs, batch, next_id).0.take(gs.len() as int) == gs,
    decreases batch.len(),
{
    if batch.len() > 0 {
        let n = batch[0];
        if key_present(gs, new_game_key(n)) {
            lemma_insert_games_extends(gs, batch.drop_first(), next_id);
        } else {
            let gs2 = gs.push(game_of_new(n, next_id));
            lemma_insert_games_extends(gs2, batch.drop_first(), (next_id + 1) as u128);
            assert(insert_games(gs, batch, next_id).0.take(gs.len() as int) =~= gs2.take(
                gs.len() as int,
            ));
            assert(gs2.take(gs.len() as int) =~= gs);
        }
    }
}

impl GameStore {
    /// An empty store; ids start at 1.
    pub fn new() -> (r: Self)
        ensures
            r@ == (GameStoreV {
                games: Seq::<GameV>::empty(),
                positions: Seq::<GamePositionRowV>::empty(),
                next_id: 1,
            }),
            store_inv(r@),
    {
        let r = GameStore { games: Vec::new(), positions: Vec::new(), next_id: 1 };
        proof {
            assert(games_view(r.games@) =~= Seq::<GameV>::empty());
            assert(positions_view(r.positions@) =~= Seq::<GamePositionRowV>::empty());
            assert(positions_of_games(Seq::<GameV>::empty()) =~= Seq::<GamePositionRowV>::empty());
        }
        r
    }

    /// Count of game rows.
    pub fn game_count(&self) -> (r: usize)
        ensures
            r == self@.games.len(),
    {
        self.games.len()
    }

    /// Count of position rows.
    pub fn position_count(&self) -> (r: usize)
        ensures
            r == self@.positions.len(),
    {
        self.positions.len()
    }

    /// The game table, for inspection.
    pub fn games(&self) -> (r: &Vec<Game>)
        ensures
            games_view(r@) == self@.games,
    {
        &self.games
    }

    /// The position table, for inspection.
    pub fn positions(&self) -> (r: &Vec<GamePositionRow>)
        ensures
            positions_view(r@) == self@.positions,
    {
        &self.positions
    }

    fn key_present_exec(&self, n: &NewGame) -> (r: bool)
        ensures
            r == key_present(self@.games, new_game_key(n@)),
    {
        let mut i: usize = 0;
        while i < self.games.len()
            invariant
                i <= self.games@.len(),
                forall|t: int|
                    0 <= t < i ==> game_key(#[trigger] games_view(self.games@)[t])
                        != new_game_key(n@),
            decreases self.games@.len() - i,
        {
            let g = &self.games[i];
            if str_eq(g.white().as_str(), n.white().as_str()) && str_eq(
                g.black().as_str(),
                n.black().as_str(),
            ) && *g.finished_at() == *n.finished_at() && *g.platform_name() == *n.platform_name() {
                proof {
                    assert(game_key(games_view(self.games@)[i as int]) =~= new_game_key(n@));
                }
                return true;
            }
            proof {
                assert(game_key(games_view(self.games@)[i as int]) != new_game_key(n@));
            }
            i = i + 1;
        }
        false
    }

    /// The bulk-load pipeline on one coalesced batch: stage the games,
    /// promote the ones whose natural key is new, expand exactly those, and
    /// append their position rows. Returns the ids of the newly stored
    /// games, in insertion order.
    pub fn save_games_distributed(&mut self, new_games: &Vec<NewGame>) -> (ids: Vec<u128>)
        requires
            store_inv(old(self)@),
            old(self)@.next_id + new_games@.len() <= u128::MAX,
        ensures
            store_inv(final(self)@),
            final(self)@ == store_after_batch(old(self)@, new_games_view(new_games@)),
            ids@ == inserted_games(
                old(self)@.games,
                new_games_view(new_games@),
                old(self)@.next_id,
            ).map_values(|g: GameV| g.id),
    {
        let ghost gs0 = self@.games;
        let ghost id0 = self@.next_id;
        let ghost pos0 = self@.positions;
        let ghost batch_v = new_games_view(new_games@);
        let orig_len = self.games.len();
        let mut ids: Vec<u128> = Vec::new();

        // Stage A/B: fold the batch into the game table, skipping rows whose
        // natural key is already present.
        let mut i: usize = 0;
        proof {
            assert(batch_v.skip(0) =~= batch_v);
        }
        while i < new_games.len()
            invariant
                i <= new_games@.len(),
                batch_v == new_games_view(new_games@),
                batch_v.len() == new_games@.len(),
                forall|t: int| 0 <= t < new_games@.len() ==> batch_v[t] == #[trigger] new_games@[t]@,
                insert_games(self@.games, batch_v.skip(i as int), self@.next_id) == insert_games(
                    gs0,
                    batch_v,
                    id0,
                ),
                self@.games.len() >= orig_len == gs0.len(),
                self@.games.take(orig_len as int) == gs0,
                self@.next_id >= id0,
                self@.next_id + (new_games@.len() - i) <= u128::MAX,
                self@.next_id - id0 == self@.games.len() - gs0.len(),
                ids@ == self@.games.skip(orig_len as int).map_values(|g: GameV| g.id),
                forall|i2: int, j2: int|
                    0 <= i2 < j2 < self@.games.len() ==> (#[trigger] self@.games[i2]).id != (
                    #[trigger] self@.games[j2]).id,
                forall|i2: int, j2: int|
                    0 <= i2 < j2 < self@.games.len() ==> game_key(#[trigger] self@.games[i2])
                        != game_key(#[trigger] self@.games[j2]),
                forall|i2: int|
                    0 <= i2 < self@.games.len() ==> (#[trigger] self@.games[i2]).id < self@.next_id,
                self@.positions == pos0,
            decreases new_games@.len() - i,
        {
            let ghost games_before = self@.games;
            let ghost rem = batch_v.skip(i as int);
            proof {
                assert(rem[0] == batch_v[i as int]);
                assert(rem.drop_first() =~= batch_v.skip(i as int + 1));
            }
            let n = &new_games[i];
            if !self.key_present_exec(n) {
                let winner = match n.winner() {
                    Some(c) => Some(*c),
                    None => None,
                };
                let g = Game::new(
                    self.next_id,
                    n.white().clone(),
                    *n.white_elo(),
                    n.black().clone(),
                    *n.black_elo(),
                    winner,
                    *n.platform_name(),
                    n.pgn().clone(),
                    *n.finished_at(),
                );
                proof {
                    assert(g@ =~= game_of_new(n@, self.next_id));
                }
                let ghost prev_ids = ids@;
                ids.push(self.next_id);
                self.games.push(g);
                self.next_id = self.next_id + 1;
                proof {
                    assert(games_view(self.games@) =~= games_before.push(
                        game_of_new(batch_v[i as int], (self@.next_id - 1) as u128),
                    ));
                    assert(self@.games.take(orig_len as int) =~= games_before.take(
                        orig_len as int,
                    ));
                    assert(ids@ =~= self@.games.skip(orig_len as int).map_values(
                        |g2: GameV| g2.id,
                    ));
                }
            }
            i = i + 1;
        }
        proof {
            assert(batch_v.skip(i as int) =~= Seq::<NewGameV>::empty());
            assert(insert_games(gs0, batch_v, id0).0 == self@.games);
            assert(insert_games(gs0, batch_v, id0).1 == self@.next_id);
            assert(inserted_games(gs0, batch_v, id0) == self@.games.skip(orig_len as int));
        }

        // Stage C/D: expand the newly inserted games and append their rows.
        let ghost games_after = self@.games;
        let ghost id_after = self@.next_id;
        let ghost inserted = games_after.skip(orig_len as int);
        let mut j: usize = orig_len;
        proof {
            assert(games_after.skip(j as int) =~= inserted);
        }
        while j < self.games.len()
            invariant
                orig_len <= j <= self@.games.len(),
                self@.games == games_after,
                self@.next_id == id_after,
                pos0 + positions_of_games(inserted) == self@.positions + positions_of_games(
                    games_after.skip(j as int),
                ),
                ids@ == inserted.map_values(|g: GameV| g.id),
            decreases self@.games.len() - j,
        {
            let ghost rem = games_after.skip(j as int);
            proof {
                assert(rem[0] == games_after[j as int]);
                assert(rem.drop_first() =~= games_after.skip(j as int + 1));
            }
            let gid = *self.games[j].id();
            let expansion = expand_pgn(self.games[j].pgn().as_str());
            let ghost g_v = games_after[j as int];
            match expansion {
                Ok(mut rows) => {
                    let ghost full = expansion_of(g_v.pgn).unwrap();
                    let ghost pos_before = self@.positions;
                    let mut k: usize = 0;
                    proof {
                        assert(positions_of_game(g_v).len() == full.len());
                    }
                    let total = rows.len();
                    while k < total
                        invariant
                            k <= total,
                            total - k == rows@.len(),
                            self@.games == games_after,
                            self@.next_id == id_after,
                            gid == g_v.id,
                            expansion_of(g_v.pgn) == Some(full),
                            positions_of_game(g_v).len() == full.len() == total,
                            crate::expand::metas_view(rows@) =~= full.skip(k as int),
                            self@.positions == pos_before + positions_of_game(g_v).take(k as int),
                        decreases total - k,
                    {
                        let ghost rows_before = rows@;
                        let m = rows.remove(0);
                        proof {
                            assert(crate::expand::metas_view(rows@) =~= crate::expand::metas_view(
                                rows_before,
                            ).drop_first());
                            assert(crate::expand::metas_view(rows_before)[0] == m@);
                            assert(full.skip(k as int).drop_first() =~= full.skip(k as int + 1));
                            assert(full[k as int] == m@);
                        }
                        let ghost pos_mid = self@.positions;
                        self.positions.push(
                            GamePositionRow {
                                game_id: gid,
                                move_idx: k,
                                fen: m.fen,
                                next_move_uci: m.next_move_uci,
                            },
                        );
                        proof {
                            assert(positions_view(self.positions@) =~= pos_mid.push(
                                GamePositionRowV {
                                    game_id: gid,
                                    move_idx: k as int,
                                    fen: m@.0,
                                    next_move_uci: m@.1,
                                },
                            ));
                            assert(positions_of_game(g_v)[k as int] == (GamePositionRowV {
                                game_id: gid,
                                move_idx: k as int,
                                fen: full[k as int].0,
                                next_move_uci: full[k as int].1,
                            }));
                            assert(self@.positions =~= pos_before + positions_of_game(g_v).take(
                                k as int + 1,
                            ));
                        }
                        k = k + 1;
                    }
                    proof {
                        assert(positions_of_game(g_v).take(k as int) =~= positions_of_game(g_v));
                        assert(pos0 + positions_of_games(inserted) =~= self@.positions
                            + positions_of_games(games_after.skip(j as int + 1)));
                    }
                },
                Err(_) => {
                    proof {
                        assert(positions_of_game(g_v) =~= Seq::<GamePositionRowV>::empty());
                        assert(positions_of_game(g_v) + positions_of_games(
                            games_after.skip(j as int + 1),
                        ) =~= positions_of_games(games_after.skip(j as int + 1)));
                    }
                },
            }
            j = j + 1;
        }
        proof {
            assert(games_after.skip(j as int) =~= Seq::<GameV>::empty());
            assert(positions_of_games(games_after.skip(j as int)) =~= Seq::<
                GamePositionRowV,
            >::empty());
            assert(self@.positions =~= pos0 + positions_of_games(inserted));
            assert(self@ =~= store_after_batch(
                GameStoreV { games: gs0, positions: pos0, next_id: id0 },
                batch_v,
            ));
            // the position-table part of the invariant
            lemma_positions_of_games_concat(gs0, inserted);
            assert(games_after =~= gs0 + inserted);
        }
        ids
    }
}

/// Games carried by the `Ok` batches of a stream.
pub open spec fn total_games(bs: Seq<Result<Vec<NewGame>, PlatformError>>) -> int
    decreases bs.len(),
{
    if bs.len() == 0 {
        0
    } else {
        (match bs[0] {
            Ok(b) => b@.len() as int,
            Err(_) => 0,
        }) + total_games(bs.drop_first())
    }
}

/// Index of the first error item of a stream, or its length.
pub open spec fn first_err(bs: Seq<Result<Vec<NewGame>, PlatformError>>) -> int
    decreases bs.len(),
{
    if bs.len() == 0 {
        0
    } else if bs[0] is Err {
        0
    } else {
        1 + first_err(bs.drop_first())
    }
}

proof fn lemma_total_games_nonneg(bs: Seq<Result<Vec<NewGame>, PlatformError>>)
    ensures
        total_games(bs) >= 0,
    decreases bs.len(),
{
    if bs.len() > 0 {
        lemma_total_games_nonneg(bs.drop_first());
    }
}

proof fn lemma_first_err_bounds(bs: Seq<Result<Vec<NewGame>, PlatformError>>)
    ensures
        0 <= first_err(bs) <= bs.len(),
    decreases bs.len(),
{
    if bs.len() > 0 && !(bs[0] is Err) {
        lemma_first_err_bounds(bs.drop_first());
    }
}

/// What draining a batch stream does to the store: batches are folded in
/// order until the first error item, which aborts the run.
pub open spec fn store_after_stream(
    s: GameStoreV,
    bs: Seq<Result<Vec<NewGame>, PlatformError>>,
) -> GameStoreV
    decreases bs.len(),
{
    if bs.len() == 0 {
        s
    } else {
        match bs[0] {
            Ok(batch) => store_after_stream(
                store_after_batch(s, new_games_view(batch@)),
                bs.drop_first(),
            ),
            Err(_) => s,
        }
    }
}

proof fn lemma_insert_games_id_growth(gs: Seq<GameV>, batch: Seq<NewGameV>, next_id: u128)
    requires
        next_id + batch.len() <= u128::MAX,
    ensures
        next_id <= insert_games(gs, batch, next_id).1 <= next_id + batch.len(),
    decreases batch.len(),
{
    if batch.len() > 0 {
        let n = batch[0];
        if key_present(gs, new_game_key(n)) {
            lemma_insert_games_id_growth(gs, batch.drop_first(), next_id);
        } else {
            lemma_insert_games_id_growth(
                gs.push(game_of_new(n, next_id)),
                batch.drop_first(),
                (next_id + 1) as u128,
            );
        }
    }
}

pub open spec fn game_matches_user(g: GameV, platform: PlatformName, user: Seq<char>) -> bool {
    g.platform_name == platform && (g.white == user || g.black == user)
}

/// The high-water mark: greatest `finished_at` over the user's rows on the
/// platform, `None` when there are none.
pub open spec fn latest_timestamp(gs: Seq<GameV>, platform: PlatformName, user: Seq<char>) -> Option<
    u64,
>
    decreases gs.len(),
{
    if gs.len() == 0 {
        None
    } else {
        let rest = latest_timestamp(gs.drop_last(), platform, user);
        let g = gs.last();
        if game_matches_user(g, platform, user) {
            match rest {
                None => Some(g.finished_at),
                Some(m) => Some(
                    if m >= g.finished_at {
                        m
                    } else {
                        g.finished_at
                    },
                ),
            }
        } else {
            rest
        }
    }
}

/// The high-water mark is the maximum over matching rows, or absent when no
/// row matches.
pub proof fn lemma_latest_timestamp_is_max(gs: Seq<GameV>, platform: PlatformName, user: Seq<char>)
    ensures
        match latest_timestamp(gs, platform, user) {
            None => forall|i: int|
                0 <= i < gs.len() ==> !game_matches_user(#[trigger] gs[i], platform, user),
            Some(m) => (exists|i: int|
                0 <= i < gs.len() && game_matches_user(#[trigger] gs[i], platform, user)
                    && gs[i].finished_at == m) && (forall|i: int|
                0 <= i < gs.len() && game_matches_user(#[trigger] gs[i], platform, user)
                    ==> gs[i].finished_at <= m),
        },
    decreases gs.len(),
{
    if gs.len() > 0 {
        let prefix = gs.drop_last();
        let g = gs.last();
        lemma_latest_timestamp_is_max(prefix, platform, user);
        assert(prefix.len() == gs.len() - 1);
        assert(forall|i: int| 0 <= i < prefix.len() ==> prefix[i] == #[trigger] gs[i]);
        assert(gs[gs.len() - 1] == g);
        match latest_timestamp(prefix, platform, user) {
            None => {
                if game_matches_user(g, platform, user) {
                    assert(latest_timestamp(gs, platform, user) == Some(g.finished_at));
                }
            },
            Some(m0) => {
                let wit = choose|i: int|
                    0 <= i < prefix.len() && game_matches_user(#[trigger] prefix[i], platform, user)
                        && prefix[i].finished_at == m0;
                if game_matches_user(g, platform, user) {
                    if m0 >= g.finished_at {
                        assert(game_matches_user(gs[wit], platform, user) && gs[wit].finished_at
                            == m0);
                    } else {
                        assert(game_matches_user(gs[gs.len() - 1], platform, user));
                    }
                } else {
                    assert(game_matches_user(gs[wit], platform, user) && gs[wit].finished_at == m0);
                }
            },
        }
    }
}

impl GameStore {
    /// Drains a batch stream into the store, one idempotent bulk load per
    /// `Ok` batch, in order. Returns how many batches were consumed — the
    /// number of progress ticks such a run emits — and fails with the first
    /// error item, consuming nothing after it.
    pub fn store_games(
        &mut self,
        batches: Vec<Result<Vec<NewGame>, PlatformError>>,
    ) -> (r: (Result<(), StoreGamesError>, usize))
        requires
            store_inv(old(self)@),
            old(self)@.next_id + total_games(batches@) <= u128::MAX,
        ensures
            store_inv(final(self)@),
            final(self)@ == store_after_stream(old(self)@, batches@),
            first_err(batches@) == batches@.len() ==> r.0 is Ok && r.1 == batches@.len(),
            first_err(batches@) < batches@.len() ==> r.1 == first_err(batches@) && (batches@[
                first_err(batches@)
            ] matches Err(e) && r.0 == Err::<(), StoreGamesError>(
                StoreGamesError::PlatformError(e),
            )),
    {
        let ghost bs0 = batches@;
        let ghost s0 = old(self)@;
        let mut pending = batches;
        let n0 = pending.len();
        let mut ticks: usize = 0;
        proof {
            assert(bs0.skip(0) =~= bs0);
            lemma_first_err_bounds(bs0);
        }
        #[verifier::loop_isolation(false)]
        while pending.len() > 0
            invariant
                store_inv(self@),
                bs0.len() == n0,
                ticks <= n0,
                pending@.len() == bs0.len() - ticks,
                pending@ == bs0.skip(ticks as int),
                first_err(bs0) >= ticks,
                self@.next_id + total_games(pending@) <= u128::MAX,
                store_after_stream(self@, pending@) == store_after_stream(s0, bs0),
                first_err(bs0) - ticks == first_err(pending@),
            decreases pending@.len(),
        {
            let ghost rem = pending@;
            proof {
                assert(rem.drop_first() =~= bs0.skip(ticks as int + 1));
                assert(rem[0] == bs0[ticks as int]);
                lemma_total_games_nonneg(rem.drop_first());
            }
            let b = pending.remove(0);
            match b {
                Ok(batch) => {
                    proof {
                        lemma_first_err_bounds(rem.drop_first());
                        assert(total_games(rem) == batch@.len() + total_games(rem.drop_first()));
                        lemma_insert_games_id_growth(
                            self@.games,
                            new_games_view(batch@),
                            self@.next_id,
                        );
                    }
                    let _ids = self.save_games_distributed(&batch);
                    ticks = ticks + 1;
                },
                Err(e) => {
                    proof {
                        assert(rem[0] is Err);
                        assert(store_after_stream(self@, rem) == self@);
                        assert(first_err(rem) == 0);
                        assert(first_err(bs0) == ticks);
                        assert(ticks < n0);
                    }
                    return (Err(StoreGamesError::PlatformError(e)), ticks);
                },
            }
        }
        proof {
            assert(pending@ =~= Seq::<Result<Vec<NewGame>, PlatformError>>::empty());
        }
        (Ok(()), ticks)
    }

    /// Maximum `finished_at` over games where the user played either side on
    /// the platform. A persistence failure cannot arise in this store, so
    /// the result is always `Ok`.
    pub fn get_latest_game_timestamp_seconds(
        &self,
        platform_name: &PlatformName,
        username: &str,
    ) -> (r: Result<Option<u64>, GameRepositoryError>)
        ensures
            r == Ok::<Option<u64>, GameRepositoryError>(
                latest_timestamp(self@.games, *platform_name, username@),
            ),
    {
        let mut acc: Option<u64> = None;
        let mut i: usize = 0;
        proof {
            assert(self@.games.take(0) =~= Seq::<GameV>::empty());
        }
        while i < self.games.len()
            invariant
                i <= self@.games.len(),
                self@.games.len() == self.games@.len(),
                acc == latest_timestamp(self@.games.take(i as int), *platform_name, username@),
            decreases self@.games.len() - i,
        {
            proof {
                assert(self@.games.take(i as int + 1).drop_last() =~= self@.games.take(i as int));
                assert(self@.games.take(i as int + 1).last() == self@.games[i as int]);
            }
            let g = &self.games[i];
            if *g.platform_name() == *platform_name && (str_eq(g.white().as_str(), username)
                || str_eq(g.black().as_str(), username)) {
                let fin = *g.finished_at();
                acc = match acc {
                    None => Some(fin),
                    Some(m) => Some(
                        if m >= fin {
                            m
                        } else {
                            fin
                        },
                    ),
                };
            }
            i = i + 1;
        }
        proof {
            assert(self@.games.take(i as int) =~= self@.games);
        }
        Ok(acc)
    }
}

proof fn lemma_latest_timestamp_push(gs: Seq<GameV>, g: GameV, platform: PlatformName, user: Seq<char>)
    ensures
        match latest_timestamp(gs, platform, user) {
            None => true,
            Some(m) => latest_timestamp(gs.push(g), platform, user) matches Some(m2) && m2 >= m,
        },
{
    assert(gs.push(g).drop_last() =~= gs);
    assert(gs.push(g).last() == g);
}

proof fn lemma_latest_timestamp_extend(gs: Seq<GameV>, ext: Seq<GameV>, platform: PlatformName, user: Seq<char>)
    ensures
        match latest_timestamp(gs, platform, user) {
            None => true,
            Some(m) => latest_timestamp(gs + ext, platform, user) matches Some(m2) && m2 >= m,
        },
    decreases ext.len(),
{
    if ext.len() == 0 {
        assert(gs + ext =~= gs);
    } else {
        lemma_latest_timestamp_extend(gs, ext.drop_last(), platform, user);
        lemma_latest_timestamp_push(gs + ext.drop_last(), ext.last(), platform, user);
        assert((gs + ext.drop_last()).push(ext.last()) =~= gs + ext);
    }
}

/// The per-(platform, user) high-water mark is monotonically non-decreasing
/// under ingests: a bulk load only ever appends game rows.
pub proof fn lemma_high_water_mark_monotone(
    s: GameStoreV,
    batch: Seq<NewGameV>,
    platform: PlatformName,
    user: Seq<char>,
)
    ensures
        match latest_timestamp(s.games, platform, user) {
            None => true,
            Some(m) => latest_timestamp(store_after_batch(s, batch).games, platform, user) matches Some(m2)
                && m2 >= m,
        },
{
    lemma_insert_games_extends(s.games, batch, s.next_id);
    let gs2 = store_after_batch(s, batch).games;
    assert(gs2 =~= s.games + gs2.skip(s.games.len() as int));
    lemma_latest_timestamp_extend(s.games, gs2.skip(s.games.len() as int), platform, user);
}

/// The filter of the aggregation query.
#[verifier::ext_equal]
pub ghost struct StatQuery {
    pub fen: Seq<char>,
    pub user: Seq<char>,
    pub play_as: Color,
    pub platform: PlatformName,
    pub from: Option<i64>,
    pub to: Option<i64>,
}

pub open spec fn time_in_window(fin: u64, from: Option<i64>, to: Option<i64>) -> bool {
    &&& match from {
        Some(f) => fin as int >= f as int,
        None => true,
    }
    &&& match to {
        Some(t) => fin as int <= t as int,
        None => true,
    }
}

/// Whether a game satisfies the query's filter predicate: right platform,
/// the queried user on the queried side, finish instant inside the window.
pub open spec fn game_matches_query(g: GameV, q: StatQuery) -> bool {
    &&& g.platform_name == q.platform
    &&& match q.play_as {
        Color::White => g.white == q.user,
        Color::Black => g.black == q.user,
    }
    &&& time_in_window(g.finished_at, q.from, q.to)
}

/// The first row of the game table with the given id (rows have distinct
/// ids under the store invariant, so it is the row).
pub open spec fn game_by_id(gs: Seq<GameV>, id: u128) -> Option<GameV>
    decreases gs.len(),
{
    if gs.len() == 0 {
        None
    } else if gs[0].id == id {
        Some(gs[0])
    } else {
        game_by_id(gs.drop_first(), id)
    }
}

/// Whether a position row enters the aggregation: the queried encoding, a
/// reply present, and a matching owning game.
pub open spec fn row_matches(gs: Seq<GameV>, p: GamePositionRowV, q: StatQuery) -> bool {
    &&& p.fen == q.fen
    &&& p.next_move_uci is Some
    &&& match game_by_id(gs, p.game_id) {
        Some(g) => game_matches_query(g, q),
        None => false,
    }
}

/// Whether a position row falls into the group of one reply move.
pub open spec fn row_counts(gs: Seq<GameV>, p: GamePositionRowV, q: StatQuery, uci: Seq<char>) -> bool {
    row_matches(gs, p, q) && p.next_move_uci == Some(uci)
}

pub open spec fn row_game(gs: Seq<GameV>, p: GamePositionRowV) -> GameV {
    game_by_id(gs, p.game_id).unwrap()
}

/// The opponent's rating: black's when the user played white, else white's.
pub open spec fn opp_elo(g: GameV, play_as: Color) -> int {
    match play_as {
        Color::White => g.black_elo as int,
        Color::Black => g.white_elo as int,
    }
}

pub open spec fn stat_total(gs: Seq<GameV>, ps: Seq<GamePositionRowV>, q: StatQuery, uci: Seq<char>) -> int
    decreases ps.len(),
{
    if ps.len() == 0 {
        0
    } else {
        stat_total(gs, ps.drop_last(), q, uci) + if row_counts(gs, ps.last(), q, uci) {
            1int
        } else {
            0int
        }
    }
}

pub open spec fn stat_wins(gs: Seq<GameV>, ps: Seq<GamePositionRowV>, q: StatQuery, uci: Seq<char>) -> int
    decreases ps.len(),
{
    if ps.len() == 0 {
        0
    } else {
        stat_wins(gs, ps.drop_last(), q, uci) + if row_counts(gs, ps.last(), q, uci) && row_game(
            gs,
            ps.last(),
        ).winner == Some(q.play_as) {
            1int
        } else {
            0int
        }
    }
}

pub open spec fn stat_draws(gs: Seq<GameV>, ps: Seq<GamePositionRowV>, q: StatQuery, uci: Seq<char>) -> int
    decreases ps.len(),
{
    if ps.len() == 0 {
        0
    } else {
        stat_draws(gs, ps.drop_last(), q, uci) + if row_counts(gs, ps.last(), q, uci) && row_game(
            gs,
            ps.last(),
        ).winner is None {
            1int
        } else {
            0int
        }
    }
}

pub open spec fn stat_elo_sum(gs: Seq<GameV>, ps: Seq<GamePositionRowV>, q: StatQuery, uci: Seq<char>) -> int
    decreases ps.len(),
{
    if ps.len() == 0 {
        0
    } else {
        stat_elo_sum(gs, ps.drop_last(), q, uci) + if row_counts(gs, ps.last(), q, uci) {
            opp_elo(row_game(gs, ps.last()), q.play_as)
        } else {
            0
        }
    }
}

pub open spec fn stat_last(gs: Seq<GameV>, ps: Seq<GamePositionRowV>, q: StatQuery, uci: Seq<char>) -> u64
    decreases ps.len(),
{
    if ps.len() == 0 {
        0
    } else {
        let rest = stat_last(gs, ps.drop_last(), q, uci);
        if row_counts(gs, ps.last(), q, uci) {
            let fin = row_game(gs, ps.last()).finished_at;
            if fin >= rest {
                fin
            } else {
                rest
            }
        } else {
            rest
        }
    }
}

/// Wins and draws count disjoint subsets of a group's rows; the group is no
/// larger than the table; the rating sum is bounded by the group size.
pub proof fn lemma_stat_bounds(gs: Seq<GameV>, ps: Seq<GamePositionRowV>, q: StatQuery, uci: Seq<char>)
    ensures
        0 <= stat_wins(gs, ps, q, uci),
        0 <= stat_draws(gs, ps, q, uci),
        stat_wins(gs, ps, q, uci) + stat_draws(gs, ps, q, uci) <= stat_total(gs, ps, q, uci),
        stat_total(gs, ps, q, uci) <= ps.len(),
        -32768 * stat_total(gs, ps, q, uci) <= stat_elo_sum(gs, ps, q, uci) <= 32767 * stat_total(
            gs,
            ps,
            q,
            uci,
        ),
        stat_total(gs, ps, q, uci) == 0 ==> stat_last(gs, ps, q, uci) == 0,
    decreases ps.len(),
{
    if ps.len() > 0 {
        lemma_stat_bounds(gs, ps.drop_last(), q, uci);
    }
}

/// A non-empty group has a contributing row.
proof fn lemma_stat_total_positive(gs: Seq<GameV>, ps: Seq<GamePositionRowV>, q: StatQuery, uci: Seq<char>)
    requires
        stat_total(gs, ps, q, uci) > 0,
    ensures
        exists|t: int| 0 <= t < ps.len() && row_counts(gs, #[trigger] ps[t], q, uci),
    decreases ps.len(),
{
    if ps.len() > 0 {
        if row_counts(gs, ps.last(), q, uci) {
            assert(ps[ps.len() - 1] == ps.last());
        } else {
            lemma_stat_total_positive(gs, ps.drop_last(), q, uci);
            let t = choose|t: int|
                0 <= t < ps.drop_last().len() && row_counts(gs, #[trigger] ps.drop_last()[t], q, uci);
            assert(ps.drop_last()[t] == ps[t]);
        }
    }
}

/// Round-half-up division of a non-negative value.
pub open spec fn round_half_up(n: int, d: int) -> int {
    (2 * n + d) / (2 * d)
}

/// The average rating, rounded half away from zero, as the relational
/// store's numeric-to-integer cast rounds.
pub open spec fn stat_avg(sum: int, total: int) -> int {
    if sum >= 0 {
        round_half_up(sum, total)
    } else {
        -round_half_up(-sum, total)
    }
}

/// The rounded average, wrapped into the unsigned 16-bit column the way a
/// two's-complement narrowing cast wraps it.
pub open spec fn stat_avg_u16(sum: int, total: int) -> u16 {
    let a = stat_avg(sum, total);
    if 0 <= a < 65536 {
        a as u16
    } else if -65536 <= a < 0 {
        (a + 65536) as u16
    } else {
        0
    }
}

/// One returned row, against the whole store.
pub open spec fn stat_entry_correct(
    gs: Seq<GameV>,
    ps: Seq<GamePositionRowV>,
    q: StatQuery,
    m: MoveStatV,
) -> bool {
    &&& m.total == stat_total(gs, ps, q, m.move_uci)
    &&& m.total > 0
    &&& m.wins == stat_wins(gs, ps, q, m.move_uci)
    &&& m.draws == stat_draws(gs, ps, q, m.move_uci)
    &&& m.wins + m.draws <= m.total
    &&& m.avg_opponent_elo == stat_avg_u16(
        stat_elo_sum(gs, ps, q, m.move_uci),
        stat_total(gs, ps, q, m.move_uci),
    )
    &&& m.last_played_at == stat_last(gs, ps, q, m.move_uci)
}

/// The whole result of the aggregation: one row per reply move that occurs
/// in some matching position row, each with exact counts, and no two rows
/// for the same move.
pub open spec fn stats_correct(
    gs: Seq<GameV>,
    ps: Seq<GamePositionRowV>,
    q: StatQuery,
    out: Seq<MoveStatV>,
) -> bool {
    &&& forall|k1: int, k2: int|
        0 <= k1 < k2 < out.len() ==> (#[trigger] out[k1]).move_uci != (#[trigger] out[k2]).move_uci
    &&& forall|k: int| 0 <= k < out.len() ==> stat_entry_correct(gs, ps, q, #[trigger] out[k])
    &&& forall|t: int|
        0 <= t < ps.len() && row_matches(gs, #[trigger] ps[t], q) ==> exists|k: int|
            0 <= k < out.len() && (#[trigger] out[k]).move_uci == ps[t].next_move_uci.unwrap()
}

proof fn lemma_positions_of_games_concat(a: Seq<GameV>, b: Seq<GameV>)
    ensures
        positions_of_games(a + b) == positions_of_games(a) + positions_of_games(b),
    decreases a.len(),
{
    if a.len() == 0 {
        assert(a + b =~= b);
        assert(positions_of_games(a) =~= Seq::<GamePositionRowV>::empty());
        assert(positions_of_games(a) + positions_of_games(b) =~= positions_of_games(b));
    } else {
        lemma_positions_of_games_concat(a.drop_first(), b);
        assert((a + b).drop_first() =~= a.drop_first() + b);
        assert((a + b)[0] == a[0]);
        assert(positions_of_game(a[0]) + (positions_of_games(a.drop_first()) + positions_of_games(
            b,
        )) =~= (positions_of_game(a[0]) + positions_of_games(a.drop_first())) + positions_of_games(
            b,
        ));
    }
}


/// A running group while the position table is scanned.
struct StatAcc {
    uci: String,
    total: u64,
    wins: u64,
    draws: u64,
    elo_sum: i128,
    last: u64,
}

fn find_game(games: &Vec<Game>, id: u128) -> (r: Option<usize>)
    ensures
        match r {
            Some(gi) => gi < games@.len() && game_by_id(games_view(games@), id) == Some(
                games_view(games@)[gi as int],
            ),
            None => game_by_id(games_view(games@), id) is None,
        },
{
    let ghost gsv = games_view(games@);
    let mut i: usize = 0;
    proof {
        assert(gsv.skip(0) =~= gsv);
    }
    #[verifier::loop_isolation(false)]
    while i < games.len()
        invariant
            i <= gsv.len(),
            game_by_id(gsv, id) == game_by_id(gsv.skip(i as int), id),
        decreases gsv.len() - i,
    {
        let ghost rem = gsv.skip(i as int);
        proof {
            assert(rem[0] == gsv[i as int]);
            assert(rem.drop_first() =~= gsv.skip(i as int + 1));
        }
        if *games[i].id() == id {
            return Some(i);
        }
        i = i + 1;
    }
    proof {
        assert(gsv.skip(i as int) =~= Seq::<GameV>::empty());
    }
    None
}

impl GameStore {
    /// Per-reply statistics for one position: over all position rows with
    /// the queried encoding whose reply is present and whose game matches
    /// the filter, grouped by the reply move. This store cannot fail, so
    /// the result is always `Ok`.
    pub fn get_move_stats(
        &self,
        position_fen: &Fen,
        username: &str,
        play_as: &Color,
        platform_name: &PlatformName,
        from_timestamp: Option<i64>,
        to_timestamp: Option<i64>,
    ) -> (r: Result<Vec<MoveStat>, GameRepositoryError>)
        ensures
            r matches Ok(stats) && stats_correct(
                self@.games,
                self@.positions,
                StatQuery {
                    fen: position_fen@,
                    user: username@,
                    play_as: *play_as,
                    platform: *platform_name,
                    from: from_timestamp,
                    to: to_timestamp,
                },
                stats@.map_values(|m: MoveStat| m@),
            ),
    {
        let ghost gs = self@.games;
        let ghost psv = self@.positions;
        let ghost q = StatQuery {
            fen: position_fen@,
            user: username@,
            play_as: *play_as,
            platform: *platform_name,
            from: from_timestamp,
            to: to_timestamp,
        };
        let n = self.positions.len();
        let mut acc: Vec<StatAcc> = Vec::new();
        let mut t: usize = 0;
        proof {
            assert(psv.take(0) =~= Seq::<GamePositionRowV>::empty());
        }
        #[verifier::loop_isolation(false)]
        while t < n
            invariant
                t <= n,
                n == psv.len(),
                forall|k: int|
                    0 <= k < acc@.len() ==> {
                        let e = #[trigger] acc@[k];
                        &&& e.total == stat_total(gs, psv.take(t as int), q, e.uci@)
                        &&& e.total > 0
                        &&& e.total <= t
                        &&& e.wins == stat_wins(gs, psv.take(t as int), q, e.uci@)
                        &&& e.draws == stat_draws(gs, psv.take(t as int), q, e.uci@)
                        &&& e.elo_sum == stat_elo_sum(gs, psv.take(t as int), q, e.uci@)
                        &&& e.last == stat_last(gs, psv.take(t as int), q, e.uci@)
                    },
                forall|k1: int, k2: int|
                    0 <= k1 < k2 < acc@.len() ==> (#[trigger] acc@[k1]).uci@ != (
                    #[trigger] acc@[k2]).uci@,
                forall|t2: int|
                    0 <= t2 < t && row_matches(gs, #[trigger] psv[t2], q) ==> exists|k: int|
                        0 <= k < acc@.len() && (#[trigger] acc@[k]).uci@
                            == psv[t2].next_move_uci.unwrap(),
            decreases n - t,
        {
            let ghost prefix = psv.take(t as int);
            proof {
                assert(psv.take(t as int + 1).drop_last() =~= prefix);
                assert(psv.take(t as int + 1).last() == psv[t as int]);
            }
            let p = &self.positions[t];
            let mut contributes = false;
            let mut win = false;
            let mut draw = false;
            let mut opp: i16 = 0;
            let mut fin: u64 = 0;
            if p.next_move_uci.is_some() && p.fen == *position_fen {
                match find_game(&self.games, p.game_id) {
                    Some(gi) => {
                        let g = &self.games[gi];
                        let side_ok = match play_as {
                            Color::White => str_eq(g.white().as_str(), username),
                            Color::Black => str_eq(g.black().as_str(), username),
                        };
                        let from_ok = match from_timestamp {
                            Some(f) => f < 0 || *g.finished_at() >= (f as u64),
                            None => true,
                        };
                        let to_ok = match to_timestamp {
                            Some(tt) => tt >= 0 && *g.finished_at() <= (tt as u64),
                            None => true,
                        };
                        if *g.platform_name() == *platform_name && side_ok && from_ok && to_ok {
                            contributes = true;
                            win = match g.winner() {
                                Some(c) => *c == *play_as,
                                None => false,
                            };
                            draw = match g.winner() {
                                Some(_) => false,
                                None => true,
                            };
                            opp = match play_as {
                                Color::White => *g.black_elo(),
                                Color::Black => *g.white_elo(),
                            };
                            fin = *g.finished_at();
                        }
                    },
                    None => {},
                }
            }
            proof {
                assert(contributes == row_matches(gs, psv[t as int], q));
                if contributes {
                    let g0 = row_game(gs, psv[t as int]);
                    assert(win == (g0.winner == Some(q.play_as)));
                    assert(draw == (g0.winner is None));
                    assert(opp as int == opp_elo(g0, q.play_as));
                    assert(fin == g0.finished_at);
                }
            }
            if contributes {
                let u = p.next_move_uci.as_ref().unwrap();
                let ghost uci = u@;
                // find the group of this reply, if it exists
                let mut found: Option<usize> = None;
                let mut k: usize = 0;
                #[verifier::loop_isolation(false)]
                while k < acc.len()
                    invariant
                        k <= acc@.len(),
                        found is None,
                        forall|k2: int| 0 <= k2 < k ==> (#[trigger] acc@[k2]).uci@ != uci,
                    decreases acc@.len() - k,
                {
                    if str_eq(acc[k].uci.as_str(), u.as_str()) {
                        found = Some(k);
                        break;
                    }
                    k = k + 1;
                }
                proof {
                    lemma_stat_bounds(gs, prefix, q, uci);
                }
                match found {
                    Some(k0) => {
                        let ghost acc_before = acc@;
                        let mut e = acc.remove(k0);
                        e.total = e.total + 1;
                        if win {
                            e.wins = e.wins + 1;
                        }
                        if draw {
                            e.draws = e.draws + 1;
                        }
                        e.elo_sum = e.elo_sum + (opp as i128);
                        if fin > e.last {
                            e.last = fin;
                        }
                        acc.insert(k0, e);
                        proof {
                            assert(acc@ =~= acc_before.update(k0 as int, acc@[k0 as int]));
                            assert(acc@[k0 as int].uci@ == uci);
                            assert(forall|k2: int|
                                0 <= k2 < acc@.len() && k2 != k0 ==> acc@[k2]
                                    == #[trigger] acc_before[k2]);
                        }
                    },
                    None => {
                        proof {
                            // a fresh reply: its group was empty so far
                            if stat_total(gs, prefix, q, uci) > 0 {
                                lemma_stat_total_positive(gs, prefix, q, uci);
                                let t2 = choose|t2: int|
                                    0 <= t2 < prefix.len() && row_counts(
                                        gs,
                                        #[trigger] prefix[t2],
                                        q,
                                        uci,
                                    );
                                assert(prefix[t2] == psv[t2]);
                                assert(row_matches(gs, psv[t2], q));
                            }
                        }
                        let entry = StatAcc {
                            uci: u.clone(),
                            total: 1,
                            wins: if win {
                                1
                            } else {
                                0
                            },
                            draws: if draw {
                                1
                            } else {
                                0
                            },
                            elo_sum: opp as i128,
                            last: fin,
                        };
                        let ghost acc_before = acc@;
                        acc.push(entry);
                        proof {
                            assert(forall|k2: int|
                                0 <= k2 < acc_before.len() ==> acc@[k2] == #[trigger] acc_before[k2]);
                            assert(acc@[acc@.len() - 1].uci@ == uci);
                        }
                    },
                }
            }
            t = t + 1;
        }
        proof {
            assert(psv.take(t as int) =~= psv);
        }

        // turn the groups into rows, computing the rounded average rating
        let mut stats: Vec<MoveStat> = Vec::new();
        let mut acc = acc;
        let ghost done = acc@;
        let mut j: usize = 0;
        let total_groups = acc.len();
        proof {
            assert(done.skip(0) =~= done);
        }
        #[verifier::loop_isolation(false)]
        while acc.len() > 0
            invariant
                j <= done.len(),
                acc@ == done.skip(j as int),
                stats@.len() == j,
                forall|k: int|
                    0 <= k < j ==> (#[trigger] stats@[k])@.move_uci == done[k].uci@
                        && stat_entry_correct(gs, psv, q, stats@[k]@),
            decreases acc@.len(),
        {
            let ghost rem = acc@;
            proof {
                assert(rem[0] == done[j as int]);
                assert(rem.drop_first() =~= done.skip(j as int + 1));
            }
            let e = acc.remove(0);
            proof {
                lemma_stat_bounds(gs, psv, q, e.uci@);
            }
            let total_i = e.total as u128;
            let avg: u16 = if e.elo_sum >= 0 {
                let s = e.elo_sum as u128;
                let quot = (2 * s + total_i) / (2 * total_i);
                proof {
                    lemma_avg_bound(s as int, total_i as int, 32767);
                }
                quot as u16
            } else {
                let m = (-e.elo_sum) as u128;
                let quot = (2 * m + total_i) / (2 * total_i);
                proof {
                    lemma_avg_bound(m as int, total_i as int, 32768);
                }
                if quot == 0 {
                    0
                } else {
                    (65536 - quot) as u16
                }
            };
            let ghost uci = e.uci@;
            let stat = MoveStat::new(e.uci, e.total, e.wins, e.draws, avg, e.last);
            let ghost stats_before = stats@;
            stats.push(stat);
            proof {
                assert(forall|k: int|
                    0 <= k < stats_before.len() ==> stats@[k] == #[trigger] stats_before[k]);
                assert(stats@[j as int]@.move_uci == uci);
                assert(stat_entry_correct(gs, psv, q, stats@[j as int]@));
            }
            j = j + 1;
        }
        proof {
            assert(j == done.len());
            let out = stats@.map_values(|m: MoveStat| m@);
            assert(forall|k: int| 0 <= k < out.len() ==> (#[trigger] out[k]) == stats@[k]@);
            assert(forall|t2: int|
                0 <= t2 < psv.len() && row_matches(gs, #[trigger] psv[t2], q) ==> exists|k: int|
                    0 <= k < out.len() && (#[trigger] out[k]).move_uci == psv[t2].next_move_uci.unwrap()) by {
                assert forall|t2: int|
                    0 <= t2 < psv.len() && row_matches(gs, #[trigger] psv[t2], q) implies exists|
                    k: int,
                |
                    0 <= k < out.len() && (#[trigger] out[k]).move_uci == psv[t2].next_move_uci.unwrap() by {
                    let k = choose|k: int|
                        0 <= k < done.len() && (#[trigger] done[k]).uci@ == psv[t2].next_move_uci.unwrap();
                    assert(out[k].move_uci == psv[t2].next_move_uci.unwrap());
                }
            }
        }
        Ok(stats)
    }
}

/// floor((2n + t) / (2t)) stays within the rounded average's range when
/// `n <= bound * t`.
proof fn lemma_avg_bound(n: int, t: int, bound: int)
    requires
        0 <= n,
        1 <= t,
        n <= bound * t,
        0 <= bound <= 32768,
    ensures
        0 <= (2 * n + t) / (2 * t) <= bound,
{
    let d = 2 * t;
    assert((2 * bound + 1) * t == 2 * (bound * t) + t) by (nonlinear_arith);
    assert(bound * (2 * t) + t == (2 * bound + 1) * t) by (nonlinear_arith);
    vstd::arithmetic::div_mod::lemma_div_is_ordered(0, 2 * n + t, d);
    vstd::arithmetic::div_mod::lemma_div_is_ordered(2 * n + t, (2 * bound + 1) * t, d);
    vstd::arithmetic::div_mod::lemma_fundamental_div_mod_converse(
        (2 * bound + 1) * t,
        d,
        bound,
        t,
    );
}


/// The position rows of one game id.
pub open spec fn positions_of(ps: Seq<GamePositionRowV>, id: u128) -> Seq<GamePositionRowV> {
    ps.filter(|p: GamePositionRowV| p.game_id == id)
}

proof fn lemma_filter_all(ps: Seq<GamePositionRowV>, id: u128)
    requires
        forall|k: int| 0 <= k < ps.len() ==> (#[trigger] ps[k]).game_id == id,
    ensures
        positions_of(ps, id) == ps,
    decreases ps.len(),
{
    reveal(Seq::filter);
    if ps.len() > 0 {
        assert(forall|k: int| 0 <= k < ps.len() - 1 ==> ps.drop_last()[k] == #[trigger] ps[k]);
        lemma_filter_all(ps.drop_last(), id);
        assert(ps[ps.len() - 1] == ps.last());
        assert(ps.drop_last().push(ps.last()) =~= ps);
    }
}

proof fn lemma_filter_none(ps: Seq<GamePositionRowV>, id: u128)
    requires
        forall|k: int| 0 <= k < ps.len() ==> (#[trigger] ps[k]).game_id != id,
    ensures
        positions_of(ps, id) == Seq::<GamePositionRowV>::empty(),
    decreases ps.len(),
{
    reveal(Seq::filter);
    if ps.len() > 0 {
        assert(forall|k: int| 0 <= k < ps.len() - 1 ==> ps.drop_last()[k] == #[trigger] ps[k]);
        lemma_filter_none(ps.drop_last(), id);
        assert(ps[ps.len() - 1] == ps.last());
    }
}

/// Every position row's game id is the id of some game of the table it was
/// built from.
proof fn lemma_positions_ids(gs: Seq<GameV>)
    ensures
        forall|k: int|
            0 <= k < positions_of_games(gs).len() ==> exists|j: int|
                0 <= j < gs.len() && (#[trigger] positions_of_games(gs)[k]).game_id == (
                #[trigger] gs[j]).id,
    decreases gs.len(),
{
    if gs.len() > 0 {
        lemma_positions_ids(gs.drop_first());
        let head = positions_of_game(gs[0]);
        let rest = positions_of_games(gs.drop_first());
        assert forall|k: int| 0 <= k < positions_of_games(gs).len() implies exists|j: int|
            0 <= j < gs.len() && (#[trigger] positions_of_games(gs)[k]).game_id == (
            #[trigger] gs[j]).id by {
            if k < head.len() {
                assert(positions_of_games(gs)[k] == head[k]);
                assert(head[k].game_id == gs[0].id);
            } else {
                assert(positions_of_games(gs)[k] == rest[k - head.len()]);
                let j0 = choose|j: int|
                    0 <= j < gs.drop_first().len() && rest[k - head.len()].game_id == (
                    #[trigger] gs.drop_first()[j]).id;
                assert(gs.drop_first()[j0] == gs[j0 + 1]);
            }
        }
    }
}

proof fn lemma_positions_of_concat(gs: Seq<GameV>, i: int)
    requires
        0 <= i < gs.len(),
        forall|j: int| 0 <= j < gs.len() && j != i ==> (#[trigger] gs[j]).id != gs[i].id,
    ensures
        positions_of(positions_of_games(gs), gs[i].id) == positions_of_game(gs[i]),
    decreases gs.len(),
{
    let id = gs[i].id;
    let pred = |p: GamePositionRowV| p.game_id == id;
    let head = positions_of_game(gs[0]);
    let rest = positions_of_games(gs.drop_first());
    Seq::filter_distributes_over_add(head, rest, pred);
    if i == 0 {
        assert(forall|k: int| 0 <= k < head.len() ==> (#[trigger] head[k]).game_id == id);
        lemma_filter_all(head, id);
        lemma_positions_ids(gs.drop_first());
        assert(forall|j: int|
            0 <= j < gs.drop_first().len() ==> (#[trigger] gs.drop_first()[j]).id != id);
        assert(forall|k: int| 0 <= k < rest.len() ==> (#[trigger] rest[k]).game_id != id);
        lemma_filter_none(rest, id);
        assert(head + Seq::<GamePositionRowV>::empty() =~= head);
    } else {
        assert(gs[0].id != id);
        assert(forall|k: int| 0 <= k < head.len() ==> (#[trigger] head[k]).game_id != id);
        lemma_filter_none(head, id);
        assert(forall|j: int|
            0 <= j < gs.drop_first().len() && j != i - 1 ==> (#[trigger] gs.drop_first()[j]).id
                != gs.drop_first()[i - 1].id);
        lemma_positions_of_concat(gs.drop_first(), i - 1);
        assert(gs.drop_first()[i - 1] == gs[i]);
        assert(Seq::<GamePositionRowV>::empty() + positions_of(rest, id) =~= positions_of(
            rest,
            id,
        ));
    }
}

/// For every game row of a well-formed store, the position table holds
/// either no rows for it (its PGN did not replay) or one row per mainline
/// SAN token plus a terminal row: `move_idx` runs 0..N+1 in order, and
/// exactly the last row carries no reply.
pub proof fn lemma_position_rows_shape(s: GameStoreV, i: int)
    requires
        store_inv(s),
        0 <= i < s.games.len(),
    ensures
        ({
            let g = s.games[i];
            let prs = positions_of(s.positions, g.id);
            match expansion_of(g.pgn) {
                None => prs.len() == 0,
                Some(_) => {
                    &&& prs.len() == crate::pgn::san_tokens_of(g.pgn).len() + 1
                    &&& forall|k: int| 0 <= k < prs.len() ==> (#[trigger] prs[k]).move_idx == k
                    &&& forall|k: int|
                        0 <= k < prs.len() ==> (((#[trigger] prs[k]).next_move_uci is None) <==> k
                            == prs.len() - 1)
                },
            }
        }),
{
    let g = s.games[i];
    assert(forall|j: int| 0 <= j < s.games.len() && j != i ==> (#[trigger] s.games[j]).id != g.id);
    lemma_positions_of_concat(s.games, i);
    match expansion_of(g.pgn) {
        None => {},
        Some(_) => {
            crate::expand::lemma_expand_shape(
                crate::expand::initial_fen(),
                crate::pgn::san_tokens_of(g.pgn),
            );
        },
    }
}

proof fn lemma_key_present_monotone(gs: Seq<GameV>, batch: Seq<NewGameV>, id: u128, k: NaturalKey)
    requires
        key_present(gs, k),
    ensures
        key_present(insert_games(gs, batch, id).0, k),
{
    lemma_insert_games_extends(gs, batch, id);
    let res = insert_games(gs, batch, id).0;
    let w = choose|w: int| 0 <= w < gs.len() && game_key(#[trigger] gs[w]) == k;
    assert(res.take(gs.len() as int)[w] == res[w]);
    assert(game_key(res[w]) == k);
}

proof fn lemma_insert_all_keys_present(gs: Seq<GameV>, batch: Seq<NewGameV>, id: u128)
    ensures
        forall|m: int|
            0 <= m < batch.len() ==> key_present(
                insert_games(gs, batch, id).0,
                new_game_key(#[trigger] batch[m]),
            ),
    decreases batch.len(),
{
    if batch.len() > 0 {
        let n = batch[0];
        let tail = batch.drop_first();
        if key_present(gs, new_game_key(n)) {
            lemma_insert_all_keys_present(gs, tail, id);
            lemma_key_present_monotone(gs, tail, id, new_game_key(n));
        } else {
            let gs2 = gs.push(game_of_new(n, id));
            assert(game_key(gs2[gs.len() as int]) == new_game_key(n));
            assert(key_present(gs2, new_game_key(n)));
            lemma_insert_all_keys_present(gs2, tail, (id + 1) as u128);
            lemma_key_present_monotone(gs2, tail, (id + 1) as u128, new_game_key(n));
        }
        assert(forall|m: int| 1 <= m < batch.len() ==> #[trigger] batch[m] == tail[m - 1]);
    }
}

proof fn lemma_insert_noop(gs: Seq<GameV>, batch: Seq<NewGameV>, id: u128)
    requires
        forall|m: int|
            0 <= m < batch.len() ==> key_present(gs, new_game_key(#[trigger] batch[m])),
    ensures
        insert_games(gs, batch, id) == (gs, id),
    decreases batch.len(),
{
    if batch.len() > 0 {
        let tail = batch.drop_first();
        assert(forall|m: int| 0 <= m < tail.len() ==> #[trigger] tail[m] == batch[m + 1]);
        lemma_insert_noop(gs, tail, id);
    }
}

/// Idempotence of the bulk load: feeding the same batch a second time
/// inserts nothing — the tables and the id counter stay exactly as the
/// first run left them.
pub proof fn lemma_store_batch_idempotent(s: GameStoreV, batch: Seq<NewGameV>)
    ensures
        store_after_batch(store_after_batch(s, batch), batch) == store_after_batch(s, batch),
{
    let s1 = store_after_batch(s, batch);
    lemma_insert_all_keys_present(s.games, batch, s.next_id);
    lemma_insert_noop(s1.games, batch, s1.next_id);
    assert(inserted_games(s1.games, batch, s1.next_id) =~= Seq::<GameV>::empty());
    assert(positions_of_games(Seq::<GameV>::empty()) =~= Seq::<GamePositionRowV>::empty());
    assert(s1.positions + Seq::<GamePositionRowV>::empty() =~= s1.positions);
    assert(store_after_batch(s1, batch) =~= s1);
}

} // verus!
