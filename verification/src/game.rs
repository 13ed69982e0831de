//! Core domain records: finished games, incoming games, move statistics.

use vstd::prelude::*;

use crate::fen::Fen;
use crate::platform::PlatformName;

verus! {

/// The color a player had in a game.
#[derive(Clone, Copy, Debug, PartialEq, Eq, Structural)]
pub enum Color {
    White,
    Black,
}

/// The canonical text tag of a color.
pub open spec fn color_chars(c: Color) -> Seq<char> {
    match c {
        Color::White => "White"@,
        Color::Black => "Black"@,
    }
}

impl Color {
    /// Canonical text tag of the color, as stored in the `winner` column.
    pub fn as_str(&self) -> (r: &'static str)
        ensures
            r@ == color_chars(*self),
    {
        match self {
            Color::White => "White",
            Color::Black => "Black",
        }
    }
}

/// Mathematical value of a [`NewGame`].
pub ghost struct NewGameV {
    pub white: Seq<char>,
    pub white_elo: i16,
    pub black: Seq<char>,
    pub black_elo: i16,
    pub winner: Option<Color>,
    pub platform_name: PlatformName,
    pub pgn: Seq<char>,
    pub finished_at: u64,
}

/// A game fetched from a platform, not yet persisted.
/// `finished_at` is the finish instant in seconds since the Unix epoch.
#[derive(Clone, Debug)]
pub struct NewGame {
    white: String,
    white_elo: i16,
    black: String,
    black_elo: i16,
    winner: Option<Color>,
    platform_name: PlatformName,
    pgn: String,
    finished_at: u64,
}

impl View for NewGame {
    type V = NewGameV;

    closed spec fn view(&self) -> NewGameV {
        NewGameV {
            white: self.white@,
            white_elo: self.white_elo,
            black: self.black@,
            black_elo: self.black_elo,
            winner: self.winner,
            platform_name: self.platform_name,
            pgn: self.pgn@,
            finished_at: self.finished_at,
        }
    }
}

impl NewGame {
    pub fn new(
        white: String,
        white_elo: i16,
        black: String,
        black_elo: i16,
        winner: Option<Color>,
        platform_name: PlatformName,
        pgn: String,
        finished_at: u64,
    ) -> (r: Self)
        ensures
            r@ == (NewGameV {
                white: white@,
                white_elo,
                black: black@,
                black_elo,
                winner,
                platform_name,
                pgn: pgn@,
                finished_at,
            }),
    {
        Self { white, white_elo, black, black_elo, winner, platform_name, pgn, finished_at }
    }

    pub fn white(&self) -> (r: &String)
        ensures
            r@ == self@.white,
    {
        &self.white
    }

    pub fn white_elo(&self) -> (r: &i16)
        ensures
            *r == self@.white_elo,
    {
        &self.white_elo
    }

    pub fn black(&self) -> (r: &String)
        ensures
            r@ == self@.black,
    {
        &self.black
    }

    pub fn black_elo(&self) -> (r: &i16)
        ensures
            *r == self@.black_elo,
    {
        &self.black_elo
    }

    pub fn winner(&self) -> (r: Option<&Color>)
        ensures
            match r {
                Some(c) => self@.winner == Some(*c),
                None => self@.winner is None,
            },
    {
        self.winner.as_ref()
    }

    pub fn platform_name(&self) -> (r: &PlatformName)
        ensures
            *r == self@.platform_name,
    {
        &self.platform_name
    }

    pub fn pgn(&self) -> (r: &String)
        ensures
            r@ == self@.pgn,
    {
        &self.pgn
    }

    pub fn finished_at(&self) -> (r: &u64)
        ensures
            *r == self@.finished_at,
    {
        &self.finished_at
    }
}

/// Mathematical value of a [`Game`].
pub ghost struct GameV {
    pub id: u128,
    pub white: Seq<char>,
    pub white_elo: i16,
    pub black: Seq<char>,
    pub black_elo: i16,
    pub winner: Option<Color>,
    pub platform_name: PlatformName,
    pub pgn: Seq<char>,
    pub finished_at: u64,
}

/// An immutable persisted record of one completed game. The id stands for
/// the 128-bit row UUID.
#[derive(Clone, Debug)]
pub struct Game {
    id: u128,
    white: String,
    white_elo: i16,
    black: String,
    black_elo: i16,
    winner: Option<Color>,
    platform_name: PlatformName,
    pgn: String,
    finished_at: u64,
}

impl View for Game {
    type V = GameV;

    closed spec fn view(&self) -> GameV {
        GameV {
            id: self.id,
            white: self.white@,
            white_elo: self.white_elo,
            black: self.black@,
            black_elo: self.black_elo,
            winner: self.winner,
            platform_name: self.platform_name,
            pgn: self.pgn@,
            finished_at: self.finished_at,
        }
    }
}

impl Game {
    pub fn new(
        id: u128,
        white: String,
        white_elo: i16,
        black: String,
        black_elo: i16,
        winner: Option<Color>,
        platform_name: PlatformName,
        pgn: String,
        finished_at: u64,
    ) -> (r: Self)
        ensures
            r@ == (GameV {
                id,
                white: white@,
                white_elo,
                black: black@,
                black_elo,
                winner,
                platform_name,
                pgn: pgn@,
                finished_at,
            }),
    {
        Self { id, white, white_elo, black, black_elo, winner, platform_name, pgn, finished_at }
    }

    pub fn id(&self) -> (r: &u128)
        ensures
            *r == self@.id,
    {
        &self.id
    }

    pub fn white(&self) -> (r: &String)
        ensures
            r@ == self@.white,
    {
        &self.white
    }

    pub fn white_elo(&self) -> (r: &i16)
        ensures
            *r == self@.white_elo,
    {
        &self.white_elo
    }

    pub fn black(&self) -> (r: &String)
        ensures
            r@ == self@.black,
    {
        &self.black
    }

    pub fn black_elo(&self) -> (r: &i16)
        ensures
            *r == self@.black_elo,
    {
        &self.black_elo
    }

    pub fn platform_name(&self) -> (r: &PlatformName)
        ensures
            *r == self@.platform_name,
    {
        &self.platform_name
    }

    pub fn pgn(&self) -> (r: &String)
        ensures
            r@ == self@.pgn,
    {
        &self.pgn
    }

    pub fn finished_at(&self) -> (r: &u64)
        ensures
            *r == self@.finished_at,
    {
        &self.finished_at
    }

    pub fn winner(&self) -> (r: Option<&Color>)
        ensures
            match r {
                Some(c) => self@.winner == Some(*c),
                None => self@.winner is None,
            },
    {
        self.winner.as_ref()
    }
}

/// A distinct board encoding, addressable by its 128-bit row UUID.
#[derive(Clone, Debug)]
pub struct Position {
    id: u128,
    fen: Fen,
}

impl View for Position {
    type V = (u128, Seq<char>);

    closed spec fn view(&self) -> (u128, Seq<char>) {
        (self.id, self.fen@)
    }
}

impl Position {
    pub fn new(id: u128, fen: Fen) -> (r: Self)
        ensures
            r@ == (id, fen@),
    {
        Self { id, fen }
    }
}

/// Mathematical value of a [`MoveStat`].
pub ghost struct MoveStatV {
    pub move_uci: Seq<char>,
    pub total: u64,
    pub wins: u64,
    pub draws: u64,
    pub avg_opponent_elo: u16,
    pub last_played_at: u64,
}

/// Aggregate statistics for one reply move from a queried position.
#[derive(Clone, Debug)]
pub struct MoveStat {
    move_uci: String,
    total: u64,
    wins: u64,
    draws: u64,
    avg_opponent_elo: u16,
    last_played_at: u64,
}

impl View for MoveStat {
    type V = MoveStatV;

    closed spec fn view(&self) -> MoveStatV {
        MoveStatV {
            move_uci: self.move_uci@,
            total: self.total,
            wins: self.wins,
            draws: self.draws,
            avg_opponent_elo: self.avg_opponent_elo,
            last_played_at: self.last_played_at,
        }
    }
}

impl MoveStat {
    pub fn new(
        move_uci: String,
        total: u64,
        wins: u64,
        draws: u64,
        avg_opponent_elo: u16,
        last_played_at: u64,
    ) -> (r: Self)
        ensures
            r@ == (MoveStatV { move_uci: move_uci@, total, wins, draws, avg_opponent_elo, last_played_at }),
    {
        Self { move_uci, total, wins, draws, avg_opponent_elo, last_played_at }
    }

    pub fn move_uci(&self) -> (r: &str)
        ensures
            r@ == self@.move_uci,
    {
        self.move_uci.as_str()
    }

    pub fn total(&self) -> (r: &u64)
        ensures
            *r == self@.total,
    {
        &self.total
    }

    pub fn wins(&self) -> (r: &u64)
        ensures
            *r == self@.wins,
    {
        &self.wins
    }

    pub fn draws(&self) -> (r: &u64)
        ensures
            *r == self@.draws,
    {
        &self.draws
    }

    pub fn avg_opponent_elo(&self) -> (r: &u16)
        ensures
            *r == self@.avg_opponent_elo,
    {
        &self.avg_opponent_elo
    }

    pub fn last_played_at(&self) -> (r: &u64)
        ensures
            *r == self@.last_played_at,
    {
        &self.last_played_at
    }
}

} // verus!
