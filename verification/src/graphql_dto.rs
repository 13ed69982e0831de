//! Schema-facing data shapes, bare of any transport concern. The serving
//! layer wraps these into its wire types.

use vstd::prelude::*;

use crate::game::{Color, MoveStat};
use crate::platform::PlatformName;

verus! {

/// The platform enum as the public schema names it.
#[derive(Clone, Copy, Debug, PartialEq, Eq, Hash, Structural)]
pub enum GraphQLPlatformName {
    ChessCom,
}

impl GraphQLPlatformName {
    pub fn to_domain(&self) -> (r: PlatformName)
        ensures
            r == spec_platform_to_domain(*self),
    {
        match self {
            GraphQLPlatformName::ChessCom => PlatformName::ChessCom,
        }
    }

    pub fn from_domain(value: PlatformName) -> (r: Self)
        ensures
            spec_platform_to_domain(r) == value,
    {
        match value {
            PlatformName::ChessCom => GraphQLPlatformName::ChessCom,
        }
    }
}

pub open spec fn spec_platform_to_domain(p: GraphQLPlatformName) -> PlatformName {
    match p {
        GraphQLPlatformName::ChessCom => PlatformName::ChessCom,
    }
}

/// The color enum as the public schema names it.
#[derive(Clone, Copy, Debug, PartialEq, Eq, Structural)]
pub enum GraphQLColor {
    White,
    Black,
}

pub open spec fn spec_color_to_domain(c: GraphQLColor) -> Color {
    match c {
        GraphQLColor::White => Color::White,
        GraphQLColor::Black => Color::Black,
    }
}

impl GraphQLColor {
    pub fn to_domain(&self) -> (r: Color)
        ensures
            r == spec_color_to_domain(*self),
    {
        match self {
            GraphQLColor::White => Color::White,
            GraphQLColor::Black => Color::Black,
        }
    }

    pub fn from_domain(value: Color) -> (r: Self)
        ensures
            spec_color_to_domain(r) == value,
    {
        match value {
            Color::White => GraphQLColor::White,
            Color::Black => GraphQLColor::Black,
        }
    }
}

/// A 64-bit value narrowed to the schema's 32-bit integer, wrapping as a
/// two's-complement cast wraps.
pub open spec fn wrap_i32(x: u64) -> i32 {
    let low = x % 0x1_0000_0000;
    if low < 0x8000_0000 {
        low as i32
    } else {
        (low - 0x1_0000_0000) as i32
    }
}

pub fn wrap_u64_to_i32(x: u64) -> (r: i32)
    ensures
        r == wrap_i32(x),
{
    let low = x % 0x1_0000_0000;
    if low < 0x8000_0000 {
        low as i32
    } else {
        ((low as i64) - 0x1_0000_0000) as i32
    }
}

/// One aggregation row as the public schema shapes it.
#[derive(Clone, Debug)]
pub struct GraphQLMoveStat {
    pub move_uci: String,
    pub total: i32,
    pub wins: i32,
    pub draws: i32,
    pub avg_opponent_elo: i32,
    pub last_played_at: i32,
}

/// The schema row a [`MoveStat`] maps to: counts and instants narrowed to
/// the schema's 32-bit integers.
pub open spec fn graphql_stat_of(m: crate::game::MoveStatV) -> (Seq<char>, i32, i32, i32, i32, i32) {
    (
        m.move_uci,
        wrap_i32(m.total),
        wrap_i32(m.wins),
        wrap_i32(m.draws),
        m.avg_opponent_elo as i32,
        wrap_i32(m.last_played_at),
    )
}

impl View for GraphQLMoveStat {
    type V = (Seq<char>, i32, i32, i32, i32, i32);

    open spec fn view(&self) -> (Seq<char>, i32, i32, i32, i32, i32) {
        (
            self.move_uci@,
            self.total,
            self.wins,
            self.draws,
            self.avg_opponent_elo,
            self.last_played_at,
        )
    }
}

impl GraphQLMoveStat {
    pub fn from_domain(value: MoveStat) -> (r: Self)
        ensures
            r@ == graphql_stat_of(value@),
    {
        let total = wrap_u64_to_i32(*value.total());
        let wins = wrap_u64_to_i32(*value.wins());
        let draws = wrap_u64_to_i32(*value.draws());
        let avg = *value.avg_opponent_elo() as i32;
        let last = wrap_u64_to_i32(*value.last_played_at());
        let uci: String = value.move_uci().to_owned();
        GraphQLMoveStat {
            move_uci: uci,
            total,
            wins,
            draws,
            avg_opponent_elo: avg,
            last_played_at: last,
        }
    }
}

} // verus!
