//! Ingest-and-aggregate core for a chess game history service.
//!
//! The library turns a player's remote game archives into normalized
//! position rows and serves per-move reply statistics for any position.
//! Board replay and board-encoding validation are delegated to the
//! `shakmaty` chess engine behind trusted wrappers; everything around them —
//! PGN movetext scanning, deduplicated persistence, aggregation, progress
//! accounting — is verified.

pub mod errors;
pub mod fen;
pub mod game;
pub mod platform;
pub mod pgn;
pub mod expand;
pub mod store;
pub mod graphql_dto;
pub mod game_update_cache;
pub mod subscription;
pub mod copy;
pub mod chesscom;
pub mod service;
pub mod query;
pub mod mutation;
