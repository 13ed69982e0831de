//! The binary bulk-load format: exact bytes for the `game` and
//! `game_position` staging loads, built on the `pgcopy` encoder behind
//! per-field trusted wrappers. Negative values appear in the stream in
//! two's complement, which Euclidean division and remainder yield directly.

use vstd::prelude::*;

use vstd::utf8::encode_utf8;

use crate::game::{color_chars, NewGame, NewGameV};
use crate::platform::platform_chars;
use crate::store::{new_games_view, positions_view, GamePositionRow, GamePositionRowV};

verus! {

/// Big-endian bytes of `v mod 2^16`.
pub open spec fn be16(v: int) -> Seq<u8> {
    seq![((v / 0x100) % 0x100) as u8, (v % 0x100) as u8]
}

/// Big-endian bytes of `v mod 2^32`.
pub open spec fn be32(v: int) -> Seq<u8> {
    seq![
        ((v / 0x1000000) % 0x100) as u8,
        ((v / 0x10000) % 0x100) as u8,
        ((v / 0x100) % 0x100) as u8,
        (v % 0x100) as u8,
    ]
}

/// Big-endian bytes of `v mod 2^64`.
pub open spec fn be64(v: int) -> Seq<u8> {
    be32(v / 0x100000000) + be32(v)
}

/// Big-endian bytes of `v mod 2^128`.
pub open spec fn be128(v: int) -> Seq<u8> {
    be64(v / 0x10000000000000000) + be64(v)
}

/// The 19-byte header of the binary bulk-load format: the signature, then
/// two zero 32-bit fields (flags and extension area length).
pub open spec fn copy_header_bytes() -> Seq<u8> {
    seq![0x50u8, 0x47, 0x43, 0x4f, 0x50, 0x59, 0x0a, 0xff, 0x0d, 0x0a, 0x00] + be32(0) + be32(0)
}

/// The trailer: a 16-bit -1.
pub open spec fn copy_trailer_bytes() -> Seq<u8> {
    be16(-1)
}

/// A text field: 32-bit byte length, then the UTF-8 bytes.
pub open spec fn field_str(s: Seq<char>) -> Seq<u8> {
    be32(encode_utf8(s).len() as int) + encode_utf8(s)
}

/// A `smallint` field: 32-bit length 2, then the value.
pub open spec fn field_smallint(v: i16) -> Seq<u8> {
    be32(2) + be16(v as int)
}

/// A `bigint`-shaped 8-byte field: 32-bit length 8, then the value. The
/// `timestamp with time zone` wire value has exactly this shape.
pub open spec fn field_bigint(v: i64) -> Seq<u8> {
    be32(8) + be64(v as int)
}

/// A `uuid` field: 32-bit length 16, then the 16 bytes.
pub open spec fn field_uuid(id: u128) -> Seq<u8> {
    be32(16) + be128(id as int)
}

/// A NULL field: 32-bit -1 and no data.
pub open spec fn field_null() -> Seq<u8> {
    be32(-1)
}

/// Relies on pgcopy's `Encoder::write_header`: the signature
/// `PGCOPY\n\xff\r\n\0` then two zero 32-bit fields.
#[verifier::external_body]
fn copy_header() -> (r: Vec<u8>)
    ensures
        r@ == copy_header_bytes(),
{
    let mut buf: Vec<u8> = vec![];
    pgcopy::Encoder::new(&mut buf).write_header().unwrap();
    buf
}

/// Relies on pgcopy's `Encoder::write_trailer`: a big-endian 16-bit -1.
#[verifier::external_body]
fn copy_trailer() -> (r: Vec<u8>)
    ensures
        r@ == copy_trailer_bytes(),
{
    let mut buf: Vec<u8> = vec![];
    pgcopy::Encoder::new(&mut buf).write_trailer().unwrap();
    buf
}

/// Relies on pgcopy's `Encoder::write_tuple`: the big-endian 16-bit field
/// count that starts each tuple.
#[verifier::external_body]
fn copy_tuple(fields: i16) -> (r: Vec<u8>)
    ensures
        r@ == be16(fields as int),
{
    let mut buf: Vec<u8> = vec![];
    pgcopy::Encoder::new(&mut buf).write_tuple(fields).unwrap();
    buf
}

/// Relies on pgcopy's `Encoder::write_null`: a big-endian 32-bit -1.
#[verifier::external_body]
fn copy_null() -> (r: Vec<u8>)
    ensures
        r@ == field_null(),
{
    let mut buf: Vec<u8> = vec![];
    pgcopy::Encoder::new(&mut buf).write_null().unwrap();
    buf
}

/// Relies on pgcopy's `Encoder::write_smallint`: a 32-bit length 2, then
/// the big-endian value.
#[verifier::external_body]
fn copy_smallint(v: i16) -> (r: Vec<u8>)
    ensures
        r@ == field_smallint(v),
{
    let mut buf: Vec<u8> = vec![];
    pgcopy::Encoder::new(&mut buf).write_smallint(v).unwrap();
    buf
}

/// Relies on pgcopy's `Encoder::write_str`: the 32-bit byte length, then
/// the string's UTF-8 bytes. The length is written as a 32-bit value, so
/// longer strings are left out by the precondition.
#[verifier::external_body]
fn copy_str(s: &str) -> (r: Vec<u8>)
    requires
        encode_utf8(s@).len() <= i32::MAX,
    ensures
        r@ == field_str(s@),
{
    let mut buf: Vec<u8> = vec![];
    pgcopy::Encoder::new(&mut buf).write_str(s).unwrap();
    buf
}

/// Relies on pgcopy's `Encoder::write_bigint`: a 32-bit length 8, then the
/// big-endian value.
#[verifier::external_body]
fn copy_bigint(v: i64) -> (r: Vec<u8>)
    ensures
        r@ == field_bigint(v),
{
    let mut buf: Vec<u8> = vec![];
    pgcopy::Encoder::new(&mut buf).write_bigint(v).unwrap();
    buf
}

/// Relies on pgcopy's `Encoder::write_uuid` on a 16-byte array: a 32-bit
/// length 16, then the bytes; the id's big-endian bytes are the UUID bytes.
#[verifier::external_body]
fn copy_uuid(id: u128) -> (r: Vec<u8>)
    ensures
        r@ == field_uuid(id),
{
    let mut buf: Vec<u8> = vec![];
    pgcopy::Encoder::new(&mut buf).write_uuid(id.to_be_bytes()).unwrap();
    buf
}

/// Microseconds since 2000-01-01 UTC, the bulk-load wire value of a
/// `timestamp with time zone` given in Unix seconds.
pub open spec fn pg_micros(secs: u64) -> int {
    secs * 1_000_000 - 946_684_800_000_000
}

/// One staged game tuple: 8 fields in table order.
pub open spec fn game_record_bytes(n: NewGameV) -> Seq<u8> {
    be16(8) + field_str(n.white) + field_smallint(n.white_elo) + field_str(n.black)
        + field_smallint(n.black_elo) + (match n.winner {
        Some(c) => field_str(color_chars(c)),
        None => field_null(),
    }) + field_str(platform_chars(n.platform_name)) + field_str(n.pgn) + (be32(8) + be64(
        pg_micros(n.finished_at),
    ))
}

pub open spec fn game_records_bytes(batch: Seq<NewGameV>) -> Seq<u8>
    decreases batch.len(),
{
    if batch.len() == 0 {
        Seq::empty()
    } else {
        game_record_bytes(batch[0]) + game_records_bytes(batch.drop_first())
    }
}

/// The whole staging load for a batch of games.
pub open spec fn games_copy_bytes(batch: Seq<NewGameV>) -> Seq<u8> {
    copy_header_bytes() + game_records_bytes(batch) + copy_trailer_bytes()
}

/// The greatest finish instant whose microsecond wire value fits the 8-byte
/// field.
pub open spec fn max_copy_seconds() -> u64 {
    9_223_372_036_854
}

/// Whether a batch fits the binary format's field limits: text fields under
/// the 32-bit length prefix, ratings within `smallint` by construction, and
/// finish instants whose microsecond value fits 8 bytes.
pub open spec fn game_copy_encodable(n: NewGameV) -> bool {
    &&& encode_utf8(n.white).len() <= i32::MAX
    &&& encode_utf8(n.black).len() <= i32::MAX
    &&& encode_utf8(n.pgn).len() <= i32::MAX
    &&& n.finished_at <= max_copy_seconds()
}

/// Encodes one staged game tuple.
fn game_record_to_bytes(g: &NewGame) -> (r: Vec<u8>)
    requires
        game_copy_encodable(g@),
    ensures
        r@ == game_record_bytes(g@),
{
    let mut out: Vec<u8> = copy_tuple(8);
    let mut part = copy_str(g.white().as_str());
    out.append(&mut part);
    let mut part = copy_smallint(*g.white_elo());
    out.append(&mut part);
    let mut part = copy_str(g.black().as_str());
    out.append(&mut part);
    let mut part = copy_smallint(*g.black_elo());
    out.append(&mut part);
    match g.winner() {
        Some(c) => {
            proof {
                reveal_strlit("White");
                reveal_strlit("Black");
                vstd::utf8::is_ascii_chars_encode_utf8(color_chars(*c));
            }
            let mut part = copy_str(c.as_str());
            out.append(&mut part);
        },
        None => {
            let mut part = copy_null();
            out.append(&mut part);
        },
    }
    proof {
        reveal_strlit("ChessCom");
        vstd::utf8::is_ascii_chars_encode_utf8(platform_chars(g@.platform_name));
    }
    let mut part = copy_str(g.platform_name().as_str());
    out.append(&mut part);
    let mut part = copy_str(g.pgn().as_str());
    out.append(&mut part);
    let fin = *g.finished_at();
    let micros: i64 = (fin as i64) * 1_000_000 - 946_684_800_000_000;
    let mut part = copy_bigint(micros);
    out.append(&mut part);
    proof {
        assert(out@ =~= game_record_bytes(g@));
    }
    out
}

/// Encodes a batch of games for the staging table's bulk load, tuple by
/// tuple in batch order, between the format's header and trailer.
pub fn games_to_bytes(games: &Vec<NewGame>) -> (r: Vec<u8>)
    requires
        forall|i: int|
            0 <= i < games@.len() ==> game_copy_encodable(#[trigger] new_games_view(games@)[i]),
    ensures
        r@ == games_copy_bytes(new_games_view(games@)),
{
    let ghost batch = new_games_view(games@);
    let mut out: Vec<u8> = copy_header();
    let mut i: usize = 0;
    proof {
        assert(batch.skip(0) =~= batch);
        assert(out@ + game_records_bytes(batch.skip(0)) =~= copy_header_bytes()
            + game_records_bytes(batch));
    }
    #[verifier::loop_isolation(false)]
    while i < games.len()
        invariant
            i <= games@.len(),
            out@ + game_records_bytes(batch.skip(i as int)) == copy_header_bytes()
                + game_records_bytes(batch),
        decreases games@.len() - i,
    {
        let ghost rem = batch.skip(i as int);
        proof {
            assert(rem[0] == batch[i as int]);
            assert(rem.drop_first() =~= batch.skip(i as int + 1));
        }
        let g = &games[i];
        let ghost before = out@;
        let mut part = game_record_to_bytes(g);
        out.append(&mut part);
        proof {
            assert(out@ + game_records_bytes(batch.skip(i as int + 1)) =~= before + (
            game_record_bytes(rem[0]) + game_records_bytes(rem.drop_first())));
        }
        i = i + 1;
    }
    proof {
        assert(batch.skip(i as int) =~= Seq::<NewGameV>::empty());
        assert(out@ =~= copy_header_bytes() + game_records_bytes(batch));
    }
    let mut part = copy_trailer();
    out.append(&mut part);
    proof {
        assert(out@ =~= games_copy_bytes(batch));
    }
    out
}

/// One `game_position` tuple: 4 fields in table order; the reply is NULL on
/// the terminal row.
pub open spec fn position_record_bytes(p: GamePositionRowV) -> Seq<u8> {
    be16(4) + field_uuid(p.game_id) + (be32(2) + be16(p.move_idx)) + field_str(p.fen) + (match p
        .next_move_uci {
        Some(u) => field_str(u),
        None => field_null(),
    })
}

pub open spec fn position_records_bytes(rows: Seq<GamePositionRowV>) -> Seq<u8>
    decreases rows.len(),
{
    if rows.len() == 0 {
        Seq::empty()
    } else {
        position_record_bytes(rows[0]) + position_records_bytes(rows.drop_first())
    }
}

/// The whole bulk load for a set of position rows.
pub open spec fn positions_copy_bytes(rows: Seq<GamePositionRowV>) -> Seq<u8> {
    copy_header_bytes() + position_records_bytes(rows) + copy_trailer_bytes()
}

/// Whether a position row fits the format: the index within `smallint`,
/// text fields under the 32-bit length prefix.
pub open spec fn position_copy_encodable(p: GamePositionRowV) -> bool {
    &&& p.move_idx <= i16::MAX
    &&& encode_utf8(p.fen).len() <= i32::MAX
    &&& match p.next_move_uci {
        Some(u) => encode_utf8(u).len() <= i32::MAX,
        None => true,
    }
}

/// Encodes position rows for the `game_position` bulk load, row by row in
/// order, between the format's header and trailer.
pub fn positions_to_bytes(rows: &Vec<GamePositionRow>) -> (r: Vec<u8>)
    requires
        forall|i: int|
            0 <= i < rows@.len() ==> position_copy_encodable(#[trigger] positions_view(rows@)[i]),
    ensures
        r@ == positions_copy_bytes(positions_view(rows@)),
{
    let ghost rws = positions_view(rows@);
    let mut out: Vec<u8> = copy_header();
    let mut i: usize = 0;
    proof {
        assert(rws.skip(0) =~= rws);
        assert(out@ + position_records_bytes(rws.skip(0)) =~= copy_header_bytes()
            + position_records_bytes(rws));
    }
    #[verifier::loop_isolation(false)]
    while i < rows.len()
        invariant
            i <= rows@.len(),
            out@ + position_records_bytes(rws.skip(i as int)) == copy_header_bytes()
                + position_records_bytes(rws),
        decreases rows@.len() - i,
    {
        let ghost rem = rws.skip(i as int);
        proof {
            assert(rem[0] == rws[i as int]);
            assert(rem.drop_first() =~= rws.skip(i as int + 1));
        }
        let p = &rows[i];
        let ghost before = out@;
        let mut part = copy_tuple(4);
        out.append(&mut part);
        let mut part = copy_uuid(p.game_id);
        out.append(&mut part);
        let mut part = copy_smallint(p.move_idx as i16);
        out.append(&mut part);
        let mut part = copy_str(p.fen.as_str());
        out.append(&mut part);
        match &p.next_move_uci {
            Some(u) => {
                let mut part = copy_str(u.as_str());
                out.append(&mut part);
            },
            None => {
                let mut part = copy_null();
                out.append(&mut part);
            },
        }
        proof {
            assert(out@ =~= before + position_record_bytes(rws[i as int]));
            assert(out@ + position_records_bytes(rws.skip(i as int + 1)) =~= before + (
            position_record_bytes(rem[0]) + position_records_bytes(rem.drop_first())));
        }
        i = i + 1;
    }
    proof {
        assert(rws.skip(i as int) =~= Seq::<GamePositionRowV>::empty());
        assert(out@ =~= copy_header_bytes() + position_records_bytes(rws));
    }
    let mut part = copy_trailer();
    out.append(&mut part);
    proof {
        assert(out@ =~= positions_copy_bytes(rws));
    }
    out
}

/// The shard size for the concurrent staging streams: an eighth of the
/// batch, never zero — a small batch loads in one stream rather than
/// panicking on a zero chunk size.
pub fn chunk_len(total: usize) -> (r: usize)
    ensures
        r >= 1,
        total >= 8 ==> r == total / 8,
        total < 8 ==> r == 1,
{
    if total / 8 == 0 {
        1
    } else {
        total / 8
    }
}

} // verus!
