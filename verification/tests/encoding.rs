use neochess::copy::{chunk_len, games_to_bytes, positions_to_bytes};
use neochess::fen::Fen;
use neochess::game::{Color, NewGame};
use neochess::platform::PlatformName;
use neochess::store::GamePositionRow;

#[test]
fn game_batch_encodes_to_the_exact_wire_bytes() {
    // one game whose finish instant is 2000-01-01, the wire epoch, so the
    // timestamp field is zero
    let g = NewGame::new(
        "a".to_string(),
        1,
        "b".to_string(),
        2,
        None,
        PlatformName::ChessCom,
        String::new(),
        946_684_800,
    );
    let bytes = games_to_bytes(&vec![g]);

    let mut expected: Vec<u8> = Vec::new();
    expected.extend_from_slice(b"PGCOPY\n\xff\r\n\0");
    expected.extend_from_slice(&[0, 0, 0, 0, 0, 0, 0, 0]); // flags, extension
    expected.extend_from_slice(&[0, 8]); // 8 fields
    expected.extend_from_slice(&[0, 0, 0, 1, b'a']);
    expected.extend_from_slice(&[0, 0, 0, 2, 0, 1]);
    expected.extend_from_slice(&[0, 0, 0, 1, b'b']);
    expected.extend_from_slice(&[0, 0, 0, 2, 0, 2]);
    expected.extend_from_slice(&[0xff, 0xff, 0xff, 0xff]); // NULL winner
    expected.extend_from_slice(&[0, 0, 0, 8]);
    expected.extend_from_slice(b"ChessCom");
    expected.extend_from_slice(&[0, 0, 0, 0]); // empty pgn
    expected.extend_from_slice(&[0, 0, 0, 8, 0, 0, 0, 0, 0, 0, 0, 0]); // epoch instant
    expected.extend_from_slice(&[0xff, 0xff]); // trailer

    assert_eq!(bytes, expected);
}

#[test]
fn winner_and_negative_rating_encode_in_twos_complement() {
    let g = NewGame::new(
        "a".to_string(),
        -1,
        "b".to_string(),
        2,
        Some(Color::White),
        PlatformName::ChessCom,
        String::new(),
        946_684_801,
    );
    let bytes = games_to_bytes(&vec![g]);
    // the -1 rating field
    let needle: &[u8] = &[0, 0, 0, 2, 0xff, 0xff];
    assert!(bytes.windows(needle.len()).any(|w| w == needle));
    // the winner column text
    let needle: &[u8] = b"White";
    assert!(bytes.windows(needle.len()).any(|w| w == needle));
    // one second past the wire epoch: 1_000_000 microseconds
    let micros: &[u8] = &[0, 0, 0, 8, 0, 0, 0, 0, 0, 0x0f, 0x42, 0x40];
    assert!(bytes.windows(micros.len()).any(|w| w == micros));
}

#[test]
fn position_rows_encode_to_the_exact_wire_bytes() {
    let row = GamePositionRow {
        game_id: 1,
        move_idx: 0,
        fen: Fen::new_unchecked("f"),
        next_move_uci: None,
    };
    let bytes = positions_to_bytes(&vec![row]);

    let mut expected: Vec<u8> = Vec::new();
    expected.extend_from_slice(b"PGCOPY\n\xff\r\n\0");
    expected.extend_from_slice(&[0, 0, 0, 0, 0, 0, 0, 0]);
    expected.extend_from_slice(&[0, 4]); // 4 fields
    expected.extend_from_slice(&[0, 0, 0, 16]);
    expected.extend_from_slice(&[0, 0, 0, 0, 0, 0, 0, 0, 0, 0, 0, 0, 0, 0, 0, 1]); // uuid
    expected.extend_from_slice(&[0, 0, 0, 2, 0, 0]); // move_idx 0
    expected.extend_from_slice(&[0, 0, 0, 1, b'f']);
    expected.extend_from_slice(&[0xff, 0xff, 0xff, 0xff]); // NULL reply
    expected.extend_from_slice(&[0xff, 0xff]);

    assert_eq!(bytes, expected);
}

#[test]
fn reply_field_is_text_when_present() {
    let row = GamePositionRow {
        game_id: 2,
        move_idx: 3,
        fen: Fen::new_unchecked("f"),
        next_move_uci: Some("e2e4".to_string()),
    };
    let bytes = positions_to_bytes(&vec![row]);
    let needle: &[u8] = &[0, 0, 0, 4, b'e', b'2', b'e', b'4'];
    assert!(bytes.windows(needle.len()).any(|w| w == needle));
    let idx: &[u8] = &[0, 0, 0, 2, 0, 3];
    assert!(bytes.windows(idx.len()).any(|w| w == idx));
}

#[test]
fn chunking_never_yields_an_empty_chunk() {
    assert_eq!(chunk_len(0), 1);
    assert_eq!(chunk_len(7), 1);
    assert_eq!(chunk_len(8), 1);
    assert_eq!(chunk_len(80), 10);
    assert_eq!(chunk_len(81), 10);
}
