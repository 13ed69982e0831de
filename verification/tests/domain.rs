use neochess::errors::InvalidFenError;
use neochess::expand::{expand_pgn, PositionMetadata, PositionVisitor};
use neochess::fen::{Fen, Validator};

#[test]
fn test_create_fen_success() {
    let fen_str = "rnbqkbnr/pppppppp/8/8/8/8/PPPPPPPP/RNBQKBNR w KQkq - 0 1";

    let expected = Ok(Fen::new_unchecked(fen_str));

    let actual = Fen::new(fen_str, &Validator);

    assert_eq!(expected, actual);
}

#[test]
fn test_create_fen_failure() {
    let fen_str = "rnbqkbnr/pp1ppppp/8/2pB1R b KQkq - 1 2";

    let expected = Err(InvalidFenError);

    let actual = Fen::new(fen_str, &Validator);

    assert_eq!(expected, actual);
}

fn meta(fen: &str, uci: Option<&str>) -> PositionMetadata {
    PositionMetadata { fen: Fen::new_unchecked(fen), next_move_uci: uci.map(|u| u.to_string()) }
}

#[test]
fn test_pgn_success() {
    let pgn = r#"
            [Event "?"]
            [Site "?"]
            [Date "????.??.??"]
            [Round "?"]
            [White "?"]
            [Black "?"]
            [Result "1-0"]
            [Link "https://www.chess.com/terms/scholars-mate-chess"]

            1. e4 e5 2. Bc4 Nc6 3. Qh5 g6 {This is a great defensive move by Black.
            It defends the weak f7-pawn, prepares to fianchetto the bishop, starts clearing
            the way for the black king to castle, and also attacks the white queen.} 4. Qf3
            {The queen retreats, but notice how it still aims at the weak f7-pawn.} 4... Bg7
            {If Black is not careful, White can end the game in an instant.} 5. Qxf7# 1-0"#;

    let expected = Ok(vec![
        meta("rnbqkbnr/pppppppp/8/8/8/8/PPPPPPPP/RNBQKBNR w KQkq - 0 1", Some("e2e4")),
        meta("rnbqkbnr/pppppppp/8/8/4P3/8/PPPP1PPP/RNBQKBNR b KQkq e3 0 1", Some("e7e5")),
        meta("rnbqkbnr/pppp1ppp/8/4p3/4P3/8/PPPP1PPP/RNBQKBNR w KQkq e6 0 2", Some("f1c4")),
        meta("rnbqkbnr/pppp1ppp/8/4p3/2B1P3/8/PPPP1PPP/RNBQK1NR b KQkq - 1 2", Some("b8c6")),
        meta("r1bqkbnr/pppp1ppp/2n5/4p3/2B1P3/8/PPPP1PPP/RNBQK1NR w KQkq - 2 3", Some("d1h5")),
        meta("r1bqkbnr/pppp1ppp/2n5/4p2Q/2B1P3/8/PPPP1PPP/RNB1K1NR b KQkq - 3 3", Some("g7g6")),
        meta("r1bqkbnr/pppp1p1p/2n3p1/4p2Q/2B1P3/8/PPPP1PPP/RNB1K1NR w KQkq - 0 4", Some("h5f3")),
        meta("r1bqkbnr/pppp1p1p/2n3p1/4p3/2B1P3/5Q2/PPPP1PPP/RNB1K1NR b KQkq - 1 4", Some("f8g7")),
        meta("r1bqk1nr/pppp1pbp/2n3p1/4p3/2B1P3/5Q2/PPPP1PPP/RNB1K1NR w KQkq - 2 5", Some("f3f7")),
        meta("r1bqk1nr/pppp1Qbp/2n3p1/4p3/2B1P3/8/PPPP1PPP/RNB1K1NR b KQkq - 0 5", None),
    ]);

    let actual = PositionVisitor::new(pgn.to_string()).expand();

    assert_eq!(actual, expected);
}

#[test]
fn test_pgn_failure() {
    let pgn = r#"
            [Event "?"]
            [Site "?"]
            [Date "????.??.??"]
            [Round "?"]
            [White "?"]
            [Black "?"]
            [Result "1-0"]

            1. e4 e5 2. Bc4 Nc6 3. Qh5 g6 4. Qf3 5. Qxf7# 1-0"#;

    let actual_fens = PositionVisitor::new(pgn.to_string()).expand();

    assert!(actual_fens.is_err());
}

#[test]
fn empty_movetext_expands_to_single_terminal_row() {
    let rows = expand_pgn("").unwrap();
    assert_eq!(rows.len(), 1);
    assert_eq!(
        rows[0],
        meta("rnbqkbnr/pppppppp/8/8/8/8/PPPPPPPP/RNBQKBNR w KQkq - 0 1", None)
    );
}

#[test]
fn variations_are_skipped_and_mainline_kept() {
    let rows = expand_pgn("1. e4 (1. d4 d5) 1... e5 *").unwrap();
    assert_eq!(rows.len(), 3);
    assert_eq!(rows[0].next_move_uci.as_deref(), Some("e2e4"));
    assert_eq!(rows[1].next_move_uci.as_deref(), Some("e7e5"));
    assert_eq!(rows[2].next_move_uci, None);
}

#[test]
fn promotion_and_castling_are_encoded_per_uci() {
    // a short game reaching a promotion: UCI carries the promoted piece
    let rows = expand_pgn("1. h4 g5 2. hxg5 Bg7 3. g6 Bxb2 4. gxh7 Bxa1 5. hxg8=Q *").unwrap();
    let last_move = rows[rows.len() - 2].next_move_uci.as_deref();
    assert_eq!(last_move, Some("h7g8q"));

    let rows = expand_pgn("1. e4 e5 2. Nf3 Nc6 3. Bc4 Bc5 4. O-O *").unwrap();
    let castle = rows[rows.len() - 2].next_move_uci.as_deref();
    assert_eq!(castle, Some("e1g1"));
}
