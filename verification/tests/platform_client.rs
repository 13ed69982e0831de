use neochess::chesscom::{
    compute_winner, filter_archives_by_timestamp, handle_archive_outcome, handle_archives_index,
    new_game_from_record, plan_fetch, ArchiveFetchOutcome, ArchivesIndexOutcome, GameRecord,
    PlayerRecord,
};
use neochess::errors::PlatformError;
use neochess::game::Color;
use neochess::platform::{resolve_client, PlatformName};

#[test]
fn test_filter_archives_by_timestamp_filters_correctly() {
    // Example archives: year/month at the end
    let archives = vec![
        "https://api.chess.com/pub/player/test/games/2024/03".to_string(),
        "https://api.chess.com/pub/player/test/games/2024/04".to_string(),
        "https://api.chess.com/pub/player/test/games/2024/05".to_string(),
        "https://api.chess.com/pub/player/test/games/2024/06".to_string(),
    ];
    // Timestamp for 2024-05-01
    let from_timestamp = chrono::NaiveDate::from_ymd_opt(2024, 5, 1)
        .unwrap()
        .and_hms_opt(0, 0, 0)
        .unwrap()
        .and_utc()
        .timestamp_millis() as u64
        / 1000;

    let filtered = filter_archives_by_timestamp(archives, from_timestamp);

    assert!(
        filtered
            .iter()
            .all(|url| url.contains("2024/05") || url.contains("2024/06"))
    );
    assert_eq!(filtered.len(), 2);
}

#[test]
fn archives_of_a_later_year_with_an_earlier_month_are_kept() {
    // the boundary is the (year, month) pair, compared as a pair
    let archives = vec![
        "https://api.chess.com/pub/player/test/games/2024/12".to_string(),
        "https://api.chess.com/pub/player/test/games/2025/01".to_string(),
    ];
    // 2024-12-15
    let from_timestamp = 1734220800u64;
    let filtered = filter_archives_by_timestamp(archives, from_timestamp);
    assert_eq!(filtered.len(), 2);
}

#[test]
fn plan_fetch_counts_what_it_keeps() {
    let archives = vec![
        "https://api.chess.com/pub/player/test/games/2024/03".to_string(),
        "https://api.chess.com/pub/player/test/games/2024/06".to_string(),
    ];
    // 2024-05-01
    let (count, kept) = plan_fetch(archives, Some(1714521600));
    assert_eq!(count, 1);
    assert_eq!(kept, vec!["https://api.chess.com/pub/player/test/games/2024/06".to_string()]);

    let archives = vec!["x".to_string(), "y".to_string()];
    let (count, kept) = plan_fetch(archives.clone(), None);
    assert_eq!(count, 2);
    assert_eq!(kept, archives);
}

#[test]
fn winner_extraction_is_case_insensitive() {
    assert_eq!(compute_winner("WIN", "timeout"), Some(Color::White));
    assert_eq!(compute_winner("resigned", "Win"), Some(Color::Black));
    assert_eq!(compute_winner("agreed", "agreed"), None);
    // a tag that merely contains "win" is no win
    assert_eq!(compute_winner("winner", "unwind"), None);
}

fn record(white_result: &str, black_result: &str) -> GameRecord {
    GameRecord {
        pgn: Some("1. e4 1-0".to_string()),
        end_time: 1700000000,
        white: PlayerRecord { username: "w".to_string(), rating: 1812, result: white_result.to_string() },
        black: PlayerRecord { username: "b".to_string(), rating: 70000, result: black_result.to_string() },
    }
}

#[test]
fn upstream_record_maps_onto_new_game() {
    let g = new_game_from_record(record("win", "checkmated"));
    assert_eq!(g.white(), "w");
    assert_eq!(*g.white_elo(), 1812);
    assert_eq!(g.black(), "b");
    // a rating beyond the 16-bit column wraps as the narrowing cast wraps
    assert_eq!(*g.black_elo(), 70000u32 as i16);
    assert_eq!(g.winner(), Some(&Color::White));
    assert_eq!(g.pgn(), "1. e4 1-0");
    assert_eq!(*g.finished_at(), 1700000000);
}

#[test]
fn missing_pgn_becomes_empty_text() {
    let mut rec = record("draw", "draw");
    rec.pgn = None;
    let g = new_game_from_record(rec);
    assert_eq!(g.pgn(), "");
    assert_eq!(g.winner(), None);
}

#[test]
fn transport_error_terminates_the_stream() {
    let (item, stop) =
        handle_archive_outcome(ArchiveFetchOutcome::TransportError("refused".to_string()));
    assert!(matches!(item, Err(PlatformError::ApiError(_))));
    assert!(stop);
}

#[test]
fn failure_status_reads_as_empty_archive() {
    let (item, stop) = handle_archive_outcome(ArchiveFetchOutcome::HttpStatusError);
    assert_eq!(item.unwrap().len(), 0);
    assert!(!stop);
}

#[test]
fn undecodable_archive_terminates_with_parse_error() {
    let (item, stop) =
        handle_archive_outcome(ArchiveFetchOutcome::BodyParseError("bad json".to_string()));
    assert!(matches!(item, Err(PlatformError::ParseError(_))));
    assert!(stop);
}

#[test]
fn decoded_archive_maps_all_records() {
    let (item, stop) = handle_archive_outcome(ArchiveFetchOutcome::Games(vec![
        record("win", "resigned"),
        record("stalemate", "stalemate"),
    ]));
    let games = item.unwrap();
    assert_eq!(games.len(), 2);
    assert_eq!(games[0].winner(), Some(&Color::White));
    assert_eq!(games[1].winner(), None);
    assert!(!stop);
}

#[test]
fn archives_index_outcomes_map_onto_the_error_taxonomy() {
    assert!(matches!(
        handle_archives_index(ArchivesIndexOutcome::TransportError("x".to_string())),
        Err(PlatformError::NetworkError(_))
    ));
    assert!(matches!(
        handle_archives_index(ArchivesIndexOutcome::HttpStatusError("403".to_string())),
        Err(PlatformError::ApiError(_))
    ));
    assert!(matches!(
        handle_archives_index(ArchivesIndexOutcome::BodyParseError("x".to_string())),
        Err(PlatformError::ParseError(_))
    ));
    let urls = vec!["a".to_string()];
    assert_eq!(handle_archives_index(ArchivesIndexOutcome::Archives(urls.clone())).unwrap(), urls);
}

#[test]
fn unregistered_platform_yields_not_found() {
    let registered = vec![PlatformName::ChessCom];
    assert!(matches!(resolve_client(&registered, &PlatformName::ChessCom), Ok(0)));
    let none: Vec<PlatformName> = Vec::new();
    match resolve_client(&none, &PlatformName::ChessCom) {
        Err(PlatformError::PlatformNotFound(name)) => assert_eq!(name, "ChessCom"),
        other => panic!("expected a not-found error, got {:?}", other),
    }
}
