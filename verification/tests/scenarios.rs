use neochess::errors::{PlatformError, StoreGamesError};
use neochess::fen::{Fen, Validator};
use neochess::game::{Color, NewGame};
use neochess::platform::PlatformName;
use neochess::service::Service;
use neochess::store::GameStore;
use neochess::subscription::{
    ingest_step, IngestAction, IngestEvent, IngestState, Progress,
};

fn game(white: &str, black: &str, winner: Option<Color>, black_elo: i16, pgn: &str, finished_at: u64) -> NewGame {
    NewGame::new(
        white.to_string(),
        1500,
        black.to_string(),
        black_elo,
        winner,
        PlatformName::ChessCom,
        pgn.to_string(),
        finished_at,
    )
}

fn drive_to_completion(archive_count: usize, batches_stored: usize) -> (IngestState, Vec<Progress>) {
    let mut state = IngestState::AwaitingTimestamp;
    let mut published = Vec::new();
    let mut feed = vec![
        IngestEvent::TimestampOk(None),
        IngestEvent::ArchivesOk(archive_count),
    ];
    for _ in 0..batches_stored {
        feed.push(IngestEvent::BatchStored);
    }
    feed.push(IngestEvent::StreamFinished);
    for ev in feed {
        let (next, action) = ingest_step(state, ev);
        if let Some(IngestAction::PublishProgress(p)) = action {
            published.push(p);
        }
        state = next;
    }
    (state, published)
}

#[test]
fn empty_history_yields_no_progress_and_no_rows() {
    // the platform returns no archives: the subscription completes without
    // progress items and the game table is untouched
    let mut service = Service::new(GameStore::new(), Validator);
    let (result, ticks) = service.store_games(&PlatformName::ChessCom, "fresh", Vec::new());
    assert!(result.is_ok());
    assert_eq!(ticks, 0);
    assert_eq!(service.repo().game_count(), 0);

    let (state, published) = drive_to_completion(0, 0);
    assert!(matches!(state, IngestState::Done { total: 0, processed: 0 }));
    assert!(published.is_empty());
}

#[test]
fn single_archive_with_two_games_stores_both_and_reaches_one() {
    let mut service = Service::new(GameStore::new(), Validator);
    let a = game("u", "opp1", Some(Color::White), 1400, "1. e4 1-0", 100);
    let b = game("u", "opp2", None, 1600, "1. d4 1/2-1/2", 200);
    let (result, ticks) = service.store_games(
        &PlatformName::ChessCom,
        "u",
        vec![Ok(vec![a, b])],
    );
    assert!(result.is_ok());
    assert_eq!(ticks, 1);
    assert_eq!(service.repo().game_count(), 2);

    let (state, published) = drive_to_completion(1, 1);
    assert!(matches!(state, IngestState::Done { total: 1, processed: 1 }));
    let last = published.last().unwrap();
    let fraction = last.processed as f64 / (last.total as f64).max(1.0);
    assert_eq!(fraction, 1.0);
}

#[test]
fn re_ingesting_the_same_batch_changes_no_row_counts() {
    let mut store = GameStore::new();
    let batch = vec![
        game("u", "opp1", Some(Color::White), 1400, "1. e4 1-0", 100),
        game("u", "opp2", None, 1600, "1. d4 1/2-1/2", 200),
    ];
    let first = store.save_games_distributed(&batch);
    assert_eq!(first.len(), 2);
    let games_before = store.game_count();
    let positions_before = store.position_count();

    let second = store.save_games_distributed(&batch);
    assert_eq!(second.len(), 0);
    assert_eq!(store.game_count(), games_before);
    assert_eq!(store.position_count(), positions_before);
}

#[test]
fn aggregation_groups_wins_draws_and_averages() {
    // two games from the initial position where the user played e4 as
    // white: one win against 1400, one draw against 1600
    let mut store = GameStore::new();
    let batch = vec![
        game("u", "opp1", Some(Color::White), 1400, "1. e4 1-0", 100),
        game("u", "opp2", None, 1600, "1. e4 1/2-1/2", 200),
    ];
    store.save_games_distributed(&batch);

    let fen = Fen::new_unchecked("rnbqkbnr/pppppppp/8/8/8/8/PPPPPPPP/RNBQKBNR w KQkq - 0 1");
    let stats = store
        .get_move_stats(&fen, "u", &Color::White, &PlatformName::ChessCom, None, None)
        .unwrap();
    assert_eq!(stats.len(), 1);
    let s = &stats[0];
    assert_eq!(s.move_uci(), "e2e4");
    assert_eq!(*s.total(), 2);
    assert_eq!(*s.wins(), 1);
    assert_eq!(*s.draws(), 1);
    assert_eq!(*s.avg_opponent_elo(), 1500);
    assert_eq!(*s.last_played_at(), 200);
    assert!(*s.wins() + *s.draws() <= *s.total());
}

#[test]
fn aggregation_respects_window_and_side() {
    let mut store = GameStore::new();
    let batch = vec![
        game("u", "opp1", Some(Color::White), 1400, "1. e4 1-0", 100),
        game("u", "opp2", None, 1600, "1. e4 1/2-1/2", 200),
    ];
    store.save_games_distributed(&batch);
    let fen = Fen::new_unchecked("rnbqkbnr/pppppppp/8/8/8/8/PPPPPPPP/RNBQKBNR w KQkq - 0 1");

    // window keeps only the first game
    let stats = store
        .get_move_stats(&fen, "u", &Color::White, &PlatformName::ChessCom, None, Some(150))
        .unwrap();
    assert_eq!(stats.len(), 1);
    assert_eq!(*stats[0].total(), 1);
    assert_eq!(*stats[0].wins(), 1);
    assert_eq!(*stats[0].last_played_at(), 100);

    // the user never played black
    let stats = store
        .get_move_stats(&fen, "u", &Color::Black, &PlatformName::ChessCom, None, None)
        .unwrap();
    assert!(stats.is_empty());
}

#[test]
fn bad_pgn_keeps_the_game_but_no_positions() {
    // one of three games has an illegal mainline move: all three game rows
    // land, position rows exist only for the two valid games
    let mut store = GameStore::new();
    let batch = vec![
        game("u", "opp1", Some(Color::White), 1400, "1. e4 e5 1-0", 100),
        game("u", "opp2", None, 1500, "1. e4 Ke7 1-0", 200),
        game("u", "opp3", Some(Color::Black), 1600, "1. d4 d5 0-1", 300),
    ];
    let ids = store.save_games_distributed(&batch);
    assert_eq!(ids.len(), 3);
    assert_eq!(store.game_count(), 3);
    // each valid two-move game expands to 3 rows; the bad one to none
    assert_eq!(store.position_count(), 6);

    // per stored game the rows run 0..N with exactly the terminal reply NULL
    for gid in [ids[0], ids[2]] {
        let rows: Vec<_> = store.positions().iter().filter(|p| p.game_id == gid).collect();
        assert_eq!(rows.len(), 3);
        for (k, row) in rows.iter().enumerate() {
            assert_eq!(row.move_idx, k);
            assert_eq!(row.next_move_uci.is_none(), k == rows.len() - 1);
        }
    }
    assert!(store.positions().iter().all(|p| p.game_id != ids[1]));
}

#[test]
fn stream_error_aborts_after_consumed_batches() {
    let mut store = GameStore::new();
    let batches: Vec<Result<Vec<NewGame>, PlatformError>> = vec![
        Ok(vec![game("u", "opp1", None, 1400, "1. e4 1-0", 100)]),
        Err(PlatformError::NetworkError("unreachable".to_string())),
        Ok(vec![game("u", "opp2", None, 1500, "1. d4 1-0", 200)]),
    ];
    let (result, ticks) = store.store_games(batches);
    assert!(matches!(
        result,
        Err(StoreGamesError::PlatformError(PlatformError::NetworkError(_)))
    ));
    assert_eq!(ticks, 1);
    // only the batch before the error was persisted
    assert_eq!(store.game_count(), 1);
}

#[test]
fn dedup_is_by_natural_key_not_by_batch() {
    let mut store = GameStore::new();
    store.save_games_distributed(&vec![game("u", "opp", None, 1400, "1. e4 1-0", 100)]);
    // same key in a later batch is skipped; a different finish instant is new
    let ids = store.save_games_distributed(&vec![
        game("u", "opp", None, 1400, "1. e4 1-0", 100),
        game("u", "opp", None, 1400, "1. e4 1-0", 101),
    ]);
    assert_eq!(ids.len(), 1);
    assert_eq!(store.game_count(), 2);
}

#[test]
fn progress_events_are_monotone_on_failure_free_runs() {
    let (_, published) = drive_to_completion(4, 4);
    assert_eq!(published.len(), 4);
    for w in published.windows(2) {
        assert!(w[0].processed <= w[1].processed);
        assert_eq!(w[0].total, w[1].total);
    }
    assert_eq!(published.last().unwrap(), &Progress { processed: 4, total: 4 });
}

#[test]
fn repository_error_is_published_and_terminates() {
    let (state, action) = ingest_step(
        IngestState::AwaitingTimestamp,
        IngestEvent::TimestampFailed(neochess::errors::GameRepositoryError::DatabaseError(
            "down".to_string(),
        )),
    );
    assert!(matches!(state, IngestState::Failed));
    assert!(matches!(action, Some(IngestAction::PublishError(_))));
}
