use neochess::fen::Validator;
use neochess::game::{Color, MoveStat, NewGame};
use neochess::game_update_cache::{GameUpdateCache, GameUpdateIdentifier, SubscribeOutcome};
use neochess::graphql_dto::{GraphQLColor, GraphQLMoveStat, GraphQLPlatformName};
use neochess::mutation::should_refetch;
use neochess::platform::PlatformName;
use neochess::query::{GetMoveStatsError, Query};
use neochess::service::Service;
use neochess::store::GameStore;

#[test]
fn concurrent_subscribers_share_one_producer() {
    // two subscriptions for the same (user, platform): the first starts the
    // producer, the second attaches to the same channel and starts nothing
    let mut cache = GameUpdateCache::new();
    let first = cache.subscribe(GameUpdateIdentifier::new(
        "u".to_string(),
        GraphQLPlatformName::ChessCom,
    ));
    let second = cache.subscribe(GameUpdateIdentifier::new(
        "u".to_string(),
        GraphQLPlatformName::ChessCom,
    ));
    assert_eq!(first, SubscribeOutcome::Started(1));
    assert_eq!(second, SubscribeOutcome::Attached(1));
    assert_eq!(cache.len(), 1);

    // a different user gets a producer of its own
    let other = cache.subscribe(GameUpdateIdentifier::new(
        "v".to_string(),
        GraphQLPlatformName::ChessCom,
    ));
    assert_eq!(other, SubscribeOutcome::Started(2));
    assert_eq!(cache.len(), 2);
}

#[test]
fn refetch_requires_a_mark_a_day_ahead_of_the_clock() {
    // the stored mark, in seconds, is compared against the clock in
    // milliseconds; only a mark far ahead of the clock triggers a refetch
    assert!(!should_refetch(1_700_000_000, 1_700_000_000_000));
    assert!(!should_refetch(0, 0));
    assert!(should_refetch(86_400_001, 0));
    assert!(!should_refetch(86_400_000, 0));
}

fn loaded_service() -> Service<Validator> {
    let mut store = GameStore::new();
    store.save_games_distributed(&vec![
        NewGame::new(
            "u".to_string(),
            1500,
            "opp1".to_string(),
            1400,
            Some(Color::White),
            PlatformName::ChessCom,
            "1. e4 1-0".to_string(),
            100,
        ),
        NewGame::new(
            "u".to_string(),
            1500,
            "opp2".to_string(),
            1600,
            None,
            PlatformName::ChessCom,
            "1. e4 1/2-1/2".to_string(),
            200,
        ),
    ]);
    Service::new(store, Validator)
}

#[test]
fn query_resolves_statistics_for_a_valid_encoding() {
    let service = loaded_service();
    let stats = Query::get_move_stats(
        &service,
        "rnbqkbnr/pppppppp/8/8/8/8/PPPPPPPP/RNBQKBNR w KQkq - 0 1".to_string(),
        "u".to_string(),
        GraphQLColor::White,
        GraphQLPlatformName::ChessCom,
        None,
        None,
    )
    .unwrap();
    assert_eq!(stats.len(), 1);
    assert_eq!(stats[0].move_uci, "e2e4");
    assert_eq!(stats[0].total, 2);
    assert_eq!(stats[0].wins, 1);
    assert_eq!(stats[0].draws, 1);
    assert_eq!(stats[0].avg_opponent_elo, 1500);
    assert_eq!(stats[0].last_played_at, 200);
}

#[test]
fn query_rejects_an_invalid_encoding() {
    let service = loaded_service();
    let r = Query::get_move_stats(
        &service,
        "rnbqkbnr/pp1ppppp/8/2pB1R b KQkq - 1 2".to_string(),
        "u".to_string(),
        GraphQLColor::White,
        GraphQLPlatformName::ChessCom,
        None,
        None,
    );
    assert!(matches!(r, Err(GetMoveStatsError::InvalidFen(_))));
}

#[test]
fn latest_timestamp_is_the_maximum_over_either_side() {
    let service = loaded_service();
    let latest = service
        .get_latest_game_timestamp_seconds(&PlatformName::ChessCom, "u")
        .unwrap();
    assert_eq!(latest, Some(200));
    // the user appears as black nowhere, and strangers have no games
    let latest = service
        .get_latest_game_timestamp_seconds(&PlatformName::ChessCom, "opp1")
        .unwrap();
    assert_eq!(latest, Some(100));
    let latest = service
        .get_latest_game_timestamp_seconds(&PlatformName::ChessCom, "nobody")
        .unwrap();
    assert_eq!(latest, None);
}

#[test]
fn schema_shapes_narrow_to_32_bits() {
    let m = MoveStat::new("e2e4".to_string(), 2, 1, 1, 1500, 200);
    let g = GraphQLMoveStat::from_domain(m);
    assert_eq!(g.move_uci, "e2e4");
    assert_eq!(g.total, 2);
    assert_eq!(g.avg_opponent_elo, 1500);
    assert_eq!(g.last_played_at, 200);

    // an instant beyond the 32-bit range wraps as the narrowing cast wraps
    let m = MoveStat::new("e2e4".to_string(), 1, 0, 0, 1500, 4_000_000_000);
    let g = GraphQLMoveStat::from_domain(m);
    assert_eq!(g.last_played_at, 4_000_000_000u64 as i32);
}

#[test]
fn schema_enums_round_trip_to_domain() {
    assert_eq!(GraphQLColor::White.to_domain(), Color::White);
    assert_eq!(GraphQLColor::from_domain(Color::Black), GraphQLColor::Black);
    assert_eq!(GraphQLPlatformName::ChessCom.to_domain(), PlatformName::ChessCom);
    assert_eq!(
        GraphQLPlatformName::from_domain(PlatformName::ChessCom),
        GraphQLPlatformName::ChessCom
    );
}

#[test]
fn fen_parse_round_trips_through_the_service() {
    let service = Service::new(GameStore::new(), Validator);
    let fen = service
        .parse_fen("rnbqkbnr/pppppppp/8/8/8/8/PPPPPPPP/RNBQKBNR w KQkq - 0 1".to_string())
        .unwrap();
    assert_eq!(fen.as_str(), "rnbqkbnr/pppppppp/8/8/8/8/PPPPPPPP/RNBQKBNR w KQkq - 0 1");
    assert!(service.parse_fen("not a fen at all ???".to_string()).is_err());
}
