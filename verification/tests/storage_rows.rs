use vincite::error::AppError;
use vincite::game::game::{Game, GameStatus, Player, PlayerId};
use vincite::game::game_state::GameState;
use vincite::game::rules::initial_state;
use vincite::rows::{assemble_games, build_game, GamePlayerRow, GameRow, PlayerRow};

fn state_for(owners: &[u128]) -> GameState {
    let ids: Vec<PlayerId> = owners.iter().map(|o| PlayerId::from_uuid(*o)).collect();
    initial_state(&ids).unwrap()
}

fn game_row(id: u128, status: &str, max: i16) -> GameRow {
    GameRow { id, status: status.to_string(), state: Ok(state_for(&[1])), maximum_players: max, created_at: 0 }
}

fn member(game_id: u128, id: u128, name: &str, is_host: bool) -> GamePlayerRow {
    GamePlayerRow { game_id, id, name: name.to_string(), is_host }
}

fn message_of(r: Result<Game, AppError>) -> String {
    match r {
        Err(AppError::InvalidData { message }) => message,
        Err(other) => panic!("unexpected error {:?}", other),
        Ok(_) => panic!("expected an error"),
    }
}

#[test]
fn player_from_row() {
    let p: Player = PlayerRow { id: 77, name: "zed".to_string() }.into();
    assert_eq!(p.id, PlayerId::from_uuid(77));
    assert_eq!(p.name, "zed");
}

#[test]
fn build_game_rebuilds_roster_in_order() {
    let rows = vec![member(5, 2, "b", false), member(5, 1, "a", true), member(5, 3, "c", true)];
    let game = build_game(game_row(5, "Running", 3), rows).unwrap();
    assert_eq!(game.host(), PlayerId::from_uuid(1));
    assert_eq!(game.status(), GameStatus::Running);
    assert_eq!(game.players().len(), 3);
    assert_eq!(game.players()[0].name, "b");
    assert_eq!(game.players()[2].id, PlayerId::from_uuid(3));
    assert_eq!(game.max_players(), 3);
}

#[test]
fn build_game_without_host_fails_first() {
    let r = build_game(game_row(5, "nonsense", -4), vec![member(5, 1, "a", false)]);
    assert_eq!(message_of(r), "game has no host");
}

#[test]
fn build_game_with_unknown_status_fails() {
    let r = build_game(game_row(5, "Paused", 3), vec![member(5, 1, "a", true)]);
    assert_eq!(message_of(r), "invalid game status: Paused");
}

#[test]
fn build_game_with_undecodable_state_fails() {
    let mut row = game_row(5, "Open", 3);
    row.state = Err("expected value at line 1 column 1".to_string());
    let r = build_game(row, vec![member(5, 1, "a", true)]);
    assert_eq!(message_of(r), "expected value at line 1 column 1");
}

#[test]
fn build_game_with_limit_outside_u8_fails() {
    let r = build_game(game_row(5, "Open", 300), vec![member(5, 1, "a", true)]);
    assert!(!message_of(r).is_empty());
    let r = build_game(game_row(5, "Open", -1), vec![member(5, 1, "a", true)]);
    assert!(!message_of(r).is_empty());
}

#[test]
fn build_game_checks_roster_size() {
    let rows = vec![member(5, 1, "a", true), member(5, 2, "b", false)];
    let r = build_game(game_row(5, "Open", 1), rows);
    assert_eq!(message_of(r), "game has 2 players but allows at most 1");
}

#[test]
fn assemble_games_shares_rosters_by_game() {
    let games = vec![game_row(10, "Open", 4), game_row(20, "Running", 4)];
    let rows = vec![
        member(20, 1, "ann", true),
        member(10, 4, "bob", false),
        member(10, 1, "cy", true),
        member(20, 6, "dee", false),
    ];
    let built = assemble_games(games, rows).unwrap();
    assert_eq!(built.len(), 2);
    assert_eq!(built[0].players().len(), 2);
    assert_eq!(built[0].players()[0].name, "bob");
    assert_eq!(built[1].players().len(), 2);
    assert_eq!(built[1].players()[1].name, "dee");
    assert_eq!(built[1].status(), GameStatus::Running);
}

#[test]
fn assemble_games_of_nothing_is_empty() {
    assert!(assemble_games(Vec::new(), Vec::new()).unwrap().is_empty());
}

#[test]
fn assemble_games_stops_at_first_bad_game() {
    let games = vec![game_row(10, "Open", 4), game_row(20, "Bogus", 4), game_row(30, "Open", 4)];
    let rows = vec![member(10, 1, "a", true), member(20, 1, "a", true)];
    match assemble_games(games, rows) {
        Err(AppError::InvalidData { message }) => assert_eq!(message, "invalid game status: Bogus"),
        _ => panic!("expected the second game's error"),
    }
}

#[test]
fn assemble_games_gives_repeated_id_no_roster() {
    let games = vec![game_row(10, "Open", 4), game_row(10, "Open", 4)];
    let rows = vec![member(10, 1, "a", true)];
    match assemble_games(games, rows) {
        Err(AppError::InvalidData { message }) => assert_eq!(message, "game has no host"),
        _ => panic!("expected the repeated game to lack a host"),
    }
}
