use std::collections::BTreeMap;
use std::time::{SystemTime, UNIX_EPOCH};
use vincite::dto::{GameDto, PlayerDto};
use vincite::error::AppError;
use vincite::game::game::{Game, GameId, GameStatus, Player, PlayerId};
use vincite::game::game_state::{Building, GameState, PlayerState, Resources, Settlement, SettlementId};
use vincite::game::rules::initial_state;

const SECOND: i128 = 1_000_000_000;
const MINUTE: i128 = 60 * SECOND;

fn player(id: u128, name: &str) -> Player {
    Player { id: PlayerId::from_uuid(id), name: name.to_string() }
}

fn invalid_data(r: Result<Game, AppError>) -> String {
    match r {
        Err(AppError::InvalidData { message }) => message,
        Err(other) => panic!("unexpected error {:?}", other),
        Ok(_) => panic!("expected an error"),
    }
}

fn is_v4(v: u128) -> bool {
    (v >> 76) & 0xf == 4 && (v >> 62) & 0x3 == 2
}

#[test]
fn fresh_ids_are_random_v4_uuids() {
    let a = PlayerId::new().to_uuid();
    let b = PlayerId::new().to_uuid();
    assert!(is_v4(a) && is_v4(b));
    assert_ne!(a, b);
    assert!(is_v4(GameId::new().to_uuid()));
    let p = Player::new("Ada".to_string());
    assert_eq!(p.name, "Ada");
    assert!(is_v4(p.id.to_uuid()));
}

#[test]
fn ids_round_trip() {
    assert_eq!(GameId::from_uuid(12345).to_uuid(), 12345);
    assert_eq!(PlayerId::from_uuid(u128::MAX).to_uuid(), u128::MAX);
}

#[test]
fn status_names_round_trip() {
    for s in [GameStatus::Open, GameStatus::Running, GameStatus::Closed] {
        assert_eq!(GameStatus::from_str(s.as_str()).unwrap(), s);
    }
    assert_eq!(GameStatus::Running.as_str(), "Running");
}

#[test]
fn unknown_status_is_invalid_data() {
    match GameStatus::from_str("running") {
        Err(AppError::InvalidData { message }) => {
            assert_eq!(message, "invalid game status: running")
        }
        _ => panic!("expected invalid data"),
    }
    assert!(GameStatus::from_str("").is_err());
}

#[test]
fn initiate_opens_game_with_host_only() {
    let before = SystemTime::now().duration_since(UNIX_EPOCH).unwrap().as_nanos() as i128;
    let game = Game::initiate(4, player(1, "host")).unwrap();
    let after = SystemTime::now().duration_since(UNIX_EPOCH).unwrap().as_nanos() as i128;
    assert_eq!(game.status(), GameStatus::Open);
    assert_eq!(game.host(), PlayerId::from_uuid(1));
    assert_eq!(game.players().len(), 1);
    assert_eq!(game.players()[0].name, "host");
    assert_eq!(game.max_players(), 4);
    assert!(game.persisted_state().is_none());
    assert!(is_v4(game.id().to_uuid()));
    assert!(before - SECOND <= game.created_at() && game.created_at() <= after + SECOND);
}

#[test]
fn state_at_before_start_fails() {
    let mut game = Game::initiate(4, player(1, "host")).unwrap();
    let now = game.created_at();
    match game.state_at(now) {
        Err(AppError::InvalidState { message }) => assert_eq!(message, "game has not started"),
        _ => panic!("expected invalid state"),
    }
}

#[test]
fn start_founds_settlements_and_runs() {
    let opened = Game::initiate(4, player(1, "host")).unwrap();
    let mut game = Game::restore(opened.id(), GameStatus::Open, opened.host(),
        vec![player(1, "host"), player(2, "guest")], running_state(1), 4, opened.created_at())
        .unwrap();
    game.start().unwrap();
    assert_eq!(game.status(), GameStatus::Running);
    let state = game.persisted_state().unwrap();
    assert_eq!(state.tick, 0);
    assert_eq!(state.settlements.len(), 2);
    assert_eq!(state.settlements[1].owner, PlayerId::from_uuid(2));
    assert_eq!(state.settlements[1].name, "London");
    assert!(state.is_initialized());
}

#[test]
fn state_at_advances_and_keeps_state() {
    let mut game = Game::initiate(4, player(1, "host")).unwrap();
    game.start().unwrap();
    let created = game.created_at();
    // Give the first settlement a sawmill at level 3.
    let mut state = initial_state(&[PlayerId::from_uuid(1)]).unwrap();
    state.settlements[0].building_levels.insert(Building::Sawmill.ordinal(), 3);
    game = Game::restore(
        game.id(),
        GameStatus::Running,
        game.host(),
        vec![player(1, "host")],
        state,
        4,
        created,
    )
    .unwrap();
    let s = game.state_at(created + 5 * MINUTE + 30 * SECOND).unwrap();
    assert_eq!(s.tick, 5);
    assert_eq!(s.settlements[0].stock, Resources::new(200 + 5 * 30, 200, 200, 200));
    // Reading at an earlier instant changes nothing.
    let s = game.state_at(created + MINUTE).unwrap();
    assert_eq!(s.tick, 5);
    assert_eq!(game.persisted_state().unwrap().settlements[0].stock.wood, 350);
}

#[test]
fn reading_twice_equals_reading_once() {
    let make = || {
        let mut state = initial_state(&[PlayerId::from_uuid(1)]).unwrap();
        state.settlements[0].building_levels.insert(Building::Farm.ordinal(), 2);
        Game::restore(GameId::from_uuid(9), GameStatus::Running, PlayerId::from_uuid(1),
            vec![player(1, "host")], state, 4, 0).unwrap()
    };
    let mut twice = make();
    twice.state_at(3 * MINUTE).unwrap();
    let a = twice.state_at(11 * MINUTE + 1).unwrap().settlements[0].stock;
    let mut once = make();
    let b = once.state_at(11 * MINUTE + 1).unwrap().settlements[0].stock;
    assert_eq!(a, b);
    assert_eq!(a, Resources::new(200 + 11 * 20, 200, 200, 200 + 11 * 20));
}

fn running_state(owner: u128) -> GameState {
    initial_state(&[PlayerId::from_uuid(owner)]).unwrap()
}

#[test]
fn restore_accepts_consistent_game() {
    let game = Game::restore(
        GameId::from_uuid(3),
        GameStatus::Running,
        PlayerId::from_uuid(1),
        vec![player(1, "a"), player(2, "b")],
        running_state(1),
        2,
        0,
    )
    .unwrap();
    assert_eq!(game.id(), GameId::from_uuid(3));
    assert_eq!(game.players().len(), 2);
    assert_eq!(game.max_players(), 2);
    assert!(game.persisted_state().is_some());
}

#[test]
fn restore_rejects_running_game_without_state() {
    let empty = GameState { tick: 0, players: BTreeMap::new(), settlements: Vec::new() };
    match Game::restore(GameId::from_uuid(3), GameStatus::Running, PlayerId::from_uuid(9),
        vec![], empty, 0, 0) {
        Err(AppError::InvalidState { message }) => {
            assert_eq!(message, "Game is running, but state is not initialized")
        }
        _ => panic!("expected invalid state"),
    }
}

#[test]
fn restore_open_game_may_lack_state() {
    let empty = GameState { tick: 0, players: BTreeMap::new(), settlements: Vec::new() };
    let g = Game::restore(GameId::from_uuid(3), GameStatus::Open, PlayerId::from_uuid(1),
        vec![player(1, "a")], empty, 3, 0);
    assert!(g.is_ok());
}

#[test]
fn restore_rejects_host_outside_roster() {
    let r = Game::restore(GameId::from_uuid(3), GameStatus::Open, PlayerId::from_uuid(9),
        vec![player(1, "a")], running_state(1), 3, 0);
    assert_eq!(invalid_data(r), "host is not a player in the game");
}

#[test]
fn restore_rejects_overfull_roster() {
    let r = Game::restore(GameId::from_uuid(3), GameStatus::Open, PlayerId::from_uuid(1),
        vec![player(1, "a"), player(2, "b"), player(3, "c")], running_state(1), 2, 0);
    assert_eq!(invalid_data(r), "game has 3 players but allows at most 2");
    let r = Game::restore(GameId::from_uuid(3), GameStatus::Open, PlayerId::from_uuid(1),
        (0..12).map(|i| player(i + 1, "p")).collect(), running_state(1), 10, 0);
    assert_eq!(invalid_data(r), "game has 12 players but allows at most 10");
}

#[test]
fn dto_conversions_keep_ids() {
    let game = Game::initiate(2, player(1, "host")).unwrap();
    let id = game.id();
    let dto: GameDto = game.into();
    assert_eq!(dto.id, id);
    assert_eq!(dto.status, GameStatus::Open);
    let p: PlayerDto = player(8, "eve").into();
    assert_eq!(p.id, PlayerId::from_uuid(8));
    assert_eq!(p.name, "eve");
}

#[test]
fn settlement_state_types_compare() {
    let s = Settlement {
        id: SettlementId::from_usize(0),
        owner: PlayerId::from_uuid(1),
        name: "Paris".to_string(),
        stock: Resources::new(1, 2, 3, 4),
        building_levels: BTreeMap::new(),
        construction_queue: Vec::new(),
    };
    assert_eq!(s.stock.grain, 4);
    assert_eq!(PlayerState { score: 3 }, PlayerState { score: 3 });
}

#[test]
fn restoring_stored_parts_gives_game_back() {
    let opened = Game::initiate(3, player(1, "host")).unwrap();
    let mut game = Game::restore(opened.id(), GameStatus::Open, opened.host(),
        vec![player(1, "host"), player(2, "guest")], running_state(1), 3, opened.created_at())
        .unwrap();
    game.start().unwrap();
    let state = game.persisted_state().unwrap().clone();
    let back = Game::restore(
        game.id(),
        game.status(),
        game.host(),
        game.players().clone(),
        state,
        game.max_players(),
        game.created_at(),
    )
    .unwrap();
    assert_eq!(back.id(), game.id());
    assert_eq!(back.status(), GameStatus::Running);
    assert_eq!(back.host(), PlayerId::from_uuid(1));
    assert_eq!(back.players().len(), 2);
    assert_eq!(back.max_players(), 3);
    assert_eq!(back.created_at(), game.created_at());
    assert_eq!(back.persisted_state().unwrap().settlements.len(), 2);
}

#[test]
fn initiate_at_uses_the_given_instant() {
    let game = Game::initiate_at(5, player(4, "h"), 123 * SECOND + 7).unwrap();
    assert_eq!(game.created_at(), 123 * SECOND + 7);
    assert_eq!(game.max_players(), 5);
    assert_eq!(game.status(), GameStatus::Open);
    assert!(is_v4(game.id().to_uuid()));
}
