use vincite::text::str_eq;
use std::collections::BTreeMap;
use vincite::error::AppError;
use vincite::game::game::PlayerId;
use vincite::game::game_state::{
    Building, GameState, PlayerState, Resources, Settlement, SettlementId,
};
use vincite::game::rules::{
    advance_to, building_production, initial_state, new_settlement, production, settlement_name,
    spec, tick_at, TICK_SECONDS,
};

const SECOND: i128 = 1_000_000_000;

fn settlement_with(levels: &[(Building, u8)], stock: Resources) -> Settlement {
    let mut building_levels = BTreeMap::new();
    for (building, level) in levels {
        building_levels.insert(building.ordinal(), *level);
    }
    Settlement {
        id: SettlementId::from_usize(0),
        owner: PlayerId::from_uuid(7),
        name: "Paris".to_string(),
        stock,
        building_levels,
        construction_queue: Vec::new(),
    }
}

#[test]
fn resources_add_saturates() {
    let a = Resources::new(i64::MAX - 1, 5, -3, i64::MIN);
    let b = Resources::new(10, 7, -4, -1);
    assert_eq!(a.add(b), Resources::new(i64::MAX, 12, -7, i64::MIN));
}

#[test]
fn resources_multiply_saturates_and_caps_factor() {
    let r = Resources::new(10, -10, 0, 3);
    assert_eq!(r.multiply(4), Resources::new(40, -40, 0, 12));
    assert_eq!(r.multiply(u64::MAX), Resources::new(i64::MAX, i64::MIN, 0, i64::MAX));
    assert_eq!(Resources::new(1, 0, 0, 0).multiply(u64::MAX), Resources::new(i64::MAX, 0, 0, 0));
}

#[test]
fn resources_default_is_zero() {
    assert_eq!(Resources::default(), Resources::new(0, 0, 0, 0));
}

#[test]
fn resources_add_commutes_and_zero_is_neutral() {
    let a = Resources::new(3, i64::MAX, -2, 9);
    let b = Resources::new(4, 10, -8, 0);
    assert_eq!(a.add(b), b.add(a));
    assert_eq!(a.add(Resources::default()), a);
}

#[test]
fn settlement_id_round_trip() {
    assert_eq!(SettlementId::from_usize(42).into_usize(), 42);
    assert_eq!(SettlementId::from_usize(u32::MAX as usize).into_usize(), u32::MAX as usize);
}

#[test]
fn building_ordinals_round_trip() {
    let all = [
        Building::Sawmill,
        Building::ClayPit,
        Building::Mine,
        Building::Farm,
        Building::Warehouse,
        Building::Barracks,
    ];
    for (i, b) in all.iter().enumerate() {
        assert_eq!(b.ordinal() as usize, i);
        assert_eq!(Building::from_ordinal(i as u8), Some(*b));
    }
    assert_eq!(Building::from_ordinal(6), None);
}

#[test]
fn building_table() {
    let mine = spec(Building::Mine);
    assert_eq!(mine.max_level, 10);
    assert_eq!(mine.base_cost, Resources::new(500, 500, 0, 0));
    assert_eq!(mine.base_output, Resources::new(10, 0, 10, 0));
    assert_eq!(spec(Building::Barracks).base_cost, Resources::new(500, 0, 1000, 0));
    assert_eq!(spec(Building::Warehouse).base_output, Resources::new(0, 0, 0, 0));
}

#[test]
fn building_production_scales_output_by_level() {
    assert_eq!(building_production(Building::Farm, 3), Resources::new(30, 0, 0, 30));
    assert_eq!(building_production(Building::ClayPit, 255), Resources::new(0, 2550, 0, 0));
    assert_eq!(building_production(Building::Sawmill, 0), Resources::new(0, 0, 0, 0));
}

#[test]
fn production_sums_buildings() {
    let s = settlement_with(
        &[(Building::Sawmill, 2), (Building::Mine, 1), (Building::Farm, 4), (Building::Barracks, 9)],
        Resources::new(0, 0, 0, 0),
    );
    assert_eq!(production(&s), Resources::new(20 + 10 + 40, 0, 10, 40));
    let empty = settlement_with(&[], Resources::new(0, 0, 0, 0));
    assert_eq!(production(&empty), Resources::new(0, 0, 0, 0));
}

#[test]
fn tick_at_counts_whole_minutes() {
    assert_eq!(TICK_SECONDS, 60);
    assert_eq!(tick_at(0, 0), 0);
    assert_eq!(tick_at(0, 59 * SECOND + SECOND - 1), 0);
    assert_eq!(tick_at(0, 60 * SECOND), 1);
    assert_eq!(tick_at(1_000 * SECOND, 1_000 * SECOND + 3_599 * SECOND), 59);
    assert_eq!(tick_at(-120 * SECOND, 0), 2);
}

#[test]
fn tick_at_before_creation_is_zero() {
    assert_eq!(tick_at(100 * SECOND, 0), 0);
    assert_eq!(tick_at(100 * SECOND, 100 * SECOND - 1), 0);
}

#[test]
fn tick_at_is_monotonic() {
    let created = 17 * SECOND + 3;
    let mut last = 0;
    for k in 0..500i128 {
        let t = tick_at(created, created - 5 * SECOND + k * 7 * SECOND / 3);
        assert!(t >= last);
        last = t;
    }
}

#[test]
fn settlement_names_in_order() {
    assert_eq!(settlement_name(0), "Paris");
    assert_eq!(settlement_name(4), "Lisbon");
    assert_eq!(settlement_name(10), "York");
}

#[test]
fn new_settlement_takes_next_position() {
    let existing = vec![settlement_with(&[], Resources::new(1, 1, 1, 1))];
    let s = new_settlement(&existing, PlayerId::from_uuid(99));
    assert_eq!(s.id.into_usize(), 1);
    assert_eq!(s.owner, PlayerId::from_uuid(99));
    assert_eq!(s.name, "London");
    assert_eq!(s.stock, Resources::new(200, 200, 200, 200));
    assert!(s.building_levels.is_empty());
    assert!(s.construction_queue.is_empty());
}

#[test]
fn initial_state_founds_one_settlement_per_player() {
    let players = [PlayerId::from_uuid(5), PlayerId::from_uuid(3), PlayerId::from_uuid(5)];
    let state = initial_state(&players).unwrap();
    assert_eq!(state.tick, 0);
    assert_eq!(state.settlements.len(), 3);
    assert_eq!(state.settlements[0].name, "Paris");
    assert_eq!(state.settlements[1].name, "London");
    assert_eq!(state.settlements[2].name, "Athens");
    assert_eq!(state.settlements[1].owner, PlayerId::from_uuid(3));
    assert_eq!(state.settlements[2].id.into_usize(), 2);
    assert_eq!(state.players.len(), 2);
    assert_eq!(state.players.get(&5), Some(&PlayerState { score: 0 }));
    assert_eq!(state.players.get(&3), Some(&PlayerState { score: 0 }));
    assert!(state.is_initialized());
}

#[test]
fn empty_state_is_not_initialized() {
    let state = initial_state(&[]).unwrap();
    assert!(!state.is_initialized());
}

fn sample_state(tick: u64, stock: Resources) -> GameState {
    let mut players = BTreeMap::new();
    players.insert(7u128, PlayerState { score: 0 });
    GameState {
        tick,
        players,
        settlements: vec![
            settlement_with(&[(Building::Sawmill, 1), (Building::Farm, 2)], stock),
            settlement_with(&[], stock),
        ],
    }
}

#[test]
fn advance_to_produces_for_elapsed_ticks() {
    let mut state = sample_state(10, Resources::new(200, 200, 200, 200));
    advance_to(&mut state, 13);
    assert_eq!(state.tick, 13);
    assert_eq!(state.settlements[0].stock, Resources::new(200 + 3 * 30, 200, 200, 200 + 3 * 20));
    assert_eq!(state.settlements[1].stock, Resources::new(200, 200, 200, 200));
    assert_eq!(state.settlements[0].name, "Paris");
}

#[test]
fn advance_to_earlier_or_same_tick_changes_nothing() {
    let mut state = sample_state(10, Resources::new(200, 200, 200, 200));
    advance_to(&mut state, 10);
    assert_eq!(state.tick, 10);
    assert_eq!(state.settlements[0].stock, Resources::new(200, 200, 200, 200));
    advance_to(&mut state, 4);
    assert_eq!(state.tick, 10);
    assert_eq!(state.settlements[0].stock, Resources::new(200, 200, 200, 200));
}

#[test]
fn advance_in_two_steps_equals_one() {
    let mut stepped = sample_state(0, Resources::new(5, 0, 0, 0));
    advance_to(&mut stepped, 7);
    advance_to(&mut stepped, 100);
    let mut direct = sample_state(0, Resources::new(5, 0, 0, 0));
    advance_to(&mut direct, 100);
    assert_eq!(stepped.tick, direct.tick);
    for i in 0..2 {
        assert_eq!(stepped.settlements[i].stock, direct.settlements[i].stock);
    }
}

#[test]
fn advance_saturates_stock() {
    let mut state = sample_state(0, Resources::new(i64::MAX - 5, 0, 0, 0));
    advance_to(&mut state, u64::MAX);
    assert_eq!(state.settlements[0].stock, Resources::new(i64::MAX, 0, 0, i64::MAX));
}

#[test]
fn app_error_constructors() {
    match AppError::invalid_data("broken".to_string()) {
        AppError::InvalidData { message } => assert_eq!(message, "broken"),
        other => panic!("unexpected {:?}", other),
    }
    match AppError::unexpected("pool closed".to_string()) {
        AppError::Unexpected { source } => assert_eq!(source, "pool closed"),
        other => panic!("unexpected {:?}", other),
    }
}

#[test]
fn app_error_public_codes_and_hidden_details() {
    assert_eq!(AppError::NotFound.public(), (404, "game was not found"));
    assert_eq!(AppError::AlreadyExists.public(), (409, "game already exists"));
    assert_eq!(AppError::Conflict.public(), (409, "game was modified concurrently"));
    let bad_data = AppError::InvalidData { message: "secret".to_string() };
    assert_eq!(bad_data.public(), (400, "internal server error"));
    assert!(!bad_data.is_server_error());
    let internal = [
        AppError::InvalidState { message: "secret".to_string() },
        AppError::Unexpected { source: "secret".to_string() },
    ];
    for e in internal.iter() {
        assert_eq!(e.public(), (500, "internal server error"));
        assert!(e.is_server_error());
    }
    assert!(!AppError::NotFound.is_server_error());
}

#[test]
fn str_eq_compares_characters() {
    assert!(str_eq("Open", "Open"));
    assert!(!str_eq("Open", "open"));
    assert!(!str_eq("Open", "Opens"));
    assert!(str_eq("", ""));
    assert!(str_eq("Dubrovnik ✓", "Dubrovnik ✓"));
}

#[test]
fn decimal_strings() {
    use_decimal(0, "0");
    use_decimal(7, "7");
    use_decimal(10, "10");
    use_decimal(1203, "1203");
    use_decimal(u64::MAX, "18446744073709551615");
}

fn use_decimal(n: u64, expected: &str) {
    assert_eq!(vincite::text::decimal_string(n), expected);
}
