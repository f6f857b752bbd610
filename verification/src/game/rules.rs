use vstd::prelude::*;
use crate::error::AppError;
use crate::game::game::PlayerId;
use crate::game::game_state::{
    building_with_ordinal, clamp_i64, factor_i64, Building, GameState, PlayerState, Resource, Resources, Settlement,
    SettlementId, BUILDING_COUNT,
};
use std::collections::BTreeMap;

verus! {

/// Length of one tick in seconds.
pub const TICK_SECONDS: u64 = 60;

/// How many ticks production can run for with no amount reaching the bound
/// of `i64`, whatever the buildings: 15_300 per tick at most, times 2^49.
pub const MAX_EXACT_TICKS: u64 = 0x2_0000_0000_0000;

/// How many settlement names there are, and so how many settlements a game can found.
pub const SETTLEMENT_NAME_COUNT: usize = 11;

/// The names given to settlements, in the order in which they are founded.
pub open spec fn settlement_names() -> Seq<Seq<char>> {
    seq![
        "Paris"@,
        "London"@,
        "Athens"@,
        "Rome"@,
        "Lisbon"@,
        "Prague"@,
        "Marseille"@,
        "Naples"@,
        "Dubrovnik"@,
        "Belgrade"@,
        "York"@,
    ]
}

/// The name of the settlement founded in position `index`.
pub fn settlement_name(index: usize) -> (r: &'static str)
    requires
        index < SETTLEMENT_NAME_COUNT,
    ensures
        r@ == settlement_names()[index as int],
{
    match index {
        0 => "Paris",
        1 => "London",
        2 => "Athens",
        3 => "Rome",
        4 => "Lisbon",
        5 => "Prague",
        6 => "Marseille",
        7 => "Naples",
        8 => "Dubrovnik",
        9 => "Belgrade",
        _ => "York",
    }
}

/// Whether `t` (nanoseconds since the Unix epoch) is an instant the
/// library accepts: strictly within ±2^80 nanoseconds.
pub open spec fn is_instant(t: int) -> bool {
    -0x1_0000_0000_0000_0000_0000 < t < 0x1_0000_0000_0000_0000_0000
}

/// The whole seconds in `nanos` nanoseconds, rounded toward zero.
pub open spec fn whole_seconds(nanos: int) -> int {
    if nanos >= 0 {
        nanos / 1_000_000_000
    } else {
        -((-nanos) / 1_000_000_000)
    }
}

/// The tick reached at `now` by a game created at `created_at`: the whole
/// seconds elapsed, none if `now` is earlier, divided into ticks.
pub open spec fn tick_of(created_at: int, now: int) -> int {
    let s = whole_seconds(now - created_at);
    (if s < 0 {
        0
    } else {
        s
    }) / (TICK_SECONDS as int)
}

/// The tick reached at `now` by a game created at `created_at`, both in
/// nanoseconds since the Unix epoch.
pub fn tick_at(created_at: i128, now: i128) -> (r: u64)
    requires
        is_instant(created_at as int),
        is_instant(now as int),
    ensures
        r == tick_of(created_at as int, now as int),
{
    let elapsed: i128 = now - created_at;
    let seconds: i128 = if elapsed >= 0 {
        elapsed / 1_000_000_000
    } else {
        -((-elapsed) / 1_000_000_000)
    };
    if seconds < 0 {
        0
    } else {
        (seconds as u64) / TICK_SECONDS
    }
}

/// Time never runs backwards: a later `now` reaches at least the same tick.
pub proof fn lemma_tick_of_monotonic(created_at: int, now1: int, now2: int)
    requires
        now1 <= now2,
    ensures
        tick_of(created_at, now1) <= tick_of(created_at, now2),
{
    let d1 = now1 - created_at;
    let d2 = now2 - created_at;
    if d1 >= 0 {
        vstd::arithmetic::div_mod::lemma_div_is_ordered(d1, d2, 1_000_000_000);
        let s1 = d1 / 1_000_000_000;
        let s2 = d2 / 1_000_000_000;
        vstd::arithmetic::div_mod::lemma_div_is_ordered(s1, s2, 60);
    } else {
        let s2 = whole_seconds(d2);
        if s2 >= 0 {
            vstd::arithmetic::div_mod::lemma_div_pos_is_pos(s2, 60);
        }
    }
}

/// The fixed description of a kind of building.
#[derive(Debug, Clone, Copy, PartialEq, Eq, Structural)]
pub struct BuildingSpec {
    pub max_level: u8,
    pub base_cost: Resources,
    pub base_output: Resources,
}

/// The description of each kind of building.
pub open spec fn building_spec_of(building: Building) -> BuildingSpec {
    match building {
        Building::Sawmill => BuildingSpec {
            max_level: 10,
            base_cost: Resources { wood: 100, clay: 0, iron: 0, grain: 0 },
            base_output: Resources { wood: 10, clay: 0, iron: 0, grain: 0 },
        },
        Building::ClayPit => BuildingSpec {
            max_level: 10,
            base_cost: Resources { wood: 1000, clay: 0, iron: 0, grain: 0 },
            base_output: Resources { wood: 0, clay: 10, iron: 0, grain: 0 },
        },
        Building::Mine => BuildingSpec {
            max_level: 10,
            base_cost: Resources { wood: 500, clay: 500, iron: 0, grain: 0 },
            base_output: Resources { wood: 10, clay: 0, iron: 10, grain: 0 },
        },
        Building::Farm => BuildingSpec {
            max_level: 10,
            base_cost: Resources { wood: 500, clay: 500, iron: 0, grain: 0 },
            base_output: Resources { wood: 10, clay: 0, iron: 0, grain: 10 },
        },
        Building::Warehouse => BuildingSpec {
            max_level: 10,
            base_cost: Resources { wood: 1000, clay: 0, iron: 0, grain: 0 },
            base_output: Resources { wood: 0, clay: 0, iron: 0, grain: 0 },
        },
        Building::Barracks => BuildingSpec {
            max_level: 10,
            base_cost: Resources { wood: 500, clay: 0, iron: 1000, grain: 0 },
            base_output: Resources { wood: 0, clay: 0, iron: 0, grain: 0 },
        },
    }
}

/// The static description of a kind of building.
pub fn spec(building: Building) -> (r: BuildingSpec)
    ensures
        r == building_spec_of(building),
{
    match building {
        Building::Sawmill => BuildingSpec {
            max_level: 10,
            base_cost: Resources::new(100, 0, 0, 0),
            base_output: Resources::new(10, 0, 0, 0),
        },
        Building::ClayPit => BuildingSpec {
            max_level: 10,
            base_cost: Resources::new(1000, 0, 0, 0),
            base_output: Resources::new(0, 10, 0, 0),
        },
        Building::Mine => BuildingSpec {
            max_level: 10,
            base_cost: Resources::new(500, 500, 0, 0),
            base_output: Resources::new(10, 0, 10, 0),
        },
        Building::Farm => BuildingSpec {
            max_level: 10,
            base_cost: Resources::new(500, 500, 0, 0),
            base_output: Resources::new(10, 0, 0, 10),
        },
        Building::Warehouse => BuildingSpec {
            max_level: 10,
            base_cost: Resources::new(1000, 0, 0, 0),
            base_output: Resources::new(0, 0, 0, 0),
        },
        Building::Barracks => BuildingSpec {
            max_level: 10,
            base_cost: Resources::new(500, 0, 1000, 0),
            base_output: Resources::new(0, 0, 0, 0),
        },
    }
}

/// Every building's output per level lies between 0 and 10 of each resource.
pub proof fn lemma_base_output_bounds(building: Building, res: Resource)
    ensures
        0 <= building_spec_of(building).base_output.amount_of(res) <= 10,
{
}

/// What one building of the given level produces per tick.
pub fn building_production(building: Building, level: u8) -> (r: Resources)
    ensures
        r == building_spec_of(building).base_output.times(level as u64),
        forall|res: Resource|
            #[trigger] r.amount_of(res) == level * building_spec_of(
                building,
            ).base_output.amount_of(res),
{
    proof {
        assert forall|res: Resource|
            0 <= level * #[trigger] building_spec_of(building).base_output.amount_of(res)
                <= 10 * 255 && level * building_spec_of(building).base_output.amount_of(res)
                == building_spec_of(building).base_output.amount_of(res) * level by {
            lemma_base_output_bounds(building, res);
            let b = building_spec_of(building).base_output.amount_of(res);
            assert(0 <= level * b <= 10 * 255 && level * b == b * level) by (nonlinear_arith)
                requires
                    0 <= b <= 10,
                    0 <= level <= 255,
            ;
        }
    }
    let r = spec(building).base_output.multiply(level as u64);
    assert(level * building_spec_of(building).base_output.amount_of(Resource::Wood) == r.wood);
    assert(level * building_spec_of(building).base_output.amount_of(Resource::Clay) == r.clay);
    assert(level * building_spec_of(building).base_output.amount_of(Resource::Iron) == r.iron);
    assert(level * building_spec_of(building).base_output.amount_of(Resource::Grain) == r.grain);
    r
}

/// The level of the building with ordinal `k`, 0 if it has not been built.
pub open spec fn level_of(levels: Map<u8, u8>, k: int) -> int {
    if levels.contains_key(k as u8) {
        levels[k as u8] as int
    } else {
        0
    }
}

/// Output per level of the building with ordinal `k` (0 if `k` is no ordinal).
pub open spec fn output_per_level(k: int, res: Resource) -> int {
    match building_with_ordinal(k) {
        Some(b) => building_spec_of(b).base_output.amount_of(res) as int,
        None => 0,
    }
}

/// What the buildings with ordinals below `n` produce per tick of one resource.
pub open spec fn output_sum(levels: Map<u8, u8>, n: nat, res: Resource) -> int
    decreases n,
{
    if n == 0 {
        0
    } else {
        output_sum(levels, (n - 1) as nat, res) + level_of(levels, n - 1) * output_per_level(
            n - 1,
            res,
        )
    }
}

/// What a settlement with the given building levels produces per tick.
pub open spec fn production_of(levels: Map<u8, u8>) -> Resources {
    Resources {
        wood: output_sum(levels, BUILDING_COUNT as nat, Resource::Wood) as i64,
        clay: output_sum(levels, BUILDING_COUNT as nat, Resource::Clay) as i64,
        iron: output_sum(levels, BUILDING_COUNT as nat, Resource::Iron) as i64,
        grain: output_sum(levels, BUILDING_COUNT as nat, Resource::Grain) as i64,
    }
}

/// Production per tick stays between 0 and `n * 10 * 255` of each resource,
/// so summing it never saturates.
pub proof fn lemma_output_sum_bounds(levels: Map<u8, u8>, n: nat, res: Resource)
    requires
        n <= BUILDING_COUNT,
    ensures
        0 <= output_sum(levels, n, res) <= n * 2550,
    decreases n,
{
    if n > 0 {
        lemma_output_sum_bounds(levels, (n - 1) as nat, res);
        let l = level_of(levels, n - 1);
        let o = output_per_level(n - 1, res);
        assert(0 <= l <= 255);
        match building_with_ordinal(n - 1) {
            Some(b) => lemma_base_output_bounds(b, res),
            None => {},
        }
        assert(0 <= l * o <= 2550) by (nonlinear_arith)
            requires
                0 <= l <= 255,
                0 <= o <= 10,
        ;
    }
}

/// One more building's output added to the running total, which stays in range.
proof fn lemma_output_sum_step(levels: Map<u8, u8>, k: u8, res: Resource)
    requires
        k < BUILDING_COUNT,
    ensures
        output_sum(levels, (k + 1) as nat, res) == output_sum(levels, k as nat, res) + level_of(
            levels,
            k as int,
        ) * output_per_level(k as int, res),
        0 <= output_sum(levels, k as nat, res) <= 6 * 2550,
        0 <= output_sum(levels, (k + 1) as nat, res) <= 6 * 2550,
        0 <= level_of(levels, k as int) * output_per_level(k as int, res) <= 2550,
{
    lemma_output_sum_bounds(levels, k as nat, res);
    lemma_output_sum_bounds(levels, (k + 1) as nat, res);
    let l = level_of(levels, k as int);
    let o = output_per_level(k as int, res);
    match building_with_ordinal(k as int) {
        Some(b) => lemma_base_output_bounds(b, res),
        None => {},
    }
    assert(0 <= l * o <= 2550) by (nonlinear_arith)
        requires
            0 <= l <= 255,
            0 <= o <= 10,
    ;
}

/// What a settlement produces per tick: for each resource, the sum over its
/// buildings of the building's output per level times its level.
pub fn production(settlement: &Settlement) -> (r: Resources)
    requires
        settlement.wf(),
    ensures
        r == production_of(settlement.building_levels@),
        r.is_nonnegative(),
{
    let ghost levels = settlement.building_levels@;
    let mut total = Resources::default();
    let mut k: u8 = 0;
    while k < BUILDING_COUNT
        invariant
            k <= BUILDING_COUNT,
            levels == settlement.building_levels@,
            forall|res: Resource| #[trigger] total.amount_of(res) == output_sum(levels, k as nat, res),
        decreases BUILDING_COUNT - k,
    {
        match settlement.building_levels.get(&k) {
            Some(level) => {
                match Building::from_ordinal(k) {
                    Some(building) => {
                        let ghost before = total;
                        assert(level_of(levels, k as int) == *level as int);
                        let produced = building_production(building, *level);
                        total = total.add(produced);
                        assert forall|res: Resource|
                            #[trigger] total.amount_of(res) == output_sum(
                                levels,
                                (k + 1) as nat,
                                res,
                            ) by {
                            lemma_output_sum_step(levels, k, res);
                            assert(produced.amount_of(res) == level_of(levels, k as int)
                                * output_per_level(k as int, res));
                            assert(before.amount_of(res) == output_sum(levels, k as nat, res));
                            crate::game::game_state::lemma_plus_amount(before, produced, res);
                        }
                    },
                    None => {},
                }
            },
            None => {
                assert(level_of(levels, k as int) == 0);
                assert forall|res: Resource|
                    #[trigger] total.amount_of(res) == output_sum(levels, (k + 1) as nat, res) by {
                    lemma_output_sum_step(levels, k, res);
                }
            },
        }
        k = k + 1;
    }
    proof {
        assert forall|res: Resource|
            0 <= #[trigger] output_sum(levels, BUILDING_COUNT as nat, res) <= 6 * 2550 by {
            lemma_output_sum_bounds(levels, BUILDING_COUNT as nat, res);
        }
        assert(total.amount_of(Resource::Wood) == output_sum(levels, 6, Resource::Wood));
        assert(total.amount_of(Resource::Clay) == output_sum(levels, 6, Resource::Clay));
        assert(total.amount_of(Resource::Iron) == output_sum(levels, 6, Resource::Iron));
        assert(total.amount_of(Resource::Grain) == output_sum(levels, 6, Resource::Grain));
    }
    total
}

/// The stock a new settlement starts with.
pub open spec fn starting_stock() -> Resources {
    Resources { wood: 200, clay: 200, iron: 200, grain: 200 }
}

/// Whether `s` is the settlement founded for `owner` in position `index`:
/// named after that position, with the starting stock and nothing built.
pub open spec fn is_founded(s: Settlement, index: int, owner: PlayerId) -> bool {
    &&& s.id.index() == index
    &&& s.owner == owner
    &&& s.name@ == settlement_names()[index]
    &&& s.stock == starting_stock()
    &&& s.building_levels@ == Map::<u8, u8>::empty()
    &&& s.construction_queue@ == Seq::<crate::game::game_state::Construction>::empty()
}

/// Founds the next settlement, for `owner`, after those already in `settlements_state`.
pub fn new_settlement(settlements_state: &Vec<Settlement>, owner: PlayerId) -> (r: Settlement)
    requires
        settlements_state.len() < SETTLEMENT_NAME_COUNT,
    ensures
        is_founded(r, settlements_state.len() as int, owner),
        r.wf(),
{
    let settlement_count = settlements_state.len();
    Settlement {
        id: SettlementId::from_usize(settlement_count),
        owner,
        name: settlement_name(settlement_count).to_owned(),
        stock: Resources::new(200, 200, 200, 200),
        building_levels: BTreeMap::new(),
        construction_queue: Vec::new(),
    }
}

/// Whether UUID value `k` belongs to one of `players`.
pub open spec fn is_player_key(players: Seq<PlayerId>, k: u128) -> bool {
    exists|i: int| 0 <= i < players.len() && #[trigger] players[i].value() == k
}

/// The record of each of `players`, keyed by UUID value: every score 0.
pub open spec fn fresh_player_records(players: Seq<PlayerId>) -> Map<u128, PlayerState> {
    Map::new(|k: u128| is_player_key(players, k), |k: u128| PlayerState { score: 0 })
}

/// Whether `s` is the state a game of `players` starts in: tick 0, one
/// founded settlement per player in the players' order, and a zero score
/// for each distinct player.
pub open spec fn is_initial_state(s: GameState, players: Seq<PlayerId>) -> bool {
    &&& s.tick == 0
    &&& s.players@ == fresh_player_records(players)
    &&& s.settlements@.len() == players.len()
    &&& forall|i: int|
        0 <= i < players.len() ==> #[trigger] is_founded(s.settlements@[i], i, players[i])
}

/// The state a game of `players` starts in. Never fails.
pub fn initial_state(players: &[PlayerId]) -> (r: Result<GameState, AppError>)
    requires
        players@.len() <= SETTLEMENT_NAME_COUNT,
    ensures
        r matches Ok(s) && is_initial_state(s, players@) && s.wf()
            && s.players@.len() <= players@.len(),
{
    let mut settlements: Vec<Settlement> = Vec::new();
    let n = players.len();
    let mut i: usize = 0;
    while i < n
        invariant
            n == players@.len(),
            n <= SETTLEMENT_NAME_COUNT,
            i <= n,
            settlements@.len() == i,
            forall|j: int|
                0 <= j < i ==> #[trigger] is_founded(settlements@[j], j, players@[j]),
            forall|j: int| 0 <= j < i ==> #[trigger] settlements@[j].wf(),
        decreases n - i,
    {
        let settlement = new_settlement(&settlements, players[i]);
        settlements.push(settlement);
        i += 1;
    }
    let mut records: BTreeMap<u128, PlayerState> = BTreeMap::new();
    let mut i: usize = 0;
    while i < n
        invariant
            n == players@.len(),
            i <= n,
            records@ == fresh_player_records(players@.take(i as int)),
            records@.len() <= i,
        decreases n - i,
    {
        records.insert(players[i].to_uuid(), PlayerState { score: 0 });
        proof {
            let prefix = players@.take(i as int);
            let next = players@.take(i + 1);
            assert forall|k: u128| is_player_key(next, k) == (is_player_key(prefix, k) || k
                == players@[i as int].value()) by {
                if is_player_key(next, k) {
                    let j = choose|j: int| 0 <= j < next.len() && #[trigger] next[j].value() == k;
                    if j < i {
                        assert(prefix[j] == next[j]);
                    }
                }
                if is_player_key(prefix, k) {
                    let j = choose|j: int|
                        0 <= j < prefix.len() && #[trigger] prefix[j].value() == k;
                    assert(next[j] == prefix[j]);
                }
                if k == players@[i as int].value() {
                    assert(next[i as int] == players@[i as int]);
                }
            }
            assert(records@ =~= fresh_player_records(next));
        }
        i += 1;
    }
    assert(players@.take(n as int) =~= players@);
    let state = GameState { tick: 0, players: records, settlements };
    Ok(state)
}

/// Settlement `s` after `elapsed` ticks: its buildings' production for that
/// many ticks is added to its stock; nothing else changes.
pub open spec fn settlement_after(s: Settlement, elapsed: u64) -> Settlement {
    Settlement {
        id: s.id,
        owner: s.owner,
        name: s.name,
        stock: s.stock.plus(production_of(s.building_levels@).times(elapsed)),
        building_levels: s.building_levels,
        construction_queue: s.construction_queue,
    }
}

/// Whether `new` is `old` advanced to tick `now`. Nothing happens unless
/// `now` is later than `old.tick`; otherwise every settlement produces for
/// the elapsed ticks and the state's tick becomes `now`.
pub open spec fn advanced_to(old: GameState, new: GameState, now: u64) -> bool {
    if now <= old.tick {
        &&& new.tick == old.tick
        &&& new.players@ == old.players@
        &&& new.settlements@ == old.settlements@
    } else {
        &&& new.tick == now
        &&& new.players@ == old.players@
        &&& new.settlements@.len() == old.settlements@.len()
        &&& forall|i: int|
            0 <= i < old.settlements@.len() ==> #[trigger] new.settlements@[i] == settlement_after(
                old.settlements@[i],
                (now - old.tick) as u64,
            )
    }
}

/// Brings the state forward to tick `now`; an earlier or equal tick leaves it as it is.
pub fn advance_to(state: &mut GameState, now: u64)
    requires
        old(state).wf(),
    ensures
        advanced_to(*old(state), *final(state), now),
        final(state).wf(),
{
    if now <= state.tick {
        return;
    }
    let elapsed = now - state.tick;
    let mut settlements: Vec<Settlement> = Vec::new();
    std::mem::swap(&mut settlements, &mut state.settlements);
    let ghost originals = settlements@;
    let mut advanced: Vec<Settlement> = Vec::new();
    for settlement in it: settlements.into_iter()
        invariant
            it.seq() == originals,
            forall|j: int| 0 <= j < originals.len() ==> #[trigger] originals[j].wf(),
            advanced@.len() == it.index(),
            forall|j: int|
                0 <= j < it.index() ==> #[trigger] advanced@[j] == settlement_after(
                    originals[j],
                    elapsed,
                ),
    {
        let mut settlement = settlement;
        let produced = production(&settlement);
        settlement.stock = settlement.stock.add(produced.multiply(elapsed));
        advanced.push(settlement);
    }
    state.settlements = advanced;
    state.tick = now;
    assert forall|i: int| 0 <= i < state.settlements@.len() implies #[trigger] state.settlements@[
        i
    ].wf() by {
        assert(originals[i].wf());
        assert(state.settlements@[i].building_levels == originals[i].building_levels);
    }
}

/// Every settlement's stock is free of debt.
pub open spec fn stocks_nonnegative(s: GameState) -> bool {
    forall|i: int| 0 <= i < s.settlements@.len() ==> (#[trigger] s.settlements@[i]).stock.is_nonnegative()
}

/// A nonnegative amount scaled by `e` ticks is the exact product, held at `i64::MAX`.
proof fn lemma_scaled(p: i64, e: u64)
    requires
        p >= 0,
    ensures
        clamp_i64(p * factor_i64(e)) == if p * e >= i64::MAX {
            i64::MAX as int
        } else {
            p * e
        },
{
    assert(p * e >= 0) by (nonlinear_arith)
        requires
            p >= 0,
            e >= 0,
    ;
    if e > i64::MAX as u64 {
        if p >= 1 {
            assert(p * i64::MAX >= i64::MAX && p * e >= e) by (nonlinear_arith)
                requires
                    p >= 1,
                    e >= 0,
            ;
        } else {
            assert(p * e == 0 && p * i64::MAX == 0) by (nonlinear_arith)
                requires
                    p == 0,
            ;
        }
    }
}

/// Producing for `e1` ticks and then for `e2` more gives a stock what
/// producing for `e1 + e2` ticks at once gives it, when the stock is free of
/// debt or the production over all those ticks fits in an `i64`.
proof fn lemma_saturating_steps(s: i64, p: i64, e1: u64, e2: u64)
    requires
        s >= 0 || p * (e1 + e2) <= i64::MAX,
        p >= 0,
        e1 + e2 <= u64::MAX,
    ensures
        clamp_i64(clamp_i64(s + clamp_i64(p * factor_i64(e1))) + clamp_i64(p * factor_i64(e2)))
            == clamp_i64(s + clamp_i64(p * factor_i64((e1 + e2) as u64))),
{
    lemma_scaled(p, e1);
    lemma_scaled(p, e2);
    lemma_scaled(p, (e1 + e2) as u64);
    assert(p * (e1 + e2) == p * e1 + p * e2 && p * e1 >= 0 && p * e2 >= 0) by (nonlinear_arith)
        requires
            p >= 0,
            e1 >= 0,
            e2 >= 0,
    ;
}

/// Two advances of one settlement, by `e1` and then `e2` ticks, are one
/// advance by `e1 + e2` ticks, as long as its stock is free of debt or the
/// ticks number at most [`MAX_EXACT_TICKS`].
proof fn lemma_settlement_after_twice(st: Settlement, e1: u64, e2: u64)
    requires
        st.wf(),
        st.stock.is_nonnegative() || e1 + e2 <= MAX_EXACT_TICKS,
        e1 + e2 <= u64::MAX,
    ensures
        settlement_after(settlement_after(st, e1), e2) == settlement_after(st, (e1 + e2) as u64),
        st.stock.is_nonnegative() ==> settlement_after(st, e1).stock.is_nonnegative(),
{
    let levels = st.building_levels@;
    let e = e1 + e2;
    assert forall|res: Resource| #![trigger output_sum(levels, BUILDING_COUNT as nat, res)]
        e <= MAX_EXACT_TICKS ==> output_sum(levels, BUILDING_COUNT as nat, res) * e
            <= i64::MAX by {
        lemma_output_sum_bounds(levels, BUILDING_COUNT as nat, res);
        let q = output_sum(levels, BUILDING_COUNT as nat, res);
        if e <= MAX_EXACT_TICKS {
            assert(q * e <= i64::MAX) by (nonlinear_arith)
                requires
                    0 <= q <= 6 * 2550,
                    0 <= e <= MAX_EXACT_TICKS,
            ;
        }
    }
    let p = production_of(levels);
    lemma_output_sum_bounds(levels, BUILDING_COUNT as nat, Resource::Wood);
    lemma_output_sum_bounds(levels, BUILDING_COUNT as nat, Resource::Clay);
    lemma_output_sum_bounds(levels, BUILDING_COUNT as nat, Resource::Iron);
    lemma_output_sum_bounds(levels, BUILDING_COUNT as nat, Resource::Grain);
    lemma_saturating_steps(st.stock.wood, p.wood, e1, e2);
    lemma_saturating_steps(st.stock.clay, p.clay, e1, e2);
    lemma_saturating_steps(st.stock.iron, p.iron, e1, e2);
    lemma_saturating_steps(st.stock.grain, p.grain, e1, e2);
    lemma_scaled(p.wood, e1);
    lemma_scaled(p.clay, e1);
    lemma_scaled(p.iron, e1);
    lemma_scaled(p.grain, e1);
}

/// Advancing keeps every stock free of debt.
pub proof fn lemma_advance_keeps_stocks_nonnegative(old: GameState, new: GameState, now: u64)
    requires
        old.wf(),
        stocks_nonnegative(old),
        advanced_to(old, new, now),
    ensures
        stocks_nonnegative(new),
        new.wf(),
{
    if now > old.tick {
        assert forall|i: int| 0 <= i < new.settlements@.len() implies (
        #[trigger] new.settlements@[i]).stock.is_nonnegative() && new.settlements@[i].wf() by {
            assert(old.settlements@[i].wf());
            lemma_settlement_after_twice(old.settlements@[i], (now - old.tick) as u64, 0);
        }
    }
}

/// Reading the state at a later time does not depend on whether it was read
/// in between: advancing to tick `a` and then to tick `b >= a` gives the
/// same state as advancing to `b` at once, provided no settlement is in
/// debt or at most [`MAX_EXACT_TICKS`] ticks pass from the state's tick to `b`.
pub proof fn lemma_advance_in_two_steps(
    s0: GameState,
    s1: GameState,
    s2: GameState,
    direct: GameState,
    a: u64,
    b: u64,
)
    requires
        s0.wf(),
        stocks_nonnegative(s0) || b <= s0.tick + MAX_EXACT_TICKS,
        a <= b,
        advanced_to(s0, s1, a),
        advanced_to(s1, s2, b),
        advanced_to(s0, direct, b),
    ensures
        s2.tick == direct.tick,
        s2.players@ == direct.players@,
        s2.settlements@ == direct.settlements@,
{
    if s0.tick < a && a < b {
        let e1 = (a - s0.tick) as u64;
        let e2 = (b - a) as u64;
        assert forall|i: int| 0 <= i < s2.settlements@.len() implies #[trigger] s2.settlements@[i]
            == direct.settlements@[i] by {
            assert(s0.settlements@[i].wf());
            if stocks_nonnegative(s0) {
                assert(s0.settlements@[i].stock.is_nonnegative());
            }
            lemma_settlement_after_twice(s0.settlements@[i], e1, e2);
        }
        assert(s2.settlements@ =~= direct.settlements@);
    } else if s0.tick < a {
        assert(s2.settlements@ =~= direct.settlements@);
    }
}

/// The tick reached at an accepted instant is at most [`MAX_EXACT_TICKS`],
/// so reads at accepted instants never make production saturate.
pub proof fn lemma_tick_of_bound(created_at: int, now: int)
    requires
        is_instant(created_at),
        is_instant(now),
    ensures
        0 <= tick_of(created_at, now) <= MAX_EXACT_TICKS,
{
    let d = now - created_at;
    if d >= 0 {
        vstd::arithmetic::div_mod::lemma_div_is_ordered(d, 0x2_0000_0000_0000_0000_0000, 1_000_000_000);
        let s = d / 1_000_000_000;
        vstd::arithmetic::div_mod::lemma_div_pos_is_pos(d, 1_000_000_000);
        vstd::arithmetic::div_mod::lemma_div_is_ordered(s, 0x2_0000_0000_0000_0000_0000int / 1_000_000_000, 60);
        vstd::arithmetic::div_mod::lemma_div_pos_is_pos(s, 60);
        assert(0x2_0000_0000_0000_0000_0000int / 1_000_000_000 / 60 <= 0x2_0000_0000_0000);
    }
}


/// One tick per whole minute: from an instant on or after creation, the tick
/// reached is the number of whole minutes elapsed since creation, without
/// any cap; before creation it is 0.
pub proof fn lemma_tick_counts_whole_minutes(created_at: int, now: int)
    ensures
        now < created_at ==> tick_of(created_at, now) == 0,
        now >= created_at ==> {
            let t = tick_of(created_at, now);
            &&& t >= 0
            &&& t * 60_000_000_000 <= now - created_at
            &&& now - created_at < (t + 1) * 60_000_000_000
        },
{
    let d = now - created_at;
    if d >= 0 {
        let s = d / 1_000_000_000;
        let t = s / 60;
        vstd::arithmetic::div_mod::lemma_fundamental_div_mod(d, 1_000_000_000);
        vstd::arithmetic::div_mod::lemma_fundamental_div_mod(s, 60);
        vstd::arithmetic::div_mod::lemma_div_pos_is_pos(d, 1_000_000_000);
        vstd::arithmetic::div_mod::lemma_div_pos_is_pos(s, 60);
        let r1 = d % 1_000_000_000;
        let r2 = s % 60;
        assert(t * 60_000_000_000 <= d && d < (t + 1) * 60_000_000_000) by (nonlinear_arith)
            requires
                d == 1_000_000_000 * s + r1,
                0 <= r1 < 1_000_000_000,
                s == 60 * t + r2,
                0 <= r2 < 60,
        ;
        assert(tick_of(created_at, now) == t);
    } else {
        vstd::arithmetic::div_mod::lemma_div_pos_is_pos(-d, 1_000_000_000);
        let w = whole_seconds(d);
        if w >= 0 {
            assert(w == 0);
        }
    }
}

/// Advancing to a later tick adds to every settlement — each one, not only
/// some — its production for all the elapsed ticks, and changes nothing else
/// about it.
pub proof fn lemma_advance_adds_production(old: GameState, new: GameState, now: u64)
    requires
        advanced_to(old, new, now),
        now > old.tick,
    ensures
        new.tick == now,
        new.players@ == old.players@,
        new.settlements@.len() == old.settlements@.len(),
        forall|i: int|
            0 <= i < old.settlements@.len() ==> {
                let before = #[trigger] old.settlements@[i];
                let after = new.settlements@[i];
                &&& after.stock == before.stock.plus(
                    production_of(before.building_levels@).times((now - old.tick) as u64),
                )
                &&& after.id == before.id
                &&& after.owner == before.owner
                &&& after.name@ == before.name@
                &&& after.building_levels@ == before.building_levels@
                &&& after.construction_queue@ == before.construction_queue@
            },
{
    assert forall|i: int| 0 <= i < old.settlements@.len() implies {
        let before = #[trigger] old.settlements@[i];
        let after = new.settlements@[i];
        &&& after.stock == before.stock.plus(
            production_of(before.building_levels@).times((now - old.tick) as u64),
        )
        &&& after.id == before.id
        &&& after.owner == before.owner
        &&& after.name@ == before.name@
        &&& after.building_levels@ == before.building_levels@
        &&& after.construction_queue@ == before.construction_queue@
    } by {
        assert(new.settlements@[i] == settlement_after(old.settlements@[i], (now - old.tick) as u64));
    }
}

/// A settlement whose only building is `b` at level `l` produces per tick
/// exactly `b`'s output per level times `l`, for every kind of building.
pub proof fn lemma_single_building_production(b: Building, l: u8)
    ensures
        production_of(Map::<u8, u8>::empty().insert(b.ordinal_of(), l))
            == building_spec_of(b).base_output.times(l as u64),
{
    let levels = Map::<u8, u8>::empty().insert(b.ordinal_of(), l);
    reveal_with_fuel(output_sum, 7);
    assert forall|res: Resource|
        #[trigger] output_sum(levels, BUILDING_COUNT as nat, res) == l
            * building_spec_of(b).base_output.amount_of(res) by {
        lemma_base_output_bounds(b, res);
        let o = building_spec_of(b).base_output.amount_of(res);
        assert(l * o == o * l) by (nonlinear_arith);
        assert(0 <= l * o <= 2550) by (nonlinear_arith)
            requires
                0 <= l <= 255,
                0 <= o <= 10,
        ;
        assert(forall|k: int|
            0 <= k < 6 ==> #[trigger] level_of(levels, k) == if k == b.ordinal_of() {
                l as int
            } else {
                0
            });
        assert(forall|k: int|
            0 <= k < 6 && k == b.ordinal_of() ==> #[trigger] output_per_level(k, res) == o);
    }
    let p = production_of(levels);
    let want = building_spec_of(b).base_output.times(l as u64);
    assert forall|res: Resource| #[trigger] p.amount_of(res) == want.amount_of(res) by {
        lemma_base_output_bounds(b, res);
        let o = building_spec_of(b).base_output.amount_of(res);
        assert(0 <= o * l <= 2550) by (nonlinear_arith)
            requires
                0 <= l <= 255,
                0 <= o <= 10,
        ;
        assert(l * o == o * l) by (nonlinear_arith);
    }
    assert(p.amount_of(Resource::Wood) == want.amount_of(Resource::Wood));
    assert(p.amount_of(Resource::Clay) == want.amount_of(Resource::Clay));
    assert(p.amount_of(Resource::Iron) == want.amount_of(Resource::Iron));
    assert(p.amount_of(Resource::Grain) == want.amount_of(Resource::Grain));
}

/// Every resource is produced by some kind of building.
pub proof fn lemma_every_resource_produced(res: Resource)
    ensures
        exists|b: Building| #[trigger] building_spec_of(b).base_output.amount_of(res) > 0,
{
    match res {
        Resource::Wood => assert(building_spec_of(Building::Sawmill).base_output.amount_of(res) > 0),
        Resource::Clay => assert(building_spec_of(Building::ClayPit).base_output.amount_of(res) > 0),
        Resource::Iron => assert(building_spec_of(Building::Mine).base_output.amount_of(res) > 0),
        Resource::Grain => assert(building_spec_of(Building::Farm).base_output.amount_of(res) > 0),
    }
}

/// The settlement names are the eleven names Paris, London, Athens, Rome,
/// Lisbon, Prague, Marseille, Naples, Dubrovnik, Belgrade and York, in that
/// order, and no two of them are the same.
pub proof fn lemma_settlement_names_distinct()
    ensures
        settlement_names().len() == SETTLEMENT_NAME_COUNT,
        forall|i: int, j: int|
            0 <= i < j < SETTLEMENT_NAME_COUNT ==> #[trigger] settlement_names()[i]
                != #[trigger] settlement_names()[j],
        settlement_names()[0] == "Paris"@,
        settlement_names()[3] == "Rome"@,
        settlement_names()[10] == "York"@,
{
    reveal_strlit("Paris");
    reveal_strlit("London");
    reveal_strlit("Athens");
    reveal_strlit("Rome");
    reveal_strlit("Lisbon");
    reveal_strlit("Prague");
    reveal_strlit("Marseille");
    reveal_strlit("Naples");
    reveal_strlit("Dubrovnik");
    reveal_strlit("Belgrade");
    reveal_strlit("York");
    let n = settlement_names();
    assert forall|i: int, j: int| 0 <= i < j < SETTLEMENT_NAME_COUNT implies #[trigger] n[i]
        != #[trigger] n[j] by {
        if n[i] == n[j] {
            assert(n[i].len() == n[j].len());
            assert(n[i][0] == n[j][0]);
            assert(n[i][1] == n[j][1]);
        }
    }
}

/// The settlements founded when a game starts all have different names.
pub proof fn lemma_initial_settlement_names_distinct(s: GameState, players: Seq<PlayerId>)
    requires
        is_initial_state(s, players),
        players.len() <= SETTLEMENT_NAME_COUNT,
    ensures
        forall|i: int, j: int|
            0 <= i < j < players.len() ==> (#[trigger] s.settlements@[i]).name@
                != (#[trigger] s.settlements@[j]).name@,
{
    lemma_settlement_names_distinct();
    assert forall|i: int, j: int| 0 <= i < j < players.len() implies (
    #[trigger] s.settlements@[i]).name@ != (#[trigger] s.settlements@[j]).name@ by {
        assert(is_founded(s.settlements@[i], i, players[i]));
        assert(is_founded(s.settlements@[j], j, players[j]));
        assert(settlement_names()[i] != settlement_names()[j]);
    }
}

} // verus!
