use vstd::prelude::*;
use crate::game::game::PlayerId;
use std::collections::BTreeMap;

verus! {

/// `x` held to the range of `i64`.
pub open spec fn clamp_i64(x: int) -> i64 {
    if x > i64::MAX {
        i64::MAX
    } else if x < i64::MIN {
        i64::MIN
    } else {
        x as i64
    }
}

/// `a + b`, held to the range of `i64`.
pub fn saturating_add_i64(a: i64, b: i64) -> (r: i64)
    ensures
        r == clamp_i64(a + b),
{
    let wide: i128 = a as i128 + b as i128;
    if wide > i64::MAX as i128 {
        i64::MAX
    } else if wide < i64::MIN as i128 {
        i64::MIN
    } else {
        wide as i64
    }
}

/// `a * b`, held to the range of `i64`.
pub fn saturating_mul_i64(a: i64, b: i64) -> (r: i64)
    ensures
        r == clamp_i64(a * b),
{
    assert(-0x8000_0000_0000_0000 * 0x8000_0000_0000_0000 <= a * b
        <= 0x8000_0000_0000_0000 * 0x8000_0000_0000_0000) by (nonlinear_arith)
        requires
            i64::MIN <= a <= i64::MAX,
            i64::MIN <= b <= i64::MAX,
    ;
    let wide: i128 = a as i128 * b as i128;
    if wide > i64::MAX as i128 {
        i64::MAX
    } else if wide < i64::MIN as i128 {
        i64::MIN
    } else {
        wide as i64
    }
}

/// The kinds of building. Their order as map keys is this declaration order,
/// which is also the order of their ordinals.
#[derive(Debug, Clone, Copy, PartialEq, Eq, Structural, PartialOrd, Ord, Hash)]
pub enum Building {
    Sawmill,
    ClayPit,
    Mine,
    Farm,
    Warehouse,
    Barracks,
}

/// How many kinds of building there are.
pub const BUILDING_COUNT: u8 = 6;

/// The building with ordinal `k`, if `k` is an ordinal.
pub open spec fn building_with_ordinal(k: int) -> Option<Building> {
    if k == 0 {
        Some(Building::Sawmill)
    } else if k == 1 {
        Some(Building::ClayPit)
    } else if k == 2 {
        Some(Building::Mine)
    } else if k == 3 {
        Some(Building::Farm)
    } else if k == 4 {
        Some(Building::Warehouse)
    } else if k == 5 {
        Some(Building::Barracks)
    } else {
        None
    }
}

impl Building {
    /// The position of the building in declaration order.
    pub open spec fn ordinal_of(self) -> u8 {
        match self {
            Building::Sawmill => 0,
            Building::ClayPit => 1,
            Building::Mine => 2,
            Building::Farm => 3,
            Building::Warehouse => 4,
            Building::Barracks => 5,
        }
    }

    pub fn ordinal(self) -> (r: u8)
        ensures
            r == self.ordinal_of(),
            r < BUILDING_COUNT,
    {
        match self {
            Building::Sawmill => 0,
            Building::ClayPit => 1,
            Building::Mine => 2,
            Building::Farm => 3,
            Building::Warehouse => 4,
            Building::Barracks => 5,
        }
    }

    pub fn from_ordinal(k: u8) -> (r: Option<Building>)
        ensures
            r == building_with_ordinal(k as int),
            r is Some <==> k < BUILDING_COUNT,
            r matches Some(b) ==> b.ordinal_of() == k,
    {
        match k {
            0 => Some(Building::Sawmill),
            1 => Some(Building::ClayPit),
            2 => Some(Building::Mine),
            3 => Some(Building::Farm),
            4 => Some(Building::Warehouse),
            5 => Some(Building::Barracks),
            _ => None,
        }
    }
}

/// Ordinals and buildings correspond one to one.
pub proof fn lemma_building_ordinal_round_trip(b: Building)
    ensures
        building_with_ordinal(b.ordinal_of() as int) == Some(b),
        b.ordinal_of() < BUILDING_COUNT,
{
}

/// An upgrade under way.
#[derive(Debug, Clone, Copy, PartialEq, Eq, Structural)]
pub struct Construction {
    pub building: Building,
    pub to_level: u8,
    pub completes_at_tick: u64,
}

/// The kinds of resource.
#[derive(Debug, Clone, Copy, PartialEq, Eq, Structural)]
pub enum Resource {
    Wood,
    Clay,
    Iron,
    Grain,
}

/// An amount of each resource.
#[derive(Debug, Clone, Copy, PartialEq, Eq, Structural)]
pub struct Resources {
    pub wood: i64,
    pub clay: i64,
    pub iron: i64,
    pub grain: i64,
}

/// `factor` as an `i64`, `i64::MAX` where it does not fit.
pub open spec fn factor_i64(factor: u64) -> i64 {
    if factor > i64::MAX as u64 {
        i64::MAX
    } else {
        factor as i64
    }
}

impl Resources {
    /// No resources at all.
    pub open spec fn zero() -> Resources {
        Resources { wood: 0, clay: 0, iron: 0, grain: 0 }
    }

    /// The amount of one resource.
    pub open spec fn amount_of(self, r: Resource) -> i64 {
        match r {
            Resource::Wood => self.wood,
            Resource::Clay => self.clay,
            Resource::Iron => self.iron,
            Resource::Grain => self.grain,
        }
    }

    /// Each amount times `factor`, the factor held to `i64::MAX` and each
    /// product held to the range of `i64`.
    pub open spec fn times(self, factor: u64) -> Resources {
        let f = factor_i64(factor);
        Resources {
            wood: clamp_i64(self.wood * f),
            clay: clamp_i64(self.clay * f),
            iron: clamp_i64(self.iron * f),
            grain: clamp_i64(self.grain * f),
        }
    }

    /// The sum of the amounts of each resource, each held to the range of `i64`.
    pub open spec fn plus(self, other: Resources) -> Resources {
        Resources {
            wood: clamp_i64(self.wood + other.wood),
            clay: clamp_i64(self.clay + other.clay),
            iron: clamp_i64(self.iron + other.iron),
            grain: clamp_i64(self.grain + other.grain),
        }
    }

    /// Whether no amount is negative.
    pub open spec fn is_nonnegative(self) -> bool {
        &&& self.wood >= 0
        &&& self.clay >= 0
        &&& self.iron >= 0
        &&& self.grain >= 0
    }

    pub fn new(wood: i64, clay: i64, iron: i64, grain: i64) -> (r: Resources)
        ensures
            r == (Resources { wood, clay, iron, grain }),
    {
        Resources { wood, clay, iron, grain }
    }

    /// Scales every amount by `factor`, saturating at the bounds of `i64`.
    pub fn multiply(self, factor: u64) -> (r: Resources)
        ensures
            r == self.times(factor),
    {
        let factor: i64 = if factor > i64::MAX as u64 {
            i64::MAX
        } else {
            factor as i64
        };
        Resources {
            wood: saturating_mul_i64(self.wood, factor),
            clay: saturating_mul_i64(self.clay, factor),
            iron: saturating_mul_i64(self.iron, factor),
            grain: saturating_mul_i64(self.grain, factor),
        }
    }

    /// Adds amounts resource by resource, saturating at the bounds of `i64`.
    pub fn add(self, other: Resources) -> (r: Resources)
        ensures
            r == self.plus(other),
    {
        Resources {
            wood: saturating_add_i64(self.wood, other.wood),
            clay: saturating_add_i64(self.clay, other.clay),
            iron: saturating_add_i64(self.iron, other.iron),
            grain: saturating_add_i64(self.grain, other.grain),
        }
    }
}

impl Default for Resources {
    fn default() -> (r: Resources)
        ensures
            r == Resources::zero(),
    {
        Resources { wood: 0, clay: 0, iron: 0, grain: 0 }
    }
}

/// Adding resources does not depend on the order of the operands.
pub proof fn lemma_add_commutative(a: Resources, b: Resources)
    ensures
        a.plus(b) == b.plus(a),
{
}

/// Adding resources adds each amount, held to the range of `i64`.
pub proof fn lemma_plus_amount(a: Resources, b: Resources, res: Resource)
    ensures
        a.plus(b).amount_of(res) == clamp_i64(a.amount_of(res) + b.amount_of(res)),
{
}

/// Adding nothing changes nothing.
pub proof fn lemma_add_zero(a: Resources)
    ensures
        a.plus(Resources::zero()) == a,
{
}

/// Identifies a settlement: its position among the game's settlements.
#[derive(Debug, Clone, Copy, PartialEq, Eq, Structural, Hash, PartialOrd, Ord)]
pub struct SettlementId(u32);

impl SettlementId {
    pub closed spec fn index(self) -> u32 {
        self.0
    }

    /// The identifier of the settlement at position `i`.
    pub closed spec fn from_index(i: u32) -> SettlementId {
        SettlementId(i)
    }

    /// Identifiers and positions correspond one to one.
    pub proof fn lemma_index(self, i: u32)
        ensures
            SettlementId::from_index(i).index() == i,
            SettlementId::from_index(self.index()) == self,
            self.index() == i <==> self == SettlementId::from_index(i),
    {
    }

    /// The identifier of the settlement at position `id`; the position must fit in a `u32`.
    pub fn from_usize(id: usize) -> (r: SettlementId)
        requires
            id <= u32::MAX,
        ensures
            r.index() == id,
            r == SettlementId::from_index(id as u32),
    {
        SettlementId(id as u32)
    }

    /// The position of the settlement.
    pub fn into_usize(self) -> (r: usize)
        ensures
            r == self.index(),
    {
        self.0 as usize
    }
}

/// A settlement of one player.
///
/// `building_levels` maps a building's ordinal (see [`Building::ordinal`])
/// to its level; a building that is absent has not been built.
#[derive(Debug, Clone)]
pub struct Settlement {
    pub id: SettlementId,
    pub owner: PlayerId,
    pub name: String,
    pub stock: Resources,
    pub building_levels: BTreeMap<u8, u8>,
    pub construction_queue: Vec<Construction>,
}

impl Settlement {
    /// Every key of `building_levels` is a building's ordinal.
    pub open spec fn wf(&self) -> bool {
        forall|k: u8| #[trigger] self.building_levels@.contains_key(k) ==> k < BUILDING_COUNT
    }
}

/// What the game records of a player.
#[derive(Debug, Clone, Copy, PartialEq, Eq, Structural)]
pub struct PlayerState {
    pub score: i64,
}

/// The state of a running game at tick `tick`.
///
/// `players` is keyed by each player's UUID value (see [`PlayerId::to_uuid`]).
#[derive(Debug, Clone)]
pub struct GameState {
    pub tick: u64,
    pub players: BTreeMap<u128, PlayerState>,
    pub settlements: Vec<Settlement>,
}

impl GameState {
    /// Every settlement is well formed.
    pub open spec fn wf(&self) -> bool {
        forall|i: int| 0 <= i < self.settlements@.len() ==> #[trigger] self.settlements@[i].wf()
    }

    /// There is a settlement, and at least as many settlements as players.
    pub open spec fn initialized(&self) -> bool {
        &&& self.settlements@.len() > 0
        &&& self.settlements@.len() >= self.players@.len()
    }

    pub fn is_initialized(&self) -> (r: bool)
        ensures
            r == self.initialized(),
    {
        !self.settlements.is_empty() && self.settlements.len() >= self.players.len()
    }
}

} // verus!
