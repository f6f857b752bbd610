use vstd::prelude::*;
use crate::error::AppError;
use crate::game::game_state::GameState;
use crate::game::rules;
use crate::game::rules::is_instant;
use crate::text::{decimal, decimal_string, str_eq};

verus! {

/// Calls `uuid::Uuid::new_v4` and hands back the UUID as its 128-bit
/// big-endian value (`Uuid::as_u128`).
///
/// The uuid crate draws 128 random bits, then forces the version nibble
/// (bits 76..80) to 4 and the variant bits (62..64) to `10`; the contract
/// claims exactly that and nothing of the other 122 bits, which come from
/// the random source. The call panics if the operating system's random
/// source fails, which no precondition can rule out.
#[verifier::external_body]
fn random_uuid_v4() -> (r: u128)
    ensures
        (r >> 76u128) & 0xfu128 == 4,
        (r >> 62u128) & 0x3u128 == 2,
{
    uuid::Uuid::new_v4().as_u128()
}

/// Calls `time::OffsetDateTime::now_utc` and hands back
/// `unix_timestamp_nanos()` of the result.
///
/// The contract claims only the range: the time crate keeps a date's year
/// within ±999_999 (±9999 without its `large-dates` feature), so the instant
/// lies strictly within ±2^80 nanoseconds of the Unix epoch. Which instant
/// comes back depends on the clock; adding the system clock's offset to the
/// epoch panics (overflow) if the clock reads outside the crate's range,
/// which no precondition can rule out.
#[verifier::external_body]
fn now_unix_nanos() -> (r: i128)
    ensures
        is_instant(r as int),
{
    time::OffsetDateTime::now_utc().unix_timestamp_nanos()
}

/// Whether a 128-bit UUID value is a random (version 4, RFC 4122 variant) UUID.
pub open spec fn is_random_uuid(v: u128) -> bool {
    &&& (v >> 76u128) & 0xfu128 == 4
    &&& (v >> 62u128) & 0x3u128 == 2
}

/// Identifies a game. Holds the game's UUID as its 128-bit big-endian value,
/// whose numeric order is the UUID's byte order.
#[derive(Debug, Clone, Copy, PartialEq, Eq, Structural, Hash)]
pub struct GameId(u128);

impl GameId {
    pub closed spec fn value(self) -> u128 {
        self.0
    }

    /// The identifier whose UUID has the 128-bit value `v`.
    pub closed spec fn from_value(v: u128) -> GameId {
        GameId(v)
    }

    /// Identifiers and their values correspond one to one.
    pub proof fn lemma_value(self, v: u128)
        ensures
            GameId::from_value(v).value() == v,
            GameId::from_value(self.value()) == self,
            self.value() == v <==> self == GameId::from_value(v),
    {
    }

    /// A fresh random identifier.
    pub fn new() -> (r: GameId)
        ensures
            is_random_uuid(r.value()),
    {
        GameId(random_uuid_v4())
    }

    /// The UUID's 128-bit value.
    pub fn to_uuid(self) -> (r: u128)
        ensures
            r == self.value(),
    {
        self.0
    }

    /// The identifier whose UUID has the 128-bit value `id`.
    pub fn from_uuid(id: u128) -> (r: GameId)
        ensures
            r.value() == id,
            r == GameId::from_value(id),
    {
        GameId(id)
    }
}

/// Identifies a player. Holds the player's UUID as its 128-bit big-endian
/// value, whose numeric order is the UUID's byte order.
#[derive(Debug, Clone, Copy, PartialEq, Eq, Structural, Hash, PartialOrd, Ord)]
pub struct PlayerId(u128);

impl PlayerId {
    pub closed spec fn value(self) -> u128 {
        self.0
    }

    /// The identifier whose UUID has the 128-bit value `v`.
    pub closed spec fn from_value(v: u128) -> PlayerId {
        PlayerId(v)
    }

    /// Identifiers and their values correspond one to one.
    pub proof fn lemma_value(self, v: u128)
        ensures
            PlayerId::from_value(v).value() == v,
            PlayerId::from_value(self.value()) == self,
            self.value() == v <==> self == PlayerId::from_value(v),
    {
    }

    /// A fresh random identifier.
    pub fn new() -> (r: PlayerId)
        ensures
            is_random_uuid(r.value()),
    {
        PlayerId(random_uuid_v4())
    }

    /// The UUID's 128-bit value.
    pub fn to_uuid(self) -> (r: u128)
        ensures
            r == self.value(),
    {
        self.0
    }

    /// The identifier whose UUID has the 128-bit value `id`.
    pub fn from_uuid(id: u128) -> (r: PlayerId)
        ensures
            r.value() == id,
            r == PlayerId::from_value(id),
    {
        PlayerId(id)
    }
}

/// Where a game is in its life.
#[derive(Debug, Clone, Copy, PartialEq, Eq, Structural)]
pub enum GameStatus {
    Open,
    Running,
    Closed,
}

/// The stored name of a status.
pub open spec fn status_name(s: GameStatus) -> Seq<char> {
    match s {
        GameStatus::Open => "Open"@,
        GameStatus::Running => "Running"@,
        GameStatus::Closed => "Closed"@,
    }
}

/// The status whose stored name is `name`, if any.
pub open spec fn status_named(name: Seq<char>) -> Option<GameStatus> {
    if name == "Open"@ {
        Some(GameStatus::Open)
    } else if name == "Running"@ {
        Some(GameStatus::Running)
    } else if name == "Closed"@ {
        Some(GameStatus::Closed)
    } else {
        None
    }
}

/// The message of the error for a stored status that names no status.
pub open spec fn invalid_status_message(name: Seq<char>) -> Seq<char> {
    "invalid game status: "@ + name
}

impl GameStatus {
    /// The name under which the status is stored.
    pub fn as_str(&self) -> (r: &'static str)
        ensures
            r@ == status_name(*self),
    {
        match self {
            GameStatus::Open => "Open",
            GameStatus::Running => "Running",
            GameStatus::Closed => "Closed",
        }
    }

    /// Reads a stored status name; names are case-sensitive.
    pub fn from_str(value: &str) -> (r: Result<GameStatus, AppError>)
        ensures
            match status_named(value@) {
                Some(s) => r == Ok::<GameStatus, AppError>(s),
                None => r matches Err(AppError::InvalidData { message })
                    && message@ == invalid_status_message(value@),
            },
    {
        if str_eq(value, "Open") {
            Ok(GameStatus::Open)
        } else if str_eq(value, "Running") {
            Ok(GameStatus::Running)
        } else if str_eq(value, "Closed") {
            Ok(GameStatus::Closed)
        } else {
            let message = String::from_str("invalid game status: ").concat(value);
            Err(AppError::invalid_data(message))
        }
    }
}

/// Reading back the stored name of a status gives the status.
pub proof fn lemma_status_name_round_trip(s: GameStatus)
    ensures
        status_named(status_name(s)) == Some(s),
{
    reveal_strlit("Open");
    reveal_strlit("Running");
    reveal_strlit("Closed");
    assert("Open"@.len() == 4 && "Running"@.len() == 7 && "Closed"@.len() == 6);
}

/// A registered player.
#[derive(Debug, Clone)]
pub struct Player {
    pub id: PlayerId,
    pub name: String,
}

impl Player {
    /// A new player with a fresh random identifier.
    pub fn new(name: String) -> (r: Player)
        ensures
            r.name@ == name@,
            is_random_uuid(r.id.value()),
    {
        Player { id: PlayerId::new(), name }
    }
}

/// The identifiers of `players`, in order.
pub open spec fn ids_of(players: Seq<Player>) -> Seq<PlayerId> {
    players.map_values(|p: Player| p.id)
}

/// Whether one of `players` has identifier `id`.
pub open spec fn has_player(players: Seq<Player>, id: PlayerId) -> bool {
    exists|i: int| 0 <= i < players.len() && #[trigger] players[i].id == id
}

/// The message of the error for a roster larger than the game allows.
pub open spec fn too_many_players_message(count: nat, max_players: nat) -> Seq<char> {
    "game has "@ + decimal(count) + " players but allows at most "@ + decimal(max_players)
}

/// What [`Game::restore`] gives for the stored parts of a game: the first
/// rule the parts break, in the order checked, or the game they make.
pub open spec fn restored(
    r: Result<Game, AppError>,
    id: GameId,
    status: GameStatus,
    host: PlayerId,
    players: Seq<Player>,
    state: GameState,
    max_players: u8,
    created_at: i128,
) -> bool {
    if status == GameStatus::Running && !state.initialized() {
        r matches Err(AppError::InvalidState { message })
            && message@ == "Game is running, but state is not initialized"@
    } else if !has_player(players, host) {
        r matches Err(AppError::InvalidData { message })
            && message@ == "host is not a player in the game"@
    } else if players.len() > max_players {
        r matches Err(AppError::InvalidData { message }) && message@ == too_many_players_message(
            players.len(),
            max_players as nat,
        )
    } else {
        r matches Ok(g) && g@.wf() && g@ == (GameView {
            id,
            status,
            host,
            players,
            state: Some(state),
            max_players,
            created_at,
        })
    }
}

/// Whether `after` is `before` once its state has been read at `now`
/// (nanoseconds since the Unix epoch), and `r` is what the read gave:
/// only the state changes, brought forward to the tick reached at `now`.
pub open spec fn read_at(
    before: GameView,
    after: GameView,
    now: int,
    r: Result<GameState, AppError>,
) -> bool {
    &&& after.id == before.id
    &&& after.status == before.status
    &&& after.host == before.host
    &&& after.players == before.players
    &&& after.max_players == before.max_players
    &&& after.created_at == before.created_at
    &&& match before.state {
        None => {
            &&& r matches Err(AppError::InvalidState { message })
            &&& message@ == "game has not started"@
            &&& after.state is None
        },
        Some(old_state) => {
            &&& after.state matches Some(new_state) && rules::advanced_to(
                old_state,
                new_state,
                rules::tick_of(before.created_at as int, now) as u64,
            )
            &&& r == Ok::<GameState, AppError>(after.state.unwrap())
        },
    }
}

/// What a game holds: its identifier, status, host, roster, state (once
/// started), player limit and creation instant.
pub struct GameView {
    pub id: GameId,
    pub status: GameStatus,
    pub host: PlayerId,
    pub players: Seq<Player>,
    pub state: Option<GameState>,
    pub max_players: u8,
    pub created_at: i128,
}

impl GameView {
    /// A well-formed game has its host among its players and a valid
    /// creation instant; its state, if any, is well formed, and a running
    /// game has an initialized state.
    pub open spec fn wf(self) -> bool {
        &&& has_player(self.players, self.host)
        &&& is_instant(self.created_at as int)
        &&& (self.state matches Some(s) ==> s.wf())
        &&& (self.status == GameStatus::Running ==> (self.state matches Some(s)
            && s.initialized()))
    }
}

/// A game: its roster, its limits and, once started, its state.
///
/// `created_at` is the creation instant in nanoseconds since the Unix epoch.
/// The state is read through [`Game::state_at`], which first brings it up
/// to the tick of the instant asked for; [`Game::persisted_state`] hands it
/// out as it is, for storage only.
#[derive(Debug)]
pub struct Game {
    id: GameId,
    status: GameStatus,
    host: PlayerId,
    players: Vec<Player>,
    state: Option<GameState>,
    max_players: u8,
    created_at: i128,
}

impl View for Game {
    type V = GameView;

    closed spec fn view(&self) -> GameView {
        GameView {
            id: self.id,
            status: self.status,
            host: self.host,
            players: self.players@,
            state: self.state,
            max_players: self.max_players,
            created_at: self.created_at,
        }
    }
}

impl Game {
    pub fn id(&self) -> (r: GameId)
        ensures
            r == self@.id,
    {
        self.id
    }

    pub fn status(&self) -> (r: GameStatus)
        ensures
            r == self@.status,
    {
        self.status
    }

    pub fn host(&self) -> (r: PlayerId)
        ensures
            r == self@.host,
    {
        self.host
    }

    pub fn players(&self) -> (r: &Vec<Player>)
        ensures
            r@ == self@.players,
    {
        &self.players
    }

    pub fn max_players(&self) -> (r: u8)
        ensures
            r == self@.max_players,
    {
        self.max_players
    }

    /// The creation instant, in nanoseconds since the Unix epoch.
    pub fn created_at(&self) -> (r: i128)
        ensures
            r == self@.created_at,
    {
        self.created_at
    }

    /// Opens a new game hosted by `host`, who is its only player, created at
    /// `created_at` (nanoseconds since the Unix epoch). Never fails.
    pub fn initiate_at(max_players: u8, host: Player, created_at: i128) -> (r: Result<
        Game,
        AppError,
    >)
        requires
            is_instant(created_at as int),
        ensures
            r matches Ok(g) && {
                &&& g@.wf()
                &&& is_random_uuid(g@.id.value())
                &&& g@.status == GameStatus::Open
                &&& g@.host == host.id
                &&& g@.players == seq![host]
                &&& g@.state is None
                &&& g@.max_players == max_players
                &&& g@.created_at == created_at
            },
    {
        let host_id = host.id;
        let players = vec![host];
        assert(players@[0].id == host_id);
        Ok(Game {
            id: GameId::new(),
            status: GameStatus::Open,
            host: host_id,
            players,
            state: None,
            max_players,
            created_at,
        })
    }

    /// Opens a new game hosted by `host`, who is its only player, created
    /// now. Never fails.
    pub fn initiate(max_players: u8, host: Player) -> (r: Result<Game, AppError>)
        ensures
            r matches Ok(g) && {
                &&& g@.wf()
                &&& is_random_uuid(g@.id.value())
                &&& g@.status == GameStatus::Open
                &&& g@.host == host.id
                &&& g@.players == seq![host]
                &&& g@.state is None
                &&& g@.max_players == max_players
            },
    {
        Game::initiate_at(max_players, host, now_unix_nanos())
    }

    /// Starts the game: every player gets a settlement, in roster order,
    /// and the game runs. Never fails.
    pub fn start(&mut self) -> (r: Result<(), AppError>)
        requires
            old(self)@.wf(),
            old(self)@.players.len() <= rules::SETTLEMENT_NAME_COUNT,
        ensures
            r is Ok,
            final(self)@.wf(),
            final(self)@.status == GameStatus::Running,
            final(self)@.state matches Some(s) && rules::is_initial_state(
                s,
                ids_of(old(self)@.players),
            ),
            final(self)@.id == old(self)@.id,
            final(self)@.host == old(self)@.host,
            final(self)@.players == old(self)@.players,
            final(self)@.max_players == old(self)@.max_players,
            final(self)@.created_at == old(self)@.created_at,
    {
        let mut player_ids: Vec<PlayerId> = Vec::new();
        let n = self.players.len();
        let mut i: usize = 0;
        while i < n
            invariant
                n == self.players@.len(),
                i <= n,
                player_ids@ == ids_of(self.players@).take(i as int),
            decreases n - i,
        {
            player_ids.push(self.players[i].id);
            assert(player_ids@ =~= ids_of(self.players@).take(i + 1));
            i += 1;
        }
        assert(player_ids@ =~= ids_of(self.players@));
        let started = rules::initial_state(player_ids.as_slice());
        match started {
            Ok(state) => {
                proof {
                    assert(has_player(self.players@, self.host));
                    assert(state.settlements@.len() > 0);
                }
                self.state = Some(state);
                self.status = GameStatus::Running;
                Ok(())
            },
            Err(e) => Err(e),
        }
    }

    /// Rebuilds a stored game, refusing one that breaks the game's rules:
    /// a running game without an initialized state, a host who is not a
    /// player, or more players than the game allows — checked in that order.
    pub fn restore(
        id: GameId,
        status: GameStatus,
        host: PlayerId,
        players: Vec<Player>,
        state: GameState,
        max_players: u8,
        created_at: i128,
    ) -> (r: Result<Game, AppError>)
        requires
            state.wf(),
            is_instant(created_at as int),
        ensures
            restored(r, id, status, host, players@, state, max_players, created_at),
    {
        if status == GameStatus::Running && !state.is_initialized() {
            return Err(
                AppError::InvalidState {
                    message: "Game is running, but state is not initialized".to_owned(),
                },
            );
        }
        let mut found = false;
        let mut i: usize = 0;
        while i < players.len()
            invariant
                i <= players@.len(),
                found == exists|j: int| 0 <= j < i && #[trigger] players@[j].id == host,
            decreases players@.len() - i,
        {
            if players[i].id == host {
                found = true;
            }
            i += 1;
        }
        if !found {
            return Err(AppError::invalid_data("host is not a player in the game".to_owned()));
        }
        if players.len() > max_players as usize {
            let message = String::from_str("game has ").concat(
                decimal_string(players.len() as u64).as_str(),
            ).concat(" players but allows at most ").concat(
                decimal_string(max_players as u64).as_str(),
            );
            return Err(AppError::invalid_data(message));
        }
        Ok(Game { id, status, host, players, state: Some(state), max_players, created_at })
    }

    /// The game's state brought forward to the tick reached at `now`
    /// (nanoseconds since the Unix epoch). The advanced state is kept.
    /// Fails if the game has no state yet.
    pub fn state_at(&mut self, now: i128) -> (r: Result<&GameState, AppError>)
        requires
            old(self)@.wf(),
            is_instant(now as int),
        ensures
            final(self)@.wf(),
            read_at(
                old(self)@,
                final(self)@,
                now as int,
                match r {
                    Ok(s) => Ok(*s),
                    Err(e) => Err(e),
                },
            ),
    {
        let tick = rules::tick_at(self.created_at, now);
        match &mut self.state {
            None => Err(AppError::InvalidState { message: "game has not started".to_owned() }),
            Some(state) => {
                rules::advance_to(state, tick);
                Ok(&*state)
            },
        }
    }

    /// The state as last stored, without advancing it; for persistence only.
    pub fn persisted_state(&self) -> (r: Option<&GameState>)
        ensures
            match r {
                Some(s) => self@.state == Some(*s),
                None => self@.state is None,
            },
    {
        self.state.as_ref()
    }
}

/// Reading a game's state at `t1` and then at a later `t2` leaves the game
/// with the state that reading it once at `t2` gives, and the second read
/// answers as the single read does. Reading at an instant earlier than the
/// last read changes nothing.
pub proof fn lemma_read_twice(
    g0: GameView,
    g1: GameView,
    g2: GameView,
    direct: GameView,
    t1: int,
    t2: int,
    r1: Result<GameState, AppError>,
    r2: Result<GameState, AppError>,
    rd: Result<GameState, AppError>,
)
    requires
        g0.wf(),
        is_instant(t1),
        is_instant(t2),
        t1 <= t2,
        read_at(g0, g1, t1, r1),
        read_at(g1, g2, t2, r2),
        read_at(g0, direct, t2, rd),
    ensures
        g2.state is None <==> direct.state is None,
        r2 is Err <==> rd is Err,
        g2.state matches Some(s2) ==> direct.state matches Some(sd) && {
            &&& s2.tick == sd.tick
            &&& s2.players@ == sd.players@
            &&& s2.settlements@ == sd.settlements@
        },
{
    if let Some(s0) = g0.state {
        let c = g0.created_at as int;
        rules::lemma_tick_of_monotonic(c, t1, t2);
        rules::lemma_tick_of_bound(c, t1);
        rules::lemma_tick_of_bound(c, t2);
        let s1 = g1.state.unwrap();
        let s2 = g2.state.unwrap();
        let sd = direct.state.unwrap();
        rules::lemma_advance_in_two_steps(
            s0,
            s1,
            s2,
            sd,
            rules::tick_of(c, t1) as u64,
            rules::tick_of(c, t2) as u64,
        );
    }
}

/// Restoring the stored parts of a well-formed, started game whose roster
/// fits its player limit gives the game back.
pub proof fn lemma_restore_round_trip(g: GameView, r: Result<Game, AppError>)
    requires
        g.wf(),
        g.state is Some,
        g.players.len() <= g.max_players,
        restored(r, g.id, g.status, g.host, g.players, g.state.unwrap(), g.max_players, g.created_at),
    ensures
        r matches Ok(back) && back@ == g,
{
}


/// Each status is stored under its own variant's name: "Open", "Running"
/// and "Closed", and each of those names reads back as that status.
pub proof fn lemma_status_names()
    ensures
        status_name(GameStatus::Open) == "Open"@,
        status_name(GameStatus::Running) == "Running"@,
        status_name(GameStatus::Closed) == "Closed"@,
        status_named("Open"@) == Some(GameStatus::Open),
        status_named("Running"@) == Some(GameStatus::Running),
        status_named("Closed"@) == Some(GameStatus::Closed),
        forall|a: GameStatus, b: GameStatus| a != b ==> status_name(a) != status_name(b),
{
    lemma_status_name_round_trip(GameStatus::Open);
    lemma_status_name_round_trip(GameStatus::Running);
    lemma_status_name_round_trip(GameStatus::Closed);
    assert forall|a: GameStatus, b: GameStatus| a != b implies status_name(a) != status_name(b) by {
        lemma_status_name_round_trip(a);
        lemma_status_name_round_trip(b);
    }
}

} // verus!
