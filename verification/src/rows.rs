//! Games and players as storage hands them back, and how a game is rebuilt
//! from them.
use vstd::prelude::*;
use crate::error::AppError;
use crate::game::game::{restored, Game, GameId, GameStatus, Player, PlayerId, status_named,
    invalid_status_message};
use crate::game::game_state::GameState;
use crate::game::rules::is_instant;
use std::collections::HashMap;

verus! {

/// A stored game. `status` is the stored status name; `state` is the stored
/// state once decoded, or the decoder's message where it could not be
/// decoded; `created_at` is in nanoseconds since the Unix epoch.
pub struct GameRow {
    pub id: u128,
    pub status: String,
    pub state: Result<GameState, String>,
    pub maximum_players: i16,
    pub created_at: i128,
}

/// One player of one stored game's roster.
pub struct GamePlayerRow {
    pub game_id: u128,
    pub id: u128,
    pub name: String,
    pub is_host: bool,
}

/// A stored player.
pub struct PlayerRow {
    pub id: u128,
    pub name: String,
}

impl From<PlayerRow> for Player {
    fn from(row: PlayerRow) -> (r: Player) {
        Player { id: PlayerId::from_uuid(row.id), name: row.name }
    }
}

impl vstd::std_specs::convert::FromSpecImpl<PlayerRow> for Player {
    open spec fn obeys_from_spec() -> bool {
        true
    }

    open spec fn from_spec(row: PlayerRow) -> Player {
        Player { id: PlayerId::from_value(row.id), name: row.name }
    }
}

/// Whether a stored game can be rebuilt as far as its own data goes: its
/// decoded state is well formed and its creation instant is accepted.
pub open spec fn row_is_valid(row: GameRow) -> bool {
    &&& (row.state matches Ok(s) ==> s.wf())
    &&& is_instant(row.created_at as int)
}

/// Whether some row of the roster is the host's.
pub open spec fn has_host_row(rows: Seq<GamePlayerRow>) -> bool {
    exists|i: int| 0 <= i < rows.len() && #[trigger] rows[i].is_host
}

/// Whether `i` is the first row of the roster that is the host's.
pub open spec fn is_first_host_row(rows: Seq<GamePlayerRow>, i: int) -> bool {
    &&& 0 <= i < rows.len()
    &&& rows[i].is_host
    &&& forall|j: int| 0 <= j < i ==> !(#[trigger] rows[j].is_host)
}

/// The players of a roster, in roster order.
pub open spec fn roster_players(rows: Seq<GamePlayerRow>) -> Seq<Player> {
    rows.map_values(|r: GamePlayerRow| Player { id: PlayerId::from_value(r.id), name: r.name })
}

/// What [`build_game`] gives for a stored game and its roster: the first
/// defect found, in the order checked (no host, an unknown status, a state
/// that could not be decoded, a player limit outside `u8`), or else what
/// [`Game::restore`] gives for the parts.
pub open spec fn built(row: GameRow, rows: Seq<GamePlayerRow>, r: Result<Game, AppError>) -> bool {
    if !has_host_row(rows) {
        r matches Err(AppError::InvalidData { message }) && message@ == "game has no host"@
    } else {
        match status_named(row.status@) {
            None => r matches Err(AppError::InvalidData { message }) && message@
                == invalid_status_message(row.status@),
            Some(status) => match row.state {
                Err(m) => r matches Err(AppError::InvalidData { message }) && message@ == m@,
                Ok(state) => if row.maximum_players < 0 || row.maximum_players > 255 {
                    r matches Err(AppError::InvalidData { .. })
                } else {
                    exists|h: int|
                        is_first_host_row(rows, h) && restored(
                            r,
                            GameId::from_value(row.id),
                            status,
                            PlayerId::from_value(#[trigger] rows[h].id),
                            roster_players(rows),
                            state,
                            row.maximum_players as u8,
                            row.created_at,
                        )
                },
            },
        }
    }
}

/// Rebuilds a game from its stored row and its roster, which are read
/// separately.
pub fn build_game(row: GameRow, player_rows: Vec<GamePlayerRow>) -> (r: Result<Game, AppError>)
    requires
        row_is_valid(row),
    ensures
        built(row, player_rows@, r),
{
    let n = player_rows.len();
    let mut host_index: usize = 0;
    while host_index < n && !player_rows[host_index].is_host
        invariant
            n == player_rows@.len(),
            host_index <= n,
            forall|j: int| 0 <= j < host_index ==> !(#[trigger] player_rows@[j].is_host),
        decreases n - host_index,
    {
        host_index += 1;
    }
    if host_index == n {
        return Err(AppError::invalid_data("game has no host".to_owned()));
    }
    let host = PlayerId::from_uuid(player_rows[host_index].id);
    let ghost rows = player_rows@;
    let mut players: Vec<Player> = Vec::new();
    for player in it: player_rows.into_iter()
        invariant
            it.seq() == rows,
            players@ == roster_players(rows).take(it.index()),
    {
        players.push(Player { id: PlayerId::from_uuid(player.id), name: player.name });
        assert(players@ =~= roster_players(rows).take(it.index() + 1));
    }
    assert(players@ =~= roster_players(rows));
    let status = match GameStatus::from_str(row.status.as_str()) {
        Ok(status) => status,
        Err(e) => return Err(e),
    };
    let state = match row.state {
        Ok(state) => state,
        Err(message) => return Err(AppError::invalid_data(message)),
    };
    let max_players = match u8::try_from(row.maximum_players) {
        Ok(max_players) => max_players,
        Err(e) => return Err(AppError::invalid_data(e.to_string())),
    };
    let r = Game::restore(
        GameId::from_uuid(row.id),
        status,
        host,
        players,
        state,
        max_players,
        row.created_at,
    );
    assert(is_first_host_row(rows, host_index as int));
    r
}

/// The roster rows that belong to the game with id `k`, in their order.
pub open spec fn rows_for(rows: Seq<GamePlayerRow>, k: u128) -> Seq<GamePlayerRow>
    decreases rows.len(),
{
    if rows.len() == 0 {
        Seq::empty()
    } else {
        let earlier = rows_for(rows.drop_last(), k);
        if rows.last().game_id == k {
            earlier.push(rows.last())
        } else {
            earlier
        }
    }
}

/// The roster handed to the `i`-th stored game: its own rows, unless an
/// earlier stored game has the same id and so has taken them already.
pub open spec fn roster_of(games: Seq<GameRow>, rows: Seq<GamePlayerRow>, i: int) -> Seq<
    GamePlayerRow,
> {
    if exists|j: int| 0 <= j < i && #[trigger] games[j].id == games[i].id {
        Seq::empty()
    } else {
        rows_for(rows, games[i].id)
    }
}

/// Whether rebuilding a stored game from a roster fails.
pub open spec fn build_fails(row: GameRow, rows: Seq<GamePlayerRow>) -> bool {
    ||| !has_host_row(rows)
    ||| status_named(row.status@) is None
    ||| row.state is Err
    ||| row.maximum_players < 0
    ||| row.maximum_players > 255
    ||| (status_named(row.status@) == Some(GameStatus::Running) && !row.state.unwrap().initialized())
    ||| (forall|h: int|
        is_first_host_row(rows, h) ==> !crate::game::game::has_player(
            roster_players(rows),
            PlayerId::from_value(#[trigger] rows[h].id),
        ))
    ||| rows.len() > row.maximum_players
}

/// A rebuild fails exactly when [`build_fails`] says so.
pub proof fn lemma_built_fails(row: GameRow, rows: Seq<GamePlayerRow>, r: Result<Game, AppError>)
    requires
        built(row, rows, r),
    ensures
        r is Err <==> build_fails(row, rows),
{
    if has_host_row(rows) && status_named(row.status@) is Some && row.state is Ok && 0
        <= row.maximum_players <= 255 {
        let h = choose|h: int|
            is_first_host_row(rows, h) && restored(
                r,
                GameId::from_value(row.id),
                status_named(row.status@).unwrap(),
                PlayerId::from_value(#[trigger] rows[h].id),
                roster_players(rows),
                row.state.unwrap(),
                row.maximum_players as u8,
                row.created_at,
            );
        assert forall|h2: int| is_first_host_row(rows, h2) implies h2 == h by {
            if h2 < h {
                assert(!rows[h2].is_host);
            } else if h < h2 {
                assert(!rows[h].is_host);
            }
        }
    }
}

/// Rebuilds every stored game, in order, each with its roster; the roster
/// rows, read in one batch, are shared out by game id. Stops at the first
/// game that cannot be rebuilt.
pub fn assemble_games(game_rows: Vec<GameRow>, player_rows: Vec<GamePlayerRow>) -> (r: Result<
    Vec<Game>,
    AppError,
>)
    requires
        forall|i: int| 0 <= i < game_rows@.len() ==> row_is_valid(#[trigger] game_rows@[i]),
    ensures
        match r {
            Ok(games) => {
                &&& games@.len() == game_rows@.len()
                &&& forall|i: int|
                    0 <= i < game_rows@.len() ==> built(
                        game_rows@[i],
                        roster_of(game_rows@, player_rows@, i),
                        Ok(#[trigger] games@[i]),
                    )
            },
            Err(e) => exists|k: int|
                #![trigger game_rows@[k]]
                {
                    &&& 0 <= k < game_rows@.len()
                    &&& forall|i: int|
                        0 <= i < k ==> !build_fails(
                            #[trigger] game_rows@[i],
                            roster_of(game_rows@, player_rows@, i),
                        )
                    &&& built(game_rows@[k], roster_of(game_rows@, player_rows@, k), Err(e))
                },
        },
{
    let ghost rows = player_rows@;
    let ghost games_in = game_rows@;
    let mut rosters: HashMap<u128, Vec<GamePlayerRow>> = HashMap::new();
    for player_row in it: player_rows.into_iter()
        invariant
            it.seq() == rows,
            forall|k: u128|
                #![trigger rosters@.contains_key(k)]
                (if rosters@.contains_key(k) {
                    rosters@[k]@
                } else {
                    Seq::<GamePlayerRow>::empty()
                }) == rows_for(rows.take(it.index()), k),
    {
        let ghost before = rosters@;
        let game_id = player_row.game_id;
        let mut roster = match rosters.remove(&game_id) {
            Some(roster) => roster,
            None => Vec::new(),
        };
        roster.push(player_row);
        rosters.insert(game_id, roster);
        proof {
            let done = rows.take(it.index());
            let next = rows.take(it.index() + 1);
            assert(next.drop_last() =~= done);
            assert forall|k: u128|
                #![trigger rosters@.contains_key(k)]
                (if rosters@.contains_key(k) {
                    rosters@[k]@
                } else {
                    Seq::<GamePlayerRow>::empty()
                }) == rows_for(next, k) by {
                if k != game_id {
                    assert(rosters@.contains_key(k) == before.contains_key(k));
                }
            }
        }
    }
    assert(rows.take(rows.len() as int) =~= rows);
    let mut games: Vec<Game> = Vec::new();
    #[verifier::loop_isolation(false)]
    for row in it: game_rows.into_iter()
        invariant
            it.seq() == games_in,
            forall|i: int| 0 <= i < games_in.len() ==> row_is_valid(#[trigger] games_in[i]),
            forall|k: u128|
                #![trigger rosters@.contains_key(k)]
                (if rosters@.contains_key(k) {
                    rosters@[k]@
                } else {
                    Seq::<GamePlayerRow>::empty()
                }) == (if exists|j: int| 0 <= j < it.index() && #[trigger] games_in[j].id == k {
                    Seq::<GamePlayerRow>::empty()
                } else {
                    rows_for(rows, k)
                }),
            games@.len() == it.index(),
            forall|i: int|
                0 <= i < it.index() ==> built(
                    games_in[i],
                    roster_of(games_in, rows, i),
                    Ok(#[trigger] games@[i]),
                ),
            forall|i: int|
                0 <= i < it.index() ==> !build_fails(
                    #[trigger] games_in[i],
                    roster_of(games_in, rows, i),
                ),
    {
        let ghost index = it.index();
        let ghost before = rosters@;
        let game_id = row.id;
        let roster = match rosters.remove(&game_id) {
            Some(roster) => roster,
            None => Vec::new(),
        };
        proof {
            assert(games_in[index] == row);
            assert(roster@ == roster_of(games_in, rows, index));
            assert forall|k: u128|
                #![trigger rosters@.contains_key(k)]
                (if rosters@.contains_key(k) {
                    rosters@[k]@
                } else {
                    Seq::<GamePlayerRow>::empty()
                }) == (if exists|j: int| 0 <= j < index + 1 && #[trigger] games_in[j].id == k {
                    Seq::<GamePlayerRow>::empty()
                } else {
                    rows_for(rows, k)
                }) by {
                if k == game_id {
                    assert(games_in[index].id == k);
                } else {
                    if exists|j: int| 0 <= j < index + 1 && #[trigger] games_in[j].id == k {
                        let j = choose|j: int| 0 <= j < index + 1 && #[trigger] games_in[j].id == k;
                        assert(j < index);
                    }
                }
            }
        }
        let built_game = build_game(row, roster);
        proof {
            lemma_built_fails(games_in[index], roster_of(games_in, rows, index), built_game);
        }
        match built_game {
            Ok(game) => {
                games.push(game);
            },
            Err(e) => {
                assert(built(games_in[index], roster_of(games_in, rows, index), Err(e)));
                assert({
                    &&& 0 <= index < games_in.len()
                    &&& forall|i: int|
                        0 <= i < index ==> !build_fails(
                            #[trigger] games_in[i],
                            roster_of(games_in, rows, i),
                        )
                    &&& built(games_in[index], roster_of(games_in, rows, index), Err(e))
                });
                return Err(e);
            },
        }
    }
    Ok(games)
}

} // verus!
