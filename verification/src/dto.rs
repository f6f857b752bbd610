//! What the HTTP interface receives and answers, as plain values.
use vstd::prelude::*;
use crate::game::game::{Game, GameId, GameStatus, Player, PlayerId};

verus! {

/// A request to open a game.
pub struct CreateGameRequest {
    pub maximum_players: u8,
    pub host: PlayerId,
}

/// A game as the client sees it.
pub struct GameDto {
    pub id: GameId,
    pub status: GameStatus,
}

impl From<Game> for GameDto {
    fn from(game: Game) -> (r: GameDto) {
        GameDto { id: game.id(), status: game.status() }
    }
}

impl vstd::std_specs::convert::FromSpecImpl<Game> for GameDto {
    open spec fn obeys_from_spec() -> bool {
        true
    }

    open spec fn from_spec(game: Game) -> GameDto {
        GameDto { id: game@.id, status: game@.status }
    }
}

/// A request to register a player.
pub struct CreatePlayerRequest {
    pub name: String,
}

/// A player as the client sees it.
pub struct PlayerDto {
    pub id: PlayerId,
    pub name: String,
}

impl From<Player> for PlayerDto {
    fn from(player: Player) -> (r: PlayerDto) {
        PlayerDto { id: player.id, name: player.name }
    }
}

impl vstd::std_specs::convert::FromSpecImpl<Player> for PlayerDto {
    open spec fn obeys_from_spec() -> bool {
        true
    }

    open spec fn from_spec(player: Player) -> PlayerDto {
        PlayerDto { id: player.id, name: player.name }
    }
}

} // verus!
