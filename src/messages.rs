//! The messages that the lobby and the game exchange over the transport.
//! Each is a plain value; how it is turned into bytes is up to the codec
//! that the application plugs in through `Packet` and `PacketBuilder`.

use vstd::prelude::*;

verus! {

/// A heading on the board.
#[derive(Debug, Clone, Copy, PartialEq, Eq, Structural)]
pub enum Direction {
    Up,
    Down,
    Left,
    Right,
}

/// A client asks for a new game.
#[derive(Debug, Clone, Copy, PartialEq, Eq, Structural)]
pub struct StartNewGame;

/// A client leaves.
#[derive(Debug, Clone, Copy, PartialEq, Eq, Structural)]
pub struct Disconnect;

/// A client is ready to play.
#[derive(Debug, Clone, Copy, PartialEq, Eq, Structural)]
pub struct Ready;

/// A client turns its snake.
#[derive(Debug, Clone, Copy, PartialEq, Eq, Structural)]
pub struct SnakeMovement {
    pub id: u8,
    pub direction: Direction,
}

/// A client asks to open a lobby.
#[derive(Debug, Clone, PartialEq)]
pub struct CreateLobby {
    pub name: String,
    pub description: String,
    pub max_players: u8,
    pub player_name: String,
}

/// A client closes the lobby it leads.
#[derive(Debug, Clone, PartialEq)]
pub struct CancelLobby {
    pub name: String,
}

/// A client asks to join a lobby.
#[derive(Debug, Clone, PartialEq)]
pub struct JoinLobby {
    pub name: String,
    pub player_name: String,
}

/// A client leaves a lobby.
#[derive(Debug, Clone, PartialEq)]
pub struct LeaveLobby {
    pub name: String,
}

/// The lobby was opened.
#[derive(Debug, Clone, PartialEq)]
pub struct CreateLobbySuccess {
    pub name: String,
}

/// The lobby could not be opened.
#[derive(Debug, Clone, PartialEq)]
pub struct CreateLobbyFailed {
    pub name: String,
    pub reason: String,
}

/// The lobby was closed.
#[derive(Debug, Clone, PartialEq)]
pub struct CancelLobbySuccess {
    pub name: String,
}

/// The lobby could not be closed.
#[derive(Debug, Clone, PartialEq)]
pub struct CancelLobbyFailed {
    pub name: String,
    pub reason: String,
}

/// The client joined the lobby.
#[derive(Debug, Clone, PartialEq)]
pub struct JoinLobbySuccess {
    pub name: String,
}

/// The client could not join the lobby.
#[derive(Debug, Clone, PartialEq)]
pub struct JoinLobbyFailed {
    pub name: String,
    pub reason: String,
}

/// Another player joined the lobby.
#[derive(Debug, Clone, PartialEq)]
pub struct PlayerJoined {
    pub player_name: String,
    pub lobby_name: String,
}

/// A player left the lobby.
#[derive(Debug, Clone, PartialEq)]
pub struct PlayerLeft {
    pub player_name: String,
    pub lobby_name: String,
}

/// The lobby was closed by its leader.
#[derive(Debug, Clone, PartialEq)]
pub struct LobbyCanceled {
    pub name: String,
    pub reason: String,
}

/// The lobby has no room left.
#[derive(Debug, Clone, PartialEq)]
pub struct LobbyFull {
    pub name: String,
}

/// The server accepted a new game for this many snakes.
#[derive(Debug, Clone, Copy, PartialEq, Eq, Structural)]
pub struct StartNewGameAck {
    pub num_snakes: u8,
}

/// The server saw the client get ready.
#[derive(Debug, Clone, Copy, PartialEq, Eq, Structural)]
pub struct ReadyAck;

/// Food appears at a position.
#[derive(Debug, Clone, Copy, PartialEq, Eq)]
pub struct SpawnFood {
    pub position: (i32, i32),
}

/// Where every snake is.
#[derive(Debug, PartialEq)]
pub struct SnakePositions {
    pub positions: Vec<SnakePosition>,
}

/// Where one snake is, and where it heads.
#[derive(Debug, PartialEq)]
pub struct SnakePosition {
    pub id: u8,
    pub input_direction: Direction,
    pub direction: Direction,
    pub position: (i32, i32),
    pub tail_positions: Vec<(i32, i32)>,
}

/// A snake eats the food at a position.
#[derive(Debug, Clone, Copy, PartialEq, Eq)]
pub struct EatFood {
    pub id: u8,
    pub position: (i32, i32),
}

/// A snake grows a tail segment at a position.
#[derive(Debug, Clone, Copy, PartialEq, Eq)]
pub struct SpawnTail {
    pub id: u8,
    pub position: (i32, i32),
}

} // verus!
