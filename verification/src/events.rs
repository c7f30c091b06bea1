//! The engine's wire events: what clients may ask, and what the server tells
//! the players. Transport encoding and delivery belong to the caller; the
//! engine speaks in these plain values.

use vstd::prelude::*;

verus! {

/// A player's opaque unique identity.
pub type PlayerId = u128;

/// A game's opaque unique identity.
pub type GameId = u128;

/// The client-to-server event kinds.
#[derive(Clone, Copy, Debug, PartialEq, Eq, Structural)]
pub enum XoClientEventKind {
    /// The player asks to be matched with an opponent.
    Search,
    /// The player asks to mark a cell.
    Play,
}

/// The payload of a client event.
#[derive(Clone, Copy, Debug, PartialEq, Eq, Structural)]
pub enum XoClientEventsData {
    /// The cell to mark, `0` to `8`, row by row.
    Play { place: u8 },
}

/// A client event: a kind and its optional payload.
#[derive(Clone, Copy, Debug, PartialEq, Eq)]
pub struct XoClientEvent {
    /// The event name.
    pub event: XoClientEventKind,
    /// The event data.
    pub data: Option<XoClientEventsData>,
}

/// Why a game ended.
#[derive(Clone, Copy, Debug, PartialEq, Eq, Structural)]
pub enum GameOverReason {
    /// A player took more round wins than the other.
    PlayerWon,
    /// The series ended level.
    Draw,
    /// A player's connection closed mid-game.
    PlayerDisconnected,
}

impl GameOverReason {
    /// The reason's display text.
    pub fn as_str(&self) -> (r: &'static str)
        ensures
            self is PlayerWon ==> r@ == "Player Won"@,
            self is Draw ==> r@ == "Draw"@,
            self is PlayerDisconnected ==> r@ == "Player Disconnected"@,
    {
        match self {
            GameOverReason::PlayerWon => "Player Won",
            GameOverReason::Draw => "Draw",
            GameOverReason::PlayerDisconnected => "Player Disconnected",
        }
    }
}

/// The protocol errors reported to the offending player.
#[derive(Clone, Debug, PartialEq, Eq)]
pub enum ErrorData {
    /// The message body is not a valid event.
    InvalidBody,
    /// The event is not supported.
    UnknownEvent,
    /// The event data does not fit the event kind.
    InvalidEventDataForEvent,
    /// The player is already in the matchmaking queue.
    AlreadyInSearch,
    /// The player is already in a live game.
    AlreadyInGame,
    /// The player is in no live game.
    NotInGame,
    /// It is not the player's turn.
    NotYourTurn,
    /// The cell is out of range or already taken.
    InvalidPlace,
    /// The configured maximum of live games is reached.
    MaxGamesReached,
    /// Any other error, as text.
    Other(String),
}

/// A played move, as told to the opponent.
#[derive(Clone, Copy, Debug, PartialEq, Eq)]
pub struct PlayData {
    /// The marked cell, `0` to `8`, row by row.
    pub place: u8,
    /// The player who marked it.
    pub player: PlayerId,
}

/// How a game ended.
#[derive(Clone, Copy, Debug, PartialEq, Eq)]
pub struct GameOverData {
    /// The winner; a draw when absent.
    pub winner: Option<PlayerId>,
    /// Why the game ended.
    pub reason: GameOverReason,
}

/// How a round ended.
#[derive(Clone, Copy, Debug, PartialEq, Eq)]
pub struct RoundData {
    /// The round number, `1` to `3`.
    pub round: i16,
    /// The round's winner; a drawn round when absent.
    pub winner: Option<PlayerId>,
}

/// The pairing told to both players when a match is found.
#[derive(Clone, Copy, Debug, PartialEq, Eq)]
pub struct GameFoundData {
    /// The player holding `X`.
    pub x_player: PlayerId,
    /// The player holding `O`.
    pub o_player: PlayerId,
}

/// The server-to-client event kinds.
#[derive(Clone, Copy, Debug, PartialEq, Eq, Structural)]
pub enum XoServerEventKind {
    GameFound,
    YourTurn,
    RoundStart,
    RoundEnd,
    Play,
    AutoPlay,
    GameOver,
    Error,
}

/// The server-to-client events, with their payloads.
#[derive(Clone, Debug, PartialEq, Eq)]
pub enum XoServerEventData {
    /// A match was found.
    GameFound { x_player: PlayerId, o_player: PlayerId },
    /// It is the receiving player's turn; the move is auto-played at the
    /// given deadline.
    YourTurn { auto_play_after: i64 },
    /// A round begins, `1` to `3`.
    RoundStart { round: i16 },
    /// A round ended.
    RoundEnd(RoundData),
    /// The opponent marked a cell.
    Play(PlayData),
    /// The server marked a cell on the receiving player's behalf.
    AutoPlay { place: u8 },
    /// The game ended.
    GameOver(GameOverData),
    /// A request was rejected.
    Error(ErrorData),
}

impl XoServerEventData {
    /// The kind this payload belongs to.
    pub open spec fn spec_kind(&self) -> XoServerEventKind {
        match self {
            XoServerEventData::GameFound { .. } => XoServerEventKind::GameFound,
            XoServerEventData::YourTurn { .. } => XoServerEventKind::YourTurn,
            XoServerEventData::RoundStart { .. } => XoServerEventKind::RoundStart,
            XoServerEventData::RoundEnd(_) => XoServerEventKind::RoundEnd,
            XoServerEventData::Play(_) => XoServerEventKind::Play,
            XoServerEventData::AutoPlay { .. } => XoServerEventKind::AutoPlay,
            XoServerEventData::GameOver(_) => XoServerEventKind::GameOver,
            XoServerEventData::Error(_) => XoServerEventKind::Error,
        }
    }

    /// Returns the kind of the event.
    pub fn kind(&self) -> (r: XoServerEventKind)
        ensures
            r == self.spec_kind(),
    {
        match self {
            XoServerEventData::GameFound { .. } => XoServerEventKind::GameFound,
            XoServerEventData::YourTurn { .. } => XoServerEventKind::YourTurn,
            XoServerEventData::RoundStart { .. } => XoServerEventKind::RoundStart,
            XoServerEventData::RoundEnd(_) => XoServerEventKind::RoundEnd,
            XoServerEventData::Play(_) => XoServerEventKind::Play,
            XoServerEventData::AutoPlay { .. } => XoServerEventKind::AutoPlay,
            XoServerEventData::GameOver(_) => XoServerEventKind::GameOver,
            XoServerEventData::Error(_) => XoServerEventKind::Error,
        }
    }
}

/// A server event: its kind and its payload, as sent on the wire.
#[derive(Clone, Debug, PartialEq, Eq)]
pub struct XoServerEvent {
    /// The event name.
    pub event: XoServerEventKind,
    /// The event data.
    pub data: Option<XoServerEventData>,
}

impl XoServerEvent {
    /// Wraps a payload in its tagged envelope.
    pub fn from_data(data: XoServerEventData) -> (r: XoServerEvent)
        ensures
            r.event == data.spec_kind(),
            r.data == Some(data),
    {
        let event = data.kind();
        XoServerEvent { event, data: Some(data) }
    }
}

/// A server event addressed to one player.
#[derive(Clone, Debug, PartialEq, Eq)]
pub struct OutboundMessage {
    /// The player the event is for.
    pub recipient: PlayerId,
    /// The event payload.
    pub data: XoServerEventData,
}

/// What a client event asks for, once kind and payload are checked against
/// each other.
#[derive(Clone, Copy, Debug, PartialEq, Eq, Structural)]
pub enum ClientIntent {
    /// Enter matchmaking.
    Search,
    /// Mark the cell `place`.
    Play { place: u8 },
}

/// The intent of a client event: a search carries no payload, a play carries
/// its cell; any other pairing of kind and payload is rejected.
pub open spec fn intent_of(e: XoClientEvent) -> Result<ClientIntent, ErrorData> {
    match (e.event, e.data) {
        (XoClientEventKind::Search, None) => Ok(ClientIntent::Search),
        (XoClientEventKind::Play, Some(XoClientEventsData::Play { place })) => Ok(
            ClientIntent::Play { place },
        ),
        _ => Err(ErrorData::InvalidBody),
    }
}

/// Checks a client event's payload against its kind and returns what it asks
/// for, or the error to report to the sender.
pub fn client_intent(event: &XoClientEvent) -> (r: Result<ClientIntent, ErrorData>)
    ensures
        r == intent_of(*event),
{
    match (event.event, event.data) {
        (XoClientEventKind::Search, None) => Ok(ClientIntent::Search),
        (XoClientEventKind::Play, Some(XoClientEventsData::Play { place })) => Ok(
            ClientIntent::Play { place },
        ),
        _ => Err(ErrorData::InvalidBody),
    }
}

} // verus!
