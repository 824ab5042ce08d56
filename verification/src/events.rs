//! The messages that tell the connected clients of a change, and what the
//! stream of one client does with each thing that reaches it.

use vstd::prelude::*;

verus! {

/// A message for the clients of one game.
#[derive(Debug, PartialEq, Eq)]
pub struct EventData {
    /// For whom the message is meant: 0 for every player of the game, and
    /// otherwise the turn position of one player plus one.
    pub player: usize,
    /// The game that the message is about.
    pub game_id: u128,
    /// What happened.
    pub data: String,
}

/// A message as the contracts speak of one.
#[verifier::ext_equal]
pub struct EventView {
    pub player: int,
    pub game_id: u128,
    pub data: Seq<char>,
}

impl View for EventData {
    type V = EventView;

    open spec fn view(&self) -> EventView {
        EventView { player: self.player as int, game_id: self.game_id, data: self.data@ }
    }
}

/// The message that a game has begun, for all its players.
pub open spec fn game_start_event(game_id: u128) -> EventView {
    EventView { player: 0, game_id, data: "game_start"@ }
}

/// The message that a game is gone, for all its players.
pub open spec fn game_deleted_event(game_id: u128) -> EventView {
    EventView { player: 0, game_id, data: "game_deleted"@ }
}

impl EventData {
    /// A message for `player` about the game `game_id`.
    pub fn new(player: usize, game_id: u128, data: String) -> (r: EventData)
        ensures
            r@ == (EventView { player: player as int, game_id, data: data@ }),
    {
        EventData { player, game_id, data }
    }

    /// The game that the message is about.
    pub fn game_id(&self) -> (r: u128)
        ensures
            r == self@.game_id,
    {
        self.game_id
    }

    /// The message that the game `game_id` has begun.
    pub fn game_start(game_id: u128) -> (r: EventData)
        ensures
            r@ == game_start_event(game_id),
    {
        EventData { player: 0, game_id, data: "game_start".to_owned() }
    }

    /// The message that the game `game_id` is gone.
    pub fn game_deleted(game_id: u128) -> (r: EventData)
        ensures
            r@ == game_deleted_event(game_id),
    {
        EventData { player: 0, game_id, data: "game_deleted".to_owned() }
    }
}

/// What reaches the stream of one client while it waits.
#[derive(Debug, PartialEq, Eq)]
pub enum StreamInput {
    /// The next message of the channel.
    Message(EventData),
    /// The client was too slow and some messages are lost to it.
    Lagged,
    /// The channel is closed: no message will follow.
    Closed,
    /// The server shuts down.
    Shutdown,
}

/// What the stream of one client does next.
#[derive(Debug, PartialEq, Eq)]
pub enum StreamAction {
    /// Send the message to the client and wait for the next.
    Yield(EventData),
    /// Send nothing and wait for the next.
    Skip,
    /// End the stream.
    Stop,
}

/// What the stream of a client that follows the game `game_id` does with
/// `input`: it hands on the messages of its own game, passes over those of
/// other games and over lost messages, and ends when the channel is closed or
/// the server shuts down.
pub fn stream_step(game_id: u128, input: StreamInput) -> (r: StreamAction)
    ensures
        r == match input {
            StreamInput::Message(message) => if message.game_id == game_id {
                StreamAction::Yield(message)
            } else {
                StreamAction::Skip
            },
            StreamInput::Lagged => StreamAction::Skip,
            StreamInput::Closed => StreamAction::Stop,
            StreamInput::Shutdown => StreamAction::Stop,
        },
{
    match input {
        StreamInput::Message(message) => {
            if message.game_id() == game_id {
                StreamAction::Yield(message)
            } else {
                StreamAction::Skip
            }
        },
        StreamInput::Lagged => StreamAction::Skip,
        StreamInput::Closed => StreamAction::Stop,
        StreamInput::Shutdown => StreamAction::Stop,
    }
}

} // verus!
