use vstd::prelude::*;

use super::games::GameMove;

verus! {

/// What a game hears: that it has started, a move of the user, or that its
/// session is being taken over.
#[derive(Debug, PartialEq, Eq)]
pub enum GameMessage {
    Started,
    Move(GameMove),
    Stop(String),
}

/// A request to bind a session to the game that `recipient` reaches.
pub struct Subscribe<R> {
    pub session_id: String,
    pub recipient: R,
}

/// Asks whether a session is bound to a game.
#[derive(Debug, PartialEq, Eq)]
pub struct IsSubscribed(pub String);

} // verus!
