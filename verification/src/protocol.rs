//! The messages exchanged with the game server.

use vstd::prelude::*;

verus! {

/// A command that the host submits for delivery to the server.
#[derive(Debug, Clone, PartialEq, Eq)]
pub enum Action {
    /// Asks to join the game under `name`.
    Login { name: String },
    /// Says `text` in the chat.
    Send { text: String },
    /// Assigns `word` to the player whose turn it is to receive one.
    AssignWord { word: String },
    /// Leaves the running game on purpose.
    Suicide,
    /// Opens a vote on aborting the running game.
    RequestAbort,
    /// Declares the player ready.
    SetReady,
    /// Withdraws the player's readiness.
    CancelReady,
    /// Casts a vote on aborting the running game.
    VoteAbort { abort: bool },
}

/// A message from the server that describes a change of state.
///
/// Fields whose content the bridge never reads (`assigned`, `clients`,
/// `game_state`, `history`) hold the JSON text of the value as it arrived.
#[derive(Debug, Clone, PartialEq, Eq)]
pub enum Response {
    /// A chat line.
    MessageFrom { sender: String, content: String },
    /// The chat lines that were said before the player joined.
    MessageHistory { history: String },
    /// A player has joined.
    PlayerJoin { name: String },
    /// A player has left.
    PlayerQuit { name: String },
    /// A player is ready.
    PlayerReady { name: String },
    /// A player is no longer ready.
    PlayerNotReady { name: String },
    /// The players present and the state of the game.
    Overview { clients: String, game_state: String },
    /// It is `assignee`'s turn to be given a word.
    AssignStart { assignee: String },
    /// The answer to an assignment; `excuse` says why it was refused.
    AssignResult { excuse: Option<String> },
    /// The game begins with the words in `assigned`.
    GameStart { assigned: String },
    /// A player is out of the game.
    PlayerOut { quitter: String, word: String, suicide: bool },
    /// The game has a winner.
    GameWin { winner: String, word: String },
    /// The game ended because the time ran out.
    GameEndTimeout,
    /// The game ended because it could not go on.
    GameEndUnproceedable,
    /// The timer restarts; `timer` is what is left, in whole seconds.
    TimerReset { timer: u64 },
    /// A vote on aborting the game has begun.
    StartVoteAbort,
    /// A player has voted on aborting the game.
    VotedAbort { abort: bool, voter: String },
    /// The vote on aborting the game is over.
    VoteAbortResult { abort: bool },
    /// The answer to a readiness change; `excuse` says why it was refused.
    ReadyResult { excuse: Option<String> },
    /// The answer to a login; `excuse` says why it was refused.
    LoginResult { excuse: Option<String> },
}

} // verus!
