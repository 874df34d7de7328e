use vstd::prelude::*;

use crate::model::game_state::GameStatus;
use crate::service::dictionary::Word;

verus! {

/// What the end-of-game banner shows: the final status and the secret
/// word it may reveal.
#[derive(Clone, Debug)]
pub struct Message {
    pub status: GameStatus,
    pub secret_word: Word,
}

impl Message {
    /// A banner for the given status and secret word.
    pub fn new(status: GameStatus, secret_word: Word) -> (m: Message)
        ensures
            m.status == status,
            m.secret_word@ == secret_word@,
    {
        Message { status, secret_word }
    }
}

} // verus!
