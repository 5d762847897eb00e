use vstd::prelude::*;

verus! {

/// The error kinds the engine can surface to a caller.
#[derive(Clone, Copy, Debug, PartialEq, Eq, Structural)]
pub enum AppError {
    /// The request could not be resolved to a participant.
    Unauthenticated,
    /// A request payload was rejected before any work was done.
    BadRequest,
    /// No participant with the given id exists.
    NotFound,
    /// The template pool holds no templates at all.
    PoolEmpty,
    /// Every template in the pool is excluded from a pick.
    NotAvailable,
    /// No template satisfies the current exclusivity and novelty constraints.
    PoolExhausted,
    /// The reroll budget is already zero; nothing was changed.
    QuotaExhausted,
    /// An assignment would duplicate a seen-history entry: an integrity fault.
    DuplicateHistoryEntry,
}

impl AppError {
    /// The wording of each error, as shown to a caller.
    pub open spec fn spec_message(self) -> Seq<char> {
        match self {
            AppError::Unauthenticated => "player id key not present or malformed in session"@,
            AppError::BadRequest => "Bad request!"@,
            AppError::NotFound => "no player with that id exists"@,
            AppError::PoolEmpty => "the meme template pool is empty"@,
            AppError::NotAvailable => "every meme template is excluded"@,
            AppError::PoolExhausted => "couldnt pick a new meme template, as all were seen or in use"@,
            AppError::QuotaExhausted => "cant reroll!"@,
            AppError::DuplicateHistoryEntry => "trying to insert duplicate row into meme_templates_seen_by_players, might a meme template be shown twice to a player?"@,
        }
    }

    pub fn message(&self) -> (m: &'static str)
        ensures
            m@ == self.spec_message(),
    {
        match self {
            AppError::Unauthenticated => "player id key not present or malformed in session",
            AppError::BadRequest => "Bad request!",
            AppError::NotFound => "no player with that id exists",
            AppError::PoolEmpty => "the meme template pool is empty",
            AppError::NotAvailable => "every meme template is excluded",
            AppError::PoolExhausted => "couldnt pick a new meme template, as all were seen or in use",
            AppError::QuotaExhausted => "cant reroll!",
            AppError::DuplicateHistoryEntry => "trying to insert duplicate row into meme_templates_seen_by_players, might a meme template be shown twice to a player?",
        }
    }
}

} // verus!
