use vstd::prelude::*;
use crate::dto::player::Player;

verus! {

/// The player record resolved from the caller's session.
pub struct LoggedInPlayer(pub Player);

} // verus!
