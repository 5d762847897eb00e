use vstd::prelude::*;

verus! {

/// The form a guest submits to enter the lobby.
pub struct JoinLobbyPayload {
    pub player_name: String,
}

impl JoinLobbyPayload {
    /// A payload is valid exactly when the submitted name is non-empty.
    pub fn is_valid(&self) -> (b: bool)
        ensures
            b == (self.player_name@.len() != 0),
    {
        !self.player_name.as_str().is_empty()
    }

    /// The submitted name, if and only if the payload is valid.
    pub fn player_name_if_valid(&self) -> (r: Option<String>)
        ensures
            r is Some <==> self.player_name@.len() != 0,
            r matches Some(name) ==> name@ == self.player_name@,
    {
        if self.is_valid() {
            Some(self.player_name.clone())
        } else {
            None
        }
    }
}

} // verus!
