use vstd::prelude::*;
use crate::dto::player::Player;

verus! {

/// One row of the lobby page: a player's name, marked when it is the viewer.
pub struct PlayerHTMLInfo {
    name: String,
    is_logged_in_user: bool,
}

impl PlayerHTMLInfo {
    pub closed spec fn spec_name(self) -> Seq<char> {
        self.name@
    }

    pub closed spec fn spec_is_logged_in_user(self) -> bool {
        self.is_logged_in_user
    }

    pub fn new(name: String, is_logged_in_user: bool) -> (r: PlayerHTMLInfo)
        ensures
            r.spec_name() == name@,
            r.spec_is_logged_in_user() == is_logged_in_user,
    {
        PlayerHTMLInfo { name, is_logged_in_user }
    }

    pub fn name(&self) -> (r: &String)
        ensures
            r@ == self.spec_name(),
    {
        &self.name
    }

    pub fn is_logged_in_user(&self) -> (b: bool)
        ensures
            b == self.spec_is_logged_in_user(),
    {
        self.is_logged_in_user
    }
}

/// The lobby page's context: one row per player in the lobby.
pub struct LobbyTemplateContext {
    pub players: Vec<PlayerHTMLInfo>,
}

/// One lobby row per player, in the players' own order, marking the row of
/// the logged-in viewer.
pub fn lobby_players(players: &Vec<Player>, logged_in_id: i32) -> (r: Vec<PlayerHTMLInfo>)
    ensures
        r@.len() == players@.len(),
        forall|i: int|
            0 <= i < players@.len() ==> (#[trigger] r@[i]).spec_name() == players@[i].name@
                && r@[i].spec_is_logged_in_user() == (players@[i].id == logged_in_id),
{
    let mut r: Vec<PlayerHTMLInfo> = Vec::new();
    let mut k: usize = 0;
    while k < players.len()
        invariant
            k <= players@.len(),
            r@.len() == k,
            forall|i: int|
                0 <= i < k ==> (#[trigger] r@[i]).spec_name() == players@[i].name@
                    && r@[i].spec_is_logged_in_user() == (players@[i].id == logged_in_id),
        decreases players@.len() - k,
    {
        let p = &players[k];
        r.push(PlayerHTMLInfo::new(p.name.clone(), p.id == logged_in_id));
        k = k + 1;
    }
    r
}

} // verus!
