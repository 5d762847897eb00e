use vstd::prelude::*;
use crate::randomness::fresh_uuid_string;

verus! {

/// A guest player as kept by the in-memory session variant: identified by a
/// UUID string rather than a directory row id.
#[derive(Clone)]
pub struct Player {
    pub id: String,
    pub name: String,
    pub selected_meme_template_id: Option<String>,
    pub seen_meme_templates: Vec<String>,
}

impl Player {
    /// A fresh guest: unique id, the given name, no assignment, empty history.
    pub fn new_guest(name: String) -> (p: Player)
        ensures
            p.id@.len() == 36,
            p.name@ == name@,
            p.selected_meme_template_id is None,
            p.seen_meme_templates@.len() == 0,
    {
        Player {
            id: fresh_uuid_string(),
            name,
            selected_meme_template_id: None,
            seen_meme_templates: Vec::new(),
        }
    }
}

} // verus!
