use vstd::prelude::*;

verus! {

/// A player record as handed to the presentation layer: the directory's
/// participant without its seen-history.
#[derive(Debug)]
pub struct Player {
    pub id: i32,
    pub name: String,
    pub selected_meme_template_id: Option<i32>,
    pub rerolls_left: i32,
}

} // verus!
