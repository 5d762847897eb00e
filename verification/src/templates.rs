pub mod ingame;
pub mod lobby;
