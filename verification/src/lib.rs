//! A resource-allocation engine for a meme-labelling lobby game.
//!
//! A fixed pool of meme templates is assigned to competing players under two
//! hard constraints: no two players ever hold the same template at once, and
//! no player is ever assigned a template they have already seen. A depletable
//! per-player reroll quota lets a player discard a template and draw a new one.
//!
//! The engine, the participant directory and the template pool are verified;
//! HTTP routing, session handling and page rendering live outside the library.

pub mod app_error;
pub mod directory;
pub mod dto;
pub mod join_lobby;
pub mod labeled_meme;
pub mod logged_in_player;
pub mod player;
pub mod player_manager;
pub mod randomness;
pub mod template_pool;
pub mod templates;
pub mod unlabeled_meme;
