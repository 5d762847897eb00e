pub mod meme_template;
pub mod player;
