pub mod args;
pub mod player;
pub mod video;
