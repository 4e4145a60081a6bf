pub mod clock;
pub mod events;
pub mod game;
pub mod patterns;
