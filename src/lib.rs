pub mod ability;
pub mod critical;
pub mod effect;
pub mod geometry;
pub mod health;
pub mod laws;
pub mod mana;
pub mod sprite;
pub mod tick;
pub mod timer;
pub mod world;
pub mod zone;
pub mod level;
pub mod player;
