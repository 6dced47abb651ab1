pub mod render;
mod rng;
pub mod sim;
pub mod world;

pub use render::PaintCmd;

pub use world::Bullet;
pub use world::Enemy;
pub use world::Intent;
pub use world::PlayerStatus;
pub use world::World;
