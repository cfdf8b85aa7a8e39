//! Simulation and synchronisation core of a small multiplayer tank arena.
//!
//! The world advances in discrete ticks. Every rule of a tick is stated over a
//! mathematical model of the world and proved of the code that runs it.
//! Trigonometry is not part of this crate: the caller computes the angles and
//! offsets a tick needs and hands them in as whole numbers.

pub mod bullet;
pub mod client;
pub mod collision;
pub mod geometry;
pub mod hitbox;
pub mod input;
pub mod motion;
pub mod player;
pub mod render;
pub mod server;
pub mod state;
pub mod store;
pub mod tank;
pub mod world;

pub use bullet::{Bullet, BulletUpdate, BULLET_LIFETIME};
pub use client::InputHistory;
pub use collision::CollisionMap;
pub use geometry::{Angle, Point, Time, Vector, FIELD_LIMIT, GM_ONE_PIXEL, UPDATES_PER_SECOND};
pub use hitbox::{Envelope, Hitbox, TankHitbox, ENVELOPE_LIMIT, TANK_SIZE};
pub use input::{Drive, Input, Keys, Turn};
pub use motion::{
    BulletMotion, Local, Motions, Probe, TankMotion, BULLET_SPEED, MUZZLE_REACH, TANK_SPEED,
};
pub use player::Player;
pub use render::RaqoteRenderer;
pub use server::{PlayerInput, Server};
pub use store::{ElementList, Idx, StableList};
pub use tank::{Tank, TankUpdate, BULLET_DAMAGE, FULL_HEALTH};
pub use state::GameState;
pub use world::{Collision, World};
