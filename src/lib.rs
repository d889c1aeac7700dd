//! The verified core of an authoritative server for a real-time 2D arena
//! game: piece kinds and their rules, the entity store and its per-tick
//! update, collisions by separating axes, carriers and their berths,
//! targeting, the mode cycle, the banner table, teams and authentication,
//! the nexus, and each client's economy.
//!
//! Quantities are whole numbers: health in thousandths of a hit point,
//! angles in microradians, box rotations as scaled unit vectors.
use vstd::prelude::*;

pub mod angles;
pub mod kinds;
pub mod vector;
pub mod pieces;
pub mod carrier;
pub mod mode;
pub mod banners;
pub mod piece;
pub mod world;
pub mod nexus;
pub mod client;
pub mod targeting;
pub mod placement;
pub mod geometry;
pub mod config;
