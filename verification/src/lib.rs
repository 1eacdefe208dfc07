//! A deterministic rigid-body particle simulation: N spheres bouncing
//! inelastically inside a fixed cubic box under gravity and air drag.
//!
//! All physical quantities are held in signed 64-bit fixed-point numbers
//! with a scale of one million (one unit of length is `1_000_000`
//! micro-units), so every computation is exact integer arithmetic and
//! every public operation carries a contract that pins its result down.

use vstd::prelude::*;

pub mod clock;
pub mod collision;
pub mod fixed;
pub mod geometry;
pub mod grid;
pub mod laws;
pub mod particle;
pub mod rng;
pub mod simulation;
pub mod vec3;

verus! {

/// Edge length of the cubic box, in micro-units (four length units).
pub const BOX_SIZE_FX: i64 = 4_000_000;

/// Half the edge length of the box: positions live in
/// `[-HALF_BOX_FX, HALF_BOX_FX]` on every axis.
pub const HALF_BOX_FX: i64 = 2_000_000;

/// Magnitude of the gravitational acceleration, applied along the
/// negative z axis.
pub const GRAVITY_FX: i64 = 9_806_650;

/// Restitution of a sphere-sphere collision.
pub const E_SPHERE_FX: i64 = 900_000;

/// One plus the sphere restitution, the factor of the exchanged impulse.
pub const ONE_PLUS_E_SPHERE_FX: i64 = 1_900_000;

/// Restitution of a sphere-wall bounce.
pub const E_WALL_FX: i64 = 600_000;

/// Coefficient of the quadratic-drag-like damping.
pub const C_AIR_FX: i64 = 50_000;

} // verus!
