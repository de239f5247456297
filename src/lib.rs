//! Entity lifecycle, beam indexing and scheduling core for a laser-cooling
//! simulation of neutral atoms.

pub mod atom;
pub mod commands;
pub mod creator;
pub mod detector;
pub mod dipole;
pub mod entity;
pub mod index;
pub mod lifecycle;
pub mod population;
pub mod repump;
pub mod schedule;
