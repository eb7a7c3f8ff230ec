//! Turn-based labor and material allocation engine of a colony simulation.
//!
//! Each turn the engine totals available workforce output by profession and
//! skill tier, distributes that output across a priority-ordered backlog of
//! construction tasks constrained by required equipment, promotes finished
//! construction to operational status, and runs subsistence accounting
//! against a volume-based material storage layer.

pub mod area;
pub mod client;
pub mod common;
pub mod location;
pub mod people;
pub mod production;
pub mod render;
pub mod resources;
pub mod protocol;
pub mod state;
pub mod storage;
pub mod turn;
pub mod world;
