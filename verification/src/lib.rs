//! A CPU ray tracer's decision core.
//!
//! The geometry of ray tracing is numeric, but the decisions that drive it are
//! discrete: which constructive-solid-geometry boundaries survive, which
//! medium a refracted ray leaves and enters, which intersection is the visible
//! hit, how many shadow samples reach a light, how parent transforms propagate
//! through a scene graph. This crate holds that decision core, with each rule
//! stated as a contract and proved; a thin numeric layer around it evaluates
//! the surface equations and drives the pixel loop.

pub mod clock;
pub mod csg;
pub mod intersection;
pub mod lights;
pub mod refraction;
pub mod scene_graph;
pub mod sequence;
