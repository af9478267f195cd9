//! Runtime core of a real-time interactive engine: the entity table, the
//! hierarchical transform model, the component-attachment lifecycle, the
//! scene graph, and the fixed-timestep frame loop.
//!
//! Spatial state is exact fixed-point arithmetic (`fx`), so every
//! composition law of the transform hierarchy and the frame loop is stated
//! and proved, not approximated. Rendering, windowing, asset import and the
//! physics solver's interior are external collaborators and live outside
//! this crate; the loop's bookkeeping for them (handles, poses, the
//! fixed-timestep accumulator) is modeled here in plain values.

pub mod algebra;
pub mod attach;
pub mod assets;
pub mod components;
pub mod controllers;
pub mod frame;
pub mod fx;
pub mod hierarchy;
pub mod input;
pub mod mesh_renderer;
pub mod object;
pub mod physics;
pub mod scene_loader;
pub mod spatial;
pub mod transform;
pub mod world;
