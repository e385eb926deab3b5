//! Verified core of the world renderer: mesh topology, instance meshes,
//! constellation figures, texture layout and render-frame decisions.

pub mod sphere;
pub mod mesh;
pub mod constellations;
pub mod texture;
pub mod frame;
pub mod input;
pub mod catalog;
