//! Turning what was read from files into objects of a scene.

pub mod obj;
