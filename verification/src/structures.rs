//! The plain data that everything else is made of.

pub mod vec3;
pub mod ray;
