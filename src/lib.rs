//! Helpers for comparing rendered image surfaces against reference images.

pub mod compare;
pub mod comparison;
pub mod surface;
pub mod tolerance;
