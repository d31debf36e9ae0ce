//! Curves and splines.

pub mod bezier;
