//! Visual effects: the choices that parameterize them.

pub mod blur;
pub mod post;
