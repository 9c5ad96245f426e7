//! Verified core of a small molecule viewer: scene construction (atoms as
//! spheres, bonds as cylinders), element color lookup, and nearest-atom
//! picking.
//!
//! All geometry is carried in fixed-point coordinates (`geom::SCALE` subunits
//! per world unit), so every quantity the contracts speak of is an exact
//! integer. The rendering backend converts to its own floating-point types
//! outside this crate.

pub mod color;
pub mod geom;
pub mod picking;
pub mod scene;
