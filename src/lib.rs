//! Exact building blocks of the HYCOL hyperbolic color space: the
//! triangular sampling lattice of three-color blends, the control of the
//! geodesic-mean iteration, and CSS color text.
pub mod css;
pub mod lattice;
pub mod solver;
