//! Validation of 3MF models: the structural rules of the 3MF core
//! specification and of its material, production, slice, beam lattice,
//! boolean operations, displacement and volumetric extensions.
pub mod model;
pub mod text;
pub mod float_bits;
pub mod error;
pub mod ids;
pub mod validator;
pub mod xml;
