//! Shape inference and conversion helpers for tensor operation graphs.
//!
//! The centrepiece is [`shape_inference`]: a symbolic shape model
//! (bound or named dimensions), NumPy-style broadcasting, and one
//! inference routine per operator family, all carrying contracts that
//! pin down exactly which inputs produce a shape and which produce
//! no result.

pub mod attributes;
pub mod data_types;
pub mod error;
pub mod identifiers;
pub mod operation_names;
pub mod shape_inference;
pub mod text;
