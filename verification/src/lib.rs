//! Marshaling of runtime values across the boundary between a dynamically
//! typed interpreter and natively compiled extension functions.

pub mod adapter;
pub mod codec;
pub mod context;
pub mod integer;
pub mod modulus;
pub mod shape;
pub mod value;
