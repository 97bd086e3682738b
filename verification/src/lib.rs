//! A multi-environment knowledge base over the API surface of a native
//! library, and a code synthesis engine that turns its dual-typed function
//! descriptions into boundary-crossing wrapper code.
//!
//! The knowledge base accumulates structural facts per analysis environment,
//! merges repeated observations by structural equality, invalidates and
//! reconfirms facts across passes, and round-trips exactly through its
//! persisted form. The synthesis engine renders, for every function of the
//! produced crate, the marshalling that carries each argument and return
//! value across the boundary.

pub mod builder;
pub mod codec;
pub mod code_generator;
pub mod conversion;
pub mod data;
pub mod database;
pub mod laws;
pub mod rust_info;
pub mod rust_type;
pub mod text;
pub mod utils;
