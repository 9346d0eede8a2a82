//! Validation of bill-of-materials entities against a schema version.
//!
//! Every entity reports all of its problems at once, each tagged with the
//! path of fields and list indices that leads to it.

pub mod entities;
pub mod formulation;
pub mod hash;
mod spec_version;
mod text;
pub mod validation;

pub use hash::{validate_hash_algorithm, validate_hash_value, HashAlgorithm, HashValue, Hashes};
pub use spec_version::SpecVersion;
pub use validation::{Validate, ValidationContext, ValidationError, ValidationResult};
