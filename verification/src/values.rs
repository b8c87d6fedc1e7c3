//! Value objects: each is built from raw input by a builder that checks it.
pub mod copy_value;
pub mod datetime;
pub mod file_system;
pub mod specification;
