//! The kernel that the other crates build on: time-ordered 128-bit
//! identifiers with their canonical text, a structured error, value objects
//! that check their input, and the gateways through which the kernel reaches
//! its surroundings.
pub mod error;
pub mod gateways;
pub mod text;
pub mod ulid;
pub mod values;
