//! Data carried by the static registry's validation: builders for argument
//! lists, candidate keys, and the detailed error values validators report.
pub mod argument_builder;
pub mod definition_candidate;
pub mod error;
pub mod group_candidate;
pub mod getter_err;
