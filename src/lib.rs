//! Turns the flat argument strings of a package build request into one
//! validated package specification: file placements, directory trees,
//! relationship constraints, changelog entries and lifecycle scripts.

pub mod error;
pub mod text;
pub mod file_spec;
pub mod relation;
pub mod changelog;
pub mod package;
pub mod tree;
pub mod numbers;
pub mod assemble;
