//! Test discovery for compiled Rust test binaries: parsing of listing output,
//! classification of test cases, path remapping, and construction of the
//! process invocations that list and run them.

pub mod artifact;
pub mod build_meta;
pub mod command;
pub mod dylib;
pub mod errors;
pub mod filter;
pub mod human;
pub mod listing;
pub mod metadata;
pub mod name_map;
pub mod package;
pub mod path_mapper;
pub mod suite;
pub mod summary;
pub mod test_list;
pub mod text;
