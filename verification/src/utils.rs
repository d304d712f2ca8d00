//! Rules and text transforms that the operations rest on.

pub mod config_schema;
pub mod monorepo;
pub mod path_security;
pub mod pin_validator;
pub mod pio_parser;
pub mod pio_path;
pub mod profile_paths;
