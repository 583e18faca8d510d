//! The patch engine and the value accessors it reads its commands with.

pub mod commands;
pub mod device;
pub mod laws;
pub mod literal;
pub mod patcher;
pub mod reference;
pub mod sequences;
pub mod text;
pub mod yaml;
pub mod yaml_ext;
