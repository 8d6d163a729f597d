pub mod analyzer;
pub mod assembly;
pub mod basic_block;
pub mod cfg;
pub mod checkpoint;
pub mod config;
pub mod error;
pub mod input;
pub mod instruction;
pub mod regex;
