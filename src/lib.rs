pub mod order;
pub mod text;
pub mod tree;
pub mod stats;
pub mod rules;
pub mod analyzer;
pub mod config;
pub mod cleaner;
