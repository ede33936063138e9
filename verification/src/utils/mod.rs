pub mod config;
pub mod parser;
