pub mod text;
pub mod strmap;
pub mod json;
pub mod context;
pub mod runtime;
pub mod config;
pub mod client;
pub mod cli;
pub mod cluster;
