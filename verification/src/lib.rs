pub mod archive;
pub mod cli;
pub mod commands;
pub mod config;
pub mod globals;
pub mod hash;
pub mod manifest;
pub mod network;
pub mod paths;
pub mod strutil;
pub mod templates;
