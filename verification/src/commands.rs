pub mod command;
pub mod config;
pub mod delete;
pub mod fetch;
pub mod list;
pub mod new;
pub mod purge;
pub mod save;
pub mod show;
pub mod update;
