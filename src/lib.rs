pub mod command;
pub mod config;
pub mod dispatch;
pub mod text;
