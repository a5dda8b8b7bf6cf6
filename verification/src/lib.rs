pub mod ai;
pub mod app_lifecycle;
pub mod commands;
pub mod config;
pub mod input_monitor;
pub mod json;
pub mod platform;
pub mod redact;
pub mod security;
pub mod selection;
pub mod text;
pub mod types;
