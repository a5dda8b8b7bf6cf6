pub mod ai;
pub mod screenshot;
pub mod panel;
pub mod config;
pub mod selection;
pub mod access;
