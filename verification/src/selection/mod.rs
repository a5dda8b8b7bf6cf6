pub mod uia_reader;
pub mod controller;
pub mod types;
pub mod clipboard_reader;
