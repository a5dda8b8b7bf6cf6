pub mod secrets;
