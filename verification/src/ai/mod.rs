pub mod action_classifier;
pub mod sse;
pub mod openai_compatible;
pub mod response;
pub mod stream;
pub mod anthropic;
pub mod gemini;
