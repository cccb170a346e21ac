//! Providers and their catalog entries.

pub mod added;
pub mod gemini;
