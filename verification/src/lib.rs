//! Verified core of the ring coding agent: exact text edits with line-ending
//! normalisation, user-agent assembly, credential and session indexes,
//! provider catalogs and the Gemini wire format.

pub mod paths;
pub mod text;
pub mod edit;
pub mod user_agent;
pub mod auth;
pub mod session;
pub mod json;
pub mod provider;
pub mod catalog;
pub mod providers;
pub mod sdk;
