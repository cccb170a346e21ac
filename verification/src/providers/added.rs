//! Providers reached through an OpenAI-compatible API.

pub mod alibaba;
pub mod alibaba_token_plan_cn;
pub mod azure;
pub mod baseten;
pub mod digitalocean;
pub mod github_copilot;
pub mod gitlab;
pub mod gmi_cloud;
pub mod google_vertex;
pub mod helicone;
pub mod io_net;
pub mod kilo;
pub mod kimi_coding;
pub mod meta;
pub mod nebius;
pub mod ollama_cloud;
pub mod ovhcloud;
pub mod qwen_token_plan;
pub mod sap_ai_core;
pub mod scaleway;
pub mod snowflake_cortex;
pub mod stackit;
pub mod three02ai;
pub mod venice;
pub mod zenmux;
