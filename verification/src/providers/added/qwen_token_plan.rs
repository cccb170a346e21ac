//! Catalog entry of Qwen Token Plan.

use vstd::prelude::*;
use crate::catalog::{catalog_spec, new_entry, CatalogEntry, ProviderKind};

verus! {

/// The catalog entry of Qwen Token Plan: an OpenAI-compatible provider.
pub fn catalog_entry() -> (res: CatalogEntry)
    ensures
        res@ == catalog_spec(
            "Qwen Token Plan"@,
            ProviderKind::OpenAiCompatible,
            Some("https://token-plan.ap-southeast-1.maas.aliyuncs.com/compatible-mode/v1"@),
            "QWEN_TOKEN_PLAN_API_KEY"@,
            Some("qwen3-max"@),
        ),
{
    new_entry(
        "Qwen Token Plan",
        ProviderKind::OpenAiCompatible,
        Some("https://token-plan.ap-southeast-1.maas.aliyuncs.com/compatible-mode/v1"),
        "QWEN_TOKEN_PLAN_API_KEY",
        Some("qwen3-max"),
    )
}

} // verus!
