//! Catalog entry of Alibaba Token Plan CN.

use vstd::prelude::*;
use crate::catalog::{catalog_spec, new_entry, CatalogEntry, ProviderKind};

verus! {

/// The catalog entry of Alibaba Token Plan CN: an OpenAI-compatible provider.
pub fn catalog_entry() -> (res: CatalogEntry)
    ensures
        res@ == catalog_spec(
            "Alibaba Token Plan CN"@,
            ProviderKind::OpenAiCompatible,
            Some("https://token-plan.cn-beijing.maas.aliyuncs.com/compatible-mode/v1"@),
            "ALIBABA_TOKEN_PLAN_CN_API_KEY"@,
            Some("qwen3-max"@),
        ),
{
    new_entry(
        "Alibaba Token Plan CN",
        ProviderKind::OpenAiCompatible,
        Some("https://token-plan.cn-beijing.maas.aliyuncs.com/compatible-mode/v1"),
        "ALIBABA_TOKEN_PLAN_CN_API_KEY",
        Some("qwen3-max"),
    )
}

} // verus!
