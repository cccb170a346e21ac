//! Catalog entry of Alibaba.

use vstd::prelude::*;
use crate::catalog::{catalog_spec, new_entry, CatalogEntry, ProviderKind};

verus! {

/// The catalog entry of Alibaba: an OpenAI-compatible provider.
pub fn catalog_entry() -> (res: CatalogEntry)
    ensures
        res@ == catalog_spec(
            "Alibaba"@,
            ProviderKind::OpenAiCompatible,
            Some("https://dashscope-intl.aliyuncs.com/compatible-mode/v1"@),
            "ALIBABA_API_KEY"@,
            Some("qwen-plus"@),
        ),
{
    new_entry(
        "Alibaba",
        ProviderKind::OpenAiCompatible,
        Some("https://dashscope-intl.aliyuncs.com/compatible-mode/v1"),
        "ALIBABA_API_KEY",
        Some("qwen-plus"),
    )
}

} // verus!
