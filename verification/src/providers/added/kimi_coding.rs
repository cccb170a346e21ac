//! Catalog entry of Kimi For Coding.

use vstd::prelude::*;
use crate::catalog::{catalog_spec, new_entry, CatalogEntry, ProviderKind};

verus! {

/// The catalog entry of Kimi For Coding: an OpenAI-compatible provider.
pub fn catalog_entry() -> (res: CatalogEntry)
    ensures
        res@ == catalog_spec(
            "Kimi For Coding"@,
            ProviderKind::OpenAiCompatible,
            Some("https://api.kimi.com/coding"@),
            "KIMI_API_KEY"@,
            Some("kimi-k2"@),
        ),
{
    new_entry(
        "Kimi For Coding",
        ProviderKind::OpenAiCompatible,
        Some("https://api.kimi.com/coding"),
        "KIMI_API_KEY",
        Some("kimi-k2"),
    )
}

} // verus!
