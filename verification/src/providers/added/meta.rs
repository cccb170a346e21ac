//! Catalog entry of Meta Llama.

use vstd::prelude::*;
use crate::catalog::{catalog_spec, new_entry, CatalogEntry, ProviderKind};

verus! {

/// The catalog entry of Meta Llama: an OpenAI-compatible provider.
pub fn catalog_entry() -> (res: CatalogEntry)
    ensures
        res@ == catalog_spec(
            "Meta Llama"@,
            ProviderKind::OpenAiCompatible,
            Some("https://api.meta.ai/v1"@),
            "META_API_KEY"@,
            Some("llama-4-maverick"@),
        ),
{
    new_entry(
        "Meta Llama",
        ProviderKind::OpenAiCompatible,
        Some("https://api.meta.ai/v1"),
        "META_API_KEY",
        Some("llama-4-maverick"),
    )
}

} // verus!
