//! Catalog entry of Venice AI.

use vstd::prelude::*;
use crate::catalog::{catalog_spec, new_entry, CatalogEntry, ProviderKind};

verus! {

/// The catalog entry of Venice AI: an OpenAI-compatible provider.
pub fn catalog_entry() -> (res: CatalogEntry)
    ensures
        res@ == catalog_spec(
            "Venice AI"@,
            ProviderKind::OpenAiCompatible,
            Some("https://api.venice.ai/api/v1"@),
            "VENICE_API_KEY"@,
            None,
        ),
{
    new_entry(
        "Venice AI",
        ProviderKind::OpenAiCompatible,
        Some("https://api.venice.ai/api/v1"),
        "VENICE_API_KEY",
        None,
    )
}

} // verus!
