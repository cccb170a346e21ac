//! Catalog entry of 302.AI.

use vstd::prelude::*;
use crate::catalog::{catalog_spec, new_entry, CatalogEntry, ProviderKind};

verus! {

/// The catalog entry of 302.AI: an OpenAI-compatible provider.
pub fn catalog_entry() -> (res: CatalogEntry)
    ensures
        res@ == catalog_spec(
            "302.AI"@,
            ProviderKind::OpenAiCompatible,
            Some("https://api.302.ai/v1"@),
            "THREE02AI_API_KEY"@,
            None,
        ),
{
    new_entry(
        "302.AI",
        ProviderKind::OpenAiCompatible,
        Some("https://api.302.ai/v1"),
        "THREE02AI_API_KEY",
        None,
    )
}

} // verus!
