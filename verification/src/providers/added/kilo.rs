//! Catalog entry of Kilo AI.

use vstd::prelude::*;
use crate::catalog::{catalog_spec, new_entry, CatalogEntry, ProviderKind};

verus! {

/// The catalog entry of Kilo AI: an OpenAI-compatible provider.
pub fn catalog_entry() -> (res: CatalogEntry)
    ensures
        res@ == catalog_spec(
            "Kilo AI"@,
            ProviderKind::OpenAiCompatible,
            Some("https://api.kilo.ai/api/gateway"@),
            "KILO_API_KEY"@,
            None,
        ),
{
    new_entry(
        "Kilo AI",
        ProviderKind::OpenAiCompatible,
        Some("https://api.kilo.ai/api/gateway"),
        "KILO_API_KEY",
        None,
    )
}

} // verus!
