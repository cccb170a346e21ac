//! Catalog entry of Helicone.

use vstd::prelude::*;
use crate::catalog::{catalog_spec, new_entry, CatalogEntry, ProviderKind};

verus! {

/// The catalog entry of Helicone: an OpenAI-compatible provider.
pub fn catalog_entry() -> (res: CatalogEntry)
    ensures
        res@ == catalog_spec(
            "Helicone"@,
            ProviderKind::OpenAiCompatible,
            Some("https://ai-gateway.helicone.ai/v1"@),
            "HELICONE_API_KEY"@,
            None,
        ),
{
    new_entry(
        "Helicone",
        ProviderKind::OpenAiCompatible,
        Some("https://ai-gateway.helicone.ai/v1"),
        "HELICONE_API_KEY",
        None,
    )
}

} // verus!
