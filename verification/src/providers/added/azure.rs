//! Catalog entry of Azure OpenAI.

use vstd::prelude::*;
use crate::catalog::{catalog_spec, new_entry, CatalogEntry, ProviderKind};

verus! {

/// The catalog entry of Azure OpenAI: an OpenAI-compatible provider.
pub fn catalog_entry() -> (res: CatalogEntry)
    ensures
        res@ == catalog_spec(
            "Azure OpenAI"@,
            ProviderKind::OpenAiCompatible,
            None,
            "AZURE_API_KEY"@,
            Some("gpt-4o"@),
        ),
{
    new_entry(
        "Azure OpenAI",
        ProviderKind::OpenAiCompatible,
        None,
        "AZURE_API_KEY",
        Some("gpt-4o"),
    )
}

} // verus!
