//! Catalog entry of Nebius Token Factory.

use vstd::prelude::*;
use crate::catalog::{catalog_spec, new_entry, CatalogEntry, ProviderKind};

verus! {

/// The catalog entry of Nebius Token Factory: an OpenAI-compatible provider.
pub fn catalog_entry() -> (res: CatalogEntry)
    ensures
        res@ == catalog_spec(
            "Nebius Token Factory"@,
            ProviderKind::OpenAiCompatible,
            Some("https://api.tokenfactory.nebius.com/v1"@),
            "NEBIUS_API_KEY"@,
            None,
        ),
{
    new_entry(
        "Nebius Token Factory",
        ProviderKind::OpenAiCompatible,
        Some("https://api.tokenfactory.nebius.com/v1"),
        "NEBIUS_API_KEY",
        None,
    )
}

} // verus!
