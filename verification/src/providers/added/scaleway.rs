//! Catalog entry of Scaleway.

use vstd::prelude::*;
use crate::catalog::{catalog_spec, new_entry, CatalogEntry, ProviderKind};

verus! {

/// The catalog entry of Scaleway: an OpenAI-compatible provider.
pub fn catalog_entry() -> (res: CatalogEntry)
    ensures
        res@ == catalog_spec(
            "Scaleway"@,
            ProviderKind::OpenAiCompatible,
            Some("https://api.scaleway.com/v1"@),
            "SCALEWAY_API_KEY"@,
            None,
        ),
{
    new_entry(
        "Scaleway",
        ProviderKind::OpenAiCompatible,
        Some("https://api.scaleway.com/v1"),
        "SCALEWAY_API_KEY",
        None,
    )
}

} // verus!
