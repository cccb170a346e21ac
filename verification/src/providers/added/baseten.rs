//! Catalog entry of Baseten.

use vstd::prelude::*;
use crate::catalog::{catalog_spec, new_entry, CatalogEntry, ProviderKind};

verus! {

/// The catalog entry of Baseten: an OpenAI-compatible provider.
pub fn catalog_entry() -> (res: CatalogEntry)
    ensures
        res@ == catalog_spec(
            "Baseten"@,
            ProviderKind::OpenAiCompatible,
            Some("https://inference.baseten.co/v1"@),
            "BASETEN_API_KEY"@,
            None,
        ),
{
    new_entry(
        "Baseten",
        ProviderKind::OpenAiCompatible,
        Some("https://inference.baseten.co/v1"),
        "BASETEN_API_KEY",
        None,
    )
}

} // verus!
