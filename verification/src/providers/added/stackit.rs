//! Catalog entry of STACKIT.

use vstd::prelude::*;
use crate::catalog::{catalog_spec, new_entry, CatalogEntry, ProviderKind};

verus! {

/// The catalog entry of STACKIT: an OpenAI-compatible provider.
pub fn catalog_entry() -> (res: CatalogEntry)
    ensures
        res@ == catalog_spec(
            "STACKIT"@,
            ProviderKind::OpenAiCompatible,
            Some("https://ai.stackit.cloud/v1"@),
            "STACKIT_API_KEY"@,
            None,
        ),
{
    new_entry(
        "STACKIT",
        ProviderKind::OpenAiCompatible,
        Some("https://ai.stackit.cloud/v1"),
        "STACKIT_API_KEY",
        None,
    )
}

} // verus!
