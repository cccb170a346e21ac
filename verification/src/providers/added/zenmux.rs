//! Catalog entry of ZenMux.

use vstd::prelude::*;
use crate::catalog::{catalog_spec, new_entry, CatalogEntry, ProviderKind};

verus! {

/// The catalog entry of ZenMux: an OpenAI-compatible provider.
pub fn catalog_entry() -> (res: CatalogEntry)
    ensures
        res@ == catalog_spec(
            "ZenMux"@,
            ProviderKind::OpenAiCompatible,
            Some("https://zenmux.ai/api/v1"@),
            "ZENMUX_API_KEY"@,
            None,
        ),
{
    new_entry(
        "ZenMux",
        ProviderKind::OpenAiCompatible,
        Some("https://zenmux.ai/api/v1"),
        "ZENMUX_API_KEY",
        None,
    )
}

} // verus!
