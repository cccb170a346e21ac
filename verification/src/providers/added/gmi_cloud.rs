//! Catalog entry of GMI Cloud.

use vstd::prelude::*;
use crate::catalog::{catalog_spec, new_entry, CatalogEntry, ProviderKind};

verus! {

/// The catalog entry of GMI Cloud: an OpenAI-compatible provider.
pub fn catalog_entry() -> (res: CatalogEntry)
    ensures
        res@ == catalog_spec(
            "GMI Cloud"@,
            ProviderKind::OpenAiCompatible,
            Some("https://api.gmicloud.ai/v1"@),
            "GMI_CLOUD_API_KEY"@,
            None,
        ),
{
    new_entry(
        "GMI Cloud",
        ProviderKind::OpenAiCompatible,
        Some("https://api.gmicloud.ai/v1"),
        "GMI_CLOUD_API_KEY",
        None,
    )
}

} // verus!
