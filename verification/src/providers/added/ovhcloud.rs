//! Catalog entry of OVHcloud AI.

use vstd::prelude::*;
use crate::catalog::{catalog_spec, new_entry, CatalogEntry, ProviderKind};

verus! {

/// The catalog entry of OVHcloud AI: an OpenAI-compatible provider.
pub fn catalog_entry() -> (res: CatalogEntry)
    ensures
        res@ == catalog_spec(
            "OVHcloud AI"@,
            ProviderKind::OpenAiCompatible,
            Some("https://oai.endpoints.kepler.ai.cloud.ovh.net/v1"@),
            "OVHCLOUD_API_KEY"@,
            None,
        ),
{
    new_entry(
        "OVHcloud AI",
        ProviderKind::OpenAiCompatible,
        Some("https://oai.endpoints.kepler.ai.cloud.ovh.net/v1"),
        "OVHCLOUD_API_KEY",
        None,
    )
}

} // verus!
