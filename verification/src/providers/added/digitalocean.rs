//! Catalog entry of DigitalOcean.

use vstd::prelude::*;
use crate::catalog::{catalog_spec, new_entry, CatalogEntry, ProviderKind};

verus! {

/// The catalog entry of DigitalOcean: an OpenAI-compatible provider.
pub fn catalog_entry() -> (res: CatalogEntry)
    ensures
        res@ == catalog_spec(
            "DigitalOcean"@,
            ProviderKind::OpenAiCompatible,
            Some("https://inference.do-ai.run/v1"@),
            "DIGITALOCEAN_ACCESS_TOKEN"@,
            None,
        ),
{
    new_entry(
        "DigitalOcean",
        ProviderKind::OpenAiCompatible,
        Some("https://inference.do-ai.run/v1"),
        "DIGITALOCEAN_ACCESS_TOKEN",
        None,
    )
}

} // verus!
