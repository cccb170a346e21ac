//! Catalog entry of IO.NET.

use vstd::prelude::*;
use crate::catalog::{catalog_spec, new_entry, CatalogEntry, ProviderKind};

verus! {

/// The catalog entry of IO.NET: an OpenAI-compatible provider.
pub fn catalog_entry() -> (res: CatalogEntry)
    ensures
        res@ == catalog_spec(
            "IO.NET"@,
            ProviderKind::OpenAiCompatible,
            Some("https://api.io.net/v1"@),
            "IO_NET_API_KEY"@,
            None,
        ),
{
    new_entry(
        "IO.NET",
        ProviderKind::OpenAiCompatible,
        Some("https://api.io.net/v1"),
        "IO_NET_API_KEY",
        None,
    )
}

} // verus!
