//! Catalog entry of Ollama Cloud.

use vstd::prelude::*;
use crate::catalog::{catalog_spec, new_entry, CatalogEntry, ProviderKind};

verus! {

/// The catalog entry of Ollama Cloud: an OpenAI-compatible provider.
pub fn catalog_entry() -> (res: CatalogEntry)
    ensures
        res@ == catalog_spec(
            "Ollama Cloud"@,
            ProviderKind::OpenAiCompatible,
            Some("https://ollama.com/v1"@),
            "OLLAMA_CLOUD_API_KEY"@,
            None,
        ),
{
    new_entry(
        "Ollama Cloud",
        ProviderKind::OpenAiCompatible,
        Some("https://ollama.com/v1"),
        "OLLAMA_CLOUD_API_KEY",
        None,
    )
}

} // verus!
