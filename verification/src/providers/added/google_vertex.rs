//! Catalog entry of Google Vertex AI.

use vstd::prelude::*;
use crate::catalog::{catalog_spec, new_entry, CatalogEntry, ProviderKind};

verus! {

/// The catalog entry of Google Vertex AI: an OpenAI-compatible provider.
pub fn catalog_entry() -> (res: CatalogEntry)
    ensures
        res@ == catalog_spec(
            "Google Vertex AI"@,
            ProviderKind::OpenAiCompatible,
            Some("https://aiplatform.googleapis.com/v1"@),
            "GOOGLE_VERTEX_API_KEY"@,
            Some("gemini-2.5-pro"@),
        ),
{
    new_entry(
        "Google Vertex AI",
        ProviderKind::OpenAiCompatible,
        Some("https://aiplatform.googleapis.com/v1"),
        "GOOGLE_VERTEX_API_KEY",
        Some("gemini-2.5-pro"),
    )
}

} // verus!
