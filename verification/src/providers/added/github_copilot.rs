//! Catalog entry of GitHub Copilot.

use vstd::prelude::*;
use crate::catalog::{catalog_spec, new_entry, CatalogEntry, ProviderKind};

verus! {

/// The catalog entry of GitHub Copilot: an OpenAI-compatible provider.
pub fn catalog_entry() -> (res: CatalogEntry)
    ensures
        res@ == catalog_spec(
            "GitHub Copilot"@,
            ProviderKind::OpenAiCompatible,
            Some("https://api.githubcopilot.com/v1"@),
            "GITHUB_COPILOT_TOKEN"@,
            Some("gpt-4o"@),
        ),
{
    new_entry(
        "GitHub Copilot",
        ProviderKind::OpenAiCompatible,
        Some("https://api.githubcopilot.com/v1"),
        "GITHUB_COPILOT_TOKEN",
        Some("gpt-4o"),
    )
}

} // verus!
