//! Catalog entry of GitLab Duo.

use vstd::prelude::*;
use crate::catalog::{catalog_spec, new_entry, CatalogEntry, ProviderKind};

verus! {

/// The catalog entry of GitLab Duo: an OpenAI-compatible provider.
pub fn catalog_entry() -> (res: CatalogEntry)
    ensures
        res@ == catalog_spec(
            "GitLab Duo"@,
            ProviderKind::OpenAiCompatible,
            Some("https://gitlab.com/api/v4/duo"@),
            "GITLAB_TOKEN"@,
            Some("duo-chat-sonnet-4-5"@),
        ),
{
    new_entry(
        "GitLab Duo",
        ProviderKind::OpenAiCompatible,
        Some("https://gitlab.com/api/v4/duo"),
        "GITLAB_TOKEN",
        Some("duo-chat-sonnet-4-5"),
    )
}

} // verus!
