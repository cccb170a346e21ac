//! Catalog entry of SAP AI Core.

use vstd::prelude::*;
use crate::catalog::{catalog_spec, new_entry, CatalogEntry, ProviderKind};

verus! {

/// The catalog entry of SAP AI Core: an OpenAI-compatible provider.
pub fn catalog_entry() -> (res: CatalogEntry)
    ensures
        res@ == catalog_spec(
            "SAP AI Core"@,
            ProviderKind::OpenAiCompatible,
            None,
            "SAP_AI_CORE_API_KEY"@,
            None,
        ),
{
    new_entry(
        "SAP AI Core",
        ProviderKind::OpenAiCompatible,
        None,
        "SAP_AI_CORE_API_KEY",
        None,
    )
}

} // verus!
