//! Catalog entry of Snowflake Cortex.

use vstd::prelude::*;
use crate::catalog::{catalog_spec, new_entry, CatalogEntry, ProviderKind};

verus! {

/// The catalog entry of Snowflake Cortex: an OpenAI-compatible provider.
pub fn catalog_entry() -> (res: CatalogEntry)
    ensures
        res@ == catalog_spec(
            "Snowflake Cortex"@,
            ProviderKind::OpenAiCompatible,
            None,
            "SNOWFLAKE_API_KEY"@,
            None,
        ),
{
    new_entry(
        "Snowflake Cortex",
        ProviderKind::OpenAiCompatible,
        None,
        "SNOWFLAKE_API_KEY",
        None,
    )
}

} // verus!
