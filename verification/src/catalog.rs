//! Catalog entries describing the providers the client can talk to.

use vstd::prelude::*;
use crate::json::{Json, JsonView};
use crate::text::owned;

verus! {

broadcast use vstd::string::group_string_axioms;

/// The wire protocol a provider speaks.
#[derive(Clone, Copy, PartialEq, Eq, Structural, Debug)]
pub enum ProviderKind {
    OpenAiCompatible,
    Gemini,
}

/// A provider's catalog entry.
pub struct CatalogEntry {
    /// Keys configured for the provider.
    pub api_key: Vec<String>,
    pub name: String,
    pub kind: ProviderKind,
    pub base_url: Option<String>,
    /// Environment variable the key is read from.
    pub api_key_env: Option<String>,
    pub default_model: Option<String>,
    /// Extra members merged into each request body.
    pub extra_body: Option<Json>,
}

/// The contents of a [`CatalogEntry`].
pub struct CatalogEntryView {
    pub api_key: Seq<Seq<char>>,
    pub name: Seq<char>,
    pub kind: ProviderKind,
    pub base_url: Option<Seq<char>>,
    pub api_key_env: Option<Seq<char>>,
    pub default_model: Option<Seq<char>>,
    pub extra_body: Option<JsonView>,
}

/// The view of an optional string.
pub open spec fn opt_string_view(v: Option<String>) -> Option<Seq<char>> {
    match v {
        Some(s) => Some(s@),
        None => None,
    }
}

impl View for CatalogEntry {
    type V = CatalogEntryView;

    open spec fn view(&self) -> CatalogEntryView {
        CatalogEntryView {
            api_key: self.api_key@.map_values(|k: String| k@),
            name: self.name@,
            kind: self.kind,
            base_url: opt_string_view(self.base_url),
            api_key_env: opt_string_view(self.api_key_env),
            default_model: opt_string_view(self.default_model),
            extra_body: match self.extra_body {
                Some(j) => Some(j@),
                None => None,
            },
        }
    }
}

/// The view of an optional string slice.
pub open spec fn opt_text(v: Option<&str>) -> Option<Seq<char>> {
    match v {
        Some(s) => Some(s@),
        None => None,
    }
}

/// The entry of a provider of the given kind: no configured keys, no extra body.
pub open spec fn catalog_spec(
    name: Seq<char>,
    kind: ProviderKind,
    base_url: Option<Seq<char>>,
    api_key_env: Seq<char>,
    default_model: Option<Seq<char>>,
) -> CatalogEntryView {
    CatalogEntryView {
        api_key: Seq::empty(),
        name,
        kind,
        base_url,
        api_key_env: Some(api_key_env),
        default_model,
        extra_body: None,
    }
}

fn opt_owned(v: Option<&str>) -> (res: Option<String>)
    ensures
        opt_string_view(res) == opt_text(v),
{
    match v {
        Some(s) => Some(owned(s)),
        None => None,
    }
}

/// Builds the entry of a provider of the given kind, with no configured keys
/// and no extra body.
pub fn new_entry(
    name: &str,
    kind: ProviderKind,
    base_url: Option<&str>,
    api_key_env: &str,
    default_model: Option<&str>,
) -> (res: CatalogEntry)
    ensures
        res@ == catalog_spec(name@, kind, opt_text(base_url), api_key_env@, opt_text(default_model)),
{
    let res = CatalogEntry {
        api_key: Vec::new(),
        name: owned(name),
        kind,
        base_url: opt_owned(base_url),
        api_key_env: Some(owned(api_key_env)),
        default_model: opt_owned(default_model),
        extra_body: None,
    };
    proof {
        assert(res.api_key@.map_values(|k: String| k@) =~= Seq::<Seq<char>>::empty());
    }
    res
}

} // verus!
