//! Stored credentials per provider.

use vstd::prelude::*;
use crate::paths::{path_join, path_joined};
use crate::text::{is_blank, owned, str_eq, str_is_blank};

verus! {

broadcast use vstd::string::group_string_axioms;

/// Credentials of one provider: an API key, or OAuth tokens.
pub enum AuthEntry {
    Api { key: String },
    Oauth { refresh: String, access: String, expires: u64, account_id: Option<String> },
}

/// The contents of an [`AuthEntry`].
pub enum AuthEntryView {
    Api { key: Seq<char> },
    Oauth { refresh: Seq<char>, access: Seq<char>, expires: u64, account_id: Option<Seq<char>> },
}

impl View for AuthEntry {
    type V = AuthEntryView;

    open spec fn view(&self) -> AuthEntryView {
        match self {
            AuthEntry::Api { key } => AuthEntryView::Api { key: key@ },
            AuthEntry::Oauth { refresh, access, expires, account_id } => AuthEntryView::Oauth {
                refresh: refresh@,
                access: access@,
                expires: *expires,
                account_id: match account_id {
                    Some(a) => Some(a@),
                    None => None,
                },
            },
        }
    }
}

/// The key a request is authorised with: the API key, or the OAuth access token.
pub open spec fn api_key_of(e: AuthEntryView) -> Seq<char> {
    match e {
        AuthEntryView::Api { key } => key,
        AuthEntryView::Oauth { access, .. } => access,
    }
}

/// Whether the credentials have expired at `now_ms` (milliseconds since the
/// epoch): an API key never does; OAuth tokens do once `now_ms` reaches a
/// non-zero expiry.
pub open spec fn expired_at(e: AuthEntryView, now_ms: u64) -> bool {
    match e {
        AuthEntryView::Api { .. } => false,
        AuthEntryView::Oauth { expires, .. } => expires > 0 && now_ms >= expires,
    }
}

/// Milliseconds since the Unix epoch (`chrono::Utc::now().timestamp_millis()`);
/// it depends on the clock, so nothing is stated of it.
#[verifier::external_body]
fn now_millis() -> i64 {
    chrono::Utc::now().timestamp_millis()
}

impl AuthEntry {
    /// The key a request is authorised with.
    pub fn api_key(&self) -> (res: Option<&str>)
        ensures
            res is Some,
            res->Some_0@ == api_key_of(self@),
    {
        match self {
            AuthEntry::Api { key } => Some(key.as_str()),
            AuthEntry::Oauth { access, .. } => Some(access.as_str()),
        }
    }

    /// The OAuth refresh token, if these are OAuth credentials.
    pub fn refresh_token(&self) -> (res: Option<&str>)
        ensures
            res is Some <==> self@ is Oauth,
            res is Some ==> res->Some_0@ == self@->Oauth_refresh,
    {
        match self {
            AuthEntry::Api { .. } => None,
            AuthEntry::Oauth { refresh, .. } => Some(refresh.as_str()),
        }
    }

    /// Whether the credentials have expired at `now_ms`.
    pub fn is_expired_at(&self, now_ms: u64) -> (res: bool)
        ensures
            res == expired_at(self@, now_ms),
    {
        match self {
            AuthEntry::Api { .. } => false,
            AuthEntry::Oauth { expires, .. } => *expires > 0 && now_ms >= *expires,
        }
    }

    /// Whether the credentials have expired now.
    pub fn is_expired(&self) -> (res: bool)
        ensures
            exists|now_ms: u64| res == expired_at(self@, now_ms),
            self@ is Api ==> !res,
    {
        let now = now_millis();
        let now_ms = now as u64;
        self.is_expired_at(now_ms)
    }

    /// A copy of the credentials.
    pub fn copy(&self) -> (res: AuthEntry)
        ensures
            res@ == self@,
    {
        match self {
            AuthEntry::Api { key } => AuthEntry::Api { key: key.clone() },
            AuthEntry::Oauth { refresh, access, expires, account_id } => AuthEntry::Oauth {
                refresh: refresh.clone(),
                access: access.clone(),
                expires: *expires,
                account_id: match account_id {
                    Some(a) => Some(a.clone()),
                    None => None,
                },
            },
        }
    }
}

/// Credentials by provider id.
pub struct AuthStore {
    entries: Vec<(String, AuthEntry)>,
}

impl AuthStore {
    /// No provider id occurs twice.
    #[verifier::type_invariant]
    spec fn keys_unique(&self) -> bool {
        forall|i: int, j: int|
            0 <= i < self.entries@.len() && 0 <= j < self.entries@.len() && i != j
                ==> #[trigger] self.entries@[i].0@ != #[trigger] self.entries@[j].0@
    }

    /// The provider id stored at position `i`.
    pub closed spec fn key_at(&self, i: int) -> Seq<char> {
        self.entries@[i].0@
    }

    /// Whether credentials for `k` are stored.
    pub closed spec fn has_key(&self, k: Seq<char>) -> bool {
        exists|i: int| 0 <= i < self.entries@.len() && #[trigger] self.key_at(i) == k
    }

    /// Where the credentials for `k` are stored.
    pub closed spec fn index_of(&self, k: Seq<char>) -> int {
        choose|i: int| 0 <= i < self.entries@.len() && #[trigger] self.key_at(i) == k
    }

    /// The stored credentials, by provider id.
    pub closed spec fn view(&self) -> Map<Seq<char>, AuthEntryView> {
        Map::new(|k: Seq<char>| self.has_key(k), |k: Seq<char>| self.entries@[self.index_of(k)].1@)
    }

    /// An empty store.
    pub fn new() -> (res: AuthStore)
        ensures
            res.view() == Map::<Seq<char>, AuthEntryView>::empty(),
    {
        let res = AuthStore { entries: Vec::new() };
        assert(res.view() =~= Map::<Seq<char>, AuthEntryView>::empty());
        res
    }

    /// Number of providers with stored credentials.
    pub fn len(&self) -> (res: usize)
        ensures
            res == self.view().dom().len(),
    {
        proof {
            use_type_invariant(self);
            self.lemma_dom_len();
        }
        self.entries.len()
    }

    proof fn lemma_dom_len(&self)
        requires
            self.keys_unique(),
        ensures
            self.view().dom().len() == self.entries@.len(),
            self.view().dom().finite(),
    {
        let keys = self.entries@.map_values(|p: (String, AuthEntry)| p.0@);
        assert forall|i: int, j: int| 0 <= i < keys.len() && 0 <= j < keys.len() && i != j implies keys[i] != keys[j] by {
            assert(self.key_at(i) == keys[i]);
            assert(self.key_at(j) == keys[j]);
        }
        keys.unique_seq_to_set();
        assert forall|k: Seq<char>| self.view().dom().contains(k) <==> keys.to_set().contains(k) by {
            if self.view().dom().contains(k) {
                let i = choose|i: int| 0 <= i < self.entries@.len() && #[trigger] self.key_at(i) == k;
                assert(keys[i] == k);
            }
            if keys.to_set().contains(k) {
                let i = choose|i: int| 0 <= i < keys.len() && keys[i] == k;
                assert(self.key_at(i) == k);
            }
        }
        assert(self.view().dom() =~= keys.to_set());
    }

    /// Position of the credentials stored for `k`.
    fn find(&self, k: &str) -> (res: Option<usize>)
        ensures
            match res {
                Some(i) => i < self.entries@.len() && self.key_at(i as int) == k@,
                None => !self.has_key(k@),
            },
    {
        let mut i: usize = 0;
        while i < self.entries.len()
            invariant
                i <= self.entries@.len(),
                forall|j: int| 0 <= j < i ==> #[trigger] self.key_at(j) != k@,
            decreases self.entries.len() - i,
        {
            if str_eq(self.entries[i].0.as_str(), k) {
                return Some(i);
            }
            i = i + 1;
        }
        None
    }

    proof fn lemma_lookup(&self, i: int)
        requires
            self.keys_unique(),
            0 <= i < self.entries@.len(),
        ensures
            self.has_key(self.key_at(i)),
            self.index_of(self.key_at(i)) == i,
            self.view().contains_key(self.key_at(i)),
            self.view()[self.key_at(i)] == self.entries@[i].1@,
    {
        let k = self.key_at(i);
        assert(self.has_key(k));
        let j = self.index_of(k);
        assert(self.key_at(j) == k);
        if j != i {
            assert(self.entries@[i].0@ != self.entries@[j].0@);
        }
    }

    /// The credentials stored for `k`.
    pub fn get(&self, k: &str) -> (res: Option<&AuthEntry>)
        ensures
            match res {
                Some(e) => self.view().contains_key(k@) && self.view()[k@] == e@,
                None => !self.view().contains_key(k@),
            },
    {
        proof {
            use_type_invariant(self);
        }
        match self.find(k) {
            Some(i) => {
                proof {
                    self.lemma_lookup(i as int);
                }
                Some(&self.entries[i].1)
            },
            None => None,
        }
    }

    /// Stores `entry` for `k`, replacing what was stored for it.
    pub fn insert(&mut self, k: String, entry: AuthEntry)
        ensures
            final(self).view() == old(self).view().insert(k@, entry@),
    {
        proof {
            use_type_invariant(&*self);
        }
        let ghost old_self = *self;
        let ghost ev = entry@;
        match self.find(k.as_str()) {
            Some(i) => {
                let mut v: Vec<(String, AuthEntry)> = Vec::new();
                std::mem::swap(&mut v, &mut self.entries);
                v.set(i, (k, entry));
                self.entries = v;
                proof {
                    use_type_invariant(&*self);
                    old_self.lemma_lookup(i as int);
                    let kv = old_self.key_at(i as int);
                    assert(self.key_at(i as int) == kv);
                    self.lemma_lookup(i as int);
                    assert forall|key: Seq<char>| #![auto] self.has_key(key) <==> old_self.has_key(key) by {
                        if self.has_key(key) {
                            let j = choose|j: int| 0 <= j < self.entries@.len() && #[trigger] self.key_at(j) == key;
                            assert(old_self.key_at(j) == key);
                        }
                        if old_self.has_key(key) {
                            let j = choose|j: int| 0 <= j < old_self.entries@.len() && #[trigger] old_self.key_at(j) == key;
                            assert(self.key_at(j) == key);
                        }
                    }
                    assert forall|key: Seq<char>| #![auto] self.has_key(key) implies self.view()[key] == old_self.view().insert(kv, ev)[key] by {
                        let j = self.index_of(key);
                        self.lemma_lookup(j);
                        if j != i {
                            old_self.lemma_lookup(j);
                        }
                    }
                    assert(self.view() =~= old_self.view().insert(kv, ev));
                }
            },
            None => {
                let mut v: Vec<(String, AuthEntry)> = Vec::new();
                std::mem::swap(&mut v, &mut self.entries);
                v.push((k, entry));
                proof {
                    assert forall|a: int, b: int|
                        0 <= a < v@.len() && 0 <= b < v@.len() && a != b implies #[trigger] v@[a].0@ != #[trigger] v@[b].0@ by {
                        let n = old_self.entries@.len() as int;
                        if a < n && b < n {
                            assert(old_self.entries@[a] == v@[a]);
                            assert(old_self.entries@[b] == v@[b]);
                        } else if a < n {
                            assert(old_self.key_at(a) == v@[a].0@);
                        } else {
                            assert(old_self.key_at(b) == v@[b].0@);
                        }
                    }
                }
                self.entries = v;
                proof {
                    use_type_invariant(&*self);
                    let n = old_self.entries@.len() as int;
                    let kv = self.key_at(n);
                    assert forall|key: Seq<char>| #![auto] self.has_key(key) <==> (old_self.has_key(key) || key == kv) by {
                        if self.has_key(key) {
                            let j = choose|j: int| 0 <= j < self.entries@.len() && #[trigger] self.key_at(j) == key;
                            if j < n {
                                assert(old_self.key_at(j) == key);
                            }
                        }
                        if old_self.has_key(key) {
                            let j = choose|j: int| 0 <= j < old_self.entries@.len() && #[trigger] old_self.key_at(j) == key;
                            assert(self.key_at(j) == key);
                        }
                        if key == kv {
                            assert(self.key_at(n) == key);
                        }
                    }
                    assert forall|key: Seq<char>| #![auto] self.has_key(key) implies self.view()[key] == old_self.view().insert(kv, ev)[key] by {
                        let j = self.index_of(key);
                        self.lemma_lookup(j);
                        if j != n {
                            old_self.lemma_lookup(j);
                        }
                    }
                    assert(self.view() =~= old_self.view().insert(kv, ev));
                }
            },
        }
    }

    /// Removes what is stored for `k`; returns whether anything was.
    pub fn remove(&mut self, k: &str) -> (res: bool)
        ensures
            res == old(self).view().contains_key(k@),
            final(self).view() == old(self).view().remove(k@),
    {
        proof {
            use_type_invariant(&*self);
        }
        let ghost old_self = *self;
        match self.find(k) {
            Some(i) => {
                proof {
                    old_self.lemma_lookup(i as int);
                }
                let mut v: Vec<(String, AuthEntry)> = Vec::new();
                std::mem::swap(&mut v, &mut self.entries);
                v.remove(i);
                self.entries = v;
                proof {
                    use_type_invariant(&*self);
                    let shift = |j: int| if j < i { j } else { j + 1 };
                    assert forall|key: Seq<char>| #![auto] self.has_key(key) <==> (old_self.has_key(key) && key != k@) by {
                        if self.has_key(key) {
                            let j = choose|j: int| 0 <= j < self.entries@.len() && #[trigger] self.key_at(j) == key;
                            assert(old_self.key_at(shift(j)) == key);
                            assert(shift(j) != i);
                        }
                        if old_self.has_key(key) && key != k@ {
                            let j = choose|j: int| 0 <= j < old_self.entries@.len() && #[trigger] old_self.key_at(j) == key;
                            assert(j != i);
                            let jj = if j < i { j } else { j - 1 };
                            assert(self.key_at(jj) == key);
                        }
                    }
                    assert forall|key: Seq<char>| #![auto] self.has_key(key) implies self.view()[key] == old_self.view().remove(k@)[key] by {
                        let j = self.index_of(key);
                        self.lemma_lookup(j);
                        old_self.lemma_lookup(shift(j));
                    }
                    assert(self.view() =~= old_self.view().remove(k@));
                }
                true
            },
            None => {
                proof {
                    assert(old_self.view() =~= old_self.view().remove(k@));
                }
                false
            },
        }
    }

    /// The provider ids and credentials, in storage order.
    pub fn entries(&self) -> (res: &Vec<(String, AuthEntry)>)
        ensures
            forall|i: int| 0 <= i < res@.len() ==> self.view().contains_key(#[trigger] res@[i].0@) && self.view()[res@[i].0@] == res@[i].1@,
            res@.len() == self.view().dom().len(),
    {
        proof {
            use_type_invariant(self);
            self.lemma_dom_len();
            assert forall|i: int| 0 <= i < self.entries@.len() implies self.view().contains_key(#[trigger] self.entries@[i].0@) && self.view()[self.entries@[i].0@] == self.entries@[i].1@ by {
                self.lemma_lookup(i);
            }
        }
        &self.entries
    }
}

/// Path of the credentials file inside the configuration directory.
pub fn auth_path(config_dir: &str) -> (res: String)
    ensures
        res@ == path_joined(config_dir@, "auth.json"@),
{
    path_join(config_dir, "auth.json")
}

/// Removes the credentials of `provider_id`; returns whether there were any.
pub fn remove_auth_entry(store: &mut AuthStore, provider_id: &str) -> (res: bool)
    ensures
        res == old(store).view().contains_key(provider_id@),
        final(store).view() == old(store).view().remove(provider_id@),
{
    store.remove(provider_id)
}

/// The key for `id` at time `now_ms`: present when credentials are stored,
/// have not expired, and their key is not blank.
pub open spec fn api_key_at(store: Map<Seq<char>, AuthEntryView>, id: Seq<char>, now_ms: u64) -> Option<Seq<char>> {
    if store.contains_key(id) && !expired_at(store[id], now_ms) && !is_blank(api_key_of(store[id])) {
        Some(api_key_of(store[id]))
    } else {
        None
    }
}

/// The view of an optional string slice.
pub open spec fn opt_key_view(v: Option<&str>) -> Option<Seq<char>> {
    match v {
        Some(s) => Some(s@),
        None => None,
    }
}

/// The usable key for `provider_id` at time `now_ms`.
pub fn get_api_key_at<'a>(store: &'a AuthStore, provider_id: &str, now_ms: u64) -> (res: Option<&'a str>)
    ensures
        opt_key_view(res) == api_key_at(store.view(), provider_id@, now_ms),
{
    match store.get(provider_id) {
        Some(e) => {
            if e.is_expired_at(now_ms) {
                return None;
            }
            let key = e.api_key().unwrap();
            if str_is_blank(key) {
                None
            } else {
                Some(key)
            }
        },
        None => None,
    }
}

/// The usable key for `provider_id` now: the stored key when it has not
/// expired and is not blank.
pub fn get_api_key<'a>(store: &'a AuthStore, provider_id: &str) -> (res: Option<&'a str>)
    ensures
        exists|now_ms: u64| opt_key_view(res) == api_key_at(store.view(), provider_id@, now_ms),
{
    let now = now_millis();
    get_api_key_at(store, provider_id, now as u64)
}

/// After the credentials of a provider are removed, no key is found for it.
pub proof fn law_removed_provider_has_no_key(
    before: Map<Seq<char>, AuthEntryView>,
    id: Seq<char>,
    now_ms: u64,
)
    ensures
        api_key_at(before.remove(id), id, now_ms) is None,
{
}

/// An API key that is not blank is always usable: it never expires.
pub proof fn law_api_keys_never_expire(store: Map<Seq<char>, AuthEntryView>, id: Seq<char>, now_ms: u64)
    requires
        store.contains_key(id),
        store[id] is Api,
        !is_blank(store[id]->Api_key),
    ensures
        api_key_at(store, id, now_ms) == Some(store[id]->Api_key),
{
}

} // verus!
