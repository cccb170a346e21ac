//! The in-memory index of conversation threads.
//!
//! The index is a list of thread metadata; the caller persists it after the
//! operations that change it.

use vstd::prelude::*;
use crate::paths::{path_join, path_joined};
use crate::text::{contains_chars, contains_seq, occurs_at, to_chars};

verus! {

broadcast use vstd::string::group_string_axioms;

/// Metadata of one conversation thread.
pub struct SessionMeta {
    /// The thread's id (a UUID, as its 128-bit value).
    pub id: u128,
    /// The thread's title, once it has one.
    pub title: Option<String>,
    /// When the thread was last updated (milliseconds since the epoch).
    pub updated_at: i64,
}

/// The contents of a [`SessionMeta`].
pub struct SessionMetaView {
    pub id: u128,
    pub title: Option<Seq<char>>,
    pub updated_at: i64,
}

impl View for SessionMeta {
    type V = SessionMetaView;

    open spec fn view(&self) -> SessionMetaView {
        SessionMetaView {
            id: self.id,
            title: match self.title {
                Some(t) => Some(t@),
                None => None,
            },
            updated_at: self.updated_at,
        }
    }
}

impl SessionMeta {
    /// A copy of the metadata.
    pub fn copy(&self) -> (res: SessionMeta)
        ensures
            res@ == self@,
    {
        SessionMeta {
            id: self.id,
            title: match &self.title {
                Some(t) => Some(t.clone()),
                None => None,
            },
            updated_at: self.updated_at,
        }
    }
}

/// The views of a list of metadata.
pub open spec fn metas_view(v: Seq<SessionMeta>) -> Seq<SessionMetaView> {
    v.map_values(|m: SessionMeta| m@)
}

/// The thread index.
pub struct SessionIndex {
    entries: Vec<SessionMeta>,
}

impl View for SessionIndex {
    type V = Seq<SessionMetaView>;

    closed spec fn view(&self) -> Seq<SessionMetaView> {
        metas_view(self.entries@)
    }
}

impl SessionIndex {
    /// The entries in stored order.
    pub fn entries(&self) -> (res: &Vec<SessionMeta>)
        ensures
            metas_view(res@) == self@,
    {
        &self.entries
    }
}

/// Path of the index file inside the sessions directory.
pub fn index_path(sessions_dir: &str) -> (res: String)
    ensures
        res@ == path_joined(sessions_dir@, "index.json"@),
{
    path_join(sessions_dir, "index.json")
}

/// An index holding the entries loaded from disk.
pub fn init(loaded: Vec<SessionMeta>) -> (res: SessionIndex)
    ensures
        res@ == metas_view(loaded@),
{
    SessionIndex { entries: loaded }
}

// ───────────────────────── lookup by id ─────────────────────────

/// Position of the first entry with `id`, or -1.
pub open spec fn position_of(s: Seq<SessionMetaView>, id: u128) -> int
    decreases s.len(),
{
    if s.len() == 0 {
        -1
    } else if s[0].id == id {
        0
    } else {
        let p = position_of(s.skip(1), id);
        if p < 0 {
            -1
        } else {
            p + 1
        }
    }
}

/// What [`position_of`] finds.
pub proof fn lemma_position_of(s: Seq<SessionMetaView>, id: u128)
    ensures
        position_of(s, id) == -1 ==> forall|j: int| 0 <= j < s.len() ==> #[trigger] s[j].id != id,
        position_of(s, id) != -1 ==> {
            let p = position_of(s, id);
            &&& 0 <= p < s.len()
            &&& s[p].id == id
            &&& forall|j: int| 0 <= j < p ==> #[trigger] s[j].id != id
        },
    decreases s.len(),
{
    if s.len() > 0 && s[0].id != id {
        lemma_position_of(s.skip(1), id);
        assert forall|j: int| 0 < j < s.len() implies #[trigger] s[j] == s.skip(1)[j - 1] by {}
    }
}

/// The first entry with `id` is at `p` (or there is none, when `p` is the length).
pub proof fn lemma_position_is(s: Seq<SessionMetaView>, id: u128, p: int)
    requires
        0 <= p <= s.len(),
        forall|j: int| 0 <= j < p ==> #[trigger] s[j].id != id,
        p < s.len() ==> s[p].id == id,
    ensures
        position_of(s, id) == if p == s.len() { -1 } else { p },
{
    lemma_position_of(s, id);
    let q = position_of(s, id);
    if q != -1 {
        assert(s[q].id == id);
        if q < p {
        } else if q > p {
            assert(s[p].id != id);
        }
    }
}

/// Index of the first entry with `id`.
fn find_id(v: &Vec<SessionMeta>, id: u128) -> (res: Option<usize>)
    ensures
        match res {
            Some(i) => i < v@.len() && i as int == position_of(metas_view(v@), id),
            None => position_of(metas_view(v@), id) == -1,
        },
{
    let ghost s = metas_view(v@);
    let mut i: usize = 0;
    while i < v.len()
        invariant
            s == metas_view(v@),
            i <= v.len(),
            forall|j: int| 0 <= j < i ==> #[trigger] s[j].id != id,
        decreases v.len() - i,
    {
        if v[i].id == id {
            proof {
                lemma_position_is(s, id, i as int);
            }
            return Some(i);
        }
        i = i + 1;
    }
    proof {
        lemma_position_is(s, id, i as int);
    }
    None
}

/// The index after storing `m`: it replaces the first entry with its id, or
/// is appended when there is none.
pub open spec fn upserted(s: Seq<SessionMetaView>, m: SessionMetaView) -> Seq<SessionMetaView> {
    let p = position_of(s, m.id);
    if p >= 0 {
        s.update(p, m)
    } else {
        s.push(m)
    }
}

/// The entry with `id`, if any (the first one).
pub open spec fn lookup(s: Seq<SessionMetaView>, id: u128) -> Option<SessionMetaView> {
    let p = position_of(s, id);
    if p >= 0 {
        Some(s[p])
    } else {
        None
    }
}

/// The index without the entries with `id`.
pub open spec fn without_id(s: Seq<SessionMetaView>, id: u128) -> Seq<SessionMetaView>
    decreases s.len(),
{
    if s.len() == 0 {
        s
    } else if s.last().id == id {
        without_id(s.drop_last(), id)
    } else {
        without_id(s.drop_last(), id).push(s.last())
    }
}

/// Stores `meta`: replaces the first entry with its id, or appends it.
pub fn upsert_thread(index: &mut SessionIndex, meta: &SessionMeta)
    ensures
        final(index)@ == upserted(old(index)@, meta@),
{
    match find_id(&index.entries, meta.id) {
        Some(i) => {
            index.entries.set(i, meta.copy());
            proof {
                assert(metas_view(index.entries@) =~= metas_view(old(index).entries@).update(i as int, meta@));
            }
        },
        None => {
            index.entries.push(meta.copy());
            proof {
                assert(metas_view(index.entries@) =~= metas_view(old(index).entries@).push(meta@));
            }
        },
    }
}

/// Removes every entry with `id`; returns whether any was removed.
pub fn delete_thread(index: &mut SessionIndex, id: u128) -> (res: bool)
    ensures
        final(index)@ == without_id(old(index)@, id),
        res == (position_of(old(index)@, id) != -1),
{
    let ghost s = index@;
    let mut kept: Vec<SessionMeta> = Vec::new();
    let mut removed = false;
    let mut i: usize = 0;
    while i < index.entries.len()
        invariant
            s == metas_view(index.entries@),
            i <= index.entries.len(),
            metas_view(kept@) == without_id(s.take(i as int), id),
            removed == exists|j: int| 0 <= j < i && #[trigger] s[j].id == id,
        decreases index.entries.len() - i,
    {
        let ghost before = kept@;
        if index.entries[i].id == id {
            removed = true;
        } else {
            kept.push(index.entries[i].copy());
        }
        proof {
            assert(s.take(i + 1).drop_last() =~= s.take(i as int));
            assert(s.take(i + 1).last() == s[i as int]);
            if s[i as int].id != id {
                assert(metas_view(kept@) =~= metas_view(before).push(s[i as int]));
            }
            if s[i as int].id == id {
                assert(s[i as int].id == id);
            }
        }
        i = i + 1;
    }
    index.entries = kept;
    proof {
        assert(s.take(s.len() as int) =~= s);
        lemma_position_of(s, id);
    }
    removed
}

/// The first entry with `id`.
pub fn get_thread(index: &SessionIndex, id: u128) -> (res: Option<SessionMeta>)
    ensures
        match res {
            Some(m) => lookup(index@, id) == Some(m@),
            None => lookup(index@, id) is None,
        },
{
    match find_id(&index.entries, id) {
        Some(i) => Some(index.entries[i].copy()),
        None => None,
    }
}

/// Compression is described by the files themselves; the index keeps no
/// record of it, so this changes nothing.
pub fn set_compressed(index: &SessionIndex, id: u128, compressed: bool) {
}

/// Archiving a thread removes it from the index; returns whether anything
/// was removed.
pub fn set_archived(index: &mut SessionIndex, id: u128, archived: bool) -> (res: bool)
    ensures
        archived ==> final(index)@ == without_id(old(index)@, id) && res == (position_of(old(index)@, id) != -1),
        !archived ==> final(index)@ == old(index)@ && !res,
{
    if archived {
        delete_thread(index, id)
    } else {
        false
    }
}

/// Number of entries in the index.
pub fn count(index: &SessionIndex) -> (res: usize)
    ensures
        res == index@.len(),
{
    index.entries.len()
}

// ───────────────────────── listing ─────────────────────────

/// `x` inserted into `s` after every entry updated at the same time or later.
pub open spec fn insert_newest_first(s: Seq<SessionMetaView>, x: SessionMetaView) -> Seq<SessionMetaView>
    decreases s.len(),
{
    if s.len() == 0 {
        seq![x]
    } else if s.last().updated_at >= x.updated_at {
        s.push(x)
    } else {
        insert_newest_first(s.drop_last(), x).push(s.last())
    }
}

/// `s` sorted by last update, newest first; entries updated at the same time
/// keep their order (a stable sort).
pub open spec fn newest_first(s: Seq<SessionMetaView>) -> Seq<SessionMetaView>
    decreases s.len(),
{
    if s.len() == 0 {
        s
    } else {
        insert_newest_first(newest_first(s.drop_last()), s.last())
    }
}

/// The first `n` entries of `s` (all of them when there are fewer).
pub open spec fn truncated(s: Seq<SessionMetaView>, n: int) -> Seq<SessionMetaView> {
    if n < s.len() {
        s.take(n)
    } else {
        s
    }
}

/// Inserts `x` after every entry of `out` updated at the same time or later.
fn insert_sorted(out: &mut Vec<SessionMeta>, x: SessionMeta)
    ensures
        metas_view(final(out)@) == insert_newest_first(metas_view(old(out)@), x@),
{
    let ghost s = metas_view(out@);
    let mut p: usize = out.len();
    proof {
        assert(s.take(p as int) =~= s);
        assert(s.skip(p as int) =~= Seq::<SessionMetaView>::empty());
        assert(insert_newest_first(s, x@) =~= insert_newest_first(s.take(p as int), x@) + s.skip(p as int));
    }
    while p > 0 && out[p - 1].updated_at < x.updated_at
        invariant
            s == metas_view(out@),
            p <= out.len(),
            insert_newest_first(s, x@) == insert_newest_first(s.take(p as int), x@) + s.skip(p as int),
        decreases p,
    {
        proof {
            let t = s.take(p as int);
            assert(t.last() == s[p - 1]);
            assert(t.drop_last() =~= s.take(p - 1));
            assert(s.skip(p - 1) =~= seq![s[p - 1]] + s.skip(p as int));
            assert(insert_newest_first(t, x@) == insert_newest_first(s.take(p - 1), x@).push(s[p - 1]));
            assert(insert_newest_first(s.take(p - 1), x@).push(s[p - 1]) + s.skip(p as int)
                =~= insert_newest_first(s.take(p - 1), x@) + s.skip(p - 1));
        }
        p = p - 1;
    }
    let ghost xv = x@;
    out.insert(p, x);
    proof {
        let t = s.take(p as int);
        if p > 0 {
            assert(t.last() == s[p - 1]);
            assert(insert_newest_first(t, xv) == t.push(xv));
        }
        assert(metas_view(out@) =~= t.push(xv) + s.skip(p as int));
    }
}

/// Copies of `v`, sorted by last update, newest first (stable).
fn sorted_newest_first(v: &Vec<SessionMeta>) -> (res: Vec<SessionMeta>)
    ensures
        metas_view(res@) == newest_first(metas_view(v@)),
{
    let ghost s = metas_view(v@);
    let mut out: Vec<SessionMeta> = Vec::new();
    let mut i: usize = 0;
    proof {
        assert(s.take(0) =~= Seq::<SessionMetaView>::empty());
        assert(metas_view(out@) =~= Seq::<SessionMetaView>::empty());
    }
    while i < v.len()
        invariant
            s == metas_view(v@),
            i <= v.len(),
            metas_view(out@) == newest_first(s.take(i as int)),
        decreases v.len() - i,
    {
        insert_sorted(&mut out, v[i].copy());
        proof {
            assert(s.take(i + 1).drop_last() =~= s.take(i as int));
            assert(s.take(i + 1).last() == s[i as int]);
        }
        i = i + 1;
    }
    proof {
        assert(s.take(s.len() as int) =~= s);
    }
    out
}

/// The listing of at most `limit` threads, newest first.
pub open spec fn listing(s: Seq<SessionMetaView>, limit: i64) -> Seq<SessionMetaView> {
    truncated(newest_first(s), (limit as usize) as int)
}

/// The newest `limit` threads, newest first (`limit` is taken as a `usize`,
/// so a negative limit wraps around as in a cast).
pub fn list_threads(index: &SessionIndex, limit: i64) -> (res: Vec<SessionMeta>)
    ensures
        metas_view(res@) == listing(index@, limit),
{
    let mut sorted = sorted_newest_first(&index.entries);
    let ghost before = sorted@;
    sorted.truncate(limit as usize);
    proof {
        if (limit as usize) < before.len() {
            assert(metas_view(sorted@) =~= metas_view(before).take((limit as usize) as int));
        }
    }
    sorted
}

// ───────────────────────── search ─────────────────────────

/// `s` in lower case, as `str::to_lowercase` computes it (Unicode case
/// mapping, independent of locale).
pub uninterp spec fn lowercase(s: Seq<char>) -> Seq<char>;

/// `str::to_lowercase`.  Each character maps to one or more characters, so
/// the result is empty exactly when `s` is.
#[verifier::external_body]
pub(crate) fn to_lowercase(s: &str) -> (res: String)
    ensures
        res@ == lowercase(s@),
        (res@.len() == 0) == (s@.len() == 0),
{
    s.to_lowercase()
}

/// The thread's title, in lower case, contains `lower`.
pub open spec fn title_matches(m: SessionMetaView, lower: Seq<char>) -> bool {
    m.title is Some && contains_seq(lowercase(m.title->Some_0), lower)
}

/// The entries whose title matches `lower`, in order.
pub open spec fn matching(s: Seq<SessionMetaView>, lower: Seq<char>) -> Seq<SessionMetaView>
    decreases s.len(),
{
    if s.len() == 0 {
        s
    } else if title_matches(s.last(), lower) {
        matching(s.drop_last(), lower).push(s.last())
    } else {
        matching(s.drop_last(), lower)
    }
}

/// The entries that have a title, in order.
pub open spec fn titled(s: Seq<SessionMetaView>) -> Seq<SessionMetaView>
    decreases s.len(),
{
    if s.len() == 0 {
        s
    } else if s.last().title is Some {
        titled(s.drop_last()).push(s.last())
    } else {
        titled(s.drop_last())
    }
}

/// Every title contains the empty text, so an empty query matches every
/// titled entry.
pub proof fn lemma_empty_query_matches_titled(s: Seq<SessionMetaView>)
    ensures
        matching(s, Seq::empty()) == titled(s),
    decreases s.len(),
{
    if s.len() > 0 {
        lemma_empty_query_matches_titled(s.drop_last());
        if s.last().title is Some {
            let t = lowercase(s.last().title->Some_0);
            assert(t.subrange(0, 0) =~= Seq::<char>::empty());
            assert(occurs_at(t, 0, Seq::empty()));
        }
    }
}

/// Most results a search returns.
pub const SEARCH_LIMIT: usize = 100;

/// The search result for `query`: threads whose title contains the query,
/// compared in lower case, newest first, at most [`SEARCH_LIMIT`] of them.
pub open spec fn search_result(s: Seq<SessionMetaView>, query: Seq<char>) -> Seq<SessionMetaView> {
    truncated(newest_first(matching(s, lowercase(query))), SEARCH_LIMIT as int)
}

/// Threads whose title contains `query` (case-insensitively), newest first,
/// at most [`SEARCH_LIMIT`].
pub fn search_threads(index: &SessionIndex, query: &str) -> (res: Vec<SessionMeta>)
    ensures
        metas_view(res@) == search_result(index@, query@),
        query@.len() == 0 ==> metas_view(res@) == truncated(newest_first(titled(index@)), SEARCH_LIMIT as int),
{
    let lq = to_lowercase(query);
    proof {
        if query@.len() == 0 {
            assert(lowercase(query@) =~= Seq::<char>::empty());
            lemma_empty_query_matches_titled(index@);
        }
    }
    let lower = to_chars(lq.as_str());
    let ghost s = index@;
    let mut matched: Vec<SessionMeta> = Vec::new();
    let mut i: usize = 0;
    proof {
        assert(s.take(0) =~= Seq::<SessionMetaView>::empty());
        assert(metas_view(matched@) =~= Seq::<SessionMetaView>::empty());
    }
    while i < index.entries.len()
        invariant
            s == metas_view(index.entries@),
            lower@ == lowercase(query@),
            i <= index.entries.len(),
            metas_view(matched@) == matching(s.take(i as int), lower@),
        decreases index.entries.len() - i,
    {
        let e = &index.entries[i];
        let hit = match &e.title {
            Some(t) => contains_chars(&to_chars(to_lowercase(t.as_str()).as_str()), &lower),
            None => false,
        };
        let ghost before = matched@;
        if hit {
            matched.push(e.copy());
            proof {
                assert(metas_view(matched@) =~= metas_view(before).push(s[i as int]));
            }
        }
        proof {
            assert(s.take(i + 1).drop_last() =~= s.take(i as int));
            assert(s.take(i + 1).last() == s[i as int]);
            assert(hit == title_matches(s[i as int], lower@));
        }
        i = i + 1;
    }
    proof {
        assert(s.take(s.len() as int) =~= s);
    }
    let mut sorted = sorted_newest_first(&matched);
    let ghost before = sorted@;
    sorted.truncate(SEARCH_LIMIT);
    proof {
        if SEARCH_LIMIT < before.len() {
            assert(metas_view(sorted@) =~= metas_view(before).take(SEARCH_LIMIT as int));
        }
    }
    sorted
}

// ───────────────────────── laws ─────────────────────────

/// After a thread is stored, looking up its id gives back what was stored.
pub proof fn law_lookup_after_upsert(s: Seq<SessionMetaView>, m: SessionMetaView)
    ensures
        lookup(upserted(s, m), m.id) == Some(m),
{
    lemma_position_of(s, m.id);
    let p = position_of(s, m.id);
    let u = upserted(s, m);
    if p >= 0 {
        assert forall|j: int| 0 <= j < p implies #[trigger] u[j].id != m.id by {
            assert(u[j] == s[j]);
        }
        lemma_position_is(u, m.id, p);
    } else {
        assert forall|j: int| 0 <= j < s.len() implies #[trigger] u[j].id != m.id by {
            assert(u[j] == s[j]);
        }
        lemma_position_is(u, m.id, s.len() as int);
    }
}

/// Storing a thread leaves the lookup of every other id unchanged.
pub proof fn law_upsert_keeps_other_threads(s: Seq<SessionMetaView>, m: SessionMetaView, other: u128)
    requires
        other != m.id,
    ensures
        lookup(upserted(s, m), other) == lookup(s, other),
{
    lemma_position_of(s, m.id);
    lemma_position_of(s, other);
    let u = upserted(s, m);
    let q = position_of(s, other);
    assert forall|j: int| 0 <= j < s.len() implies (#[trigger] u[j]).id == other <==> s[j].id == other by {
        assert(u[j] == s[j] || u[j] == m);
    }
    if q >= 0 {
        lemma_position_is(u, other, q);
        assert(u[q] == s[q]);
    } else {
        if position_of(s, m.id) >= 0 {
            lemma_position_is(u, other, u.len() as int);
        } else {
            assert(u[s.len() as int] == m);
            lemma_position_is(u, other, u.len() as int);
        }
    }
}

/// Storing a thread adds an entry exactly when its id was not yet present.
pub proof fn law_upsert_count(s: Seq<SessionMetaView>, m: SessionMetaView)
    ensures
        upserted(s, m).len() == if lookup(s, m.id) is Some { s.len() } else { s.len() + 1 },
{
    lemma_position_of(s, m.id);
}

proof fn lemma_without_id_has_none(s: Seq<SessionMetaView>, id: u128)
    ensures
        forall|j: int| 0 <= j < without_id(s, id).len() ==> #[trigger] without_id(s, id)[j].id != id,
    decreases s.len(),
{
    if s.len() > 0 {
        lemma_without_id_has_none(s.drop_last(), id);
    }
}

/// After a thread is deleted, looking up its id finds nothing.
pub proof fn law_lookup_after_delete(s: Seq<SessionMetaView>, id: u128)
    ensures
        lookup(without_id(s, id), id) is None,
{
    lemma_without_id_has_none(s, id);
    lemma_position_is(without_id(s, id), id, without_id(s, id).len() as int);
}

/// How many entries have `id`.
pub open spec fn count_id(s: Seq<SessionMetaView>, id: u128) -> nat
    decreases s.len(),
{
    if s.len() == 0 {
        0
    } else {
        count_id(s.drop_last(), id) + if s.last().id == id {
            1nat
        } else {
            0nat
        }
    }
}

/// Deleting a thread lowers the number of entries by the number of entries
/// with its id.
pub proof fn law_delete_count(s: Seq<SessionMetaView>, id: u128)
    ensures
        without_id(s, id).len() + count_id(s, id) == s.len(),
    decreases s.len(),
{
    if s.len() > 0 {
        law_delete_count(s.drop_last(), id);
    }
}

/// Entries are ordered newest first.
pub open spec fn is_newest_first(s: Seq<SessionMetaView>) -> bool {
    forall|i: int, j: int| 0 <= i < j < s.len() ==> #[trigger] s[i].updated_at >= #[trigger] s[j].updated_at
}

proof fn lemma_insert_newest_first(s: Seq<SessionMetaView>, x: SessionMetaView)
    requires
        is_newest_first(s),
    ensures
        is_newest_first(insert_newest_first(s, x)),
        insert_newest_first(s, x).to_multiset() == s.to_multiset().insert(x),
        insert_newest_first(s, x).len() == s.len() + 1,
        forall|k: int| 0 <= k < insert_newest_first(s, x).len() ==>
            (#[trigger] insert_newest_first(s, x)[k] == x || s.contains(insert_newest_first(s, x)[k])),
    decreases s.len(),
{
    broadcast use vstd::seq_lib::group_seq_properties;
    broadcast use vstd::multiset::group_multiset_axioms;
    if s.len() == 0 {
        assert(seq![x] =~= Seq::<SessionMetaView>::empty().push(x));
    } else if s.last().updated_at >= x.updated_at {
    } else {
        let d = s.drop_last();
        assert(is_newest_first(d));
        lemma_insert_newest_first(d, x);
        let r = insert_newest_first(d, x);
        let l = s.last();
        assert forall|i: int, j: int| 0 <= i < j < r.push(l).len() implies #[trigger] r.push(l)[i].updated_at
            >= #[trigger] r.push(l)[j].updated_at by {
            if j == r.len() {
                let e = r[i];
                if e != x {
                    assert(d.contains(e));
                    let k = choose|k: int| 0 <= k < d.len() && d[k] == e;
                    assert(s[k] == e);
                    assert(s[s.len() - 1] == l);
                }
            }
        }
        assert(s =~= d.push(l));
        assert forall|k: int| 0 <= k < r.push(l).len() implies (#[trigger] r.push(l)[k] == x || s.contains(r.push(l)[k])) by {
            if k < r.len() {
                if r[k] != x {
                    let e = r[k];
                    let m = choose|m: int| 0 <= m < d.len() && d[m] == e;
                    assert(s[m] == e);
                }
            } else {
                assert(s[s.len() - 1] == l);
            }
        }
    }
}

/// Sorting newest first gives an ordering of the same entries in which no
/// entry is older than one after it.
pub proof fn law_newest_first_sorts(s: Seq<SessionMetaView>)
    ensures
        is_newest_first(newest_first(s)),
        newest_first(s).to_multiset() == s.to_multiset(),
        newest_first(s).len() == s.len(),
    decreases s.len(),
{
    broadcast use vstd::seq_lib::group_seq_properties;
    broadcast use vstd::multiset::group_multiset_axioms;
    if s.len() > 0 {
        law_newest_first_sorts(s.drop_last());
        lemma_insert_newest_first(newest_first(s.drop_last()), s.last());
        assert(s =~= s.drop_last().push(s.last()));
    }
}

/// A listing holds `limit` threads, or all of them when there are fewer.
pub proof fn law_listing_length(s: Seq<SessionMetaView>, limit: i64)
    ensures
        listing(s, limit).len() == if ((limit as usize) as int) < s.len() { (limit as usize) as int } else { s.len() as int },
        is_newest_first(listing(s, limit)),
{
    law_newest_first_sorts(s);
}

} // verus!
