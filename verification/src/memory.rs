//! TTL-indexed keyword memory store.
//!
//! A bounded, keyword-searchable map of categorized entries.  Keys are
//! unique (insertion is an upsert); an entry whose expiry has passed is
//! logically absent from every read operation even before it is swept.
//! The store itself is independent of any clock: every operation that
//! depends on the current time takes it as an explicit `now` argument,
//! and a thin front method supplies the wall clock.

use vstd::prelude::*;

use crate::strutil::{contains_chars, to_chars};
use crate::types::MemoryCategory;

verus! {

/// The value carried by a memory entry: either a bare text payload or any
/// other structured document carried in its serialized form.
#[derive(Debug, Clone)]
pub enum MemoryValue {
    Text(String),
    Json(String),
}

/// Mathematical image of a [`MemoryValue`].
pub enum ValueView {
    Text(Seq<char>),
    Json(Seq<char>),
}

impl View for MemoryValue {
    type V = ValueView;

    open spec fn view(&self) -> ValueView {
        match self {
            MemoryValue::Text(s) => ValueView::Text(s@),
            MemoryValue::Json(s) => ValueView::Json(s@),
        }
    }
}

/// The text of a value, as used for substring matching and for display.
pub open spec fn value_text(v: ValueView) -> Seq<char> {
    match v {
        ValueView::Text(s) => s,
        ValueView::Json(s) => s,
    }
}

/// A categorized, optionally expiring key/value record.
#[derive(Debug, Clone)]
pub struct MemoryEntry {
    pub key: String,
    pub value: MemoryValue,
    /// Absolute expiry in epoch seconds; `None` never expires.
    pub expires_at: Option<i64>,
    pub category: MemoryCategory,
    pub task_id: Option<String>,
    /// Write time in epoch seconds.
    pub timestamp: i64,
}

/// Mathematical image of a [`MemoryEntry`].
pub struct EntryView {
    pub key: Seq<char>,
    pub value: ValueView,
    pub expires_at: Option<i64>,
    pub category: MemoryCategory,
    pub task_id: Option<Seq<char>>,
    pub timestamp: i64,
}

impl View for MemoryEntry {
    type V = EntryView;

    open spec fn view(&self) -> EntryView {
        EntryView {
            key: self.key@,
            value: self.value@,
            expires_at: self.expires_at,
            category: self.category,
            task_id: match self.task_id {
                Some(t) => Some(t@),
                None => None,
            },
            timestamp: self.timestamp,
        }
    }
}

/// An entry is expired at `now` when its expiry is set and has passed.
pub open spec fn spec_expired(e: EntryView, now: i64) -> bool {
    match e.expires_at {
        Some(t) => t <= now,
        None => false,
    }
}

/// Copy an entry field by field; the copy has the same view.
pub fn clone_entry(e: &MemoryEntry) -> (r: MemoryEntry)
    ensures
        r@ == e@,
{
    MemoryEntry {
        key: e.key.clone(),
        value: match &e.value {
            MemoryValue::Text(s) => MemoryValue::Text(s.clone()),
            MemoryValue::Json(s) => MemoryValue::Json(s.clone()),
        },
        expires_at: match e.expires_at {
            Some(t) => Some(t),
            None => None,
        },
        category: e.category,
        task_id: match &e.task_id {
            Some(t) => Some(t.clone()),
            None => None,
        },
        timestamp: e.timestamp,
    }
}

/// Keys are pairwise distinct.
pub open spec fn unique_keys(entries: Seq<EntryView>) -> bool {
    forall|i: int, j: int| 0 <= i < j < entries.len() ==> entries[i].key != entries[j].key
}

/// Some entry carries the key.
pub open spec fn contains_key(entries: Seq<EntryView>, key: Seq<char>) -> bool {
    exists|i: int| 0 <= i < entries.len() && entries[i].key == key
}

/// The entries that are alive at `now`, in order.
pub open spec fn spec_sweep(entries: Seq<EntryView>, now: i64) -> Seq<EntryView>
    decreases entries.len(),
{
    if entries.len() == 0 {
        entries
    } else {
        let rest = spec_sweep(entries.drop_last(), now);
        if spec_expired(entries.last(), now) {
            rest
        } else {
            rest.push(entries.last())
        }
    }
}

/// Upsert: replace the entry carrying the key, or append a fresh one.
pub open spec fn spec_upsert(entries: Seq<EntryView>, e: EntryView) -> Seq<EntryView> {
    if contains_key(entries, e.key) {
        let i = choose|i: int| 0 <= i < entries.len() && entries[i].key == e.key;
        entries.update(i, e)
    } else {
        entries.push(e)
    }
}

/// Sweeping keeps a subset of the entries, preserves key uniqueness, and
/// keeps exactly the entries alive at `now`.
pub proof fn lemma_sweep_properties(entries: Seq<EntryView>, now: i64)
    ensures
        spec_sweep(entries, now).len() <= entries.len(),
        unique_keys(entries) ==> unique_keys(spec_sweep(entries, now)),
        forall|m: int| 0 <= m < spec_sweep(entries, now).len() ==> entries.contains(
            #[trigger] spec_sweep(entries, now)[m],
        ) && !spec_expired(spec_sweep(entries, now)[m], now),
        forall|i: int| 0 <= i < entries.len() && !spec_expired(#[trigger] entries[i], now)
            ==> spec_sweep(entries, now).contains(entries[i]),
    decreases entries.len(),
{
    if entries.len() > 0 {
        let prefix = entries.drop_last();
        lemma_sweep_properties(prefix, now);
        let rest = spec_sweep(prefix, now);
        let out = spec_sweep(entries, now);
        assert forall|m: int| 0 <= m < out.len() implies entries.contains(#[trigger] out[m])
            && !spec_expired(out[m], now) by {
            if m < rest.len() {
                assert(rest[m] == out[m]);
                assert(prefix.contains(rest[m]));
                let q = choose|q: int| 0 <= q < prefix.len() && prefix[q] == rest[m];
                assert(entries[q] == rest[m]);
            } else {
                assert(out[m] == entries.last());
                assert(entries[entries.len() - 1] == entries.last());
            }
        }
        assert forall|i: int|
            0 <= i < entries.len() && !spec_expired(#[trigger] entries[i], now) implies out
            .contains(entries[i]) by {
            if i < entries.len() - 1 {
                assert(prefix[i] == entries[i]);
                assert(rest.contains(entries[i]));
                let q = choose|q: int| 0 <= q < rest.len() && rest[q] == entries[i];
                assert(out[q] == entries[i]);
            } else {
                assert(out[out.len() - 1] == entries.last());
            }
        }
        if unique_keys(entries) {
            assert(unique_keys(prefix));
            assert forall|i: int, j: int| 0 <= i < j < out.len() implies out[i].key
                != out[j].key by {
                if j < rest.len() {
                } else if !spec_expired(entries.last(), now) {
                    // out == rest.push(last); rest elements stand in the prefix
                    assert(rest[i] == out[i]);
                    assert(prefix.contains(rest[i]));
                    let q = choose|q: int| 0 <= q < prefix.len() && prefix[q] == rest[i];
                    assert(entries[q] == out[i]);
                    assert(entries[q].key != entries.last().key);
                }
            }
        }
    }
}

/// Upsert preserves key uniqueness, afterwards the key is present, and
/// the length grows only for a fresh key.
pub proof fn lemma_upsert_properties(entries: Seq<EntryView>, e: EntryView)
    requires
        unique_keys(entries),
    ensures
        unique_keys(spec_upsert(entries, e)),
        contains_key(spec_upsert(entries, e), e.key),
        spec_upsert(entries, e).len() == if contains_key(entries, e.key) {
            entries.len()
        } else {
            entries.len() + 1
        },
        forall|i: int| 0 <= i < spec_upsert(entries, e).len() && #[trigger] spec_upsert(
            entries,
            e,
        )[i].key == e.key ==> spec_upsert(entries, e)[i] == e,
{
    let out = spec_upsert(entries, e);
    if contains_key(entries, e.key) {
        let i = choose|i: int| 0 <= i < entries.len() && entries[i].key == e.key;
        assert(out == entries.update(i, e));
        assert(out[i] == e);
        assert forall|p: int, q: int| 0 <= p < q < out.len() implies out[p].key
            != out[q].key by {
            if p != i && q != i {
                assert(out[p] == entries[p]);
                assert(out[q] == entries[q]);
            } else if p == i {
                assert(out[q] == entries[q]);
                assert(entries[q].key != entries[i].key);
            } else {
                assert(out[p] == entries[p]);
                assert(entries[p].key != entries[i].key);
            }
        }
        assert forall|k: int| 0 <= k < out.len() && #[trigger] out[k].key == e.key implies out[k]
            == e by {
            if k != i {
                assert(out[k] == entries[k]);
                assert(entries[k].key != entries[i].key);
            }
        }
    } else {
        assert(out == entries.push(e));
        assert(out[out.len() - 1] == e);
        assert forall|p: int, q: int| 0 <= p < q < out.len() implies out[p].key
            != out[q].key by {
            if q < entries.len() {
            } else {
                assert(out[p] == entries[p]);
                assert(!(entries[p].key == e.key)) by {
                    if entries[p].key == e.key {
                        assert(contains_key(entries, e.key));
                    }
                }
            }
        }
        assert forall|k: int| 0 <= k < out.len() && #[trigger] out[k].key == e.key implies out[k]
            == e by {
            if k < entries.len() {
                assert(out[k] == entries[k]);
                if entries[k].key == e.key {
                    assert(contains_key(entries, e.key));
                }
            }
        }
    }
}

/// Counters over the store at one instant.
#[derive(Debug, Clone)]
pub struct MemoryStats {
    pub total: usize,
    pub active: usize,
    pub expired: usize,
    pub category_counts: Vec<(MemoryCategory, usize)>,
}

/// A point-in-time copy of the live entries, tagged with the producing
/// identity and the snapshot instant.
#[derive(Debug, Clone)]
pub struct MemorySnapshot {
    pub entries: Vec<MemoryEntry>,
    pub worker_id: String,
    pub snapshot_time: i64,
}

/// The in-memory TTL-indexed keyword store.
pub struct MemoryStore {
    /// The entries; keys are pairwise distinct.
    pub entries: Vec<MemoryEntry>,
    /// TTL in seconds applied when a write names none.
    pub default_ttl: i64,
    /// Soft bound on the entry count: a write that would pass it sweeps
    /// expired entries first, but is not refused.
    pub max_entries: usize,
}

impl MemoryStore {
    /// The entries as a sequence of views.
    pub open spec fn view_entries(self) -> Seq<EntryView> {
        self.entries@.map_values(|e: MemoryEntry| e@)
    }

    /// Key uniqueness, the store's invariant.
    pub open spec fn wf(self) -> bool {
        unique_keys(self.view_entries())
    }

    /// A fresh, empty store.
    pub fn new(default_ttl: i64, max_entries: usize) -> (s: Self)
        ensures
            s.wf(),
            s.view_entries().len() == 0,
            s.default_ttl == default_ttl,
            s.max_entries == max_entries,
    {
        let s = MemoryStore { entries: Vec::new(), default_ttl, max_entries };
        proof {
            assert(s.view_entries() =~= Seq::<EntryView>::empty());
        }
        s
    }

    /// Index of the entry carrying `key`, if any.
    fn find_index(&self, key: &str) -> (r: Option<usize>)
        ensures
            match r {
                Some(i) => 0 <= i < self.view_entries().len() && self.view_entries()[i as int].key
                    == key@,
                None => !contains_key(self.view_entries(), key@),
            },
    {
        let mut i: usize = 0;
        while i < self.entries.len()
            invariant
                0 <= i <= self.view_entries().len(),
                forall|j: int| 0 <= j < i ==> self.view_entries()[j].key != key@,
            decreases self.view_entries().len() - i,
        {
            if crate::strutil::str_eq(self.entries[i].key.as_str(), key) {
                return Some(i);
            }
            i += 1;
        }
        proof {
            assert(!contains_key(self.view_entries(), key@)) by {
                if contains_key(self.view_entries(), key@) {
                    let j = choose|j: int| 0 <= j < self.view_entries().len()
                        && self.view_entries()[j].key == key@;
                    assert(self.view_entries()[j].key != key@);
                }
            }
        }
        None
    }

    /// Remove every expired entry; the count removed is returned.
    pub fn cleanup_expired_at(&mut self, now: i64) -> (removed: usize)
        requires
            old(self).wf(),
        ensures
            final(self).wf(),
            final(self).view_entries() == spec_sweep(old(self).view_entries(), now),
            removed == old(self).view_entries().len() - final(self).view_entries().len(),
            final(self).default_ttl == old(self).default_ttl,
            final(self).max_entries == old(self).max_entries,
    {
        let ghost all = self.view_entries();
        let mut kept: Vec<MemoryEntry> = Vec::new();
        let mut i: usize = 0;
        while i < self.entries.len()
            invariant
                0 <= i <= self.entries@.len(),
                all == self.entries@.map_values(|e: MemoryEntry| e@),
                kept@.map_values(|e: MemoryEntry| e@) == spec_sweep(all.take(i as int), now),
                kept@.len() <= i,
            decreases self.entries@.len() - i,
        {
            proof {
                assert(all.take(i + 1).drop_last() =~= all.take(i as int));
                assert(all.take(i + 1).last() == all[i as int]);
            }
            let alive = match self.entries[i].expires_at {
                Some(t) => t > now,
                None => true,
            };
            if alive {
                let e = clone_entry(&self.entries[i]);
                kept.push(e);
                proof {
                    assert(kept@.map_values(|e: MemoryEntry| e@) =~= spec_sweep(
                        all.take(i as int),
                        now,
                    ).push(all[i as int]));
                }
            }
            i += 1;
        }
        proof {
            assert(all.take(all.len() as int) =~= all);
            lemma_sweep_properties(all, now);
        }
        let removed = self.entries.len() - kept.len();
        self.entries = kept;
        removed
    }

    /// Upsert an entry under its own key, exactly as given.
    ///
    /// When the store is at capacity and the key is fresh, expired
    /// entries are swept first; the insertion itself is never refused.
    pub fn index_at(&mut self, entry: &MemoryEntry, now: i64)
        requires
            old(self).wf(),
        ensures
            final(self).wf(),
            final(self).view_entries() == spec_upsert(
                if old(self).view_entries().len() >= old(self).max_entries && !contains_key(
                    old(self).view_entries(),
                    entry@.key,
                ) {
                    spec_sweep(old(self).view_entries(), now)
                } else {
                    old(self).view_entries()
                },
                entry@,
            ),
            final(self).default_ttl == old(self).default_ttl,
            final(self).max_entries == old(self).max_entries,
    {
        let has_key = match self.find_index(entry.key.as_str()) {
            Some(_) => true,
            None => false,
        };
        if self.entries.len() >= self.max_entries && !has_key {
            self.cleanup_expired_at(now);
        }
        let ghost base = self.view_entries();
        proof {
            if old(self).view_entries().len() >= old(self).max_entries && !contains_key(
                old(self).view_entries(),
                entry@.key,
            ) {
                lemma_sweep_properties(old(self).view_entries(), now);
            }
        }
        match self.find_index(entry.key.as_str()) {
            Some(i) => {
                let e = clone_entry(entry);
                self.entries.set(i, e);
                proof {
                    let j = choose|j: int| 0 <= j < base.len() && base[j].key == entry@.key;
                    assert(base[i as int].key == entry@.key);
                    assert(i as int == j) by {
                        if i as int != j {
                            assert(unique_keys(base));
                        }
                    }
                    assert(final(self).view_entries() =~= base.update(i as int, entry@));
                    lemma_upsert_properties(base, entry@);
                }
            },
            None => {
                let e = clone_entry(entry);
                self.entries.push(e);
                proof {
                    assert(final(self).view_entries() =~= base.push(entry@));
                    lemma_upsert_properties(base, entry@);
                }
            },
        }
    }

    /// The entry under `key`, unless it is absent or expired at `now`.
    pub fn get_at(&self, key: &str, now: i64) -> (r: Option<MemoryEntry>)
        requires
            self.wf(),
        ensures
            match r {
                Some(e) => exists|i: int| 0 <= i < self.view_entries().len()
                    && #[trigger] self.view_entries()[i] == e@ && self.view_entries()[i].key
                    == key@ && !spec_expired(e@, now),
                None => forall|i: int| 0 <= i < self.view_entries().len()
                    && #[trigger] self.view_entries()[i].key == key@ ==> spec_expired(
                    self.view_entries()[i],
                    now,
                ),
            },
    {
        match self.find_index(key) {
            Some(i) => {
                let expired = match self.entries[i].expires_at {
                    Some(t) => t <= now,
                    None => false,
                };
                if expired {
                    proof {
                        assert forall|j: int|
                            0 <= j < self.view_entries().len()
                                && #[trigger] self.view_entries()[j].key == key@ implies
                            spec_expired(self.view_entries()[j], now) by {
                            if j != i as int {
                                assert(self.view_entries()[j].key
                                    != self.view_entries()[i as int].key);
                            }
                        }
                    }
                    None
                } else {
                    Some(clone_entry(&self.entries[i]))
                }
            },
            None => None,
        }
    }

    /// Remove the entry under `key` unconditionally; whether one was
    /// there is returned.
    pub fn delete(&mut self, key: &str) -> (r: bool)
        requires
            old(self).wf(),
        ensures
            final(self).wf(),
            r == contains_key(old(self).view_entries(), key@),
            !contains_key(final(self).view_entries(), key@),
            final(self).view_entries() == old(self).view_entries().filter(
                |e: EntryView| e.key != key@,
            ),
            final(self).default_ttl == old(self).default_ttl,
            final(self).max_entries == old(self).max_entries,
    {
        let ghost all = self.view_entries();
        let found = match self.find_index(key) {
            Some(i) => {
                self.entries.remove(i);
                proof {
                    // removing the unique carrier of the key leaves the
                    // filtered sequence
                    assert(final(self).view_entries() =~= all.remove(i as int));
                    lemma_remove_key_is_filter(all, key@, i as int);
                }
                true
            },
            None => {
                proof {
                    lemma_filter_no_match(all, key@);
                }
                false
            },
        };
        proof {
            lemma_filter_key_gone(old(self).view_entries(), key@);
            lemma_filter_unique_keys(old(self).view_entries(), key@);
        }
        found
    }
}

/// Removing the unique position carrying `key` from a unique-keyed
/// sequence equals filtering the key out.
proof fn lemma_remove_key_is_filter(entries: Seq<EntryView>, key: Seq<char>, i: int)
    requires
        unique_keys(entries),
        0 <= i < entries.len(),
        entries[i].key == key,
    ensures
        entries.remove(i) =~= entries.filter(|e: EntryView| e.key != key),
    decreases entries.len(),
{
    reveal(Seq::filter);
    if entries.len() > 0 {
        let prefix = entries.drop_last();
        let last = entries.last();
        if i == entries.len() - 1 {
            assert(entries.remove(i) =~= prefix);
            lemma_filter_no_match_prefix(prefix, key);
            assert(prefix.filter(|e: EntryView| e.key != key) =~= prefix) by {
                lemma_filter_all_match(prefix, key);
            }
        } else {
            assert(unique_keys(prefix));
            assert(prefix[i].key == key);
            lemma_remove_key_is_filter(prefix, key, i);
            assert(last.key != key);
            assert(entries.filter(|e: EntryView| e.key != key) =~= prefix.filter(
                |e: EntryView| e.key != key,
            ).push(last));
            assert(entries.remove(i) =~= prefix.remove(i).push(last));
        }
    }
}

/// In a unique-keyed sequence, every position but the carrier of `key`
/// keeps its entry under filtering; helper stating that a sequence
/// without the key filters to itself.
proof fn lemma_filter_all_match(entries: Seq<EntryView>, key: Seq<char>)
    requires
        forall|j: int| 0 <= j < entries.len() ==> (#[trigger] entries[j]).key != key,
    ensures
        entries.filter(|e: EntryView| e.key != key) =~= entries,
    decreases entries.len(),
{
    reveal(Seq::filter);
    if entries.len() > 0 {
        let prefix = entries.drop_last();
        assert(forall|j: int| 0 <= j < prefix.len() ==> (#[trigger] prefix[j]).key != key);
        lemma_filter_all_match(prefix, key);
        assert(entries.filter(|e: EntryView| e.key != key) =~= prefix.push(entries.last()));
        assert(prefix.push(entries.last()) =~= entries);
    }
}

/// With no carrier of `key` before the last position, the prefix filters
/// to itself.
proof fn lemma_filter_no_match_prefix(prefix: Seq<EntryView>, key: Seq<char>)
    ensures
        (forall|j: int| 0 <= j < prefix.len() ==> (#[trigger] prefix[j]).key != key)
            ==> prefix.filter(|e: EntryView| e.key != key) =~= prefix,
{
    if forall|j: int| 0 <= j < prefix.len() ==> (#[trigger] prefix[j]).key != key {
        lemma_filter_all_match(prefix, key);
    }
}

/// A sequence without the key filters to itself.
proof fn lemma_filter_no_match(entries: Seq<EntryView>, key: Seq<char>)
    requires
        !contains_key(entries, key),
    ensures
        entries.filter(|e: EntryView| e.key != key) =~= entries,
{
    assert forall|j: int| 0 <= j < entries.len() implies (#[trigger] entries[j]).key != key by {
        if entries[j].key == key {
            assert(contains_key(entries, key));
        }
    }
    lemma_filter_all_match(entries, key);
}

/// After filtering the key out, no entry carries it.
proof fn lemma_filter_key_gone(entries: Seq<EntryView>, key: Seq<char>)
    ensures
        !contains_key(entries.filter(|e: EntryView| e.key != key), key),
{
    let out = entries.filter(|e: EntryView| e.key != key);
    broadcast use vstd::seq_lib::group_seq_properties;

    assert forall|j: int| 0 <= j < out.len() implies (#[trigger] out[j]).key != key by {
        entries.lemma_filter_pred(|e: EntryView| e.key != key, j);
    }
    if contains_key(out, key) {
        let j = choose|j: int| 0 <= j < out.len() && out[j].key == key;
    }
}

/// Filtering keeps key uniqueness.
proof fn lemma_filter_unique_keys(entries: Seq<EntryView>, key: Seq<char>)
    requires
        unique_keys(entries),
    ensures
        unique_keys(entries.filter(|e: EntryView| e.key != key)),
    decreases entries.len(),
{
    reveal(Seq::filter);
    if entries.len() > 0 {
        let prefix = entries.drop_last();
        assert(unique_keys(prefix));
        lemma_filter_unique_keys(prefix, key);
        let sub = prefix.filter(|e: EntryView| e.key != key);
        let out = entries.filter(|e: EntryView| e.key != key);
        if (entries.last().key != key) {
            assert(out =~= sub.push(entries.last()));
            assert forall|p: int, q: int| 0 <= p < q < out.len() implies out[p].key
                != out[q].key by {
                if q == out.len() - 1 {
                    assert(out[p] == sub[p]);
                    lemma_filter_elem_origin(prefix, key, p);
                    let r = choose|r: int| 0 <= r < prefix.len() && prefix[r] == sub[p];
                    assert(entries[r] == sub[p]);
                    assert(entries[r].key != entries.last().key);
                }
            }
        }
    }
}

/// The views of a sequence of entries.
pub open spec fn views_of(s: Seq<MemoryEntry>) -> Seq<EntryView> {
    s.map_values(|e: MemoryEntry| e@)
}

/// An entry satisfies a search: it is alive at `now`, matches the
/// optional category and task filters, and — for a non-empty query — the
/// query occurs in its key or in its value text.
pub open spec fn entry_matches(
    e: EntryView,
    now: i64,
    query: Seq<char>,
    category: Option<MemoryCategory>,
    task_id: Option<Seq<char>>,
) -> bool {
    &&& !spec_expired(e, now)
    &&& match category {
        Some(c) => e.category == c,
        None => true,
    }
    &&& match task_id {
        Some(t) => e.task_id == Some(t),
        None => true,
    }
    &&& (query.len() == 0 || crate::strutil::spec_contains(e.key, query)
        || crate::strutil::spec_contains(value_text(e.value), query))
}

/// The entries satisfying a search, in store order.
pub open spec fn spec_select(
    entries: Seq<EntryView>,
    now: i64,
    query: Seq<char>,
    category: Option<MemoryCategory>,
    task_id: Option<Seq<char>>,
) -> Seq<EntryView>
    decreases entries.len(),
{
    if entries.len() == 0 {
        entries
    } else {
        let rest = spec_select(entries.drop_last(), now, query, category, task_id);
        if entry_matches(entries.last(), now, query, category, task_id) {
            rest.push(entries.last())
        } else {
            rest
        }
    }
}

/// Newest first: timestamps never increase along the sequence.
pub open spec fn sorted_desc(s: Seq<EntryView>) -> bool {
    forall|i: int, j: int| 0 <= i < j < s.len() ==> s[i].timestamp >= s[j].timestamp
}

/// Whether an entry's task tag matches a requested task id.
fn opt_task_matches(ot: &Option<String>, t: &str) -> (r: bool)
    ensures
        r == (ot matches Some(et) && et@ == t@),
{
    match ot {
        Some(et) => crate::strutil::str_eq(et.as_str(), t),
        None => false,
    }
}

/// Everything selected satisfies the search.
proof fn lemma_select_matches(
    entries: Seq<EntryView>,
    now: i64,
    query: Seq<char>,
    category: Option<MemoryCategory>,
    task_id: Option<Seq<char>>,
)
    ensures
        forall|m: int| 0 <= m < spec_select(entries, now, query, category, task_id).len()
            ==> entry_matches(
            #[trigger] spec_select(entries, now, query, category, task_id)[m],
            now,
            query,
            category,
            task_id,
        ),
    decreases entries.len(),
{
    if entries.len() > 0 {
        let prefix = entries.drop_last();
        lemma_select_matches(prefix, now, query, category, task_id);
        let sub = spec_select(prefix, now, query, category, task_id);
        let out = spec_select(entries, now, query, category, task_id);
        assert forall|m: int| 0 <= m < out.len() implies entry_matches(
            #[trigger] out[m],
            now,
            query,
            category,
            task_id,
        ) by {
            if m < sub.len() {
                assert(out[m] == sub[m]);
            } else {
                assert(out[m] == entries.last());
            }
        }
    }
}

impl MemoryStore {
    /// The expiry that a write at `now` with the given TTL receives; the
    /// sum saturates at the representation bounds.
    pub open spec fn spec_expiry(self, ttl: Option<i64>, now: i64) -> i64 {
        let eff: int = match ttl {
            Some(t) => t as int,
            None => self.default_ttl as int,
        };
        if now + eff > i64::MAX {
            i64::MAX
        } else if now + eff < i64::MIN {
            i64::MIN
        } else {
            (now + eff) as i64
        }
    }

    /// The store contents after a write, as stated by [`Self::index_at`]:
    /// a sweep when a fresh key meets the capacity bound, then the upsert.
    pub open spec fn spec_index_result(self, e: EntryView, now: i64) -> Seq<EntryView> {
        spec_upsert(
            if self.view_entries().len() >= self.max_entries && !contains_key(
                self.view_entries(),
                e.key,
            ) {
                spec_sweep(self.view_entries(), now)
            } else {
                self.view_entries()
            },
            e,
        )
    }

    /// Store a value under a key: the entry is stamped with `now`, its
    /// expiry is `now` plus the given or the default TTL, and it upserts
    /// its key.
    pub fn set_at(
        &mut self,
        key: String,
        value: MemoryValue,
        category: MemoryCategory,
        task_id: Option<String>,
        ttl: Option<i64>,
        now: i64,
    )
        requires
            old(self).wf(),
        ensures
            final(self).wf(),
            final(self).view_entries() == old(self).spec_index_result(
                EntryView {
                    key: key@,
                    value: value@,
                    expires_at: Some(old(self).spec_expiry(ttl, now)),
                    category,
                    task_id: match task_id {
                        Some(t) => Some(t@),
                        None => None,
                    },
                    timestamp: now,
                },
                now,
            ),
            final(self).default_ttl == old(self).default_ttl,
            final(self).max_entries == old(self).max_entries,
    {
        let eff = match ttl {
            Some(t) => t,
            None => self.default_ttl,
        };
        let expires_at = match now.checked_add(eff) {
            Some(v) => v,
            None => if eff > 0 {
                i64::MAX
            } else {
                i64::MIN
            },
        };
        let entry = MemoryEntry {
            key,
            value,
            expires_at: Some(expires_at),
            category,
            task_id,
            timestamp: now,
        };
        self.index_at(&entry, now);
    }

    /// The post-state relation of [`Self::get_at`].
    pub open spec fn get_post(self, key: Seq<char>, now: i64, r: Option<MemoryEntry>) -> bool {
        match r {
            Some(e) => exists|i: int| 0 <= i < self.view_entries().len()
                && #[trigger] self.view_entries()[i] == e@ && self.view_entries()[i].key == key
                && !spec_expired(e@, now),
            None => forall|i: int| 0 <= i < self.view_entries().len()
                && #[trigger] self.view_entries()[i].key == key ==> spec_expired(
                self.view_entries()[i],
                now,
            ),
        }
    }

    /// The post-state relation of [`Self::search_at`]: every result is a
    /// live stored entry that satisfies the search; results come newest
    /// first; the count is capped at the limit; and the results are a
    /// longest sorted prefix of some ordering of everything selected.
    pub open spec fn search_post(
        self,
        query: Seq<char>,
        category: Option<MemoryCategory>,
        task_id: Option<Seq<char>>,
        limit: int,
        now: i64,
        out: Seq<EntryView>,
    ) -> bool {
        let selected = spec_select(self.view_entries(), now, query, category, task_id);
        &&& forall|k: int| 0 <= k < out.len() ==> entry_matches(
            #[trigger] out[k],
            now,
            query,
            category,
            task_id,
        )
        &&& forall|k: int| 0 <= k < out.len() ==> self.view_entries().contains(#[trigger] out[k])
        &&& sorted_desc(out)
        &&& out.len() == if selected.len() <= limit {
            selected.len() as int
        } else {
            limit
        }
        &&& exists|all: Seq<EntryView>| {
            &&& #[trigger] all.to_multiset() == selected.to_multiset()
            &&& sorted_desc(all)
            &&& out == all.take(out.len() as int)
        }
    }

    /// Keyword search: substring match against key and value text,
    /// filtered by expiry and the optional category and task, newest
    /// first, capped at `limit` (100 when none is given).
    pub fn search_at(
        &self,
        query: &str,
        category: Option<MemoryCategory>,
        task_id: Option<&str>,
        limit: Option<usize>,
        now: i64,
    ) -> (r: Vec<MemoryEntry>)
        requires
            self.wf(),
        ensures
            self.search_post(
                query@,
                category,
                match task_id {
                    Some(t) => Some(t@),
                    None => None,
                },
                match limit {
                    Some(l) => l as int,
                    None => 100,
                },
                now,
                views_of(r@),
            ),
    {
        let ghost gtask: Option<Seq<char>> = match task_id {
            Some(t) => Some(t@),
            None => None,
        };
        let lim: usize = match limit {
            Some(l) => l,
            None => 100,
        };
        let query_chars = to_chars(query);
        let mut matched: Vec<MemoryEntry> = Vec::new();
        let mut i: usize = 0;
        while i < self.entries.len()
            invariant
                self.wf(),
                0 <= i <= self.entries@.len(),
                query_chars@ == query@,
                gtask == (match task_id {
                    Some(t) => Some(t@),
                    None => None,
                }),
                views_of(matched@) == spec_select(
                    self.view_entries().take(i as int),
                    now,
                    query@,
                    category,
                    gtask,
                ),
            decreases self.entries@.len() - i,
        {
            proof {
                assert(self.view_entries().take(i + 1).drop_last() =~= self.view_entries().take(
                    i as int,
                ));
                assert(self.view_entries().take(i + 1).last() == self.view_entries()[i as int]);
            }
            let e = &self.entries[i];
            proof {
                assert(*e == self.entries@[i as int]);
            }
            let alive = match e.expires_at {
                Some(t) => t > now,
                None => true,
            };
            let cat_ok = match category {
                Some(c) => e.category == c,
                None => true,
            };
            let task_ok = match task_id {
                Some(t) => opt_task_matches(&e.task_id, t),
                None => true,
            };
            let query_ok = if query_chars.len() == 0 {
                true
            } else {
                let key_chars = to_chars(e.key.as_str());
                let value_chars = match &e.value {
                    MemoryValue::Text(s) => to_chars(s.as_str()),
                    MemoryValue::Json(s) => to_chars(s.as_str()),
                };
                contains_chars(&key_chars, &query_chars) || contains_chars(
                    &value_chars,
                    &query_chars,
                )
            };
            proof {
                let ev = self.view_entries()[i as int];
                assert(ev == self.entries@[i as int]@);
                assert(alive == !spec_expired(ev, now));
                assert(task_ok == (match gtask {
                    Some(t) => ev.task_id == Some(t),
                    None => true,
                }));
                assert((alive && cat_ok && task_ok && query_ok) == entry_matches(
                    ev,
                    now,
                    query@,
                    category,
                    gtask,
                ));
            }
            if alive && cat_ok && task_ok && query_ok {
                matched.push(clone_entry(e));
                proof {
                    assert(views_of(matched@) =~= spec_select(
                        self.view_entries().take(i as int),
                        now,
                        query@,
                        category,
                        gtask,
                    ).push(self.view_entries()[i as int]));
                }
            }
            i += 1;
        }
        proof {
            assert(self.view_entries().take(self.view_entries().len() as int)
                =~= self.view_entries());
        }
        let ghost selected = spec_select(self.view_entries(), now, query@, category, gtask);
        let mut sorted: Vec<MemoryEntry> = Vec::new();
        proof {
            assert(views_of(sorted@) =~= Seq::<EntryView>::empty());
            assert(views_of(matched@.take(0)) =~= Seq::<EntryView>::empty());
            assert(views_of(sorted@).to_multiset() =~= views_of(matched@.take(0)).to_multiset());
        }
        let mut k: usize = 0;
        while k < matched.len()
            invariant
                0 <= k <= matched@.len(),
                sorted_desc(views_of(sorted@)),
                views_of(sorted@).to_multiset() == views_of(matched@.take(k as int)).to_multiset(),
                sorted@.len() == k,
            decreases matched@.len() - k,
        {
            let e = clone_entry(&matched[k]);
            let ghost ev = e@;
            // find the insertion point: after every entry at least as new
            let mut p: usize = 0;
            while p < sorted.len() && sorted[p].timestamp >= e.timestamp
                invariant
                    0 <= p <= sorted@.len(),
                    forall|q: int| 0 <= q < p ==> views_of(sorted@)[q].timestamp >= ev.timestamp,
                    ev == e@,
                decreases sorted@.len() - p,
            {
                p += 1;
            }
            let ghost before = views_of(sorted@);
            sorted.insert(p, e);
            proof {
                assert(views_of(sorted@) =~= before.insert(p as int, ev));
                broadcast use vstd::seq_lib::to_multiset_insert;
                broadcast use vstd::seq_lib::to_multiset_build;

                before.insert_ensures(p as int, ev);
                assert(sorted_desc(views_of(sorted@))) by {
                    let after = views_of(sorted@);
                    assert forall|x: int, y: int| 0 <= x < y < after.len() implies after[x]
                        .timestamp >= after[y].timestamp by {
                        if x < p && y == p {
                        } else if x == p && y > p {
                            assert(after[y] == before[y - 1]);
                            assert(before[p as int].timestamp < ev.timestamp || p
                                == before.len());
                        } else if x < p && y > p {
                            assert(after[x] == before[x]);
                            assert(after[y] == before[y - 1]);
                        } else if x > p && y > p {
                            assert(after[x] == before[x - 1]);
                            assert(after[y] == before[y - 1]);
                        }
                    }
                }
                assert(views_of(matched@.take(k + 1)) =~= views_of(matched@.take(k as int)).push(
                    ev,
                ));
                assert(views_of(sorted@).to_multiset() =~= before.to_multiset().insert(ev));
                assert(views_of(matched@.take(k + 1)).to_multiset() =~= views_of(
                    matched@.take(k as int),
                ).to_multiset().insert(ev));
            }
            k += 1;
        }
        proof {
            assert(matched@.take(matched@.len() as int) =~= matched@);
        }
        let ghost all = views_of(sorted@);
        proof {
            broadcast use vstd::seq_lib::group_to_multiset_ensures;

            assert(all.len() == selected.len()) by {
                assert(all.to_multiset().len() == selected.to_multiset().len());
            }
        }
        sorted.truncate(lim);
        proof {
            if lim <= all.len() {
                assert(views_of(sorted@) =~= all.take(lim as int));
            } else {
                assert(views_of(sorted@) =~= all);
                assert(views_of(sorted@) =~= all.take(all.len() as int));
            }
            let out = views_of(sorted@);
            lemma_select_matches(self.view_entries(), now, query@, category, gtask);
            broadcast use vstd::seq_lib::group_to_multiset_ensures;

            assert forall|m: int| 0 <= m < out.len() implies entry_matches(
                #[trigger] out[m],
                now,
                query@,
                category,
                gtask,
            ) && self.view_entries().contains(out[m]) by {
                assert(out[m] == all[m]);
                assert(all.contains(all[m]));
                assert(all.to_multiset().count(all[m]) > 0);
                assert(selected.to_multiset().count(all[m]) > 0);
                assert(selected.contains(all[m]));
                let q = choose|q: int| 0 <= q < selected.len() && selected[q] == all[m];
                lemma_select_origin(self.view_entries(), now, query@, category, gtask, q);
            }
        }
        sorted
    }

    /// Stamp of the whole store at `now`.
    pub fn stats_at(&self, now: i64) -> (s: MemoryStats)
        requires
            self.wf(),
        ensures
            s.total == self.view_entries().len(),
            s.active == spec_sweep(self.view_entries(), now).len(),
            s.expired == s.total - s.active,
            s.category_counts@.len() == 5,
            s.category_counts@[0].0 == MemoryCategory::Execution,
            s.category_counts@[1].0 == MemoryCategory::Context,
            s.category_counts@[2].0 == MemoryCategory::Result,
            s.category_counts@[3].0 == MemoryCategory::Error,
            s.category_counts@[4].0 == MemoryCategory::Checkpoint,
            forall|c: int| 0 <= c < 5 ==> #[trigger] s.category_counts@[c].1 as int
                == spec_count_cat(self.view_entries(), s.category_counts@[c].0),
    {
        let mut active: usize = 0;
        let mut n_exec: usize = 0;
        let mut n_ctx: usize = 0;
        let mut n_res: usize = 0;
        let mut n_err: usize = 0;
        let mut n_chk: usize = 0;
        let mut i: usize = 0;
        while i < self.entries.len()
            invariant
                0 <= i <= self.entries@.len(),
                active == spec_sweep(self.view_entries().take(i as int), now).len(),
                active <= i,
                n_exec as int == spec_count_cat(
                    self.view_entries().take(i as int),
                    MemoryCategory::Execution,
                ),
                n_ctx as int == spec_count_cat(
                    self.view_entries().take(i as int),
                    MemoryCategory::Context,
                ),
                n_res as int == spec_count_cat(
                    self.view_entries().take(i as int),
                    MemoryCategory::Result,
                ),
                n_err as int == spec_count_cat(
                    self.view_entries().take(i as int),
                    MemoryCategory::Error,
                ),
                n_chk as int == spec_count_cat(
                    self.view_entries().take(i as int),
                    MemoryCategory::Checkpoint,
                ),
                n_exec <= i && n_ctx <= i && n_res <= i && n_err <= i && n_chk <= i,
            decreases self.entries@.len() - i,
        {
            proof {
                assert(self.view_entries().take(i + 1).drop_last() =~= self.view_entries().take(
                    i as int,
                ));
                assert(self.view_entries().take(i + 1).last() == self.view_entries()[i as int]);
            }
            let e = &self.entries[i];
            let alive = match e.expires_at {
                Some(t) => t > now,
                None => true,
            };
            if alive {
                active += 1;
            }
            match e.category {
                MemoryCategory::Execution => {
                    n_exec += 1;
                },
                MemoryCategory::Context => {
                    n_ctx += 1;
                },
                MemoryCategory::Result => {
                    n_res += 1;
                },
                MemoryCategory::Error => {
                    n_err += 1;
                },
                MemoryCategory::Checkpoint => {
                    n_chk += 1;
                },
            }
            i += 1;
        }
        proof {
            assert(self.view_entries().take(self.view_entries().len() as int)
                =~= self.view_entries());
            lemma_sweep_properties(self.view_entries(), now);
        }
        let total = self.entries.len();
        let mut category_counts: Vec<(MemoryCategory, usize)> = Vec::new();
        category_counts.push((MemoryCategory::Execution, n_exec));
        category_counts.push((MemoryCategory::Context, n_ctx));
        category_counts.push((MemoryCategory::Result, n_res));
        category_counts.push((MemoryCategory::Error, n_err));
        category_counts.push((MemoryCategory::Checkpoint, n_chk));
        MemoryStats { total, active, expired: total - active, category_counts }
    }

    /// A point-in-time copy of the live entries.
    pub fn create_snapshot_at(&self, worker_id: String, now: i64) -> (s: MemorySnapshot)
        requires
            self.wf(),
        ensures
            views_of(s.entries@) == spec_sweep(self.view_entries(), now),
            s.worker_id@ == worker_id@,
            s.snapshot_time == now,
    {
        let mut kept: Vec<MemoryEntry> = Vec::new();
        let mut i: usize = 0;
        while i < self.entries.len()
            invariant
                0 <= i <= self.entries@.len(),
                views_of(kept@) == spec_sweep(self.view_entries().take(i as int), now),
            decreases self.entries@.len() - i,
        {
            proof {
                assert(self.view_entries().take(i + 1).drop_last() =~= self.view_entries().take(
                    i as int,
                ));
                assert(self.view_entries().take(i + 1).last() == self.view_entries()[i as int]);
            }
            let e = &self.entries[i];
            let alive = match e.expires_at {
                Some(t) => t > now,
                None => true,
            };
            if alive {
                kept.push(clone_entry(e));
                proof {
                    assert(views_of(kept@) =~= spec_sweep(
                        self.view_entries().take(i as int),
                        now,
                    ).push(self.view_entries()[i as int]));
                }
            }
            i += 1;
        }
        proof {
            assert(self.view_entries().take(self.view_entries().len() as int)
                =~= self.view_entries());
        }
        MemorySnapshot { entries: kept, worker_id, snapshot_time: now }
    }

    /// Drop every entry.
    pub fn clear(&mut self)
        ensures
            final(self).wf(),
            final(self).view_entries().len() == 0,
            final(self).default_ttl == old(self).default_ttl,
            final(self).max_entries == old(self).max_entries,
    {
        self.entries.clear();
        proof {
            assert(final(self).view_entries() =~= Seq::<EntryView>::empty());
        }
    }
}

/// Relies on chrono::Utc::now: the wall clock as seconds since the Unix
/// epoch.  Nothing is assumed of the value; callers state what holds at
/// every instant.
#[verifier::external_body]
fn now_timestamp() -> i64 {
    chrono::Utc::now().timestamp()
}

impl MemoryStore {
    /// [`Self::set_at`] at the wall clock.
    pub fn set(
        &mut self,
        key: String,
        value: MemoryValue,
        category: MemoryCategory,
        task_id: Option<String>,
        ttl: Option<i64>,
    )
        requires
            old(self).wf(),
        ensures
            final(self).wf(),
            final(self).default_ttl == old(self).default_ttl,
            final(self).max_entries == old(self).max_entries,
            exists|now: i64|
                final(self).view_entries() == old(self).spec_index_result(
                    EntryView {
                        key: key@,
                        value: value@,
                        expires_at: Some(old(self).spec_expiry(ttl, now)),
                        category,
                        task_id: match task_id {
                            Some(t) => Some(t@),
                            None => None,
                        },
                        timestamp: now,
                    },
                    now,
                ),
    {
        let now = now_timestamp();
        self.set_at(key, value, category, task_id, ttl, now);
    }

    /// [`Self::index_at`] at the wall clock.
    pub fn index(&mut self, entry: &MemoryEntry)
        requires
            old(self).wf(),
        ensures
            final(self).wf(),
            final(self).default_ttl == old(self).default_ttl,
            final(self).max_entries == old(self).max_entries,
            exists|now: i64|
                final(self).view_entries() == old(self).spec_index_result(entry@, now),
    {
        let now = now_timestamp();
        self.index_at(entry, now);
        proof {
            assert(final(self).view_entries() == old(self).spec_index_result(entry@, now));
        }
    }

    /// [`Self::get_at`] at the wall clock.
    pub fn get(&self, key: &str) -> (r: Option<MemoryEntry>)
        requires
            self.wf(),
        ensures
            exists|now: i64| self.get_post(key@, now, r),
    {
        let now = now_timestamp();
        let r = self.get_at(key, now);
        proof {
            assert(self.get_post(key@, now, r));
        }
        r
    }

    /// Some instant at which [`Self::search_post`] holds.
    pub open spec fn search_front_post(
        self,
        query: Seq<char>,
        category: Option<MemoryCategory>,
        task_id: Option<Seq<char>>,
        limit: int,
        out: Seq<EntryView>,
    ) -> bool {
        exists|now: i64| self.search_post(query, category, task_id, limit, now, out)
    }

    /// [`Self::search_at`] at the wall clock.
    pub fn search(
        &self,
        query: &str,
        category: Option<MemoryCategory>,
        task_id: Option<&str>,
        limit: Option<usize>,
    ) -> (r: Vec<MemoryEntry>)
        requires
            self.wf(),
        ensures
            self.search_front_post(
                query@,
                category,
                match task_id {
                    Some(t) => Some(t@),
                    None => None,
                },
                match limit {
                    Some(l) => l as int,
                    None => 100,
                },
                views_of(r@),
            ),
    {
        let now = now_timestamp();
        let r = self.search_at(query, category, task_id, limit, now);
        r
    }

    /// Every memory tagged with the task, newest first.
    pub fn get_task_memories_at(&self, task_id: &str, now: i64) -> (r: Vec<MemoryEntry>)
        requires
            self.wf(),
        ensures
            self.search_post(
                Seq::<char>::empty(),
                None,
                Some(task_id@),
                100,
                now,
                views_of(r@),
            ),
    {
        proof {
            reveal_strlit("");
            assert(""@ =~= Seq::<char>::empty());
        }
        self.search_at("", None, Some(task_id), None, now)
    }

    /// [`Self::get_task_memories_at`] at the wall clock.
    pub fn get_task_memories(&self, task_id: &str) -> (r: Vec<MemoryEntry>)
        requires
            self.wf(),
        ensures
            self.search_front_post(
                Seq::<char>::empty(),
                None,
                Some(task_id@),
                100,
                views_of(r@),
            ),
    {
        let now = now_timestamp();
        let r = self.get_task_memories_at(task_id, now);
        proof {
            assert(self.search_post(
                Seq::<char>::empty(),
                None,
                Some(task_id@),
                100,
                now,
                views_of(r@),
            ));
        }
        r
    }

    /// [`Self::cleanup_expired_at`] at the wall clock.
    pub fn cleanup_expired(&mut self) -> (removed: usize)
        requires
            old(self).wf(),
        ensures
            final(self).wf(),
            final(self).default_ttl == old(self).default_ttl,
            final(self).max_entries == old(self).max_entries,
            exists|now: i64|
                final(self).view_entries() == spec_sweep(old(self).view_entries(), now)
                    && removed == old(self).view_entries().len()
                    - final(self).view_entries().len(),
    {
        let now = now_timestamp();
        let removed = self.cleanup_expired_at(now);
        proof {
            assert(final(self).view_entries() == spec_sweep(old(self).view_entries(), now)
                && removed == old(self).view_entries().len() - final(self).view_entries().len());
        }
        removed
    }

    /// [`Self::stats_at`] at the wall clock.
    pub fn stats(&self) -> (s: MemoryStats)
        requires
            self.wf(),
        ensures
            s.total == self.view_entries().len(),
            s.expired == s.total - s.active,
            exists|now: i64| s.active == spec_sweep(self.view_entries(), now).len(),
    {
        let now = now_timestamp();
        let s = self.stats_at(now);
        proof {
            assert(s.active == spec_sweep(self.view_entries(), now).len());
        }
        s
    }

    /// [`Self::create_snapshot_at`] at the wall clock.
    pub fn create_snapshot(&self, worker_id: String) -> (s: MemorySnapshot)
        requires
            self.wf(),
        ensures
            s.worker_id@ == worker_id@,
            exists|now: i64|
                views_of(s.entries@) == spec_sweep(self.view_entries(), now)
                    && s.snapshot_time == now,
    {
        let now = now_timestamp();
        let s = self.create_snapshot_at(worker_id, now);
        proof {
            assert(views_of(s.entries@) == spec_sweep(self.view_entries(), now)
                && s.snapshot_time == now);
        }
        s
    }
}

/// Entries of one category, counted.
pub open spec fn spec_count_cat(entries: Seq<EntryView>, c: MemoryCategory) -> int
    decreases entries.len(),
{
    if entries.len() == 0 {
        0
    } else {
        spec_count_cat(entries.drop_last(), c) + if entries.last().category == c {
            1int
        } else {
            0int
        }
    }
}

/// Every selected entry stands in the store.
proof fn lemma_select_origin(
    entries: Seq<EntryView>,
    now: i64,
    query: Seq<char>,
    category: Option<MemoryCategory>,
    task_id: Option<Seq<char>>,
    m: int,
)
    requires
        0 <= m < spec_select(entries, now, query, category, task_id).len(),
    ensures
        entries.contains(spec_select(entries, now, query, category, task_id)[m]),
    decreases entries.len(),
{
    let out = spec_select(entries, now, query, category, task_id);
    if entries.len() > 0 {
        let prefix = entries.drop_last();
        let sub = spec_select(prefix, now, query, category, task_id);
        if m < sub.len() {
            lemma_select_origin(prefix, now, query, category, task_id, m);
            let q = choose|q: int| 0 <= q < prefix.len() && prefix[q] == sub[m];
            assert(entries[q] == sub[m]);
            assert(out[m] == sub[m]);
        } else {
            assert(out[m] == entries.last());
            assert(entries[entries.len() - 1] == entries.last());
        }
    }
}

/// Indexing is idempotent per key: a second upsert with the same key
/// replaces the entry and leaves the entry count unchanged, and the key
/// then carries the later entry.
pub proof fn lemma_index_idempotent(entries: Seq<EntryView>, e1: EntryView, e2: EntryView)
    requires
        unique_keys(entries),
        e1.key == e2.key,
    ensures
        spec_upsert(spec_upsert(entries, e1), e2).len() == spec_upsert(entries, e1).len(),
        contains_key(spec_upsert(spec_upsert(entries, e1), e2), e2.key),
        forall|i: int| 0 <= i < spec_upsert(spec_upsert(entries, e1), e2).len()
            && #[trigger] spec_upsert(spec_upsert(entries, e1), e2)[i].key == e2.key
            ==> spec_upsert(spec_upsert(entries, e1), e2)[i] == e2,
{
    lemma_upsert_properties(entries, e1);
    lemma_upsert_properties(spec_upsert(entries, e1), e2);
}

/// Every element of the filtered sequence stands in the unfiltered one.
proof fn lemma_filter_elem_origin(entries: Seq<EntryView>, key: Seq<char>, m: int)
    requires
        0 <= m < entries.filter(|e: EntryView| e.key != key).len(),
    ensures
        entries.contains(entries.filter(|e: EntryView| e.key != key)[m]),
    decreases entries.len(),
{
    reveal(Seq::filter);
    let out = entries.filter(|e: EntryView| e.key != key);
    if entries.len() > 0 {
        let prefix = entries.drop_last();
        let sub = prefix.filter(|e: EntryView| e.key != key);
        if m < sub.len() {
            lemma_filter_elem_origin(prefix, key, m);
            let q = choose|q: int| 0 <= q < prefix.len() && prefix[q] == sub[m];
            assert(entries[q] == sub[m]);
            assert(out[m] == sub[m]);
        } else {
            assert(out[m] == entries.last());
            assert(entries[entries.len() - 1] == entries.last());
        }
    }
}

} // verus!
