//! The mods already fetched, keyed by project id and the version the pack
//! pins, so that an unchanged pack makes no API calls.

use vstd::prelude::*;

use crate::request::{Mod, ModView};
use crate::text::str_eq;

verus! {

/// A mod's place in the cache: its project id and the version (or file)
/// the pack pins.
pub struct CacheId {
    pub id: String,
    pub cache_id: String,
}

/// A [`CacheId`] as plain values.
pub struct CacheIdView {
    pub id: Seq<char>,
    pub cache_id: Seq<char>,
}

impl View for CacheId {
    type V = CacheIdView;

    open spec fn view(&self) -> CacheIdView {
        CacheIdView { id: self.id@, cache_id: self.cache_id@ }
    }
}

impl Clone for CacheId {
    fn clone(&self) -> (r: Self)
        ensures
            r@ == self@,
    {
        CacheId { id: self.id.clone(), cache_id: self.cache_id.clone() }
    }
}

/// One cached mod.
pub struct CacheEntry {
    pub key: CacheId,
    pub data: Mod,
}

/// What the cache holds for one project: the version it was fetched at,
/// and the mod.
pub struct CachedMod {
    pub cache_id: Seq<char>,
    pub data: ModView,
}

/// The cache as a map from project id to what is held for it.
pub type CacheMap = Map<Seq<char>, CachedMod>;

/// What an entry holds.
pub open spec fn entry_value(e: CacheEntry) -> CachedMod {
    CachedMod { cache_id: e.key.cache_id@, data: e.data@ }
}

/// The map a list of entries describes, later entries winning.
pub open spec fn entries_map(s: Seq<CacheEntry>) -> CacheMap
    decreases s.len(),
{
    if s.len() == 0 {
        Map::empty()
    } else {
        entries_map(s.drop_last()).insert(s.last().key.id@, entry_value(s.last()))
    }
}

/// No two entries share a project id.
pub open spec fn unique_ids(s: Seq<CacheEntry>) -> bool {
    forall|i: int, j: int|
        0 <= i < s.len() && 0 <= j < s.len() && i != j ==> s[i].key.id@ != s[j].key.id@
}

/// The cache holds `key`'s project at exactly `key`'s version.
pub open spec fn is_hit(c: CacheMap, key: CacheIdView) -> bool {
    c.contains_key(key.id) && c[key.id].cache_id == key.cache_id
}

/// Every id in `installed`.
pub open spec fn id_set(installed: Seq<String>) -> Set<Seq<char>> {
    Set::new(|k: Seq<char>| exists|i: int| 0 <= i < installed.len() && installed[i]@ == k)
}

/// Whether `id` is one of `installed`.
pub fn contains_id(installed: &Vec<String>, id: &str) -> (r: bool)
    ensures
        r == id_set(installed@).contains(id@),
{
    let mut i: usize = 0;
    while i < installed.len()
        invariant
            i <= installed@.len(),
            forall|j: int| 0 <= j < i ==> installed@[j]@ != id@,
        decreases installed.len() - i,
    {
        if str_eq(installed[i].as_str(), id) {
            return true;
        }
        i = i + 1;
    }
    false
}

/// With unique ids, an entry's id is in the map exactly when some entry
/// carries it, and maps to that entry's value.
pub proof fn lemma_entries_map(s: Seq<CacheEntry>)
    requires
        unique_ids(s),
    ensures
        forall|k: Seq<char>|
            #[trigger] entries_map(s).contains_key(k) <==> exists|i: int|
                0 <= i < s.len() && s[i].key.id@ == k,
        forall|i: int|
            0 <= i < s.len() ==> #[trigger] entries_map(s)[s[i].key.id@] == entry_value(s[i]),
        entries_map(s).dom().finite(),
        entries_map(s).dom().len() == s.len(),
    decreases s.len(),
{
    if s.len() > 0 {
        let t = s.drop_last();
        assert(unique_ids(t));
        lemma_entries_map(t);
        let k = s.last().key.id@;
        assert(!entries_map(t).contains_key(k)) by {
            if entries_map(t).contains_key(k) {
                let i = choose|i: int| 0 <= i < t.len() && t[i].key.id@ == k;
                assert(s[i].key.id@ == s[s.len() - 1].key.id@);
            }
        }
        assert forall|k2: Seq<char>|
            #[trigger] entries_map(s).contains_key(k2) <==> exists|i: int|
                0 <= i < s.len() && s[i].key.id@ == k2 by {
            if entries_map(s).contains_key(k2) && k2 != k {
                let i = choose|i: int| 0 <= i < t.len() && t[i].key.id@ == k2;
                assert(s[i].key.id@ == k2);
            }
            if exists|i: int| 0 <= i < s.len() && s[i].key.id@ == k2 {
                let i = choose|i: int| 0 <= i < s.len() && s[i].key.id@ == k2;
                if i < s.len() - 1 {
                    assert(t[i].key.id@ == k2);
                }
            }
        }
        assert forall|i: int| 0 <= i < s.len() implies #[trigger] entries_map(s)[s[i].key.id@]
            == entry_value(s[i]) by {
            if i < s.len() - 1 {
                assert(t[i] == s[i]);
                assert(s[i].key.id@ != k);
            }
        }
    }
}

/// The mods already fetched.
pub struct Cache {
    entries: Vec<CacheEntry>,
}

impl View for Cache {
    type V = CacheMap;

    closed spec fn view(&self) -> CacheMap {
        entries_map(self.entries@)
    }
}

impl Cache {
    /// No two entries share a project id.
    #[verifier::type_invariant]
    closed spec fn inv(self) -> bool {
        unique_ids(self.entries@)
    }

    /// An empty cache.
    pub fn new() -> (r: Cache)
        ensures
            r@ == Map::<Seq<char>, CachedMod>::empty(),
    {
        Cache { entries: Vec::new() }
    }

    /// Builds a cache from stored entries; where two share a project id,
    /// the later one stands.
    pub fn from_entries(entries: Vec<CacheEntry>) -> (r: Cache)
        ensures
            r@ == entries_map(entries@),
    {
        let mut cache = Cache::new();
        let mut entries = entries;
        let ghost all = entries@;
        let ghost mut i: int = 0;
        assert(all.skip(0) =~= all);
        assert(all.take(0) =~= Seq::<CacheEntry>::empty());
        while entries.len() > 0
            invariant
                0 <= i <= all.len(),
                entries@ == all.skip(i),
                cache@ == entries_map(all.take(i)),
            decreases entries.len(),
        {
            let e = entries.remove(0);
            proof {
                assert(e == all[i]);
                assert(all.take(i + 1).drop_last() =~= all.take(i));
                assert(entries@ =~= all.skip(i + 1));
            }
            cache.set_mod(e.key, e.data);
            proof {
                i = i + 1;
            }
        }
        assert(all.take(i) =~= all);
        cache
    }

    /// The number of cached mods.
    pub fn len(&self) -> (r: usize)
        ensures
            r == self@.len(),
    {
        proof {
            use_type_invariant(&*self);
            lemma_entries_map(self.entries@);
        }
        self.entries.len()
    }

    /// The entries, for writing the cache out.
    pub fn entries(&self) -> (r: &Vec<CacheEntry>)
        ensures
            entries_map(r@) == self@,
    {
        &self.entries
    }

    /// The index of the entry for project `id`, if any.
    fn find(&self, id: &str) -> (r: Option<usize>)
        ensures
            match r {
                Some(i) => i < self.entries@.len() && self.entries@[i as int].key.id@ == id@,
                None => !self@.contains_key(id@),
            },
    {
        proof {
            use_type_invariant(&*self);
            lemma_entries_map(self.entries@);
        }
        let mut i: usize = 0;
        while i < self.entries.len()
            invariant
                i <= self.entries@.len(),
                forall|j: int| 0 <= j < i ==> self.entries@[j].key.id@ != id@,
            decreases self.entries.len() - i,
        {
            if str_eq(self.entries[i].key.id.as_str(), id) {
                return Some(i);
            }
            i = i + 1;
        }
        None
    }

    /// The cached mod for `key`'s project, if it was fetched at `key`'s
    /// version; a cached mod at another version is a miss.
    pub fn get_mod(&self, key: &CacheId) -> (r: Option<&Mod>)
        ensures
            match r {
                Some(m) => is_hit(self@, key@) && m@ == self@[key.id@].data,
                None => !is_hit(self@, key@),
            },
    {
        proof {
            use_type_invariant(&*self);
            lemma_entries_map(self.entries@);
        }
        match self.find(key.id.as_str()) {
            Some(i) => {
                let e = &self.entries[i];
                if str_eq(e.key.cache_id.as_str(), key.cache_id.as_str()) {
                    Some(&e.data)
                } else {
                    None
                }
            },
            None => None,
        }
    }

    /// Caches `data` for `key`'s project at `key`'s version, replacing
    /// whatever was held for that project.
    pub fn set_mod(&mut self, key: CacheId, data: Mod)
        ensures
            final(self)@ == old(self)@.insert(key.id@, CachedMod { cache_id: key.cache_id@, data: data@ }),
    {
        proof {
            use_type_invariant(&*self);
            lemma_entries_map(self.entries@);
        }
        let ghost before = self.entries@;
        let ghost k = key.id@;
        let ghost v = CachedMod { cache_id: key.cache_id@, data: data@ };
        let e = CacheEntry { key, data };
        let ghost mut pos: int = 0;
        let found = self.find(e.key.id.as_str());
        let mut entries: Vec<CacheEntry> = Vec::new();
        std::mem::swap(&mut entries, &mut self.entries);
        match found {
            Some(i) => {
                entries.set(i, e);
                proof {
                    pos = i as int;
                }
            },
            None => {
                entries.push(e);
                proof {
                    pos = before.len() as int;
                }
            },
        }
        proof {
            let after = entries@;
            assert(0 <= pos < after.len() && after[pos].key.id@ == k && entry_value(after[pos]) == v);
            assert(forall|j: int| 0 <= j < after.len() && j != pos ==> after[j] == before[j]);
            assert(after.len() == before.len() || (after.len() == before.len() + 1 && pos == before.len()));
            assert(unique_ids(after)) by {
                assert forall|a: int, b: int|
                    0 <= a < after.len() && 0 <= b < after.len() && a != b implies after[a].key.id@
                    != after[b].key.id@ by {
                    if a < before.len() && after[a] == before[a] && b < before.len() && after[b]
                        == before[b] {
                    } else if a < before.len() && after[a] == before[a] {
                        assert(after[b].key.id@ == k);
                        assert(entries_map(before).contains_key(before[a].key.id@));
                    } else {
                        assert(after[a].key.id@ == k);
                        if b < before.len() && after[b] == before[b] {
                            assert(entries_map(before).contains_key(before[b].key.id@));
                        }
                    }
                }
            }
            lemma_entries_map(after);
            assert(entries_map(after) =~= entries_map(before).insert(k, v)) by {
                assert forall|x: Seq<char>| #[trigger]
                    entries_map(after).contains_key(x) == entries_map(before).insert(
                        k,
                        v,
                    ).contains_key(x) by {
                    if entries_map(after).contains_key(x) {
                        let j = choose|j: int| 0 <= j < after.len() && after[j].key.id@ == x;
                        if x != k {
                            assert(after[j] == before[j]);
                        }
                    }
                    if x == k {
                        assert(after[pos].key.id@ == x);
                    }
                    if entries_map(before).contains_key(x) {
                        let j = choose|j: int| 0 <= j < before.len() && before[j].key.id@ == x;
                        if x != k {
                            assert(after[j] == before[j]);
                        }
                    }
                }
                assert forall|x: Seq<char>| #[trigger]
                    entries_map(after).contains_key(x) implies entries_map(after)[x]
                    == entries_map(before).insert(k, v)[x] by {
                    let j = choose|j: int| 0 <= j < after.len() && after[j].key.id@ == x;
                    if x != k {
                        assert(after[j] == before[j]);
                    } else {
                        assert(entries_map(after)[after[pos].key.id@] == entry_value(after[pos]));
                    }
                }
            }
        }
        self.entries = entries;
    }

    /// Drops every cached mod whose project is not in `installed`, and
    /// answers how many were dropped.
    pub fn retain_only(&mut self, installed: &Vec<String>) -> (r: usize)
        ensures
            final(self)@ == old(self)@.restrict(id_set(installed@)),
            r == old(self)@.len() - final(self)@.len(),
    {
        proof {
            use_type_invariant(&*self);
        }
        let ghost all = self.entries@;
        proof {
            lemma_entries_map(all);
        }
        assert(all.len() == self.entries.len());
        let mut pending: Vec<CacheEntry> = Vec::new();
        std::mem::swap(&mut pending, &mut self.entries);
        let mut kept: Vec<CacheEntry> = Vec::new();
        let mut removed: usize = 0;
        let ghost mut src: Seq<int> = Seq::empty();
        while pending.len() > 0
            invariant
                unique_ids(all),
                all.len() <= usize::MAX,
                pending@ == all.take(pending@.len() as int),
                pending@.len() <= all.len(),
                kept@.len() == src.len(),
                forall|a: int|
                    0 <= a < src.len() ==> pending@.len() <= #[trigger] src[a] < all.len()
                        && kept@[a] == all[src[a]] && id_set(installed@).contains(
                        all[src[a]].key.id@,
                    ),
                forall|a: int, b: int| 0 <= a < b < src.len() ==> src[a] > src[b],
                forall|j: int|
                    pending@.len() <= j < all.len() && id_set(installed@).contains(
                        #[trigger] all[j].key.id@,
                    ) ==> exists|a: int| 0 <= a < src.len() && src[a] == j,
                removed + kept@.len() == all.len() - pending@.len(),
            decreases pending.len(),
        {
            let e = pending.pop().unwrap();
            let ghost j = pending@.len() as int;
            proof {
                assert(e == all[j]);
                assert(pending@ =~= all.take(j));
            }
            if contains_id(installed, e.key.id.as_str()) {
                kept.push(e);
                proof {
                    let ghost old_src = src;
                    src = src.push(j);
                    assert forall|j2: int|
                        pending@.len() <= j2 < all.len() && id_set(installed@).contains(
                            #[trigger] all[j2].key.id@,
                        ) implies exists|a: int| 0 <= a < src.len() && src[a] == j2 by {
                        if j2 == j {
                            assert(src[src.len() - 1] == j2);
                        } else {
                            let a = choose|a: int| 0 <= a < old_src.len() && old_src[a] == j2;
                            assert(src[a] == j2);
                        }
                    }
                }
            } else {
                removed = removed + 1;
            }
        }
        let ghost ks = kept@;
        proof {
            assert(unique_ids(ks)) by {
                assert forall|a: int, b: int|
                    0 <= a < ks.len() && 0 <= b < ks.len() && a != b implies ks[a].key.id@
                    != ks[b].key.id@ by {
                    assert(src[a] != src[b]);
                }
            }
            lemma_entries_map(ks);
            let target = entries_map(all).restrict(id_set(installed@));
            assert forall|x: Seq<char>| #[trigger]
                entries_map(ks).contains_key(x) == target.contains_key(x) by {
                if entries_map(ks).contains_key(x) {
                    let a = choose|a: int| 0 <= a < ks.len() && ks[a].key.id@ == x;
                    assert(all[src[a]].key.id@ == x);
                }
                if target.contains_key(x) {
                    let j = choose|j: int| 0 <= j < all.len() && all[j].key.id@ == x;
                    let a = choose|a: int| 0 <= a < src.len() && src[a] == j;
                    assert(ks[a].key.id@ == x);
                }
            }
            assert forall|x: Seq<char>| #[trigger]
                entries_map(ks).contains_key(x) implies entries_map(ks)[x] == target[x] by {
                let a = choose|a: int| 0 <= a < ks.len() && ks[a].key.id@ == x;
                assert(entries_map(ks)[ks[a].key.id@] == entry_value(ks[a]));
                assert(entries_map(all)[all[src[a]].key.id@] == entry_value(all[src[a]]));
            }
            assert(entries_map(ks) =~= target);
        }
        self.entries = kept;
        removed
    }
}

} // verus!
