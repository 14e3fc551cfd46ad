//! The run over a pack's mods: which are already cached, which must be
//! fetched, and how what comes back is merged into the list and the cache.
//!
//! Fetching is the caller's part. [`App::pending`] names the projects to
//! ask each site for; [`App::get_mods`] (or [`App::sorted_mods`]) takes what
//! the sites answered and does the rest.

use vstd::prelude::*;

use crate::cache::{Cache, CacheId, CacheIdView, CacheMap, CachedMod, contains_id, id_set, is_hit};
use crate::parser::{
    ParsedCurseForgeId, ParsedCurseForgeIdView, ParsedModrinthId, ParsedModrinthIdView, Parser,
    curseforge_ids_view, modrinth_ids_view,
};
use crate::request::{CurseForgeId, Mod, ModView, ModrinthId};
use crate::order::{ascii_titles_in_order, sort_mods, sort_mods_spec};
use crate::text::{i32_to_string, signed_decimal, str_eq};

verus! {

/// Where a Modrinth mod sits in the cache.
pub open spec fn modrinth_key(p: ParsedModrinthIdView) -> CacheIdView {
    CacheIdView { id: p.id, cache_id: p.cache_id }
}

/// Where a CurseForge mod sits in the cache: its project id in decimal.
pub open spec fn curseforge_key(p: ParsedCurseForgeIdView) -> CacheIdView {
    CacheIdView { id: signed_decimal(p.id as int), cache_id: p.cache_id }
}

/// The plain values of a list of mods.
pub open spec fn mods_view(v: Seq<Mod>) -> Seq<ModView> {
    v.map_values(|m: Mod| m@)
}

/// The plain values of a list of cache keys.
pub open spec fn keys_view(v: Seq<CacheId>) -> Seq<CacheIdView> {
    v.map_values(|k: CacheId| k@)
}

/// The characters of each string in a list.
pub open spec fn strings_view(v: Seq<String>) -> Seq<Seq<char>> {
    v.map_values(|s: String| s@)
}

/// The cached mods among `ps`, in order.
pub open spec fn hits<P>(c: CacheMap, ps: Seq<P>, key: spec_fn(P) -> CacheIdView) -> Seq<ModView>
    decreases ps.len(),
{
    if ps.len() == 0 {
        Seq::empty()
    } else {
        let rest = hits(c, ps.drop_last(), key);
        let k = key(ps.last());
        if is_hit(c, k) {
            rest.push(c[k.id].data)
        } else {
            rest
        }
    }
}

/// The mods among `ps` that the cache does not hold at their version, in
/// order.
pub open spec fn misses<P>(c: CacheMap, ps: Seq<P>, key: spec_fn(P) -> CacheIdView) -> Seq<P>
    decreases ps.len(),
{
    if ps.len() == 0 {
        Seq::empty()
    } else {
        let rest = misses(c, ps.drop_last(), key);
        if is_hit(c, key(ps.last())) {
            rest
        } else {
            rest.push(ps.last())
        }
    }
}

/// The cache key asked for under project `id`: the last request for it.
pub open spec fn requested(keys: Seq<CacheIdView>, id: Seq<char>) -> Option<CacheIdView>
    decreases keys.len(),
{
    if keys.len() == 0 {
        None
    } else if keys.last().id == id {
        Some(keys.last())
    } else {
        requested(keys.drop_last(), id)
    }
}

/// The fetched mods that answer a request, in the order they came.
pub open spec fn accepted(keys: Seq<CacheIdView>, fetched: Seq<ModView>) -> Seq<ModView>
    decreases fetched.len(),
{
    if fetched.len() == 0 {
        Seq::empty()
    } else {
        let rest = accepted(keys, fetched.drop_last());
        if requested(keys, fetched.last().id) is Some {
            rest.push(fetched.last())
        } else {
            rest
        }
    }
}

/// The ids of fetched mods nobody asked for, in the order they came.
pub open spec fn unrequested(keys: Seq<CacheIdView>, fetched: Seq<ModView>) -> Seq<Seq<char>>
    decreases fetched.len(),
{
    if fetched.len() == 0 {
        Seq::empty()
    } else {
        let rest = unrequested(keys, fetched.drop_last());
        if requested(keys, fetched.last().id) is Some {
            rest
        } else {
            rest.push(fetched.last().id)
        }
    }
}

/// The cache after storing each accepted mod under the key it was asked
/// for, in the order they came.
pub open spec fn absorb(c: CacheMap, keys: Seq<CacheIdView>, fetched: Seq<ModView>) -> CacheMap
    decreases fetched.len(),
{
    if fetched.len() == 0 {
        c
    } else {
        let rest = absorb(c, keys, fetched.drop_last());
        let m = fetched.last();
        match requested(keys, m.id) {
            Some(k) => rest.insert(m.id, CachedMod { cache_id: k.cache_id, data: m }),
            None => rest,
        }
    }
}

/// The projects asked for that did not come back.
pub open spec fn missing(keys: Seq<CacheIdView>, fetched: Seq<ModView>) -> Set<Seq<char>> {
    Set::new(
        |x: Seq<char>|
            (exists|i: int| 0 <= i < keys.len() && keys[i].id == x) && !(exists|j: int|
                0 <= j < fetched.len() && fetched[j].id == x),
    )
}

/// What one site's answer left to report: projects it sent that nobody
/// asked for, and projects asked for that it did not send.
pub struct SourceReport {
    pub unrequested: Vec<String>,
    pub missing: Vec<String>,
}

/// The mods of a run and what each site's answer left to report.
pub struct Fetched {
    pub mods: Vec<Mod>,
    pub modrinth: SourceReport,
    pub curseforge: SourceReport,
}

/// The projects a pack names: its Modrinth ids and its CurseForge ids in
/// decimal.
pub open spec fn installed(
    ms: Seq<ParsedModrinthIdView>,
    cs: Seq<ParsedCurseForgeIdView>,
) -> Set<Seq<char>> {
    Set::new(
        |x: Seq<char>|
            (exists|a: int| 0 <= a < ms.len() && ms[a].id == x) || (exists|b: int|
                0 <= b < cs.len() && signed_decimal(cs[b].id as int) == x),
    )
}

/// A report on one site's answer to `keys`.
pub open spec fn reports(r: SourceReport, keys: Seq<CacheIdView>, fetched: Seq<ModView>) -> bool {
    &&& strings_view(r.unrequested@) == unrequested(keys, fetched)
    &&& strings_view(r.missing@).to_set() == missing(keys, fetched)
    &&& strings_view(r.missing@).no_duplicates()
}

/// Whether some fetched mod has project `id`.
fn any_with_id(fetched: &Vec<Mod>, id: &str) -> (r: bool)
    ensures
        r == exists|j: int| 0 <= j < fetched@.len() && fetched@[j]@.id == id@,
{
    let mut j: usize = 0;
    while j < fetched.len()
        invariant
            j <= fetched@.len(),
            forall|k: int| 0 <= k < j ==> fetched@[k]@.id != id@,
        decreases fetched.len() - j,
    {
        if str_eq(fetched[j].id.as_str(), id) {
            return true;
        }
        j = j + 1;
    }
    false
}

/// The projects in `keys` that `fetched` does not answer, each once.
fn missing_ids(keys: &Vec<CacheId>, fetched: &Vec<Mod>) -> (r: Vec<String>)
    ensures
        strings_view(r@).to_set() == missing(keys_view(keys@), mods_view(fetched@)),
        strings_view(r@).no_duplicates(),
{
    let ghost kv = keys_view(keys@);
    let ghost fv = mods_view(fetched@);
    let mut out: Vec<String> = Vec::new();
    let mut i: usize = 0;
    while i < keys.len()
        invariant
            i <= keys@.len(),
            kv == keys_view(keys@),
            fv == mods_view(fetched@),
            strings_view(out@).no_duplicates(),
            forall|x: Seq<char>|
                strings_view(out@).contains(x) <==> ((exists|a: int| 0 <= a < i && kv[a].id == x)
                    && !(exists|j: int| 0 <= j < fv.len() && fv[j].id == x)),
        decreases keys.len() - i,
    {
        let id = keys[i].id.as_str();
        let found = any_with_id(fetched, id);
        let seen = contains_id(&out, id);
        proof {
            assert(kv[i as int].id == id@);
            assert(seen == strings_view(out@).contains(id@)) by {
                if seen {
                    let a = choose|a: int| 0 <= a < out@.len() && out@[a]@ == id@;
                    assert(strings_view(out@)[a] == id@);
                }
                if strings_view(out@).contains(id@) {
                    let a = choose|a: int| 0 <= a < strings_view(out@).len() && strings_view(out@)[a] == id@;
                    assert(out@[a]@ == id@);
                }
            }
            assert(found == exists|j: int| 0 <= j < fv.len() && fv[j].id == id@) by {
                if found {
                    let j = choose|j: int| 0 <= j < fetched@.len() && fetched@[j]@.id == id@;
                    assert(fv[j].id == id@);
                }
            }
        }
        if !found && !seen {
            let ghost before = strings_view(out@);
            out.push(keys[i].id.clone());
            proof {
                assert(strings_view(out@) =~= before.push(id@));
                assert forall|x: Seq<char>|
                    strings_view(out@).contains(x) <==> ((exists|a: int| 0 <= a < i + 1 && kv[a].id == x)
                        && !(exists|j: int| 0 <= j < fv.len() && fv[j].id == x)) by {
                    if strings_view(out@).contains(x) && x != id@ {
                        let a = choose|a: int| 0 <= a < strings_view(out@).len() && strings_view(out@)[a] == x;
                        assert(before[a] == x);
                    }
                    if x != id@ && before.contains(x) {
                        let a = choose|a: int| 0 <= a < before.len() && before[a] == x;
                        assert(strings_view(out@)[a] == x);
                    }
                    if x == id@ {
                        assert(strings_view(out@)[before.len() as int] == x);
                    }
                }
            }
        } else {
            proof {
                assert forall|x: Seq<char>|
                    strings_view(out@).contains(x) <==> ((exists|a: int| 0 <= a < i + 1 && kv[a].id == x)
                        && !(exists|j: int| 0 <= j < fv.len() && fv[j].id == x)) by {
                    if (exists|a: int| 0 <= a < i + 1 && kv[a].id == x) && !(exists|j: int| 0 <= j < fv.len() && fv[j].id == x) {
                        let a = choose|a: int| 0 <= a < i + 1 && kv[a].id == x;
                        if a == i {
                            assert(x == id@);
                        }
                    }
                }
            }
        }
        i = i + 1;
    }
    proof {
        assert(strings_view(out@).to_set() =~= missing(kv, fv)) by {
            assert forall|x: Seq<char>| strings_view(out@).to_set().contains(x) == missing(kv, fv).contains(x) by {
                if (exists|a: int| 0 <= a < kv.len() && kv[a].id == x) {
                    let a = choose|a: int| 0 <= a < kv.len() && kv[a].id == x;
                    assert(0 <= a < keys@.len());
                }
            }
        }
    }
    out
}

/// [`modrinth_key`] as a function value.
pub open spec fn modrinth_key_fn() -> spec_fn(ParsedModrinthIdView) -> CacheIdView {
    |p: ParsedModrinthIdView| modrinth_key(p)
}

/// [`curseforge_key`] as a function value.
pub open spec fn curseforge_key_fn() -> spec_fn(ParsedCurseForgeIdView) -> CacheIdView {
    |p: ParsedCurseForgeIdView| curseforge_key(p)
}

/// A key found by [`requested`] carries the id it was looked up by.
pub proof fn lemma_requested_id(keys: Seq<CacheIdView>, id: Seq<char>)
    ensures
        requested(keys, id) matches Some(k) ==> k.id == id,
    decreases keys.len(),
{
    if keys.len() > 0 && keys.last().id != id {
        lemma_requested_id(keys.drop_last(), id);
    }
}

/// The position of the last key asked for under project `id`.
fn find_requested(keys: &Vec<CacheId>, id: &str) -> (r: Option<usize>)
    ensures
        match r {
            Some(i) => i < keys@.len() && requested(keys_view(keys@), id@) == Some(keys@[i as int]@),
            None => requested(keys_view(keys@), id@) is None,
        },
{
    let ghost kv = keys_view(keys@);
    let mut i: usize = keys.len();
    assert(kv.take(kv.len() as int) =~= kv);
    while i > 0
        invariant
            i <= keys@.len(),
            kv == keys_view(keys@),
            requested(kv, id@) == requested(kv.take(i as int), id@),
        decreases i,
    {
        assert(kv.take(i as int).last() == kv[i - 1]);
        assert(kv.take(i as int).drop_last() =~= kv.take(i - 1));
        if str_eq(keys[i - 1].id.as_str(), id) {
            return Some(i - 1);
        }
        i = i - 1;
    }
    None
}

/// Merges one site's answer: each fetched mod that answers a request is
/// cached under the key it was asked for and appended to `mods`; the ids of
/// the rest are returned.
fn absorb_fetched(
    cache: &mut Cache,
    keys: &Vec<CacheId>,
    fetched: &Vec<Mod>,
    mods: &mut Vec<Mod>,
) -> (r: Vec<String>)
    ensures
        final(cache)@ == absorb(old(cache)@, keys_view(keys@), mods_view(fetched@)),
        mods_view(final(mods)@) == mods_view(old(mods)@) + accepted(keys_view(keys@), mods_view(fetched@)),
        strings_view(r@) == unrequested(keys_view(keys@), mods_view(fetched@)),
{
    let ghost kv = keys_view(keys@);
    let ghost fv = mods_view(fetched@);
    let ghost c0 = cache@;
    let ghost m0 = mods_view(mods@);
    let mut unreq: Vec<String> = Vec::new();
    let mut i: usize = 0;
    assert(fv.take(0) =~= Seq::<ModView>::empty());
    assert(m0 + Seq::<ModView>::empty() =~= m0);
    while i < fetched.len()
        invariant
            i <= fetched@.len(),
            kv == keys_view(keys@),
            fv == mods_view(fetched@),
            cache@ == absorb(c0, kv, fv.take(i as int)),
            mods_view(mods@) == m0 + accepted(kv, fv.take(i as int)),
            strings_view(unreq@) == unrequested(kv, fv.take(i as int)),
        decreases fetched.len() - i,
    {
        let m = &fetched[i];
        proof {
            assert(fv.take(i + 1).drop_last() =~= fv.take(i as int));
            assert(fv.take(i + 1).last() == m@);
            lemma_requested_id(kv, m@.id);
        }
        match find_requested(keys, m.id.as_str()) {
            Some(j) => {
                let key = keys[j].clone();
                let ghost before = mods_view(mods@);
                cache.set_mod(key, m.clone());
                mods.push(m.clone());
                proof {
                    assert(mods_view(mods@) =~= before.push(m@));
                }
            },
            None => {
                let ghost before = strings_view(unreq@);
                unreq.push(m.id.clone());
                proof {
                    assert(strings_view(unreq@) =~= before.push(m@.id));
                }
            },
        }
        i = i + 1;
    }
    assert(fv.take(fetched.len() as int) =~= fv);
    unreq
}

/// The cache keys asked for: those of the misses, in order.
pub open spec fn requests<P>(c: CacheMap, ps: Seq<P>, key: spec_fn(P) -> CacheIdView) -> Seq<CacheIdView> {
    misses(c, ps, key).map_values(key)
}

/// What a site's answer counts as: nothing, when nothing was asked of it.
pub open spec fn effective(keys: Seq<CacheIdView>, fetched: Seq<ModView>) -> Seq<ModView> {
    if keys.len() > 0 {
        fetched
    } else {
        Seq::empty()
    }
}

/// The mods of a run over cache `c` and the pack's ids `ms` and `cs`, given
/// each site's answer: the cached ones (Modrinth, then CurseForge, in pack
/// order), then the fetched ones that answer a request (Modrinth's, then
/// CurseForge's, in the order they came).
pub open spec fn run_mods(
    c: CacheMap,
    ms: Seq<ParsedModrinthIdView>,
    cs: Seq<ParsedCurseForgeIdView>,
    mr_fetched: Seq<ModView>,
    cf_fetched: Seq<ModView>,
) -> Seq<ModView> {
    let mk = requests(c, ms, modrinth_key_fn());
    let ck = requests(c, cs, curseforge_key_fn());
    hits(c, ms, modrinth_key_fn()) + hits(c, cs, curseforge_key_fn()) + accepted(
        mk,
        effective(mk, mr_fetched),
    ) + accepted(ck, effective(ck, cf_fetched))
}

/// The cache after such a run: each fetched mod that answers a request
/// stored under the key it was asked for, Modrinth's answer first.
pub open spec fn run_cache(
    c: CacheMap,
    ms: Seq<ParsedModrinthIdView>,
    cs: Seq<ParsedCurseForgeIdView>,
    mr_fetched: Seq<ModView>,
    cf_fetched: Seq<ModView>,
) -> CacheMap {
    let mk = requests(c, ms, modrinth_key_fn());
    let ck = requests(c, cs, curseforge_key_fn());
    absorb(absorb(c, mk, effective(mk, mr_fetched)), ck, effective(ck, cf_fetched))
}

/// A report with nothing in it.
fn empty_report() -> (r: SourceReport)
    ensures
        r.unrequested@.len() == 0,
        r.missing@.len() == 0,
{
    SourceReport { unrequested: Vec::new(), missing: Vec::new() }
}

/// The report on a site nothing was asked of.
proof fn lemma_empty_report(r: SourceReport, keys: Seq<CacheIdView>)
    requires
        r.unrequested@.len() == 0,
        r.missing@.len() == 0,
        keys.len() == 0,
    ensures
        reports(r, keys, Seq::empty()),
{
    assert(strings_view(r.unrequested@) =~= unrequested(keys, Seq::empty()));
    assert(strings_view(r.missing@).to_set() =~= missing(keys, Seq::empty()));
}

/// A pack's mods, and the cache they are looked up in.
pub struct App {
    cache: Cache,
    modrinth_mods: Vec<ParsedModrinthId>,
    curseforge_mods: Vec<ParsedCurseForgeId>,
}

impl App {
    /// The cache.
    pub closed spec fn cache_view(&self) -> CacheMap {
        self.cache@
    }

    /// The Modrinth mods the pack names.
    pub closed spec fn modrinth(&self) -> Seq<ParsedModrinthIdView> {
        modrinth_ids_view(self.modrinth_mods@)
    }

    /// The CurseForge mods the pack names.
    pub closed spec fn curseforge(&self) -> Seq<ParsedCurseForgeIdView> {
        curseforge_ids_view(self.curseforge_mods@)
    }

    /// A run over the mods `parser` found, looked up in `cache`.
    pub fn new<P: Parser>(cache: Cache, parser: P) -> (r: App)
        ensures
            r.cache_view() == cache@,
            r.modrinth() == parser.modrinth_view(),
            r.curseforge() == parser.curseforge_view(),
    {
        let (modrinth_mods, curseforge_mods) = parser.get_mods_owned();
        App { cache, modrinth_mods, curseforge_mods }
    }

    /// The cache, for writing it out.
    pub fn cache(&self) -> (r: &Cache)
        ensures
            r@ == self.cache_view(),
    {
        &self.cache
    }

    /// Looks each Modrinth mod up in the cache: hits are appended to `mods`,
    /// and the keys and ids of the misses are returned.
    fn lookup_modrinth(&self, mods: &mut Vec<Mod>) -> (r: (Vec<CacheId>, Vec<ModrinthId>))
        ensures
            mods_view(final(mods)@) == mods_view(old(mods)@) + hits(
                self.cache_view(),
                self.modrinth(),
                modrinth_key_fn(),
            ),
            keys_view(r.0@) == misses(self.cache_view(), self.modrinth(), modrinth_key_fn()).map_values(
                modrinth_key_fn(),
            ),
            strings_view(r.1@) == misses(self.cache_view(), self.modrinth(), modrinth_key_fn()).map_values(
                |p: ParsedModrinthIdView| p.id,
            ),
    {
        let ghost c = self.cache_view();
        let ghost ps = self.modrinth();
        let ghost f = modrinth_key_fn();
        let ghost m0 = mods_view(mods@);
        let mut keys: Vec<CacheId> = Vec::new();
        let mut ids: Vec<ModrinthId> = Vec::new();
        let mut i: usize = 0;
        assert(ps.take(0) =~= Seq::<ParsedModrinthIdView>::empty());
        assert(m0 + Seq::<ModView>::empty() =~= m0);
        while i < self.modrinth_mods.len()
            invariant
                c == self.cache_view(),
                ps == self.modrinth(),
                f == modrinth_key_fn(),
                i <= ps.len(),
                mods_view(mods@) == m0 + hits(c, ps.take(i as int), f),
                keys_view(keys@) == misses(c, ps.take(i as int), f).map_values(f),
                strings_view(ids@) == misses(c, ps.take(i as int), f).map_values(
                    |p: ParsedModrinthIdView| p.id,
                ),
            decreases self.modrinth_mods.len() - i,
        {
            let p = &self.modrinth_mods[i];
            let key = CacheId { id: p.id.clone(), cache_id: p.cache_id.clone() };
            proof {
                assert(ps.take(i + 1).drop_last() =~= ps.take(i as int));
                assert(ps.take(i + 1).last() == p@);
                assert(key@ == f(p@));
            }
            match self.cache.get_mod(&key) {
                Some(m) => {
                    let ghost before = mods_view(mods@);
                    mods.push(m.clone());
                    proof {
                        assert(mods_view(mods@) =~= before.push(m@));
                    }
                },
                None => {
                    let ghost kb = keys_view(keys@);
                    let ghost ib = strings_view(ids@);
                    ids.push(p.id.clone());
                    keys.push(key);
                    proof {
                        assert(keys_view(keys@) =~= kb.push(f(p@)));
                        assert(strings_view(ids@) =~= ib.push(p@.id));
                        assert(misses(c, ps.take(i + 1), f) == misses(c, ps.take(i as int), f).push(p@));
                    }
                },
            }
            proof {
                assert(misses(c, ps.take(i + 1), f).map_values(f) =~= keys_view(keys@));
                assert(misses(c, ps.take(i + 1), f).map_values(|p: ParsedModrinthIdView| p.id) =~= strings_view(ids@));
            }
            i = i + 1;
        }
        assert(ps.take(ps.len() as int) =~= ps);
        (keys, ids)
    }

    /// Looks each CurseForge mod up in the cache: hits are appended to
    /// `mods`, and the keys and ids of the misses are returned.
    fn lookup_curseforge(&self, mods: &mut Vec<Mod>) -> (r: (Vec<CacheId>, Vec<CurseForgeId>))
        ensures
            mods_view(final(mods)@) == mods_view(old(mods)@) + hits(
                self.cache_view(),
                self.curseforge(),
                curseforge_key_fn(),
            ),
            keys_view(r.0@) == misses(self.cache_view(), self.curseforge(), curseforge_key_fn()).map_values(
                curseforge_key_fn(),
            ),
            r.1@ == misses(self.cache_view(), self.curseforge(), curseforge_key_fn()).map_values(
                |p: ParsedCurseForgeIdView| p.id,
            ),
    {
        let ghost c = self.cache_view();
        let ghost ps = self.curseforge();
        let ghost f = curseforge_key_fn();
        let ghost m0 = mods_view(mods@);
        let mut keys: Vec<CacheId> = Vec::new();
        let mut ids: Vec<CurseForgeId> = Vec::new();
        let mut i: usize = 0;
        assert(ps.take(0) =~= Seq::<ParsedCurseForgeIdView>::empty());
        assert(m0 + Seq::<ModView>::empty() =~= m0);
        while i < self.curseforge_mods.len()
            invariant
                c == self.cache_view(),
                ps == self.curseforge(),
                f == curseforge_key_fn(),
                i <= ps.len(),
                mods_view(mods@) == m0 + hits(c, ps.take(i as int), f),
                keys_view(keys@) == misses(c, ps.take(i as int), f).map_values(f),
                ids@ == misses(c, ps.take(i as int), f).map_values(
                    |p: ParsedCurseForgeIdView| p.id,
                ),
            decreases self.curseforge_mods.len() - i,
        {
            let p = &self.curseforge_mods[i];
            let key = CacheId { id: i32_to_string(p.id), cache_id: p.cache_id.clone() };
            proof {
                assert(ps.take(i + 1).drop_last() =~= ps.take(i as int));
                assert(ps.take(i + 1).last() == p@);
                assert(key@ == f(p@));
            }
            match self.cache.get_mod(&key) {
                Some(m) => {
                    let ghost before = mods_view(mods@);
                    mods.push(m.clone());
                    proof {
                        assert(mods_view(mods@) =~= before.push(m@));
                    }
                },
                None => {
                    let ghost kb = keys_view(keys@);
                    ids.push(p.id);
                    keys.push(key);
                    proof {
                        assert(keys_view(keys@) =~= kb.push(f(p@)));
                        assert(misses(c, ps.take(i + 1), f) == misses(c, ps.take(i as int), f).push(p@));
                    }
                },
            }
            proof {
                assert(misses(c, ps.take(i + 1), f).map_values(f) =~= keys_view(keys@));
                assert(misses(c, ps.take(i + 1), f).map_values(|p: ParsedCurseForgeIdView| p.id) =~= ids@);
            }
            i = i + 1;
        }
        assert(ps.take(ps.len() as int) =~= ps);
        (keys, ids)
    }

    /// The projects to ask each site for: the pack's mods that the cache
    /// does not hold at the version the pack pins, in pack order.
    pub fn pending(&self) -> (r: (Vec<ModrinthId>, Vec<CurseForgeId>))
        ensures
            strings_view(r.0@) == misses(self.cache_view(), self.modrinth(), modrinth_key_fn()).map_values(
                |p: ParsedModrinthIdView| p.id,
            ),
            r.1@ == misses(self.cache_view(), self.curseforge(), curseforge_key_fn()).map_values(
                |p: ParsedCurseForgeIdView| p.id,
            ),
    {
        let mut scratch: Vec<Mod> = Vec::new();
        let (_, modrinth) = self.lookup_modrinth(&mut scratch);
        let (_, curseforge) = self.lookup_curseforge(&mut scratch);
        (modrinth, curseforge)
    }

    /// Every mod in the pack: the cached ones first (Modrinth, then
    /// CurseForge, in pack order), then each fetched mod that answers a
    /// request (Modrinth's answer, then CurseForge's, in the order they
    /// came). Each such fetched mod is cached under the key it was asked
    /// for; a fetched mod nobody asked for is left out and reported, as is
    /// each project asked for that did not come back. A site's answer counts
    /// only when something was asked of it.
    pub fn get_mods(&mut self, modrinth_fetched: Vec<Mod>, curseforge_fetched: Vec<Mod>) -> (r:
        Fetched)
        ensures
            final(self).modrinth() == old(self).modrinth(),
            final(self).curseforge() == old(self).curseforge(),
            mods_view(r.mods@) == run_mods(
                old(self).cache_view(),
                old(self).modrinth(),
                old(self).curseforge(),
                mods_view(modrinth_fetched@),
                mods_view(curseforge_fetched@),
            ),
            final(self).cache_view() == run_cache(
                old(self).cache_view(),
                old(self).modrinth(),
                old(self).curseforge(),
                mods_view(modrinth_fetched@),
                mods_view(curseforge_fetched@),
            ),
            ({
                let c0 = old(self).cache_view();
                let mk = requests(c0, old(self).modrinth(), modrinth_key_fn());
                let ck = requests(c0, old(self).curseforge(), curseforge_key_fn());
                &&& reports(r.modrinth, mk, effective(mk, mods_view(modrinth_fetched@)))
                &&& reports(r.curseforge, ck, effective(ck, mods_view(curseforge_fetched@)))
            }),
    {
        let mut mods: Vec<Mod> = Vec::new();
        let (mr_keys, _) = self.lookup_modrinth(&mut mods);
        let (cf_keys, _) = self.lookup_curseforge(&mut mods);
        proof {
            assert(mods_view(Seq::<Mod>::empty()) =~= Seq::<ModView>::empty());
        }
        let modrinth = if mr_keys.len() > 0 {
            let unrequested = absorb_fetched(&mut self.cache, &mr_keys, &modrinth_fetched, &mut mods);
            let missing = missing_ids(&mr_keys, &modrinth_fetched);
            SourceReport { unrequested, missing }
        } else {
            let r = empty_report();
            proof {
                lemma_empty_report(r, keys_view(mr_keys@));
                assert(accepted(keys_view(mr_keys@), Seq::empty()) =~= Seq::<ModView>::empty());
                assert(mods_view(mods@) =~= mods_view(mods@) + Seq::<ModView>::empty());
            }
            r
        };
        let curseforge = if cf_keys.len() > 0 {
            let unrequested = absorb_fetched(&mut self.cache, &cf_keys, &curseforge_fetched, &mut mods);
            let missing = missing_ids(&cf_keys, &curseforge_fetched);
            SourceReport { unrequested, missing }
        } else {
            let r = empty_report();
            proof {
                lemma_empty_report(r, keys_view(cf_keys@));
                assert(accepted(keys_view(cf_keys@), Seq::empty()) =~= Seq::<ModView>::empty());
                assert(mods_view(mods@) =~= mods_view(mods@) + Seq::<ModView>::empty());
            }
            r
        };
        Fetched { mods, modrinth, curseforge }
    }

    /// [`App::get_mods`], with the mods in alphabetical order by title
    /// (ignoring case), then by id.
    pub fn sorted_mods(&mut self, modrinth_fetched: Vec<Mod>, curseforge_fetched: Vec<Mod>) -> (r:
        Fetched)
        ensures
            final(self).modrinth() == old(self).modrinth(),
            final(self).curseforge() == old(self).curseforge(),
            mods_view(r.mods@) == sort_mods_spec(
                run_mods(
                    old(self).cache_view(),
                    old(self).modrinth(),
                    old(self).curseforge(),
                    mods_view(modrinth_fetched@),
                    mods_view(curseforge_fetched@),
                ),
            ),
            ascii_titles_in_order(mods_view(r.mods@)),
            final(self).cache_view() == run_cache(
                old(self).cache_view(),
                old(self).modrinth(),
                old(self).curseforge(),
                mods_view(modrinth_fetched@),
                mods_view(curseforge_fetched@),
            ),
            ({
                let c0 = old(self).cache_view();
                let mk = requests(c0, old(self).modrinth(), modrinth_key_fn());
                let ck = requests(c0, old(self).curseforge(), curseforge_key_fn());
                &&& reports(r.modrinth, mk, effective(mk, mods_view(modrinth_fetched@)))
                &&& reports(r.curseforge, ck, effective(ck, mods_view(curseforge_fetched@)))
            }),
    {
        let fetched = self.get_mods(modrinth_fetched, curseforge_fetched);
        let Fetched { mods, modrinth, curseforge } = fetched;
        Fetched { mods: sort_mods(mods), modrinth, curseforge }
    }

    /// Ends the run: drops from the cache every mod the pack no longer names
    /// (on either site), and answers how many were dropped. Writing the
    /// cache out afterwards is the caller's part.
    pub fn close(&mut self) -> (r: usize)
        ensures
            final(self).modrinth() == old(self).modrinth(),
            final(self).curseforge() == old(self).curseforge(),
            final(self).cache_view() == old(self).cache_view().restrict(installed(old(self).modrinth(), old(self).curseforge())),
            r == old(self).cache_view().len() - final(self).cache_view().len(),
    {
        let ghost ms = self.modrinth();
        let ghost cs = self.curseforge();
        let mut ids: Vec<String> = Vec::new();
        let mut i: usize = 0;
        while i < self.modrinth_mods.len()
            invariant
                i <= self.modrinth_mods@.len(),
                ms == self.modrinth(),
                strings_view(ids@) == ms.take(i as int).map_values(|p: ParsedModrinthIdView| p.id),
            decreases self.modrinth_mods.len() - i,
        {
            assert(ms[i as int] == self.modrinth_mods@[i as int]@);
            let ghost before = strings_view(ids@);
            ids.push(self.modrinth_mods[i].id.clone());
            assert(strings_view(ids@) =~= before.push(ms[i as int].id));
            assert(strings_view(ids@) =~= ms.take(i + 1).map_values(|p: ParsedModrinthIdView| p.id));
            i = i + 1;
        }
        let ghost n = ids@.len();
        assert(ms.take(ms.len() as int) =~= ms);
        let mut j: usize = 0;
        while j < self.curseforge_mods.len()
            invariant
                j <= self.curseforge_mods@.len(),
                cs == self.curseforge(),
                n == ms.len(),
                strings_view(ids@) == ms.map_values(|p: ParsedModrinthIdView| p.id) + cs.take(j as int).map_values(
                    |p: ParsedCurseForgeIdView| signed_decimal(p.id as int),
                ),
            decreases self.curseforge_mods.len() - j,
        {
            assert(cs[j as int] == self.curseforge_mods@[j as int]@);
            let ghost before = strings_view(ids@);
            ids.push(i32_to_string(self.curseforge_mods[j].id));
            assert(strings_view(ids@) =~= before.push(signed_decimal(cs[j as int].id as int)));
            assert(strings_view(ids@) =~= ms.map_values(|p: ParsedModrinthIdView| p.id) + cs.take(j + 1).map_values(
                |p: ParsedCurseForgeIdView| signed_decimal(p.id as int),
            ));
            j = j + 1;
        }
        assert(cs.take(cs.len() as int) =~= cs);
        proof {
            assert(id_set(ids@) =~= installed(ms, cs)) by {
                let sv = strings_view(ids@);
                assert(sv.len() == ms.len() + cs.len());
                assert forall|x: Seq<char>| id_set(ids@).contains(x) == installed(ms, cs).contains(x) by {
                    if id_set(ids@).contains(x) {
                        let a = choose|a: int| 0 <= a < ids@.len() && ids@[a]@ == x;
                        assert(sv[a] == x);
                        if a < ms.len() {
                            assert(ms[a].id == x);
                        } else {
                            assert(signed_decimal(cs[a - ms.len()].id as int) == x);
                        }
                    }
                    if exists|a: int| 0 <= a < ms.len() && ms[a].id == x {
                        let a = choose|a: int| 0 <= a < ms.len() && ms[a].id == x;
                        assert(sv[a] == x);
                    }
                    if exists|b: int| 0 <= b < cs.len() && signed_decimal(cs[b].id as int) == x {
                        let b = choose|b: int| 0 <= b < cs.len() && signed_decimal(cs[b].id as int) == x;
                        assert(sv[ms.len() + b] == x);
                    }
                }
            }
        }
        self.cache.retain_only(&ids)
    }
}

/// When the cache holds every mod of `ps` at its version, nothing of `ps`
/// is a miss, and every one is a hit.
pub proof fn lemma_all_hits<P>(c: CacheMap, ps: Seq<P>, key: spec_fn(P) -> CacheIdView)
    requires
        forall|i: int| 0 <= i < ps.len() ==> is_hit(c, #[trigger] key(ps[i])),
    ensures
        misses(c, ps, key).len() == 0,
        hits(c, ps, key).len() == ps.len(),
    decreases ps.len(),
{
    if ps.len() > 0 {
        let t = ps.drop_last();
        assert forall|i: int| 0 <= i < t.len() implies is_hit(c, #[trigger] key(t[i])) by {
            assert(key(t[i]) == key(ps[i]));
        }
        lemma_all_hits(c, t, key);
        assert(is_hit(c, key(ps[ps.len() - 1])));
    }
}

/// A run over a pack whose every mod is already cached at its pinned
/// version asks neither site for anything, lists the cached mods, and leaves
/// the cache as it was, whatever the sites would have answered.
pub proof fn lemma_all_cached_fetches_nothing(
    c: CacheMap,
    ms: Seq<ParsedModrinthIdView>,
    cs: Seq<ParsedCurseForgeIdView>,
    mr_fetched: Seq<ModView>,
    cf_fetched: Seq<ModView>,
)
    requires
        forall|i: int| 0 <= i < ms.len() ==> is_hit(c, #[trigger] modrinth_key(ms[i])),
        forall|i: int| 0 <= i < cs.len() ==> is_hit(c, #[trigger] curseforge_key(cs[i])),
    ensures
        requests(c, ms, modrinth_key_fn()).len() == 0,
        requests(c, cs, curseforge_key_fn()).len() == 0,
        run_mods(c, ms, cs, mr_fetched, cf_fetched) == hits(c, ms, modrinth_key_fn()) + hits(
            c,
            cs,
            curseforge_key_fn(),
        ),
        run_cache(c, ms, cs, mr_fetched, cf_fetched) == c,
{
    assert forall|i: int| 0 <= i < ms.len() implies is_hit(c, #[trigger] modrinth_key_fn()(ms[i])) by {
        assert(is_hit(c, modrinth_key(ms[i])));
    }
    assert forall|i: int| 0 <= i < cs.len() implies is_hit(c, #[trigger] curseforge_key_fn()(cs[i])) by {
        assert(is_hit(c, curseforge_key(cs[i])));
    }
    lemma_all_hits(c, ms, modrinth_key_fn());
    lemma_all_hits(c, cs, curseforge_key_fn());
    let mk = requests(c, ms, modrinth_key_fn());
    let ck = requests(c, cs, curseforge_key_fn());
    assert(effective(mk, mr_fetched) =~= Seq::<ModView>::empty());
    assert(effective(ck, cf_fetched) =~= Seq::<ModView>::empty());
    let h = hits(c, ms, modrinth_key_fn()) + hits(c, cs, curseforge_key_fn());
    assert(h + Seq::<ModView>::empty() + Seq::<ModView>::empty() =~= h);
}

/// Merging a site's answer only adds to the cache: every project cached
/// before is still cached, and every accepted mod is cached under its id,
/// at the version it was asked for.
pub proof fn lemma_absorb_grows(c: CacheMap, keys: Seq<CacheIdView>, fetched: Seq<ModView>)
    ensures
        forall|k: Seq<char>| c.contains_key(k) ==> #[trigger] absorb(c, keys, fetched).contains_key(k),
        forall|j: int|
            0 <= j < fetched.len() && requested(keys, #[trigger] fetched[j].id) is Some
                ==> absorb(c, keys, fetched).contains_key(fetched[j].id) && absorb(
                c,
                keys,
                fetched,
            )[fetched[j].id].cache_id == requested(keys, fetched[j].id)->0.cache_id,
    decreases fetched.len(),
{
    if fetched.len() > 0 {
        let t = fetched.drop_last();
        lemma_absorb_grows(c, keys, t);
        assert forall|j: int|
            0 <= j < fetched.len() && requested(keys, #[trigger] fetched[j].id) is Some implies absorb(
                c,
                keys,
                fetched,
            ).contains_key(fetched[j].id) && absorb(c, keys, fetched)[fetched[j].id].cache_id
            == requested(keys, fetched[j].id)->0.cache_id by {
            lemma_requested_id(keys, fetched.last().id);
            if j < fetched.len() - 1 {
                assert(t[j] == fetched[j]);
            }
        }
    }
}

/// Reading the cache after storing a mod under a key gives that mod back
/// for that key, and a miss for the same project at any other version.
pub proof fn lemma_cache_read_after_write(c: CacheMap, key: CacheIdView, data: ModView, other: Seq<char>)
    requires
        other != key.cache_id,
    ensures
        is_hit(c.insert(key.id, CachedMod { cache_id: key.cache_id, data }), key),
        c.insert(key.id, CachedMod { cache_id: key.cache_id, data })[key.id].data == data,
        !is_hit(
            c.insert(key.id, CachedMod { cache_id: key.cache_id, data }),
            CacheIdView { id: key.id, cache_id: other },
        ),
{
}

/// After closing, the cache holds only projects the pack still names, and
/// keeps each of those it held.
pub proof fn lemma_close_keeps_only_installed(
    c: CacheMap,
    ms: Seq<ParsedModrinthIdView>,
    cs: Seq<ParsedCurseForgeIdView>,
)
    ensures
        forall|k: Seq<char>|
            #[trigger] c.restrict(installed(ms, cs)).contains_key(k) <==> (c.contains_key(k)
                && installed(ms, cs).contains(k)),
{
}

/// A key [`requested`] finds is one of the keys, and one is found exactly
/// when some key carries the id.
pub proof fn lemma_requested_found(keys: Seq<CacheIdView>, id: Seq<char>)
    ensures
        requested(keys, id) matches Some(k) ==> exists|i: int| 0 <= i < keys.len() && keys[i] == k,
        requested(keys, id) is Some <==> exists|i: int| 0 <= i < keys.len() && keys[i].id == id,
    decreases keys.len(),
{
    if keys.len() > 0 {
        let t = keys.drop_last();
        lemma_requested_found(t, id);
        if keys.last().id != id {
            if requested(t, id) is Some {
                let i = choose|i: int| 0 <= i < t.len() && t[i] == requested(t, id)->0;
                assert(keys[i] == t[i]);
            }
            if exists|i: int| 0 <= i < keys.len() && keys[i].id == id {
                let i = choose|i: int| 0 <= i < keys.len() && keys[i].id == id;
                assert(t[i] == keys[i]);
            }
            if exists|i: int| 0 <= i < t.len() && t[i].id == id {
                let i = choose|i: int| 0 <= i < t.len() && t[i].id == id;
                assert(keys[i] == t[i]);
            }
        } else {
            assert(keys[keys.len() - 1] == keys.last());
        }
    }
}

/// A mod the cache lacks is asked for, and whatever is asked for is the key
/// of one of the mods.
pub proof fn lemma_requests_members<P>(c: CacheMap, ps: Seq<P>, key: spec_fn(P) -> CacheIdView)
    ensures
        forall|i: int|
            0 <= i < ps.len() && !is_hit(c, #[trigger] key(ps[i])) ==> exists|j: int|
                0 <= j < requests(c, ps, key).len() && requests(c, ps, key)[j] == key(ps[i]),
        forall|j: int|
            0 <= j < requests(c, ps, key).len() ==> exists|i: int|
                0 <= i < ps.len() && #[trigger] requests(c, ps, key)[j] == key(ps[i]),
    decreases ps.len(),
{
    if ps.len() > 0 {
        let t = ps.drop_last();
        lemma_requests_members(c, t, key);
        let rt = requests(c, t, key);
        let r = requests(c, ps, key);
        if is_hit(c, key(ps.last())) {
            assert(r == rt);
        } else {
            assert(r =~= rt.push(key(ps.last())));
        }
        assert forall|i: int|
            0 <= i < ps.len() && !is_hit(c, #[trigger] key(ps[i])) implies exists|j: int|
                0 <= j < r.len() && r[j] == key(ps[i]) by {
            if i < ps.len() - 1 {
                assert(t[i] == ps[i]);
                let j = choose|j: int| 0 <= j < rt.len() && rt[j] == key(t[i]);
                assert(r[j] == rt[j]);
            } else {
                assert(r[r.len() - 1] == key(ps[i]));
            }
        }
        assert forall|j: int| 0 <= j < r.len() implies exists|i: int|
            0 <= i < ps.len() && #[trigger] r[j] == key(ps[i]) by {
            if j < rt.len() {
                let i = choose|i: int| 0 <= i < t.len() && rt[j] == key(t[i]);
                assert(ps[i] == t[i]);
            } else {
                assert(r[j] == key(ps[ps.len() - 1]));
            }
        }
    }
}

/// Every key the pack names, Modrinth's then CurseForge's.
pub open spec fn pack_keys(ms: Seq<ParsedModrinthIdView>, cs: Seq<ParsedCurseForgeIdView>) -> Seq<
    CacheIdView,
> {
    ms.map_values(modrinth_key_fn()) + cs.map_values(curseforge_key_fn())
}

/// Keys that name the same project pin the same version.
pub open spec fn consistent(keys: Seq<CacheIdView>) -> bool {
    forall|i: int, j: int|
        0 <= i < keys.len() && 0 <= j < keys.len() && keys[i].id == keys[j].id ==> keys[i].cache_id
            == keys[j].cache_id
}

/// Merging an answer keeps a project's cached version when every key of
/// that project pins the same version.
pub proof fn lemma_absorb_keeps_version(
    c: CacheMap,
    keys: Seq<CacheIdView>,
    fetched: Seq<ModView>,
    x: Seq<char>,
    v: Seq<char>,
)
    requires
        forall|i: int| 0 <= i < keys.len() && keys[i].id == x ==> keys[i].cache_id == v,
        c.contains_key(x),
        c[x].cache_id == v,
    ensures
        absorb(c, keys, fetched).contains_key(x),
        absorb(c, keys, fetched)[x].cache_id == v,
    decreases fetched.len(),
{
    if fetched.len() > 0 {
        lemma_absorb_keeps_version(c, keys, fetched.drop_last(), x, v);
        let m = fetched.last();
        lemma_requested_found(keys, m.id);
        lemma_requested_id(keys, m.id);
    }
}

/// Each key a site was asked for is cached at its version once the site
/// has answered it, provided keys of one project pin one version.
proof fn lemma_answered_cached(
    c: CacheMap,
    keys: Seq<CacheIdView>,
    fetched: Seq<ModView>,
    k: CacheIdView,
)
    requires
        consistent(keys),
        exists|i: int| 0 <= i < keys.len() && keys[i] == k,
        exists|j: int| 0 <= j < fetched.len() && fetched[j].id == k.id,
    ensures
        is_hit(absorb(c, keys, fetched), k),
{
    let i = choose|i: int| 0 <= i < keys.len() && keys[i] == k;
    let j = choose|j: int| 0 <= j < fetched.len() && fetched[j].id == k.id;
    lemma_requested_found(keys, k.id);
    lemma_requested_id(keys, k.id);
    lemma_absorb_grows(c, keys, fetched);
    let found = requested(keys, k.id)->0;
    let a = choose|a: int| 0 <= a < keys.len() && keys[a] == found;
    assert(keys[a].id == keys[i].id);
}

/// Every key was answered: some fetched mod carries its project.
pub open spec fn answered(keys: Seq<CacheIdView>, fetched: Seq<ModView>) -> bool {
    forall|k: int|
        0 <= k < keys.len() ==> exists|j: int|
            0 <= j < fetched.len() && fetched[j].id == #[trigger] keys[k].id
}

/// No project asked for came back twice.
pub open spec fn answered_at_most_once(keys: Seq<CacheIdView>, fetched: Seq<ModView>) -> bool {
    forall|i: int, j: int|
        #![trigger fetched[i], fetched[j]]
        0 <= i < fetched.len() && 0 <= j < fetched.len() && fetched[i].id == fetched[j].id && (exists|a: int|
            0 <= a < keys.len() && keys[a].id == fetched[i].id) ==> i == j
}

/// Every project asked for came back exactly once.
pub open spec fn answered_once(keys: Seq<CacheIdView>, fetched: Seq<ModView>) -> bool {
    answered(keys, fetched) && answered_at_most_once(keys, fetched)
}

/// No two keys name the same project.
pub open spec fn distinct_ids(keys: Seq<CacheIdView>) -> bool {
    forall|a: int, b: int|
        #![trigger keys[a], keys[b]]
        0 <= a < keys.len() && 0 <= b < keys.len() && a != b ==> keys[a].id != keys[b].id
}

/// The mods a cache holds under the projects of `keys`, in order.
pub open spec fn stored(c: CacheMap, keys: Seq<CacheIdView>) -> Seq<ModView> {
    keys.map_values(|k: CacheIdView| c[k.id].data)
}

/// Each key asked of a site is a miss.
proof fn lemma_requests_miss<P>(c: CacheMap, ps: Seq<P>, key: spec_fn(P) -> CacheIdView)
    ensures
        forall|j: int| 0 <= j < requests(c, ps, key).len() ==> !is_hit(c, #[trigger] requests(c, ps, key)[j]),
    decreases ps.len(),
{
    if ps.len() > 0 {
        let t = ps.drop_last();
        lemma_requests_miss(c, t, key);
        if !is_hit(c, key(ps.last())) {
            assert(requests(c, ps, key) =~= requests(c, t, key).push(key(ps.last())));
        }
    }
}

/// Each of `keys` is one of `pk`.
pub open spec fn drawn_from(keys: Seq<CacheIdView>, pk: Seq<CacheIdView>) -> bool {
    forall|a: int| 0 <= a < keys.len() ==> exists|b: int| 0 <= b < pk.len() && pk[b] == #[trigger] keys[a]
}

/// The keys asked for a list of mods that sits at `off` in `pk` are keys of
/// `pk`.
proof fn lemma_requests_within<P>(
    c: CacheMap,
    ps: Seq<P>,
    key: spec_fn(P) -> CacheIdView,
    pk: Seq<CacheIdView>,
    off: int,
)
    requires
        0 <= off,
        off + ps.len() <= pk.len(),
        forall|i: int| 0 <= i < ps.len() ==> pk[off + i] == #[trigger] key(ps[i]),
    ensures
        drawn_from(requests(c, ps, key), pk),
{
    let r = requests(c, ps, key);
    lemma_requests_members(c, ps, key);
    assert forall|a: int| 0 <= a < r.len() implies exists|b: int| 0 <= b < pk.len() && pk[b] == #[trigger] r[a] by {
        let i = choose|i: int| 0 <= i < ps.len() && r[a] == key(ps[i]);
        assert(pk[off + i] == key(ps[i]));
    }
}

/// Each key asked of either site is one of the pack's keys.
proof fn lemma_requests_in_pack(c: CacheMap, ms: Seq<ParsedModrinthIdView>, cs: Seq<ParsedCurseForgeIdView>)
    ensures
        drawn_from(requests(c, ms, modrinth_key_fn()), pack_keys(ms, cs)),
        drawn_from(requests(c, cs, curseforge_key_fn()), pack_keys(ms, cs)),
{
    let pk = pack_keys(ms, cs);
    assert forall|i: int| 0 <= i < ms.len() implies pk[0 + i] == #[trigger] modrinth_key_fn()(ms[i]) by {}
    assert forall|i: int| 0 <= i < cs.len() implies pk[ms.len() + i] == #[trigger] curseforge_key_fn()(cs[i]) by {}
    lemma_requests_within(c, ms, modrinth_key_fn(), pk, 0);
    lemma_requests_within(c, cs, curseforge_key_fn(), pk, ms.len() as int);
}

/// Keys drawn from a consistent list are consistent, and none pins the
/// project of a key of the list at another version.
proof fn lemma_consistent_within(pk: Seq<CacheIdView>, keys: Seq<CacheIdView>)
    requires
        consistent(pk),
        drawn_from(keys, pk),
    ensures
        consistent(keys),
        forall|a: int, b: int|
            #![trigger keys[a], pk[b]]
            0 <= a < keys.len() && 0 <= b < pk.len() && keys[a].id == pk[b].id ==> keys[a].cache_id
                == pk[b].cache_id,
{
    assert forall|a: int, b: int|
        0 <= a < keys.len() && 0 <= b < keys.len() && keys[a].id == keys[b].id implies keys[a].cache_id
        == keys[b].cache_id by {
        let x = choose|x: int| 0 <= x < pk.len() && pk[x] == keys[a];
        let y = choose|y: int| 0 <= y < pk.len() && pk[y] == keys[b];
    }
    assert forall|a: int, b: int|
        #![trigger keys[a], pk[b]]
        0 <= a < keys.len() && 0 <= b < pk.len() && keys[a].id == pk[b].id implies keys[a].cache_id
        == pk[b].cache_id by {
        let x = choose|x: int| 0 <= x < pk.len() && pk[x] == keys[a];
    }
}

/// A key is cached at its version after two answers are merged in turn,
/// when it was cached before or one of the answers answered a request for
/// it, and no request pins its project at another version.
proof fn lemma_two_absorbs_hit(
    c: CacheMap,
    keys1: Seq<CacheIdView>,
    f1: Seq<ModView>,
    keys2: Seq<CacheIdView>,
    f2: Seq<ModView>,
    k: CacheIdView,
)
    requires
        consistent(keys1),
        consistent(keys2),
        forall|a: int| 0 <= a < keys1.len() && #[trigger] keys1[a].id == k.id ==> keys1[a].cache_id == k.cache_id,
        forall|a: int| 0 <= a < keys2.len() && #[trigger] keys2[a].id == k.id ==> keys2[a].cache_id == k.cache_id,
        is_hit(c, k) || ((exists|a: int| 0 <= a < keys1.len() && keys1[a] == k) && (exists|j: int|
            0 <= j < f1.len() && f1[j].id == k.id)) || ((exists|a: int| 0 <= a < keys2.len() && keys2[a] == k)
            && (exists|j: int| 0 <= j < f2.len() && f2[j].id == k.id)),
    ensures
        is_hit(absorb(absorb(c, keys1, f1), keys2, f2), k),
{
    let c1 = absorb(c, keys1, f1);
    if is_hit(c, k) {
        lemma_absorb_keeps_version(c, keys1, f1, k.id, k.cache_id);
    } else if (exists|a: int| 0 <= a < keys1.len() && keys1[a] == k) && (exists|j: int|
        0 <= j < f1.len() && f1[j].id == k.id) {
        lemma_answered_cached(c, keys1, f1, k);
    }
    if is_hit(c1, k) {
        lemma_absorb_keeps_version(c1, keys2, f2, k.id, k.cache_id);
    } else {
        lemma_answered_cached(c1, keys2, f2, k);
    }
}

/// One key of the pack is cached at its version after a run in which each
/// site answered every request, when keys of one project pin one version.
#[verifier::spinoff_prover]
proof fn lemma_pack_key_cached(
    c: CacheMap,
    ms: Seq<ParsedModrinthIdView>,
    cs: Seq<ParsedCurseForgeIdView>,
    mr_fetched: Seq<ModView>,
    cf_fetched: Seq<ModView>,
    b: int,
)
    requires
        consistent(pack_keys(ms, cs)),
        answered(requests(c, ms, modrinth_key_fn()), mr_fetched),
        answered(requests(c, cs, curseforge_key_fn()), cf_fetched),
        0 <= b < pack_keys(ms, cs).len(),
    ensures
        is_hit(run_cache(c, ms, cs, mr_fetched, cf_fetched), pack_keys(ms, cs)[b]),
{
    let mf = modrinth_key_fn();
    let cf = curseforge_key_fn();
    let pk = pack_keys(ms, cs);
    let mk = requests(c, ms, mf);
    let ck = requests(c, cs, cf);
    let emf = effective(mk, mr_fetched);
    let ecf = effective(ck, cf_fetched);
    let k = pk[b];
    lemma_requests_in_pack(c, ms, cs);
    lemma_consistent_within(pk, mk);
    lemma_consistent_within(pk, ck);
    assert forall|a: int| 0 <= a < mk.len() && #[trigger] mk[a].id == k.id implies mk[a].cache_id == k.cache_id by {
        assert(mk[a].id == pk[b].id);
    }
    assert forall|a: int| 0 <= a < ck.len() && #[trigger] ck[a].id == k.id implies ck[a].cache_id == k.cache_id by {
        assert(ck[a].id == pk[b].id);
    }
    if !is_hit(c, k) {
        if b < ms.len() {
            lemma_requests_members(c, ms, mf);
            assert(k == mf(ms[b]));
            let a = choose|a: int| 0 <= a < mk.len() && mk[a] == mf(ms[b]);
            assert(emf == mr_fetched);
            let j = choose|j: int| 0 <= j < mr_fetched.len() && mr_fetched[j].id == mk[a].id;
            assert(emf[j].id == k.id);
        } else {
            lemma_requests_members(c, cs, cf);
            let i = b - ms.len();
            assert(k == cf(cs[i]));
            let a = choose|a: int| 0 <= a < ck.len() && ck[a] == cf(cs[i]);
            assert(ecf == cf_fetched);
            let j = choose|j: int| 0 <= j < cf_fetched.len() && cf_fetched[j].id == ck[a].id;
            assert(ecf[j].id == k.id);
        }
    }
    lemma_two_absorbs_hit(c, mk, emf, ck, ecf, k);
}

/// After a run in which each site answered every request, every key of the
/// pack is cached at its version, when keys of one project pin one version.
proof fn lemma_run_cache_holds_pack(
    c: CacheMap,
    ms: Seq<ParsedModrinthIdView>,
    cs: Seq<ParsedCurseForgeIdView>,
    mr_fetched: Seq<ModView>,
    cf_fetched: Seq<ModView>,
)
    requires
        consistent(pack_keys(ms, cs)),
        answered(requests(c, ms, modrinth_key_fn()), mr_fetched),
        answered(requests(c, cs, curseforge_key_fn()), cf_fetched),
    ensures
        forall|i: int| 0 <= i < ms.len() ==> is_hit(run_cache(c, ms, cs, mr_fetched, cf_fetched), #[trigger] modrinth_key_fn()(ms[i])),
        forall|i: int| 0 <= i < cs.len() ==> is_hit(run_cache(c, ms, cs, mr_fetched, cf_fetched), #[trigger] curseforge_key_fn()(cs[i])),
{
    let pk = pack_keys(ms, cs);
    assert forall|i: int| 0 <= i < ms.len() implies is_hit(run_cache(c, ms, cs, mr_fetched, cf_fetched), #[trigger] modrinth_key_fn()(ms[i])) by {
        lemma_pack_key_cached(c, ms, cs, mr_fetched, cf_fetched, i);
        assert(pk[i] == modrinth_key_fn()(ms[i]));
    }
    assert forall|i: int| 0 <= i < cs.len() implies is_hit(run_cache(c, ms, cs, mr_fetched, cf_fetched), #[trigger] curseforge_key_fn()(cs[i])) by {
        lemma_pack_key_cached(c, ms, cs, mr_fetched, cf_fetched, ms.len() + i);
        assert(pk[ms.len() + i] == curseforge_key_fn()(cs[i]));
    }
}

/// After a run in which each site answered every request, and where mods
/// of one project pin one version, the cache holds every mod of the pack at
/// its version: the next run over the same pack asks neither site for
/// anything.
pub proof fn lemma_answered_run_needs_no_fetch(
    c: CacheMap,
    ms: Seq<ParsedModrinthIdView>,
    cs: Seq<ParsedCurseForgeIdView>,
    mr_fetched: Seq<ModView>,
    cf_fetched: Seq<ModView>,
)
    requires
        consistent(pack_keys(ms, cs)),
        answered(requests(c, ms, modrinth_key_fn()), mr_fetched),
        answered(requests(c, cs, curseforge_key_fn()), cf_fetched),
    ensures
        requests(run_cache(c, ms, cs, mr_fetched, cf_fetched), ms, modrinth_key_fn()).len() == 0,
        requests(run_cache(c, ms, cs, mr_fetched, cf_fetched), cs, curseforge_key_fn()).len() == 0,
{
    lemma_run_cache_holds_pack(c, ms, cs, mr_fetched, cf_fetched);
    let c2 = run_cache(c, ms, cs, mr_fetched, cf_fetched);
    lemma_all_hits(c2, ms, modrinth_key_fn());
    lemma_all_hits(c2, cs, curseforge_key_fn());
}

/// Merging an answer leaves alone a project nobody asked for.
proof fn lemma_absorb_other(c: CacheMap, keys: Seq<CacheIdView>, fetched: Seq<ModView>, x: Seq<char>)
    requires
        requested(keys, x) is None,
    ensures
        absorb(c, keys, fetched).contains_key(x) == c.contains_key(x),
        c.contains_key(x) ==> absorb(c, keys, fetched)[x] == c[x],
    decreases fetched.len(),
{
    if fetched.len() > 0 {
        lemma_absorb_other(c, keys, fetched.drop_last(), x);
        lemma_requested_id(keys, fetched.last().id);
    }
}

/// Merging an answer in which a requested project comes once stores that
/// mod under it.
proof fn lemma_absorb_answer(c: CacheMap, keys: Seq<CacheIdView>, fetched: Seq<ModView>, j: int)
    requires
        0 <= j < fetched.len(),
        requested(keys, fetched[j].id) is Some,
        forall|i: int| 0 <= i < fetched.len() && #[trigger] fetched[i].id == fetched[j].id ==> i == j,
    ensures
        absorb(c, keys, fetched).contains_key(fetched[j].id),
        absorb(c, keys, fetched)[fetched[j].id].data == fetched[j],
    decreases fetched.len(),
{
    let t = fetched.drop_last();
    if j < fetched.len() - 1 {
        assert(fetched[fetched.len() - 1].id != fetched[j].id);
        assert forall|i: int| 0 <= i < t.len() && #[trigger] t[i].id == t[j].id implies i == j by {
            assert(fetched[i].id == t[i].id);
        }
        lemma_absorb_answer(c, keys, t, j);
    }
}

/// What [`accepted`] holds: the fetched mods that answer a request, each
/// once when no requested project came back twice.
#[verifier::spinoff_prover]
proof fn lemma_accepted_members(keys: Seq<CacheIdView>, fetched: Seq<ModView>)
    requires
        answered_at_most_once(keys, fetched),
    ensures
        forall|y: ModView|
            accepted(keys, fetched).contains(y) <==> (exists|j: int|
                0 <= j < fetched.len() && fetched[j] == y) && requested(keys, y.id) is Some,
        accepted(keys, fetched).no_duplicates(),
    decreases fetched.len(),
{
    if fetched.len() > 0 {
        let t = fetched.drop_last();
        let n = fetched.len() - 1;
        assert forall|i: int, j: int|
            #![trigger t[i], t[j]]
            0 <= i < t.len() && 0 <= j < t.len() && t[i].id == t[j].id && (exists|a: int|
                0 <= a < keys.len() && keys[a].id == t[i].id) implies i == j by {
            assert(fetched[i] == t[i] && fetched[j] == t[j]);
        }
        lemma_accepted_members(keys, t);
        let rest = accepted(keys, t);
        let m = fetched.last();
        assert(fetched[n] == m);
        assert forall|y: ModView|
            accepted(keys, fetched).contains(y) <==> (exists|j: int|
                0 <= j < fetched.len() && fetched[j] == y) && requested(keys, y.id) is Some by {
            if exists|j: int| 0 <= j < fetched.len() && fetched[j] == y {
                let j = choose|j: int| 0 <= j < fetched.len() && fetched[j] == y;
                if j < n {
                    assert(t[j] == y);
                }
            }
            if exists|j: int| 0 <= j < t.len() && t[j] == y {
                let j = choose|j: int| 0 <= j < t.len() && t[j] == y;
                assert(fetched[j] == y);
            }
            if requested(keys, m.id) is Some {
                assert(accepted(keys, fetched) == rest.push(m));
                if rest.push(m).contains(y) && y != m {
                    let k = choose|k: int| 0 <= k < rest.push(m).len() && rest.push(m)[k] == y;
                    assert(rest[k] == y);
                }
                if y == m {
                    assert(rest.push(m)[rest.len() as int] == y);
                }
                if rest.contains(y) {
                    let k = choose|k: int| 0 <= k < rest.len() && rest[k] == y;
                    assert(rest.push(m)[k] == y);
                }
            }
        }
        if requested(keys, m.id) is Some {
            if rest.contains(m) {
                let j = choose|j: int| 0 <= j < t.len() && t[j] == m;
                lemma_requested_found(keys, m.id);
                assert(fetched[j] == m);
                assert(fetched[j].id == fetched[n].id);
            }
            assert(accepted(keys, fetched) == rest.push(m));
            assert forall|a: int, b: int|
                0 <= a < rest.push(m).len() && 0 <= b < rest.push(m).len() && a != b implies rest.push(m)[a]
                != rest.push(m)[b] by {
                if a < rest.len() && b < rest.len() {
                    assert(rest[a] != rest[b]);
                } else if a < rest.len() {
                    assert(rest.contains(rest[a]));
                } else if b < rest.len() {
                    assert(rest.contains(rest[b]));
                }
            }
        }
    }
}

/// Two lists without repeats that hold the same values are permutations
/// of each other.
proof fn lemma_same_members_same_multiset(s: Seq<ModView>, t: Seq<ModView>)
    requires
        s.no_duplicates(),
        t.no_duplicates(),
        forall|y: ModView| s.contains(y) <==> t.contains(y),
    ensures
        s.to_multiset() =~= t.to_multiset(),
{
    broadcast use vstd::seq_lib::group_to_multiset_ensures;

    s.lemma_multiset_has_no_duplicates();
    t.lemma_multiset_has_no_duplicates();
    assert forall|y: ModView| s.to_multiset().count(y) == t.to_multiset().count(y) by {
        if s.contains(y) {
            assert(s.to_multiset().contains(y));
            assert(t.to_multiset().contains(y));
        }
    }
}

/// The mods a cache stores under requests that each came back once are
/// the mods the answer contributed, up to order.
#[verifier::spinoff_prover]
proof fn lemma_stored_is_accepted(cm: CacheMap, keys: Seq<CacheIdView>, fetched: Seq<ModView>)
    requires
        distinct_ids(keys),
        answered_once(keys, fetched),
        forall|a: int, j: int|
            #![trigger keys[a], fetched[j]]
            0 <= a < keys.len() && 0 <= j < fetched.len() && fetched[j].id == keys[a].id ==> cm[keys[a].id].data
                == fetched[j],
    ensures
        stored(cm, keys).to_multiset() =~= accepted(keys, fetched).to_multiset(),
{
    let s = stored(cm, keys);
    let t = accepted(keys, fetched);
    lemma_accepted_members(keys, fetched);
    assert forall|a: int| 0 <= a < keys.len() implies #[trigger] s[a].id == keys[a].id && exists|j: int|
        0 <= j < fetched.len() && fetched[j] == s[a] by {
        let j = choose|j: int| 0 <= j < fetched.len() && fetched[j].id == keys[a].id;
        assert(cm[keys[a].id].data == fetched[j]);
    }
    assert(s.no_duplicates()) by {
        assert forall|a: int, b: int| 0 <= a < s.len() && 0 <= b < s.len() && a != b implies s[a] != s[b] by {
            assert(keys[a].id != keys[b].id);
            assert(s[a].id == keys[a].id);
            assert(s[b].id == keys[b].id);
        }
    }
    assert forall|y: ModView| s.contains(y) <==> t.contains(y) by {
        if s.contains(y) {
            let a = choose|a: int| 0 <= a < s.len() && s[a] == y;
            assert(s[a].id == keys[a].id);
            lemma_requested_found(keys, y.id);
        }
        if t.contains(y) {
            let j = choose|j: int| 0 <= j < fetched.len() && fetched[j] == y;
            lemma_requested_found(keys, y.id);
            let a = choose|a: int| 0 <= a < keys.len() && keys[a].id == y.id;
            assert(cm[keys[a].id].data == fetched[j]);
            assert(s[a] == y);
        }
    }
    lemma_same_members_same_multiset(s, t);
}

/// Rereading the pack's keys in a cache that kept what was cached before
/// and now holds every key gives the earlier hits and the newly stored
/// mods, up to order.
#[verifier::spinoff_prover]
proof fn lemma_hits_refresh<P>(c: CacheMap, c2: CacheMap, ps: Seq<P>, key: spec_fn(P) -> CacheIdView)
    requires
        forall|i: int| 0 <= i < ps.len() ==> is_hit(c2, #[trigger] key(ps[i])),
        forall|i: int|
            0 <= i < ps.len() && is_hit(c, #[trigger] key(ps[i])) ==> c2[key(ps[i]).id].data
                == c[key(ps[i]).id].data,
    ensures
        hits(c2, ps, key).to_multiset() =~= hits(c, ps, key).to_multiset().add(
            stored(c2, requests(c, ps, key)).to_multiset(),
        ),
    decreases ps.len(),
{
    broadcast use vstd::seq_lib::group_to_multiset_ensures;
    broadcast use vstd::multiset::group_multiset_axioms;

    if ps.len() == 0 {
        assert(stored(c2, requests(c, ps, key)) =~= Seq::<ModView>::empty());
    } else {
        let t = ps.drop_last();
        let n = ps.len() - 1;
        assert forall|i: int| 0 <= i < t.len() implies is_hit(c2, #[trigger] key(t[i])) by {
            assert(key(t[i]) == key(ps[i]));
        }
        assert forall|i: int|
            0 <= i < t.len() && is_hit(c, #[trigger] key(t[i])) implies c2[key(t[i]).id].data
            == c[key(t[i]).id].data by {
            assert(key(t[i]) == key(ps[i]));
        }
        lemma_hits_refresh(c, c2, t, key);
        let k = key(ps.last());
        assert(key(ps[n]) == k);
        assert(is_hit(c2, k));
        if is_hit(c, k) {
            assert(requests(c, ps, key) == requests(c, t, key));
        } else {
            assert(requests(c, ps, key) =~= requests(c, t, key).push(k));
            assert(stored(c2, requests(c, ps, key)) =~= stored(c2, requests(c, t, key)).push(c2[k.id].data));
        }
    }
}

/// A pack list that names each project once gives requests that name
/// each project once.
#[verifier::spinoff_prover]
proof fn lemma_requests_distinct<P>(c: CacheMap, ps: Seq<P>, key: spec_fn(P) -> CacheIdView)
    requires
        distinct_ids(ps.map_values(key)),
    ensures
        distinct_ids(requests(c, ps, key)),
    decreases ps.len(),
{
    if ps.len() > 0 {
        let t = ps.drop_last();
        let n = ps.len() - 1;
        assert forall|a: int, b: int|
            #![trigger t.map_values(key)[a], t.map_values(key)[b]]
            0 <= a < t.len() && 0 <= b < t.len() && a != b implies t.map_values(key)[a].id
            != t.map_values(key)[b].id by {
            assert(t.map_values(key)[a] == ps.map_values(key)[a]);
            assert(t.map_values(key)[b] == ps.map_values(key)[b]);
        }
        lemma_requests_distinct(c, t, key);
        lemma_requests_members(c, t, key);
        let rt = requests(c, t, key);
        let k = key(ps.last());
        if !is_hit(c, k) {
            let r = requests(c, ps, key);
            assert(r =~= rt.push(k));
            assert forall|a: int, b: int|
                #![trigger r[a], r[b]]
                0 <= a < r.len() && 0 <= b < r.len() && a != b implies r[a].id != r[b].id by {
                if a < rt.len() && b < rt.len() {
                    assert(rt[a].id != rt[b].id);
                } else if a < rt.len() {
                    let i = choose|i: int| 0 <= i < t.len() && #[trigger] rt[a] == key(t[i]);
                    assert(ps.map_values(key)[i] == key(t[i]));
                    assert(ps.map_values(key)[n] == k);
                } else if b < rt.len() {
                    let i = choose|i: int| 0 <= i < t.len() && #[trigger] rt[b] == key(t[i]);
                    assert(ps.map_values(key)[i] == key(t[i]));
                    assert(ps.map_values(key)[n] == k);
                }
            }
        }
    }
}

/// A cached mod of the pack is left as it was by a run over a pack that
/// names each project once.
proof fn lemma_hit_kept(
    c: CacheMap,
    ms: Seq<ParsedModrinthIdView>,
    cs: Seq<ParsedCurseForgeIdView>,
    mr_fetched: Seq<ModView>,
    cf_fetched: Seq<ModView>,
    b: int,
)
    requires
        distinct_ids(pack_keys(ms, cs)),
        0 <= b < pack_keys(ms, cs).len(),
        is_hit(c, pack_keys(ms, cs)[b]),
    ensures
        run_cache(c, ms, cs, mr_fetched, cf_fetched).contains_key(pack_keys(ms, cs)[b].id),
        run_cache(c, ms, cs, mr_fetched, cf_fetched)[pack_keys(ms, cs)[b].id] == c[pack_keys(ms, cs)[b].id],
{
    let pk = pack_keys(ms, cs);
    let mk = requests(c, ms, modrinth_key_fn());
    let ck = requests(c, cs, curseforge_key_fn());
    let x = pk[b].id;
    lemma_requests_in_pack(c, ms, cs);
    lemma_requests_miss(c, ms, modrinth_key_fn());
    lemma_requests_miss(c, cs, curseforge_key_fn());
    lemma_requested_found(mk, x);
    lemma_requested_found(ck, x);
    if requested(mk, x) is Some {
        let a = choose|a: int| 0 <= a < mk.len() && mk[a].id == x;
        let y = choose|y: int| 0 <= y < pk.len() && pk[y] == mk[a];
        assert(y == b);
        assert(!is_hit(c, mk[a]));
    }
    if requested(ck, x) is Some {
        let a = choose|a: int| 0 <= a < ck.len() && ck[a].id == x;
        let y = choose|y: int| 0 <= y < pk.len() && pk[y] == ck[a];
        assert(y == b);
        assert(!is_hit(c, ck[a]));
    }
    let c1 = absorb(c, mk, effective(mk, mr_fetched));
    lemma_absorb_other(c, mk, effective(mk, mr_fetched), x);
    lemma_absorb_other(c1, ck, effective(ck, cf_fetched), x);
}

/// After the run, each Modrinth request holds the mod that answered it.
proof fn lemma_modrinth_answers_stored(
    c: CacheMap,
    ms: Seq<ParsedModrinthIdView>,
    cs: Seq<ParsedCurseForgeIdView>,
    mr_fetched: Seq<ModView>,
    cf_fetched: Seq<ModView>,
)
    requires
        distinct_ids(pack_keys(ms, cs)),
        answered_once(requests(c, ms, modrinth_key_fn()), mr_fetched),
    ensures
        ({
            let mk = requests(c, ms, modrinth_key_fn());
            let emf = effective(mk, mr_fetched);
            forall|a: int, j: int|
                #![trigger mk[a], emf[j]]
                0 <= a < mk.len() && 0 <= j < emf.len() && emf[j].id == mk[a].id ==> run_cache(
                    c,
                    ms,
                    cs,
                    mr_fetched,
                    cf_fetched,
                )[mk[a].id].data == emf[j]
        }),
{
    let pk = pack_keys(ms, cs);
    let mk = requests(c, ms, modrinth_key_fn());
    let ck = requests(c, cs, curseforge_key_fn());
    let emf = effective(mk, mr_fetched);
    let c1 = absorb(c, mk, emf);
    assert forall|a: int, j: int|
        #![trigger mk[a], emf[j]]
        0 <= a < mk.len() && 0 <= j < emf.len() && emf[j].id == mk[a].id implies run_cache(
            c,
            ms,
            cs,
            mr_fetched,
            cf_fetched,
        )[mk[a].id].data == emf[j] by {
        let x = mk[a].id;
        assert(emf == mr_fetched);
        lemma_requested_found(mk, x);
        assert forall|i: int| 0 <= i < emf.len() && #[trigger] emf[i].id == emf[j].id implies i == j by {
            assert(mr_fetched[i] == emf[i] && mr_fetched[j] == emf[j]);
        }
        lemma_absorb_answer(c, mk, emf, j);
        lemma_requested_found(ck, x);
        if requested(ck, x) is Some {
            lemma_requests_members(c, ms, modrinth_key_fn());
            lemma_requests_members(c, cs, curseforge_key_fn());
            let d = choose|d: int| 0 <= d < ck.len() && ck[d].id == x;
            let y = choose|y: int| 0 <= y < cs.len() && ck[d] == curseforge_key_fn()(cs[y]);
            let z = choose|z: int| 0 <= z < ms.len() && mk[a] == modrinth_key_fn()(ms[z]);
            assert(pk[ms.len() + y] == curseforge_key_fn()(cs[y]));
            assert(pk[z] == modrinth_key_fn()(ms[z]));
            assert(pk[ms.len() + y].id == pk[z].id);
        }
        lemma_absorb_other(c1, ck, effective(ck, cf_fetched), x);
    }
}

/// After the run, each CurseForge request holds the mod that answered it.
proof fn lemma_curseforge_answers_stored(
    c: CacheMap,
    ms: Seq<ParsedModrinthIdView>,
    cs: Seq<ParsedCurseForgeIdView>,
    mr_fetched: Seq<ModView>,
    cf_fetched: Seq<ModView>,
)
    requires
        answered_once(requests(c, cs, curseforge_key_fn()), cf_fetched),
    ensures
        ({
            let ck = requests(c, cs, curseforge_key_fn());
            let ecf = effective(ck, cf_fetched);
            forall|a: int, j: int|
                #![trigger ck[a], ecf[j]]
                0 <= a < ck.len() && 0 <= j < ecf.len() && ecf[j].id == ck[a].id ==> run_cache(
                    c,
                    ms,
                    cs,
                    mr_fetched,
                    cf_fetched,
                )[ck[a].id].data == ecf[j]
        }),
{
    let mk = requests(c, ms, modrinth_key_fn());
    let ck = requests(c, cs, curseforge_key_fn());
    let ecf = effective(ck, cf_fetched);
    let c1 = absorb(c, mk, effective(mk, mr_fetched));
    assert forall|a: int, j: int|
        #![trigger ck[a], ecf[j]]
        0 <= a < ck.len() && 0 <= j < ecf.len() && ecf[j].id == ck[a].id implies run_cache(
            c,
            ms,
            cs,
            mr_fetched,
            cf_fetched,
        )[ck[a].id].data == ecf[j] by {
        assert(ecf == cf_fetched);
        lemma_requested_found(ck, ck[a].id);
        assert forall|i: int| 0 <= i < ecf.len() && #[trigger] ecf[i].id == ecf[j].id implies i == j by {
            assert(cf_fetched[i] == ecf[i] && cf_fetched[j] == ecf[j]);
        }
        lemma_absorb_answer(c1, ck, ecf, j);
    }
}

/// A run repeated after one in which each site answered every request
/// exactly once, over a pack that names each project once, asks neither
/// site for anything, leaves the cache as it is, and lists the same mods as
/// the first run, up to order.
#[verifier::spinoff_prover]
pub proof fn lemma_second_run_same_mods(
    c: CacheMap,
    ms: Seq<ParsedModrinthIdView>,
    cs: Seq<ParsedCurseForgeIdView>,
    mr_fetched: Seq<ModView>,
    cf_fetched: Seq<ModView>,
    mr_again: Seq<ModView>,
    cf_again: Seq<ModView>,
)
    requires
        distinct_ids(pack_keys(ms, cs)),
        answered_once(requests(c, ms, modrinth_key_fn()), mr_fetched),
        answered_once(requests(c, cs, curseforge_key_fn()), cf_fetched),
    ensures
        ({
            let c2 = run_cache(c, ms, cs, mr_fetched, cf_fetched);
            &&& requests(c2, ms, modrinth_key_fn()).len() == 0
            &&& requests(c2, cs, curseforge_key_fn()).len() == 0
            &&& run_cache(c2, ms, cs, mr_again, cf_again) == c2
            &&& run_mods(c2, ms, cs, mr_again, cf_again).to_multiset() == run_mods(
                c,
                ms,
                cs,
                mr_fetched,
                cf_fetched,
            ).to_multiset()
        }),
{
    broadcast use vstd::multiset::group_multiset_axioms;

    let mf = modrinth_key_fn();
    let cf = curseforge_key_fn();
    let pk = pack_keys(ms, cs);
    let mk = requests(c, ms, mf);
    let ck = requests(c, cs, cf);
    let c2 = run_cache(c, ms, cs, mr_fetched, cf_fetched);
    assert(consistent(pk)) by {
        assert forall|i: int, j: int|
            0 <= i < pk.len() && 0 <= j < pk.len() && pk[i].id == pk[j].id implies pk[i].cache_id
            == pk[j].cache_id by {
            if i != j {
                assert(pk[i].id != pk[j].id);
            }
        }
    }
    lemma_run_cache_holds_pack(c, ms, cs, mr_fetched, cf_fetched);
    assert forall|i: int| 0 <= i < ms.len() implies is_hit(c2, #[trigger] modrinth_key(ms[i])) by {
        assert(is_hit(c2, mf(ms[i])));
    }
    assert forall|i: int| 0 <= i < cs.len() implies is_hit(c2, #[trigger] curseforge_key(cs[i])) by {
        assert(is_hit(c2, cf(cs[i])));
    }
    lemma_all_cached_fetches_nothing(c2, ms, cs, mr_again, cf_again);
    // Mods cached before the run keep their data.
    assert forall|i: int| 0 <= i < ms.len() && is_hit(c, #[trigger] mf(ms[i])) implies c2[mf(
        ms[i],
    ).id].data == c[mf(ms[i]).id].data by {
        assert(pk[i] == mf(ms[i]));
        lemma_hit_kept(c, ms, cs, mr_fetched, cf_fetched, i);
    }
    assert forall|i: int| 0 <= i < cs.len() && is_hit(c, #[trigger] cf(cs[i])) implies c2[cf(
        cs[i],
    ).id].data == c[cf(cs[i]).id].data by {
        assert(pk[ms.len() + i] == cf(cs[i]));
        lemma_hit_kept(c, ms, cs, mr_fetched, cf_fetched, ms.len() + i);
    }
    lemma_hits_refresh(c, c2, ms, mf);
    lemma_hits_refresh(c, c2, cs, cf);
    // The newly stored mods are the ones each answer contributed.
    lemma_requests_in_pack(c, ms, cs);
    assert(distinct_ids(ms.map_values(mf))) by {
        assert forall|a: int, b: int|
            #![trigger ms.map_values(mf)[a], ms.map_values(mf)[b]]
            0 <= a < ms.len() && 0 <= b < ms.len() && a != b implies ms.map_values(mf)[a].id
            != ms.map_values(mf)[b].id by {
            assert(pk[a] == ms.map_values(mf)[a] && pk[b] == ms.map_values(mf)[b]);
        }
    }
    assert(distinct_ids(cs.map_values(cf))) by {
        assert forall|a: int, b: int|
            #![trigger cs.map_values(cf)[a], cs.map_values(cf)[b]]
            0 <= a < cs.len() && 0 <= b < cs.len() && a != b implies cs.map_values(cf)[a].id
            != cs.map_values(cf)[b].id by {
            assert(pk[ms.len() + a] == cs.map_values(cf)[a]);
            assert(pk[ms.len() + b] == cs.map_values(cf)[b]);
        }
    }
    lemma_requests_distinct(c, ms, mf);
    lemma_requests_distinct(c, cs, cf);
    let emf = effective(mk, mr_fetched);
    let ecf = effective(ck, cf_fetched);
    lemma_modrinth_answers_stored(c, ms, cs, mr_fetched, cf_fetched);
    lemma_curseforge_answers_stored(c, ms, cs, mr_fetched, cf_fetched);
    if mk.len() > 0 {
        assert(emf == mr_fetched);
        lemma_stored_is_accepted(c2, mk, emf);
    } else {
        assert(stored(c2, mk) =~= Seq::<ModView>::empty());
        assert(accepted(mk, emf) =~= Seq::<ModView>::empty());
    }
    if ck.len() > 0 {
        assert(ecf == cf_fetched);
        lemma_stored_is_accepted(c2, ck, ecf);
    } else {
        assert(stored(c2, ck) =~= Seq::<ModView>::empty());
        assert(accepted(ck, ecf) =~= Seq::<ModView>::empty());
    }
    // Put the pieces together.
    let hm = hits(c, ms, mf);
    let hc = hits(c, cs, cf);
    let am = accepted(mk, emf);
    let ac = accepted(ck, ecf);
    vstd::seq_lib::lemma_multiset_commutative(hm + hc + am, ac);
    vstd::seq_lib::lemma_multiset_commutative(hm + hc, am);
    vstd::seq_lib::lemma_multiset_commutative(hm, hc);
    vstd::seq_lib::lemma_multiset_commutative(hits(c2, ms, mf), hits(c2, cs, cf));
    assert(run_mods(c2, ms, cs, mr_again, cf_again).to_multiset() =~= run_mods(
        c,
        ms,
        cs,
        mr_fetched,
        cf_fetched,
    ).to_multiset());
}

} // verus!
