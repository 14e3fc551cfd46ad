//! packwiz's own `pack.toml`: the pack-level metadata beside the metafiles.

use vstd::prelude::*;

use crate::request::opt_view;
use crate::order::{lemma_seq_lt_irreflexive, lemma_seq_lt_transitive};
use crate::text::{seq_lt, str_eq, str_lt};

verus! {

/// The name of the file this describes.
pub const PACK_FILE_NAME: &'static str = "pack.toml";

/// `pack.toml`.
pub struct Pack {
    pub name: String,
    pub author: Option<String>,
    pub version: Option<String>,
    /// e.g. `packwiz:1.1.0`.
    pub pack_format: Option<String>,
    pub versions: PackVersions,
}

/// `[versions]`: `minecraft`, plus one key per loader, where the key name is
/// the loader (`fabric`, `forge`, `quilt`, `neoforge`). Every key other
/// than `minecraft` is collected as a loader, in key order, so a new loader
/// needs no code change.
pub struct PackVersions {
    pub minecraft: Option<String>,
    pub loaders: Vec<(String, String)>,
}

/// [`PackVersions`] as plain values.
pub struct PackVersionsView {
    pub minecraft: Option<Seq<char>>,
    pub loaders: Seq<(Seq<char>, Seq<char>)>,
}

/// [`Pack`] as plain values.
pub struct PackView {
    pub name: Seq<char>,
    pub author: Option<Seq<char>>,
    pub version: Option<Seq<char>>,
    pub pack_format: Option<Seq<char>>,
    pub versions: PackVersionsView,
}

impl View for PackVersions {
    type V = PackVersionsView;

    open spec fn view(&self) -> PackVersionsView {
        PackVersionsView {
            minecraft: opt_view(self.minecraft),
            loaders: self.loaders@.map_values(|e: (String, String)| (e.0@, e.1@)),
        }
    }
}

impl View for Pack {
    type V = PackView;

    open spec fn view(&self) -> PackView {
        PackView {
            name: self.name@,
            author: opt_view(self.author),
            version: opt_view(self.version),
            pack_format: opt_view(self.pack_format),
            versions: self.versions@,
        }
    }
}

/// The loader table is what reading `[versions]` gives: keys in strictly
/// increasing order, none of them `minecraft`.
pub open spec fn loaders_wf(v: PackVersionsView) -> bool {
    &&& forall|i: int, j: int|
        0 <= i < j < v.loaders.len() ==> seq_lt(v.loaders[i].0, v.loaders[j].0)
    &&& forall|i: int| 0 <= i < v.loaders.len() ==> v.loaders[i].0 != "minecraft"@
}

/// The loader among `entries`: of those whose key is not `minecraft`, the
/// one whose key sorts first (the earliest, among equal keys).
pub open spec fn least_loader(entries: Seq<(Seq<char>, Seq<char>)>) -> Option<(Seq<char>, Seq<char>)>
    decreases entries.len(),
{
    if entries.len() == 0 {
        None
    } else {
        let rest = least_loader(entries.drop_last());
        let e = entries.last();
        if e.0 == "minecraft"@ {
            rest
        } else {
            match rest {
                None => Some(e),
                Some(best) => if seq_lt(e.0, best.0) {
                    Some(e)
                } else {
                    Some(best)
                },
            }
        }
    }
}

/// The loader a pack names: the loader key that sorts first, as the first
/// entry of the sorted `[versions]` table other than `minecraft`.
pub open spec fn loader_of(v: PackVersionsView) -> Option<(Seq<char>, Seq<char>)> {
    least_loader(v.loaders)
}

impl PackVersions {
    /// The loader and its version, if the pack names one.
    pub fn loader(&self) -> (r: Option<(&str, &str)>)
        ensures
            match r {
                Some((name, version)) => loader_of(self@) == Some((name@, version@)),
                None => loader_of(self@) is None,
            },
    {
        let ghost entries = self@.loaders;
        let mut best: Option<usize> = None;
        let mut i: usize = 0;
        assert(entries.take(0) =~= Seq::<(Seq<char>, Seq<char>)>::empty());
        while i < self.loaders.len()
            invariant
                entries == self@.loaders,
                entries.len() == self.loaders@.len(),
                i <= entries.len(),
                match best {
                    Some(b) => b < i && least_loader(entries.take(i as int)) == Some(entries[b as int]),
                    None => least_loader(entries.take(i as int)) is None,
                },
            decreases self.loaders.len() - i,
        {
            let e = &self.loaders[i];
            proof {
                assert(entries.take(i + 1).drop_last() =~= entries.take(i as int));
                assert(entries.take(i + 1).last() == entries[i as int]);
                assert(entries[i as int] == (e.0@, e.1@));
                reveal_strlit("minecraft");
            }
            if !str_eq(e.0.as_str(), "minecraft") {
                match best {
                    None => {
                        best = Some(i);
                    },
                    Some(b) => {
                        assert(entries[b as int] == (self.loaders@[b as int].0@, self.loaders@[b as int].1@));
                        if str_lt(e.0.as_str(), self.loaders[b].0.as_str()) {
                            best = Some(i);
                        }
                    },
                }
            }
            i = i + 1;
        }
        assert(entries.take(entries.len() as int) =~= entries);
        match best {
            Some(b) => {
                let e = &self.loaders[b];
                assert(entries[b as int] == (e.0@, e.1@));
                Some((e.0.as_str(), e.1.as_str()))
            },
            None => None,
        }
    }
}

/// The loader is one of the table's entries, never `minecraft`, and no
/// other loader's key sorts before it.
pub proof fn lemma_loader_is_least(v: PackVersionsView)
    ensures
        loader_of(v) matches Some(l) ==> {
            &&& l.0 != "minecraft"@
            &&& exists|i: int| 0 <= i < v.loaders.len() && v.loaders[i] == l
            &&& forall|j: int|
                0 <= j < v.loaders.len() && v.loaders[j].0 != "minecraft"@ ==> !seq_lt(
                    #[trigger] v.loaders[j].0,
                    l.0,
                )
        },
        loader_of(v) is None <==> forall|j: int| 0 <= j < v.loaders.len() ==> v.loaders[j].0 == "minecraft"@,
{
    lemma_least_loader(v.loaders);
}

proof fn lemma_least_loader(s: Seq<(Seq<char>, Seq<char>)>)
    ensures
        least_loader(s) matches Some(l) ==> {
            &&& l.0 != "minecraft"@
            &&& exists|i: int| 0 <= i < s.len() && s[i] == l
            &&& forall|j: int| 0 <= j < s.len() && s[j].0 != "minecraft"@ ==> !seq_lt(#[trigger] s[j].0, l.0)
        },
        least_loader(s) is None <==> forall|j: int| 0 <= j < s.len() ==> s[j].0 == "minecraft"@,
    decreases s.len(),
{
    if s.len() > 0 {
        let t = s.drop_last();
        lemma_least_loader(t);
        let e = s.last();
        assert forall|j: int| 0 <= j < t.len() implies t[j] == s[j] by {}
        match least_loader(t) {
            Some(b) => {
                let i = choose|i: int| 0 <= i < t.len() && t[i] == b;
                assert(s[i] == b);
                if e.0 != "minecraft"@ && seq_lt(e.0, b.0) {
                    assert(s[s.len() - 1] == e);
                    assert forall|j: int| 0 <= j < s.len() && s[j].0 != "minecraft"@ implies !seq_lt(
                        #[trigger] s[j].0,
                        e.0,
                    ) by {
                        if j < s.len() - 1 {
                            assert(!seq_lt(t[j].0, b.0));
                            if seq_lt(s[j].0, e.0) {
                                lemma_seq_lt_transitive(s[j].0, e.0, b.0);
                            }
                        } else {
                            lemma_seq_lt_irreflexive(e.0);
                        }
                    }
                } else if e.0 != "minecraft"@ {
                    assert(!seq_lt(s[s.len() - 1].0, b.0));
                }
            },
            None => {
                if e.0 != "minecraft"@ {
                    assert(s[s.len() - 1] == e);
                    lemma_seq_lt_irreflexive(e.0);
                } else {
                    assert(s[s.len() - 1].0 == "minecraft"@);
                }
            },
        }
    }
}

/// When the table is as reading `[versions]` gives it, the loader is its
/// first entry.
pub proof fn lemma_loader_is_first(v: PackVersionsView)
    requires
        loaders_wf(v),
    ensures
        loader_of(v) == (if v.loaders.len() > 0 { Some(v.loaders[0]) } else { None::<(Seq<char>, Seq<char>)> }),
{
    lemma_least_loader(v.loaders);
    if v.loaders.len() > 0 {
        let l = loader_of(v)->0;
        let i = choose|i: int| 0 <= i < v.loaders.len() && v.loaders[i] == l;
        if i > 0 {
            assert(seq_lt(v.loaders[0].0, v.loaders[i].0));
        }
    }
}

} // verus!
