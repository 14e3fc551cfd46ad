//! packwiz's `index.toml`, the manifest of every file in a pack.
//!
//! This makes discovery folder-agnostic. Each entry carries its path
//! relative to the pack root, so `mods/`, `resourcepacks/`, `shaderpacks/`,
//! `datapacks/` and anything a future pack invents all arrive the same way,
//! without this crate naming any of them.

use vstd::prelude::*;

use crate::text::str_eq;

verus! {

/// The name of the file this describes.
pub const INDEX_FILE_NAME: &'static str = "index.toml";

/// `index.toml`.
pub struct Index {
    pub hash_format: Option<String>,
    pub files: Vec<IndexFile>,
}

/// One `[[files]]` entry.
pub struct IndexFile {
    /// Relative to the pack root, e.g. `mods/sodium.pw.toml`.
    pub file: String,
    pub hash: String,
    /// True for a `*.pw.toml` describing something to download, false for a
    /// file the pack ships as-is: configs, a LICENSE, a cache.
    pub metafile: bool,
}

/// What `Path::parent` returns for the path `p`, as text.
pub uninterp spec fn path_parent(p: Seq<char>) -> Option<Seq<char>>;

/// What the first of `Path::components` is for the path `p`, as text.
pub uninterp spec fn path_first_component(p: Seq<char>) -> Option<Seq<char>>;

/// The characters of an optional string slice.
pub open spec fn opt_str_view(s: Option<&str>) -> Option<Seq<char>> {
    match s {
        Some(v) => Some(v@),
        None => None,
    }
}

/// `std::path::Path::parent` of the path `p`, as text (`Path::to_str`),
/// trusted to be what [`path_parent`] names for `p`; how `Path` splits a
/// path into components is not stated.
#[verifier::external_body]
fn parent_of<'a>(p: &'a str) -> (r: Option<&'a str>)
    ensures
        opt_str_view(r) == path_parent(p@),
{
    match std::path::Path::new(p).parent() {
        Some(q) => q.to_str(),
        None => None,
    }
}

/// The first of `std::path::Path::components` of the path `p`, as text,
/// trusted to be what [`path_first_component`] names for `p`; what a
/// component is (a root, `.`, a name) is not stated.
#[verifier::external_body]
fn first_component_of<'a>(p: &'a str) -> (r: Option<&'a str>)
    ensures
        opt_str_view(r) == path_first_component(p@),
{
    match std::path::Path::new(p).components().next() {
        Some(c) => c.as_os_str().to_str(),
        None => None,
    }
}

/// The folder a file belongs to: the first component of its parent
/// directory, and none for a file at the pack root.
pub open spec fn category_of(file: Seq<char>) -> Option<Seq<char>> {
    match path_parent(file) {
        Some(parent) => if parent.len() == 0 {
            None
        } else {
            path_first_component(parent)
        },
        None => None,
    }
}

/// Each value of `s` at its first occurrence, in order.
pub open spec fn dedup(s: Seq<Seq<char>>) -> Seq<Seq<char>>
    decreases s.len(),
{
    if s.len() == 0 {
        s
    } else {
        let d = dedup(s.drop_last());
        if d.contains(s.last()) {
            d
        } else {
            d.push(s.last())
        }
    }
}

/// The categories of a list of files, in order, skipping root files.
pub open spec fn file_categories(files: Seq<IndexFile>) -> Seq<Seq<char>> {
    files.filter_map(|f: IndexFile| category_of(f.file@))
}

/// The characters of each string slice in a list.
pub open spec fn strs_view(v: Seq<&str>) -> Seq<Seq<char>> {
    v.map_values(|s: &str| s@)
}

impl IndexFile {
    /// The folder this belongs to, relative to the pack root: `mods`,
    /// `resourcepacks`, `datapacks`, and so on; [None] for a file at the
    /// root itself.
    pub fn category(&self) -> (r: Option<&str>)
        ensures
            opt_str_view(r) == category_of(self.file@),
    {
        match parent_of(self.file.as_str()) {
            Some(parent) => {
                if parent.is_empty() {
                    None
                } else {
                    first_component_of(parent)
                }
            },
            None => None,
        }
    }
}

impl Index {
    /// Only the entries that describe a download, in index order.
    pub fn metafiles(&self) -> (r: Vec<&IndexFile>)
        ensures
            r@.map_values(|f: &IndexFile| *f) == self.files@.filter(|f: IndexFile| f.metafile),
    {
        let ghost fs = self.files@;
        let mut out: Vec<&IndexFile> = Vec::new();
        let mut i: usize = 0;
        assert(fs.take(0) =~= Seq::<IndexFile>::empty());
        proof {
            reveal(Seq::filter);
        }
        assert(out@.map_values(|f: &IndexFile| *f) =~= fs.take(0).filter(|f: IndexFile| f.metafile));
        while i < self.files.len()
            invariant
                i <= fs.len(),
                fs == self.files@,
                out@.map_values(|f: &IndexFile| *f) == fs.take(i as int).filter(|f: IndexFile| f.metafile),
            decreases self.files.len() - i,
        {
            let f = &self.files[i];
            proof {
                reveal(Seq::filter);
                assert(fs.take(i + 1).drop_last() =~= fs.take(i as int));
                assert(fs.take(i + 1).last() == *f);
            }
            let ghost before = out@.map_values(|f: &IndexFile| *f);
            if f.metafile {
                out.push(f);
                assert(out@.map_values(|f: &IndexFile| *f) =~= before.push(*f));
            }
            i = i + 1;
        }
        assert(fs.take(fs.len() as int) =~= fs);
        out
    }

    /// Every folder the index mentions, deduplicated, in first-seen order.
    pub fn categories(&self) -> (r: Vec<&str>)
        ensures
            strs_view(r@) == dedup(file_categories(self.files@)),
    {
        let ghost fs = self.files@;
        let mut seen: Vec<&str> = Vec::new();
        let mut i: usize = 0;
        assert(fs.take(0) =~= Seq::<IndexFile>::empty());
        assert(strs_view(seen@) =~= dedup(file_categories(fs.take(0))));
        while i < self.files.len()
            invariant
                i <= fs.len(),
                fs == self.files@,
                strs_view(seen@) == dedup(file_categories(fs.take(i as int))),
            decreases self.files.len() - i,
        {
            let f = &self.files[i];
            proof {
                assert(fs.take(i + 1).drop_last() =~= fs.take(i as int));
                assert(fs.take(i + 1).last() == *f);
            }
            match f.category() {
                Some(category) => {
                    let ghost d = strs_view(seen@);
                    assert(file_categories(fs.take(i + 1)) == file_categories(fs.take(i as int)).push(
                        category@,
                    ));
                    let mut present = false;
                    let mut j: usize = 0;
                    while j < seen.len()
                        invariant
                            j <= seen@.len(),
                            d == strs_view(seen@),
                            present == exists|k: int| 0 <= k < j && d[k] == category@,
                        decreases seen.len() - j,
                    {
                        assert(d[j as int] == seen@[j as int]@);
                        if str_eq(seen[j], category) {
                            present = true;
                        }
                        j = j + 1;
                    }
                    assert(present == d.contains(category@));
                    assert(file_categories(fs.take(i as int)).push(category@).drop_last() =~= file_categories(
                        fs.take(i as int),
                    ));
                    if !present {
                        seen.push(category);
                        assert(strs_view(seen@) =~= d.push(category@));
                    }
                },
                None => {
                    assert(file_categories(fs.take(i + 1)) == file_categories(fs.take(i as int)));
                },
            }
            i = i + 1;
        }
        assert(fs.take(fs.len() as int) =~= fs);
        seen
    }
}

/// The deduplicated list holds each value of `s` exactly once, and nothing
/// else.
pub proof fn lemma_dedup(s: Seq<Seq<char>>)
    ensures
        dedup(s).no_duplicates(),
        forall|x: Seq<char>| dedup(s).contains(x) <==> s.contains(x),
    decreases s.len(),
{
    if s.len() > 0 {
        let t = s.drop_last();
        let last = s.last();
        lemma_dedup(t);
        let d = dedup(t);
        assert(forall|x: Seq<char>| s.contains(x) <==> (t.contains(x) || x == last)) by {
            assert forall|x: Seq<char>| s.contains(x) <==> (t.contains(x) || x == last) by {
                if s.contains(x) && x != last {
                    let k = choose|k: int| 0 <= k < s.len() && s[k] == x;
                    assert(t[k] == x);
                }
                if t.contains(x) {
                    let k = choose|k: int| 0 <= k < t.len() && t[k] == x;
                    assert(s[k] == x);
                }
                if x == last {
                    assert(s[s.len() - 1] == x);
                }
            }
        }
        if d.contains(last) {
            assert(dedup(s) == d);
        } else {
            let e = d.push(last);
            assert(dedup(s) == e);
            assert forall|x: Seq<char>| e.contains(x) <==> (d.contains(x) || x == last) by {
                if e.contains(x) && x != last {
                    let k = choose|k: int| 0 <= k < e.len() && e[k] == x;
                    assert(d[k] == x);
                }
                if d.contains(x) {
                    let k = choose|k: int| 0 <= k < d.len() && d[k] == x;
                    assert(e[k] == x);
                }
                if x == last {
                    assert(e[e.len() - 1] == x);
                }
            }
            assert(e.no_duplicates()) by {
                assert forall|i: int, j: int| 0 <= i < e.len() && 0 <= j < e.len() && i != j implies e[i] != e[j] by {
                    if i < d.len() && j < d.len() {
                    } else if i < d.len() {
                        assert(d.contains(e[i]));
                    } else {
                        assert(d.contains(e[j]));
                    }
                }
            }
        }
    }
}

} // verus!
