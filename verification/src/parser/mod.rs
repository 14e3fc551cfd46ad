//! What a pack is read into: the mod ids it names, and the files packwiz
//! writes (`pack.toml`, `index.toml`, `*.pw.toml`), plus the exported
//! document.

use vstd::prelude::*;

pub mod export;
pub mod index;
pub mod pack;
pub mod packwiz;

verus! {

/// A Modrinth mod the pack names, with the version it pins.
pub struct ParsedModrinthId {
    /// The pinned version, which keys the cache.
    pub cache_id: String,
    pub id: String,
}

/// A CurseForge mod the pack names, with the file it pins.
pub struct ParsedCurseForgeId {
    /// The pinned file, which keys the cache.
    pub cache_id: String,
    pub id: i32,
}

/// A [`ParsedModrinthId`] as plain values.
pub struct ParsedModrinthIdView {
    pub cache_id: Seq<char>,
    pub id: Seq<char>,
}

/// A [`ParsedCurseForgeId`] as plain values.
pub struct ParsedCurseForgeIdView {
    pub cache_id: Seq<char>,
    pub id: i32,
}

impl View for ParsedModrinthId {
    type V = ParsedModrinthIdView;

    open spec fn view(&self) -> ParsedModrinthIdView {
        ParsedModrinthIdView { cache_id: self.cache_id@, id: self.id@ }
    }
}

impl View for ParsedCurseForgeId {
    type V = ParsedCurseForgeIdView;

    open spec fn view(&self) -> ParsedCurseForgeIdView {
        ParsedCurseForgeIdView { cache_id: self.cache_id@, id: self.id }
    }
}

/// The plain values of a list of Modrinth ids.
pub open spec fn modrinth_ids_view(v: Seq<ParsedModrinthId>) -> Seq<ParsedModrinthIdView> {
    v.map_values(|p: ParsedModrinthId| p@)
}

/// The plain values of a list of CurseForge ids.
pub open spec fn curseforge_ids_view(v: Seq<ParsedCurseForgeId>) -> Seq<ParsedCurseForgeIdView> {
    v.map_values(|p: ParsedCurseForgeId| p@)
}

impl Clone for ParsedModrinthId {
    fn clone(&self) -> (r: Self)
        ensures
            r@ == self@,
    {
        ParsedModrinthId { cache_id: self.cache_id.clone(), id: self.id.clone() }
    }
}

impl Clone for ParsedCurseForgeId {
    fn clone(&self) -> (r: Self)
        ensures
            r@ == self@,
    {
        ParsedCurseForgeId { cache_id: self.cache_id.clone(), id: self.id }
    }
}

/// A copy of a list of Modrinth ids.
pub fn clone_modrinth_ids(v: &Vec<ParsedModrinthId>) -> (r: Vec<ParsedModrinthId>)
    ensures
        modrinth_ids_view(r@) == modrinth_ids_view(v@),
{
    let mut out: Vec<ParsedModrinthId> = Vec::new();
    let mut i: usize = 0;
    while i < v.len()
        invariant
            i <= v.len(),
            out@.len() == i,
            forall|j: int| 0 <= j < i ==> #[trigger] out@[j]@ == v@[j]@,
        decreases v.len() - i,
    {
        out.push(v[i].clone());
        i = i + 1;
    }
    assert(modrinth_ids_view(out@) =~= modrinth_ids_view(v@));
    out
}

/// A copy of a list of CurseForge ids.
pub fn clone_curseforge_ids(v: &Vec<ParsedCurseForgeId>) -> (r: Vec<ParsedCurseForgeId>)
    ensures
        curseforge_ids_view(r@) == curseforge_ids_view(v@),
{
    let mut out: Vec<ParsedCurseForgeId> = Vec::new();
    let mut i: usize = 0;
    while i < v.len()
        invariant
            i <= v.len(),
            out@.len() == i,
            forall|j: int| 0 <= j < i ==> #[trigger] out@[j]@ == v@[j]@,
        decreases v.len() - i,
    {
        out.push(v[i].clone());
        i = i + 1;
    }
    assert(curseforge_ids_view(out@) =~= curseforge_ids_view(v@));
    out
}

/// Something that knows which mods a pack names.
pub trait Parser: Sized {
    /// The Modrinth mods named, in order.
    spec fn modrinth_view(&self) -> Seq<ParsedModrinthIdView>;

    /// The CurseForge mods named, in order.
    spec fn curseforge_view(&self) -> Seq<ParsedCurseForgeIdView>;

    /// Both lists, giving the parser up.
    fn get_mods_owned(self) -> (r: (Vec<ParsedModrinthId>, Vec<ParsedCurseForgeId>))
        ensures
            modrinth_ids_view(r.0@) == self.modrinth_view(),
            curseforge_ids_view(r.1@) == self.curseforge_view(),
    ;

    /// A copy of the Modrinth mods.
    fn get_modrinth_mods(&self) -> (r: Vec<ParsedModrinthId>)
        ensures
            modrinth_ids_view(r@) == self.modrinth_view(),
    ;

    /// A copy of the CurseForge mods.
    fn get_curseforge_mods(&self) -> (r: Vec<ParsedCurseForgeId>)
        ensures
            curseforge_ids_view(r@) == self.curseforge_view(),
    ;
}

} // verus!
