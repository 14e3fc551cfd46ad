//! The `*.pw.toml` metafiles packwiz writes, one per mod, and the parser
//! that collects the mod ids they pin.

use vstd::prelude::*;

use super::{
    ParsedCurseForgeId, ParsedCurseForgeIdView, ParsedModrinthId, ParsedModrinthIdView, Parser,
    clone_curseforge_ids, clone_modrinth_ids, curseforge_ids_view, modrinth_ids_view,
};
use crate::text::{decimal, ends_with, has_suffix, u128_to_string};

verus! {

/// The `[update]` table: where packwiz updates the mod from.
pub struct PackwizModUpdate {
    pub modrinth: Option<PackwizModUpdateModrinth>,
    pub curseforge: Option<PackwizModUpdateCurseforge>,
}

/// `[update.modrinth]`.
pub struct PackwizModUpdateModrinth {
    pub mod_id: String,
    pub version: String,
}

/// `[update.curseforge]`.
pub struct PackwizModUpdateCurseforge {
    pub file_id: u32,
    pub project_id: i32,
}

/// One `*.pw.toml`.
pub struct PackwizMod {
    pub name: String,
    pub filename: String,
    pub update: PackwizModUpdate,
}

/// The mod ids a directory of `*.pw.toml` files pins.
pub struct PackwizParser {
    pub modrinth_mods: Vec<ParsedModrinthId>,
    pub curseforge_mods: Vec<ParsedCurseForgeId>,
}

/// The suffix a packwiz metafile's name ends in.
pub open spec fn metafile_suffix() -> Seq<char> {
    ".pw.toml"@
}

/// The Modrinth id a metafile pins, if it updates from Modrinth: the
/// project, keyed by the pinned version.
pub open spec fn modrinth_entry(m: PackwizMod) -> Option<ParsedModrinthIdView> {
    match m.update.modrinth {
        Some(data) => Some(ParsedModrinthIdView { cache_id: data.version@, id: data.mod_id@ }),
        None => None,
    }
}

/// The CurseForge id a metafile pins, if it updates from CurseForge: the
/// project, keyed by the pinned file id written in decimal.
pub open spec fn curseforge_entry(m: PackwizMod) -> Option<ParsedCurseForgeIdView> {
    match m.update.curseforge {
        Some(data) => Some(
            ParsedCurseForgeIdView { cache_id: decimal(data.file_id as nat), id: data.project_id },
        ),
        None => None,
    }
}

/// Whether a directory entry's name marks a packwiz metafile; the rest of
/// the directory is skipped.
pub fn is_metafile_name(name: &str) -> (r: bool)
    ensures
        r == has_suffix(name@, metafile_suffix()),
{
    ends_with(name, ".pw.toml")
}

impl PackwizParser {
    /// Collects the ids the given metafiles pin, in their order: those that
    /// update from Modrinth, and those that update from CurseForge.
    pub fn from_mods(mods: Vec<PackwizMod>) -> (r: PackwizParser)
        ensures
            modrinth_ids_view(r.modrinth_mods@) == mods@.filter_map(
                |m: PackwizMod| modrinth_entry(m),
            ),
            curseforge_ids_view(r.curseforge_mods@) == mods@.filter_map(
                |m: PackwizMod| curseforge_entry(m),
            ),
    {
        let mut modrinth_mods: Vec<ParsedModrinthId> = Vec::new();
        let mut curseforge_mods: Vec<ParsedCurseForgeId> = Vec::new();
        let mut i: usize = 0;
        while i < mods.len()
            invariant
                i <= mods.len(),
                modrinth_ids_view(modrinth_mods@) == mods@.take(i as int).filter_map(
                    |m: PackwizMod| modrinth_entry(m),
                ),
                curseforge_ids_view(curseforge_mods@) == mods@.take(i as int).filter_map(
                    |m: PackwizMod| curseforge_entry(m),
                ),
            decreases mods.len() - i,
        {
            let m = &mods[i];
            assert(mods@.take(i + 1).drop_last() =~= mods@.take(i as int));
            assert(mods@.take(i + 1).last() == mods@[i as int]);
            match &m.update.modrinth {
                Some(data) => {
                    modrinth_mods.push(
                        ParsedModrinthId { cache_id: data.version.clone(), id: data.mod_id.clone() },
                    );
                },
                None => {},
            }
            match &m.update.curseforge {
                Some(data) => {
                    curseforge_mods.push(
                        ParsedCurseForgeId {
                            cache_id: u128_to_string(data.file_id as u128),
                            id: data.project_id,
                        },
                    );
                },
                None => {},
            }
            assert(modrinth_ids_view(modrinth_mods@) =~= mods@.take(i + 1).filter_map(
                |m: PackwizMod| modrinth_entry(m),
            ));
            assert(curseforge_ids_view(curseforge_mods@) =~= mods@.take(i + 1).filter_map(
                |m: PackwizMod| curseforge_entry(m),
            ));
            i = i + 1;
        }
        assert(mods@.take(mods.len() as int) =~= mods@);
        PackwizParser { modrinth_mods, curseforge_mods }
    }
}

impl Parser for PackwizParser {
    open spec fn modrinth_view(&self) -> Seq<ParsedModrinthIdView> {
        modrinth_ids_view(self.modrinth_mods@)
    }

    open spec fn curseforge_view(&self) -> Seq<ParsedCurseForgeIdView> {
        curseforge_ids_view(self.curseforge_mods@)
    }

    fn get_mods_owned(self) -> (r: (Vec<ParsedModrinthId>, Vec<ParsedCurseForgeId>)) {
        (self.modrinth_mods, self.curseforge_mods)
    }

    fn get_modrinth_mods(&self) -> (r: Vec<ParsedModrinthId>) {
        clone_modrinth_ids(&self.modrinth_mods)
    }

    fn get_curseforge_mods(&self) -> (r: Vec<ParsedCurseForgeId>) {
        clone_curseforge_ids(&self.curseforge_mods)
    }
}

} // verus!
