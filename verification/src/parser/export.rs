//! One exportable document describing a pack: its `pack.toml` metadata,
//! the settings the run resolved, and every mod that came back.
//!
//! These structs are a deliberate *view* of the real types. [`Config`]
//! owns a [`Secret`](crate::env::Secret); naming each exported field by hand
//! is what keeps a CurseForge key out of a file that tends to get committed.
//! Widen this by adding a field here, never by exporting `Config` whole.
//!
//! There is deliberately no timestamp: it would make the output differ on
//! every run and the file churn for no information.

use vstd::prelude::*;

use super::index::opt_str_view;
use super::pack::{Pack, PackView, loader_of};
use crate::app::mods_view;
use crate::config::Config;
use crate::request::{Mod, ModView, opt_view};

verus! {

/// Bump when a field is removed or changes meaning, so consumers can branch.
pub const SCHEMA_VERSION: u32 = 1;

/// The exported document.
pub struct Document<'a> {
    pub schema_version: u32,
    pub pack: PackInfo<'a>,
    pub settings: Settings<'a>,
    /// Borrowed, so a few hundred mods are not copied to be printed once.
    pub mods: &'a [Mod],
}

/// The pack's metadata.
pub struct PackInfo<'a> {
    pub name: &'a str,
    pub author: Option<&'a str>,
    pub version: Option<&'a str>,
    pub minecraft: Option<&'a str>,
    pub loader: Option<Loader<'a>>,
}

/// The pack's loader.
pub struct Loader<'a> {
    pub name: &'a str,
    pub version: &'a str,
}

/// The resolved global flags. Nothing from `[secrets]` belongs here.
pub struct Settings<'a> {
    pub format: Option<&'a str>,
    pub output: Option<&'a str>,
    pub path: Option<&'a str>,
}

/// [`PackInfo`] as plain values.
pub struct PackInfoView {
    pub name: Seq<char>,
    pub author: Option<Seq<char>>,
    pub version: Option<Seq<char>>,
    pub minecraft: Option<Seq<char>>,
    pub loader: Option<(Seq<char>, Seq<char>)>,
}

/// [`Settings`] as plain values.
pub struct SettingsView {
    pub format: Option<Seq<char>>,
    pub output: Option<Seq<char>>,
    pub path: Option<Seq<char>>,
}

/// [`Document`] as plain values.
pub struct DocumentView {
    pub schema_version: u32,
    pub pack: PackInfoView,
    pub settings: SettingsView,
    pub mods: Seq<ModView>,
}

impl<'a> View for Document<'a> {
    type V = DocumentView;

    open spec fn view(&self) -> DocumentView {
        DocumentView {
            schema_version: self.schema_version,
            pack: PackInfoView {
                name: self.pack.name@,
                author: opt_str_view(self.pack.author),
                version: opt_str_view(self.pack.version),
                minecraft: opt_str_view(self.pack.minecraft),
                loader: match self.pack.loader {
                    Some(l) => Some((l.name@, l.version@)),
                    None => None,
                },
            },
            settings: SettingsView {
                format: opt_str_view(self.settings.format),
                output: opt_str_view(self.settings.output),
                path: opt_str_view(self.settings.path),
            },
            mods: mods_view(self.mods@),
        }
    }
}

/// The document for a pack, a run's settings and its mods: the schema
/// version, the pack's name, author, version, Minecraft version and loader,
/// the format, output and path settings, and the mods as given.
pub open spec fn document_of(pack: PackView, config: Config, mods: Seq<ModView>) -> DocumentView {
    DocumentView {
        schema_version: SCHEMA_VERSION,
        pack: PackInfoView {
            name: pack.name,
            author: pack.author,
            version: pack.version,
            minecraft: pack.versions.minecraft,
            loader: loader_of(pack.versions),
        },
        settings: SettingsView {
            format: opt_view(config.format),
            output: opt_view(config.output),
            path: opt_view(config.path),
        },
        mods,
    }
}

/// A borrowed view of an optional string.
fn opt_as_str(s: &Option<String>) -> (r: Option<&str>)
    ensures
        opt_str_view(r) == opt_view(*s),
{
    match s {
        Some(v) => Some(v.as_str()),
        None => None,
    }
}

impl<'a> Document<'a> {
    /// The document for `pack`, the settings of `config` (never its
    /// secrets), and `mods`.
    pub fn new(pack: &'a Pack, config: &'a Config, mods: &'a [Mod]) -> (r: Document<'a>)
        ensures
            r@ == document_of(pack@, *config, mods_view(mods@)),
            r@.schema_version == SCHEMA_VERSION,
            r@.pack.name == pack.name@,
            r@.pack.author == opt_view(pack.author),
            r@.pack.version == opt_view(pack.version),
            r@.pack.minecraft == opt_view(pack.versions.minecraft),
            r@.pack.loader == loader_of(pack.versions@),
            r@.settings.format == opt_view(config.format),
            r@.settings.output == opt_view(config.output),
            r@.settings.path == opt_view(config.path),
            r@.mods == mods_view(mods@),
    {
        let loader = match pack.versions.loader() {
            Some((name, version)) => Some(Loader { name, version }),
            None => None,
        };
        Document {
            schema_version: SCHEMA_VERSION,
            pack: PackInfo {
                name: pack.name.as_str(),
                author: opt_as_str(&pack.author),
                version: opt_as_str(&pack.version),
                minecraft: opt_as_str(&pack.versions.minecraft),
                loader,
            },
            settings: Settings {
                format: opt_as_str(&config.format),
                output: opt_as_str(&config.output),
                path: opt_as_str(&config.path),
            },
            mods,
        }
    }
}

/// Each exported field is the field of the same name in `pack.toml` or in
/// the run's settings: the pack's own version, not its Minecraft version,
/// is exported as its version, and the loader is the one the pack names.
pub proof fn lemma_export_keeps_fields(pack: PackView, config: Config, mods: Seq<ModView>)
    ensures
        document_of(pack, config, mods).schema_version == SCHEMA_VERSION,
        document_of(pack, config, mods).pack.name == pack.name,
        document_of(pack, config, mods).pack.author == pack.author,
        document_of(pack, config, mods).pack.version == pack.version,
        document_of(pack, config, mods).pack.minecraft == pack.versions.minecraft,
        document_of(pack, config, mods).pack.loader == loader_of(pack.versions),
        document_of(pack, config, mods).settings.format == opt_view(config.format),
        document_of(pack, config, mods).settings.output == opt_view(config.output),
        document_of(pack, config, mods).settings.path == opt_view(config.path),
        document_of(pack, config, mods).mods == mods,
{
}

/// A configured API key never reaches the export: two configurations that
/// differ only in their secrets give the same document.
pub proof fn lemma_export_ignores_secrets(
    pack: PackView,
    a: Config,
    b: Config,
    mods: Seq<ModView>,
)
    requires
        opt_view(a.format) == opt_view(b.format),
        opt_view(a.output) == opt_view(b.output),
        opt_view(a.path) == opt_view(b.path),
    ensures
        document_of(pack, a, mods) == document_of(pack, b, mods),
{
}

} // verus!
