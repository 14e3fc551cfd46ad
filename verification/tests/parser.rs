use sculkr::parser::Parser;
use sculkr::parser::index::{Index, IndexFile};
use sculkr::parser::pack::{Pack, PackVersions};
use sculkr::parser::packwiz::{
    PackwizMod, PackwizModUpdate, PackwizModUpdateCurseforge, PackwizModUpdateModrinth,
    PackwizParser, is_metafile_name,
};

fn file(path: &str, hash: &str, metafile: bool) -> IndexFile {
    IndexFile { file: path.to_owned(), hash: hash.to_owned(), metafile }
}

/// The sample `index.toml`: hash-format sha256 and four files.
fn sample_index() -> Index {
    Index {
        hash_format: Some("sha256".to_owned()),
        files: vec![
            file("LICENSE", "aaa", false),
            file("mods/sodium.pw.toml", "bbb", true),
            file("resourcepacks/faithful.pw.toml", "ccc", true),
            file("config/sodium.json", "ddd", false),
        ],
    }
}

#[test]
fn separates_metafiles_from_shipped_files() {
    let index = sample_index();

    assert_eq!(index.files.len(), 4);
    assert_eq!(index.metafiles().len(), 2);
}

#[test]
fn reads_the_folder_off_each_entry() {
    let index = sample_index();

    let categories: Vec<Option<&str>> = index.files.iter().map(IndexFile::category).collect();

    assert_eq!(categories, [None, Some("mods"), Some("resourcepacks"), Some("config")]);
    assert_eq!(index.categories(), ["mods", "resourcepacks", "config"]);
}

#[test]
fn categories_are_deduplicated_in_first_seen_order() {
    let index = Index {
        hash_format: None,
        files: vec![
            file("mods/b.pw.toml", "1", true),
            file("config/x.json", "2", false),
            file("mods/a.pw.toml", "3", true),
            file("shaderpacks/deep/nested.zip", "4", false),
            file("README.md", "5", false),
            file("config/y.json", "6", false),
        ],
    };
    assert_eq!(index.categories(), ["mods", "config", "shaderpacks"]);
    let metafiles: Vec<&str> = index.metafiles().iter().map(|f| f.file.as_str()).collect();
    assert_eq!(metafiles, ["mods/b.pw.toml", "mods/a.pw.toml"]);
}

/// The sample `pack.toml`, with `minecraft` and a `fabric` loader.
fn sample_pack() -> Pack {
    Pack {
        name: "Example Pack".to_owned(),
        author: Some("minecraft_steve".to_owned()),
        version: Some("1.2.0".to_owned()),
        pack_format: Some("packwiz:1.1.0".to_owned()),
        versions: PackVersions {
            minecraft: Some("1.20.1".to_owned()),
            loaders: vec![("fabric".to_owned(), "0.14.21".to_owned())],
        },
    }
}

#[test]
fn finds_the_loader_beside_minecraft() {
    let pack = sample_pack();

    assert_eq!(pack.versions.loader(), Some(("fabric", "0.14.21")));
}

#[test]
fn a_pack_without_versions_is_still_valid() {
    let pack = Pack {
        name: "Bare".to_owned(),
        author: None,
        version: None,
        pack_format: None,
        versions: PackVersions { minecraft: None, loaders: Vec::new() },
    };

    assert_eq!(pack.versions.minecraft, None);
    assert_eq!(pack.versions.loader(), None);
}

fn metafile(name: &str, modrinth: Option<(&str, &str)>, curseforge: Option<(u32, i32)>) -> PackwizMod {
    PackwizMod {
        name: name.to_owned(),
        filename: format!("{name}.jar"),
        update: PackwizModUpdate {
            modrinth: modrinth.map(|(id, version)| PackwizModUpdateModrinth {
                mod_id: id.to_owned(),
                version: version.to_owned(),
            }),
            curseforge: curseforge
                .map(|(file_id, project_id)| PackwizModUpdateCurseforge { file_id, project_id }),
        },
    }
}

#[test]
fn collects_the_ids_each_metafile_pins() {
    let parser = PackwizParser::from_mods(vec![
        metafile("Sodium", Some(("AANobbMI", "v1")), None),
        metafile("JEI", None, Some((4712345, 238222))),
        metafile("Both", Some(("BBB", "v2")), Some((7, 99))),
        metafile("Neither", None, None),
    ]);

    let modrinth = parser.get_modrinth_mods();
    assert_eq!(modrinth.len(), 2);
    assert_eq!(modrinth[0].id, "AANobbMI");
    assert_eq!(modrinth[0].cache_id, "v1");
    assert_eq!(modrinth[1].id, "BBB");
    assert_eq!(modrinth[1].cache_id, "v2");

    let curseforge = parser.get_curseforge_mods();
    assert_eq!(curseforge.len(), 2);
    assert_eq!(curseforge[0].id, 238222);
    assert_eq!(curseforge[0].cache_id, "4712345");
    assert_eq!(curseforge[1].id, 99);
    assert_eq!(curseforge[1].cache_id, "7");

    let (owned_modrinth, owned_curseforge) = parser.get_mods_owned();
    assert_eq!(owned_modrinth.len(), 2);
    assert_eq!(owned_curseforge.len(), 2);
}

#[test]
fn only_pw_toml_files_are_metafiles() {
    assert!(is_metafile_name("sodium.pw.toml"));
    assert!(!is_metafile_name("sodium.toml"));
    assert!(!is_metafile_name("index.toml"));
    assert!(!is_metafile_name("pw.toml"));
}

#[test]
fn the_loader_is_the_key_that_sorts_first() {
    let versions = PackVersions {
        minecraft: None,
        loaders: vec![
            ("quilt".to_owned(), "0.20".to_owned()),
            ("minecraft".to_owned(), "1.20.1".to_owned()),
            ("fabric".to_owned(), "0.14.21".to_owned()),
        ],
    };
    assert_eq!(versions.loader(), Some(("fabric", "0.14.21")));
}

#[test]
fn a_table_holding_only_minecraft_names_no_loader() {
    let versions = PackVersions {
        minecraft: None,
        loaders: vec![("minecraft".to_owned(), "1.20.1".to_owned())],
    };
    assert_eq!(versions.loader(), None);
}
