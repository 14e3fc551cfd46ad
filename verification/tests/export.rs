use sculkr::config::{Config, Secrets};
use sculkr::env::Secret;
use sculkr::parser::export::{Document, SCHEMA_VERSION};
use sculkr::parser::pack::{Pack, PackVersions};
use sculkr::request::{Author, License, Mod};

fn sample_pack() -> Pack {
    Pack {
        name: "Example Pack".to_owned(),
        author: Some("minecraft_steve".to_owned()),
        version: Some("1.2.0".to_owned()),
        pack_format: None,
        versions: PackVersions {
            minecraft: Some("1.20.1".to_owned()),
            loaders: vec![("fabric".to_owned(), "0.14.21".to_owned())],
        },
    }
}

fn sample_mod() -> Mod {
    Mod {
        id: "AANobbMI".into(),
        slug: "sodium".into(),
        title: "Sodium".into(),
        description: "A modern rendering engine".into(),
        mod_url: "https://modrinth.com/mod/sodium".into(),
        license: Some(License {
            id: "LGPL-3.0-only".into(),
            name: "LGPL-3.0-only".into(),
            url: None,
        }),
        authors: vec![Author {
            name: "jellysquid3".into(),
            url: "https://modrinth.com/user/jellysquid3".into(),
        }],
        icon_url: None,
        source_url: None,
        issues_url: None,
        wiki_url: None,
    }
}

#[test]
fn renders_the_document_shape() {
    let pack = sample_pack();
    let config = Config::default();
    let mods = vec![sample_mod()];

    let doc = Document::new(&pack, &config, &mods);

    assert_eq!(doc.schema_version, 1);
    assert_eq!(doc.pack.name, "Example Pack");
    assert_eq!(doc.pack.author, Some("minecraft_steve"));
    assert_eq!(doc.pack.minecraft, Some("1.20.1"));
    let loader = doc.pack.loader.as_ref().expect("the pack names a loader");
    assert_eq!(loader.name, "fabric");
    assert_eq!(loader.version, "0.14.21");

    assert_eq!(doc.mods.len(), 1);
    assert_eq!(doc.mods[0].slug, "sodium");
    assert_eq!(doc.mods[0].mod_url, "https://modrinth.com/mod/sodium");
    assert_eq!(doc.mods[0].authors[0].name, "jellysquid3");
}

#[test]
fn a_pack_without_a_loader_still_exports() {
    let pack = Pack {
        name: "Bare".to_owned(),
        author: None,
        version: None,
        pack_format: None,
        versions: PackVersions { minecraft: None, loaders: Vec::new() },
    };

    let config = Config::default();
    let doc = Document::new(&pack, &config, &[]);

    assert!(doc.pack.loader.is_none());
    assert!(doc.pack.minecraft.is_none());
    assert_eq!(doc.schema_version, SCHEMA_VERSION);
}

#[test]
fn a_configured_api_key_never_reaches_the_export() {
    let config = Config {
        format: Some("{NAME}".to_owned()),
        output: None,
        path: None,
        secrets: Secrets { cf_api_key: Some(Secret::new("super-secret-value".to_owned())) },
    };
    let key = config.secrets.cf_api_key.as_ref().expect("the sample key should have been loaded");

    let pack = sample_pack();
    let doc = Document::new(&pack, &config, &[]);

    let exported = [doc.settings.format, doc.settings.output, doc.settings.path];
    assert_eq!(exported, [Some("{NAME}"), None, None]);
    for value in exported.iter().flatten() {
        assert!(!value.contains(key.expose()), "the raw key reached the export");
        assert!(!value.contains(&key.fingerprint()), "a fingerprint of the key reached the export");
    }
}
