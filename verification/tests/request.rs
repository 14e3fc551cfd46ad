use sculkr::request::curseforge::{Mod as CfMod, ModAuthor, ModLinks, ModLogo};
use sculkr::request::modrinth::{Project, ProjectLicense};

#[test]
fn a_curseforge_mod_becomes_a_mod() {
    let m = CfMod {
        id: 238222,
        name: "Just Enough Items".to_owned(),
        slug: "jei".to_owned(),
        links: ModLinks {
            website_url: Some("https://www.curseforge.com/minecraft/mc-mods/jei".to_owned()),
            wiki_url: None,
            issues_url: Some("https://github.com/mezz/JustEnoughItems/issues".to_owned()),
            source_url: None,
        },
        summary: "View Items and Recipes".to_owned(),
        authors: vec![ModAuthor { id: 1, name: "mezz".to_owned(), url: "https://x/mezz".to_owned() }],
        logo: ModLogo {
            id: 2,
            mod_id: 238222,
            title: "logo".to_owned(),
            description: String::new(),
            thumbnail_url: "https://media/jei.png".to_owned(),
        },
    }
    .into_mod();

    assert_eq!(m.id, "238222");
    assert_eq!(m.title, "Just Enough Items");
    assert_eq!(m.description, "View Items and Recipes");
    assert_eq!(m.mod_url, "https://www.curseforge.com/minecraft/mc-mods/jei");
    assert!(m.license.is_none());
    assert_eq!(m.authors.len(), 1);
    assert_eq!(m.authors[0].name, "mezz");
    assert_eq!(m.icon_url.as_deref(), Some("https://media/jei.png"));
    assert_eq!(m.issues_url.as_deref(), Some("https://github.com/mezz/JustEnoughItems/issues"));
    assert!(m.wiki_url.is_none());
}

#[test]
fn a_modrinth_project_becomes_a_mod() {
    let m = Project {
        id: "AANobbMI".to_owned(),
        slug: "sodium".to_owned(),
        title: "Sodium".to_owned(),
        description: "A modern rendering engine".to_owned(),
        icon_url: None,
        source_url: Some("https://github.com/CaffeineMC/sodium".to_owned()),
        issues_url: None,
        wiki_url: None,
        license: Some(ProjectLicense {
            id: "LGPL-3.0-only".to_owned(),
            name: "GNU Lesser General Public License v3.0 only".to_owned(),
            url: None,
        }),
    }
    .into_mod();

    assert_eq!(m.id, "AANobbMI");
    assert_eq!(m.mod_url, "https://modrinth.com/mod/sodium");
    assert_eq!(m.license.as_ref().map(|l| l.id.as_str()), Some("LGPL-3.0-only"));
    assert!(m.authors.is_empty());
    assert_eq!(m.source_url.as_deref(), Some("https://github.com/CaffeineMC/sodium"));
}
