use sculkr::app::App;
use sculkr::cache::{Cache, CacheEntry, CacheId};
use sculkr::parser::packwiz::{
    PackwizMod, PackwizModUpdate, PackwizModUpdateCurseforge, PackwizModUpdateModrinth,
    PackwizParser,
};
use sculkr::request::Mod;

fn a_mod(id: &str, title: &str) -> Mod {
    Mod {
        id: id.to_owned(),
        slug: title.to_lowercase(),
        title: title.to_owned(),
        description: String::new(),
        mod_url: String::new(),
        license: None,
        authors: Vec::new(),
        icon_url: None,
        source_url: None,
        issues_url: None,
        wiki_url: None,
    }
}

fn entry(id: &str, cache_id: &str, title: &str) -> CacheEntry {
    CacheEntry {
        key: CacheId { id: id.to_owned(), cache_id: cache_id.to_owned() },
        data: a_mod(id, title),
    }
}

fn modrinth(id: &str, version: &str) -> PackwizMod {
    PackwizMod {
        name: id.to_owned(),
        filename: String::new(),
        update: PackwizModUpdate {
            modrinth: Some(PackwizModUpdateModrinth {
                mod_id: id.to_owned(),
                version: version.to_owned(),
            }),
            curseforge: None,
        },
    }
}

fn curseforge(project_id: i32, file_id: u32) -> PackwizMod {
    PackwizMod {
        name: project_id.to_string(),
        filename: String::new(),
        update: PackwizModUpdate {
            modrinth: None,
            curseforge: Some(PackwizModUpdateCurseforge { file_id, project_id }),
        },
    }
}

fn titles(mods: &[Mod]) -> Vec<&str> {
    mods.iter().map(|m| m.title.as_str()).collect()
}

#[test]
fn cached_mods_at_their_version_are_not_fetched() {
    let cache = Cache::from_entries(vec![
        entry("AAA", "v1", "Sodium"),
        entry("BBB", "old", "Lithium"),
        entry("238222", "100", "Just Enough Items"),
    ]);
    let parser = PackwizParser::from_mods(vec![
        modrinth("AAA", "v1"),
        modrinth("BBB", "new"),
        modrinth("CCC", "v1"),
        curseforge(238222, 100),
        curseforge(5, 1),
    ]);
    let app = App::new(cache, parser);

    let (mr, cf) = app.pending();
    assert_eq!(mr, ["BBB", "CCC"]);
    assert_eq!(cf, [5]);
}

#[test]
fn a_fully_cached_pack_asks_for_nothing() {
    let cache = Cache::from_entries(vec![entry("AAA", "v1", "Sodium"), entry("7", "2", "JEI")]);
    let parser = PackwizParser::from_mods(vec![modrinth("AAA", "v1"), curseforge(7, 2)]);
    let mut app = App::new(cache, parser);

    let (mr, cf) = app.pending();
    assert!(mr.is_empty());
    assert!(cf.is_empty());

    // What a site would send is ignored when nothing was asked of it.
    let fetched = app.sorted_mods(vec![a_mod("ZZZ", "Stray")], Vec::new());
    assert_eq!(titles(&fetched.mods), ["JEI", "Sodium"]);
    assert!(fetched.modrinth.unrequested.is_empty());
    assert_eq!(app.cache().len(), 2);
}

#[test]
fn fetched_mods_are_merged_cached_and_reported() {
    let cache = Cache::from_entries(vec![entry("AAA", "v1", "Cached")]);
    let parser = PackwizParser::from_mods(vec![
        modrinth("AAA", "v1"),
        modrinth("BBB", "v2"),
        modrinth("CCC", "v3"),
        curseforge(42, 9),
    ]);
    let mut app = App::new(cache, parser);

    let fetched = app.get_mods(
        vec![a_mod("BBB", "Fetched"), a_mod("XXX", "Unasked")],
        vec![a_mod("42", "From CurseForge")],
    );

    assert_eq!(titles(&fetched.mods), ["Cached", "Fetched", "From CurseForge"]);
    assert_eq!(fetched.modrinth.unrequested, ["XXX"]);
    assert_eq!(fetched.modrinth.missing, ["CCC"]);
    assert!(fetched.curseforge.unrequested.is_empty());
    assert!(fetched.curseforge.missing.is_empty());

    // The fetched mods are cached at the version the pack pins.
    let key = CacheId { id: "BBB".to_owned(), cache_id: "v2".to_owned() };
    assert_eq!(app.cache().get_mod(&key).map(|m| m.title.as_str()), Some("Fetched"));
    let key = CacheId { id: "42".to_owned(), cache_id: "9".to_owned() };
    assert_eq!(app.cache().get_mod(&key).map(|m| m.title.as_str()), Some("From CurseForge"));

    // The next run finds everything that came back in the cache.
    let (mr, cf) = app.pending();
    assert_eq!(mr, ["CCC"]);
    assert!(cf.is_empty());
}

#[test]
fn mods_sort_by_title_ignoring_case_then_id() {
    let cache = Cache::new();
    let parser = PackwizParser::from_mods(vec![
        modrinth("d", "1"),
        modrinth("b", "1"),
        modrinth("c", "1"),
        modrinth("a", "1"),
    ]);
    let mut app = App::new(cache, parser);

    let fetched = app.sorted_mods(
        vec![a_mod("d", "beta"), a_mod("b", "Alpha"), a_mod("c", "alpha"), a_mod("a", "Beta")],
        Vec::new(),
    );
    let ids: Vec<&str> = fetched.mods.iter().map(|m| m.id.as_str()).collect();
    assert_eq!(ids, ["b", "c", "a", "d"]);
}

#[test]
fn closing_prunes_mods_no_longer_in_the_pack() {
    let cache = Cache::from_entries(vec![
        entry("AAA", "v1", "Kept"),
        entry("GONE", "v1", "Removed"),
        entry("238222", "1", "Kept too"),
        entry("999", "1", "Removed too"),
    ]);
    let parser = PackwizParser::from_mods(vec![modrinth("AAA", "v2"), curseforge(238222, 3)]);
    let mut app = App::new(cache, parser);

    assert_eq!(app.close(), 2);
    assert_eq!(app.cache().len(), 2);
    let mut ids: Vec<&str> = app.cache().entries().iter().map(|e| e.key.id.as_str()).collect();
    ids.sort();
    assert_eq!(ids, ["238222", "AAA"]);
}

#[test]
fn the_cache_keeps_one_entry_per_project() {
    let mut cache = Cache::from_entries(vec![entry("A", "1", "first"), entry("A", "2", "second")]);
    assert_eq!(cache.len(), 1);
    let old = CacheId { id: "A".to_owned(), cache_id: "1".to_owned() };
    let new = CacheId { id: "A".to_owned(), cache_id: "2".to_owned() };
    assert!(cache.get_mod(&old).is_none());
    assert_eq!(cache.get_mod(&new).map(|m| m.title.as_str()), Some("second"));

    cache.set_mod(old.clone(), a_mod("A", "third"));
    assert_eq!(cache.len(), 1);
    assert!(cache.get_mod(&new).is_none());
    assert_eq!(cache.get_mod(&old).map(|m| m.title.as_str()), Some("third"));

    assert_eq!(cache.retain_only(&vec!["B".to_owned()]), 1);
    assert_eq!(cache.len(), 0);
}

#[test]
fn a_second_run_lists_the_same_mods_without_fetching() {
    let cache = Cache::from_entries(vec![entry("AAA", "v1", "Sodium")]);
    let parser = PackwizParser::from_mods(vec![
        modrinth("AAA", "v1"),
        modrinth("CCC", "v2"),
        curseforge(5, 1),
    ]);
    let mut app = App::new(cache, parser);

    let first = app.get_mods(vec![a_mod("CCC", "Iris")], vec![a_mod("5", "Mouse Tweaks")]);
    assert_eq!(titles(&first.mods), ["Sodium", "Iris", "Mouse Tweaks"]);

    let (mr, cf) = app.pending();
    assert!(mr.is_empty());
    assert!(cf.is_empty());

    let second = app.get_mods(Vec::new(), Vec::new());
    let mut a = titles(&first.mods);
    let mut b = titles(&second.mods);
    assert_eq!(b, ["Sodium", "Iris", "Mouse Tweaks"]);
    a.sort();
    b.sort();
    assert_eq!(a, b);
}
