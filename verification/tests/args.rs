use sculkr::args::{Color, LevelFilter, Runtime, Span, Verbosity, about, render_config};
use sculkr::format::{DEFAULT_FORMAT, format_long_help, placeholder_help};

fn text(spans: &[Span]) -> String {
    spans.iter().map(|s| s.text.as_str()).collect()
}

#[test]
fn verbosity_follows_the_flags() {
    assert_eq!(Verbosity::resolve(0, false), Verbosity::Normal);
    assert_eq!(Verbosity::resolve(1, false), Verbosity::Info);
    assert_eq!(Verbosity::resolve(2, false), Verbosity::Debug);
    assert_eq!(Verbosity::resolve(200, false), Verbosity::Debug);
    assert_eq!(Verbosity::resolve(3, true), Verbosity::Quiet);
}

#[test]
fn verbosity_maps_to_a_level() {
    assert_eq!(Verbosity::Quiet.to_level_filter(), LevelFilter::Error);
    assert_eq!(Verbosity::Normal.to_level_filter(), LevelFilter::Warn);
    assert_eq!(Verbosity::Info.to_level_filter(), LevelFilter::Info);
    assert_eq!(Verbosity::Debug.to_level_filter(), LevelFilter::Trace);
    assert_eq!(LevelFilter::Info.name(), "info");
}

#[test]
fn config_reports_a_working_setup() {
    let spans = render_config(&Runtime {
        pack_root: "/home/user/modpack".to_owned(),
        mods: Some((32, 15)),
        cache: "/home/user/modpack/.packwiz-modlist.cache.json".to_owned(),
        cache_entries: Some(38),
        api_key: Some("$2a$...e345".to_owned()),
        output: Some("modlist.md".to_owned()),
        format: DEFAULT_FORMAT.to_owned(),
        verbosity: Verbosity::Info,
    });

    let expected = "\n  ⣿ sculkr ⣿\n  Runtime Configuration\n\n  Pack root:   /home/user/modpack\n  Mods:        47 (32 Modrinth, 15 CurseForge)\n  Cache:       /home/user/modpack/.packwiz-modlist.cache.json (38 cached)\n  CF_API_KEY:  $2a$...e345\n  Output:      modlist.md\n  Format:      - [{NAME}]({URL}) - {DESCRIPTION}\\n\n  Log level:   info\n\n";
    assert_eq!(text(&spans), expected);

    let total = spans.iter().find(|s| s.text == "47").expect("the total is its own span");
    assert_eq!(total.style.color, Color::Green);
    let label = spans.iter().find(|s| s.text == "Mods:       ").expect("the label is its own span");
    assert!(label.style.bold);
}

#[test]
fn config_reports_what_is_missing() {
    let spans = render_config(&Runtime {
        pack_root: "/home/user".to_owned(),
        mods: None,
        cache: "/home/user/.packwiz-modlist.cache.json".to_owned(),
        cache_entries: None,
        api_key: None,
        output: None,
        format: DEFAULT_FORMAT.to_owned(),
        verbosity: Verbosity::Normal,
    });

    let expected = "\n  ⣿ sculkr ⣿\n  Runtime Configuration\n\n  Pack root:   /home/user\n  Mods:        no *.pw.toml files found here\n  Cache:       /home/user/.packwiz-modlist.cache.json (not written yet)\n  CF_API_KEY:  not set (CurseForge mods will fail)\n  Output:      stdout\n  Format:      - [{NAME}]({URL}) - {DESCRIPTION}\\n\n  Log level:   warn\n\n";
    assert_eq!(text(&spans), expected);

    let warning = spans.iter().find(|s| s.text == "not set").expect("the warning is its own span");
    assert_eq!(warning.style.color, Color::Yellow);
    let note = spans.iter().find(|s| s.text == "(not written yet)").expect("the note is its own span");
    assert!(note.style.dimmed);
}

#[test]
fn an_empty_pack_counts_as_no_pack() {
    assert_eq!(Runtime::mod_counts(Some((0, 0))), None);
    assert_eq!(Runtime::mod_counts(Some((0, 3))), Some((0, 3)));
    assert_eq!(Runtime::mod_counts(None), None);
}

#[test]
fn about_command_outputs_expected() {
    let spans = about("1.2.3", "Someone", "A tool", "https://example.com/repo", "MIT");
    let expected = "\n  ⣿ sculkr ⣿\n  Companion CLI for packwiz\n\n  Version:     1.2.3\n  Authors:     Someone\n  Description: A tool\n  Repository:  https://example.com/repo\n  License:     MIT\n\n";
    assert_eq!(text(&spans), expected);

    let packwiz = spans.iter().find(|s| s.text == "packwiz").expect("packwiz is its own span");
    assert_eq!(packwiz.style.color, Color::Yellow);
    assert!(packwiz.style.dimmed);
}

#[test]
fn the_format_help_lists_every_placeholder() {
    let help = format_long_help();
    assert!(help.starts_with("Sets a custom output format for the modlist.\n\n"));
    assert!(help.ends_with("\n\n[default: - [{NAME}]({URL}) - {DESCRIPTION}\\n]"));
    let table = placeholder_help();
    assert!(help.contains(&table));
    assert_eq!(table.lines().count(), 16);
    assert!(table.lines().next().unwrap().starts_with("  {ID}"));
    assert!(table.contains("{AUTHORS_MD}"));
}
