//! The output format's placeholders, and the help text that lists them.

use vstd::prelude::*;

use crate::text::{pad_right, pad_right_spec};

verus! {

/// The format used when none is given: a Markdown list item per mod. The
/// `\n` is a backslash escape the formatter resolves, not a line break.
pub const DEFAULT_FORMAT: &'static str = "- [{NAME}]({URL}) - {DESCRIPTION}\\n";

/// One placeholder (or a placeholder and its aliases) and what it holds.
pub struct Placeholder {
    pub names: &'static str,
    pub description: &'static str,
}

/// The placeholders, as their names and descriptions.
pub open spec fn placeholder_rows() -> Seq<(Seq<char>, Seq<char>)> {
    seq![
        ("{ID}"@, "Project id (Modrinth base62, CurseForge numeric)"@),
        ("{SLUG}"@, "URL slug, e.g. `sodium`"@),
        ("{NAME}, {TITLE}"@, "Project title"@),
        ("{DESCRIPTION}, {DESC}"@, "Short description / summary"@),
        ("{URL}"@, "Project page on Modrinth/CurseForge"@),
        ("{ICON_URL}"@, "Project icon image"@),
        ("{SOURCE_URL}"@, "Source repository"@),
        ("{ISSUES_URL}"@, "Issue tracker"@),
        ("{WIKI_URL}"@, "Wiki / documentation"@),
        ("{LICENSE}"@, "License name"@),
        ("{LICENSE_ID}"@, "License id, e.g. `MIT`"@),
        ("{LICENSE_URL}"@, "License text"@),
        ("{AUTHORS}"@, "Author names, or the owning organization, comma separated"@),
        ("{AUTHOR_URLS}"@, "Author pages, comma separated"@),
        ("{AUTHORS_MD}"@, "Authors as markdown links"@),
        ("{INDEX}"@, "This mod's position in the list, starting at 1"@)
    ]
}

/// The width the placeholder names are padded to in the help.
pub open spec fn name_width() -> nat {
    24
}

/// One line of the placeholder help.
pub open spec fn help_line(row: (Seq<char>, Seq<char>)) -> Seq<char> {
    "  "@ + pad_right_spec(row.0, name_width()) + row.1
}

/// The help lines for `rows`, joined by line breaks.
pub open spec fn help_lines(rows: Seq<(Seq<char>, Seq<char>)>) -> Seq<char>
    decreases rows.len(),
{
    if rows.len() == 0 {
        Seq::empty()
    } else if rows.len() == 1 {
        help_line(rows[0])
    } else {
        help_lines(rows.drop_last()) + "\n"@ + help_line(rows.last())
    }
}

/// The text before the placeholder list in the long help of `--format`.
pub open spec fn long_help_prefix() -> Seq<char> {
    "Sets a custom output format for the modlist.\n\nA string literal with {PLACEHOLDER} holes in it, one per field the cache holds.\nBackslash escapes (\\n, \\t, \\\\, \\{, \\}) are resolved by sculkr rather than by\nthe shell, so quote the template and write \\n where you want a line break.\n\nPlaceholders with no value for a given mod (CurseForge sends no license,\nModrinth sends no authors) render as an empty string.\n\nAvailable placeholders:\n"@
}

/// The long help of `--format`: what a format is, every placeholder, and
/// the default.
pub open spec fn long_help_spec() -> Seq<char> {
    long_help_prefix() + help_lines(placeholder_rows()) + "\n\n[default: "@ + DEFAULT_FORMAT@ + "]"@
}

/// The placeholders.
pub fn placeholders() -> (r: Vec<Placeholder>)
    ensures
        r@.map_values(|p: Placeholder| (p.names@, p.description@)) == placeholder_rows(),
{
    let mut rows: Vec<Placeholder> = Vec::new();
    rows.push(Placeholder { names: "{ID}", description: "Project id (Modrinth base62, CurseForge numeric)" });
    rows.push(Placeholder { names: "{SLUG}", description: "URL slug, e.g. `sodium`" });
    rows.push(Placeholder { names: "{NAME}, {TITLE}", description: "Project title" });
    rows.push(Placeholder { names: "{DESCRIPTION}, {DESC}", description: "Short description / summary" });
    rows.push(Placeholder { names: "{URL}", description: "Project page on Modrinth/CurseForge" });
    rows.push(Placeholder { names: "{ICON_URL}", description: "Project icon image" });
    rows.push(Placeholder { names: "{SOURCE_URL}", description: "Source repository" });
    rows.push(Placeholder { names: "{ISSUES_URL}", description: "Issue tracker" });
    rows.push(Placeholder { names: "{WIKI_URL}", description: "Wiki / documentation" });
    rows.push(Placeholder { names: "{LICENSE}", description: "License name" });
    rows.push(Placeholder { names: "{LICENSE_ID}", description: "License id, e.g. `MIT`" });
    rows.push(Placeholder { names: "{LICENSE_URL}", description: "License text" });
    rows.push(Placeholder { names: "{AUTHORS}", description: "Author names, or the owning organization, comma separated" });
    rows.push(Placeholder { names: "{AUTHOR_URLS}", description: "Author pages, comma separated" });
    rows.push(Placeholder { names: "{AUTHORS_MD}", description: "Authors as markdown links" });
    rows.push(Placeholder { names: "{INDEX}", description: "This mod's position in the list, starting at 1" });
    assert(rows@.map_values(|p: Placeholder| (p.names@, p.description@)) =~= placeholder_rows());
    rows
}

/// The placeholder table, one placeholder per line.
pub fn placeholder_help() -> (r: String)
    ensures
        r@ == help_lines(placeholder_rows()),
{
    let rows = placeholders();
    let ghost rs = rows@.map_values(|p: Placeholder| (p.names@, p.description@));
    let mut out = String::new();
    let mut i: usize = 0;
    assert(rs.take(0) =~= Seq::<(Seq<char>, Seq<char>)>::empty());
    while i < rows.len()
        invariant
            i <= rows@.len(),
            rs == rows@.map_values(|p: Placeholder| (p.names@, p.description@)),
            out@ == help_lines(rs.take(i as int)),
        decreases rows.len() - i,
    {
        let p = &rows[i];
        assert(rs[i as int] == (p.names@, p.description@));
        assert(rs.take(i + 1).drop_last() =~= rs.take(i as int));
        if i > 0 {
            out.append("\n");
        }
        out.append("  ");
        let name = pad_right(p.names, 24);
        out.append(name.as_str());
        out.append(p.description);
        assert(out@ =~= help_lines(rs.take(i + 1)));
        i = i + 1;
    }
    assert(rs.take(rows.len() as int) =~= rs);
    out
}

/// The long help of `--format`.
pub fn format_long_help() -> (r: String)
    ensures
        r@ == long_help_spec(),
{
    let mut out = String::from_str("Sets a custom output format for the modlist.\n\nA string literal with {PLACEHOLDER} holes in it, one per field the cache holds.\nBackslash escapes (\\n, \\t, \\\\, \\{, \\}) are resolved by sculkr rather than by\nthe shell, so quote the template and write \\n where you want a line break.\n\nPlaceholders with no value for a given mod (CurseForge sends no license,\nModrinth sends no authors) render as an empty string.\n\nAvailable placeholders:\n");
    let help = placeholder_help();
    out.append(help.as_str());
    out.append("\n\n[default: ");
    out.append(DEFAULT_FORMAT);
    out.append("]");
    out
}

} // verus!
