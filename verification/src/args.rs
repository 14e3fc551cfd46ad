//! What the command line prints: the verbosity flags, and the styled text
//! of the `config` and `about` commands.
//!
//! Rendering produces styled spans; writing them out, with or without
//! colour, is the caller's part.

use vstd::prelude::*;

use crate::request::opt_view;
use crate::text::{decimal, pad_right, pad_right_spec, push_decimal};

verus! {

/// How much the run logs.
#[derive(Debug, Clone, Copy, PartialEq, Eq, PartialOrd, Ord)]
pub enum Verbosity {
    Quiet,
    Normal,
    Info,
    Debug,
}

/// The log levels a run can filter at, most restrictive first.
#[derive(Debug, Clone, Copy, PartialEq, Eq, PartialOrd, Ord)]
pub enum LevelFilter {
    Off,
    Error,
    Warn,
    Info,
    Debug,
    Trace,
}

/// A verbosity's place, quietest first.
pub open spec fn verbosity_rank(v: Verbosity) -> int {
    match v {
        Verbosity::Quiet => 0,
        Verbosity::Normal => 1,
        Verbosity::Info => 2,
        Verbosity::Debug => 3,
    }
}

/// A level filter's place, most restrictive first.
pub open spec fn level_rank(l: LevelFilter) -> int {
    match l {
        LevelFilter::Off => 0,
        LevelFilter::Error => 1,
        LevelFilter::Warn => 2,
        LevelFilter::Info => 3,
        LevelFilter::Debug => 4,
        LevelFilter::Trace => 5,
    }
}

/// The verbosity the flags ask for: `--quiet` wins, else one level per
/// `-v`, capped at debug.
pub open spec fn resolve_spec(verbose: u8, quiet: bool) -> Verbosity {
    if quiet {
        Verbosity::Quiet
    } else if verbose == 0 {
        Verbosity::Normal
    } else if verbose == 1 {
        Verbosity::Info
    } else {
        Verbosity::Debug
    }
}

/// The level filter a verbosity logs at.
pub open spec fn level_filter_of(v: Verbosity) -> LevelFilter {
    match v {
        Verbosity::Quiet => LevelFilter::Error,
        Verbosity::Normal => LevelFilter::Warn,
        Verbosity::Info => LevelFilter::Info,
        Verbosity::Debug => LevelFilter::Trace,
    }
}

/// A level filter's name, lower case.
pub open spec fn level_name(l: LevelFilter) -> Seq<char> {
    match l {
        LevelFilter::Off => "off"@,
        LevelFilter::Error => "error"@,
        LevelFilter::Warn => "warn"@,
        LevelFilter::Info => "info"@,
        LevelFilter::Debug => "debug"@,
        LevelFilter::Trace => "trace"@,
    }
}

impl Verbosity {
    /// The verbosity `-v` (counted) and `--quiet` ask for.
    pub fn resolve(verbose: u8, quiet: bool) -> (r: Verbosity)
        ensures
            r == resolve_spec(verbose, quiet),
    {
        match (quiet, verbose) {
            (true, _) => Verbosity::Quiet,
            (_, 0) => Verbosity::Normal,
            (_, 1) => Verbosity::Info,
            (..) => Verbosity::Debug,
        }
    }

    /// The level filter to log at.
    pub fn to_level_filter(self) -> (r: LevelFilter)
        ensures
            r == level_filter_of(self),
    {
        match self {
            Verbosity::Quiet => LevelFilter::Error,
            Verbosity::Normal => LevelFilter::Warn,
            Verbosity::Info => LevelFilter::Info,
            Verbosity::Debug => LevelFilter::Trace,
        }
    }
}

impl LevelFilter {
    /// The level's name in lower case, as the `config` command prints it.
    pub fn name(self) -> (r: String)
        ensures
            r@ == level_name(self),
    {
        match self {
            LevelFilter::Off => String::from_str("off"),
            LevelFilter::Error => String::from_str("error"),
            LevelFilter::Warn => String::from_str("warn"),
            LevelFilter::Info => String::from_str("info"),
            LevelFilter::Debug => String::from_str("debug"),
            LevelFilter::Trace => String::from_str("trace"),
        }
    }
}

/// Each level filter is named by its own name, as the `log` crate spells
/// it in lower case, and no two filters share a name, so the report names
/// the filter the run logs at.
pub proof fn lemma_level_names(a: LevelFilter, b: LevelFilter)
    ensures
        level_name(LevelFilter::Off) == "off"@,
        level_name(LevelFilter::Error) == "error"@,
        level_name(LevelFilter::Warn) == "warn"@,
        level_name(LevelFilter::Info) == "info"@,
        level_name(LevelFilter::Debug) == "debug"@,
        level_name(LevelFilter::Trace) == "trace"@,
        level_name(a) == level_name(b) ==> a == b,
{
    reveal_strlit("off");
    reveal_strlit("error");
    reveal_strlit("warn");
    reveal_strlit("info");
    reveal_strlit("debug");
    reveal_strlit("trace");
    if level_name(a) == level_name(b) && a != b {
        assert(level_name(a).len() != level_name(b).len() || level_name(a)[0] != level_name(b)[0]
            || level_name(a)[1] != level_name(b)[1]);
    }
}

/// More verbosity never logs less: the level filter follows the verbosity's
/// order.
pub proof fn lemma_level_filter_monotone(a: Verbosity, b: Verbosity)
    requires
        verbosity_rank(a) <= verbosity_rank(b),
    ensures
        level_rank(level_filter_of(a)) <= level_rank(level_filter_of(b)),
{
}

/// `--quiet` wins over any number of `-v`.
pub proof fn lemma_quiet_wins(verbose: u8)
    ensures
        resolve_spec(verbose, true) == Verbosity::Quiet,
        level_filter_of(resolve_spec(verbose, true)) == LevelFilter::Error,
{
}

/// A colour a span is written in.
#[derive(Debug, Clone, Copy, PartialEq, Eq)]
pub enum Color {
    Default,
    Cyan,
    Green,
    Yellow,
}

/// How a span is written.
#[derive(Debug, Clone, Copy, PartialEq, Eq)]
pub struct Style {
    pub bold: bool,
    pub dimmed: bool,
    pub color: Color,
}

/// A run of text in one style.
pub struct Span {
    pub text: String,
    pub style: Style,
}

/// A [`Span`] as plain values.
pub struct SpanView {
    pub text: Seq<char>,
    pub style: Style,
}

impl View for Span {
    type V = SpanView;

    open spec fn view(&self) -> SpanView {
        SpanView { text: self.text@, style: self.style }
    }
}

/// The plain values of a list of spans.
pub open spec fn spans_view(v: Seq<Span>) -> Seq<SpanView> {
    v.map_values(|s: Span| s@)
}

/// Unstyled.
pub open spec fn plain_style() -> Style {
    Style { bold: false, dimmed: false, color: Color::Default }
}

/// Bold.
pub open spec fn bold_style() -> Style {
    Style { bold: true, dimmed: false, color: Color::Default }
}

/// Dimmed.
pub open spec fn dimmed_style() -> Style {
    Style { bold: false, dimmed: true, color: Color::Default }
}

/// In a colour.
pub open spec fn color_style(c: Color) -> Style {
    Style { bold: false, dimmed: false, color: c }
}

/// `text` in `style`.
pub open spec fn sp(text: Seq<char>, style: Style) -> SpanView {
    SpanView { text, style }
}

/// `text`, unstyled.
pub open spec fn pl(text: Seq<char>) -> SpanView {
    sp(text, plain_style())
}

/// A span dimmed, keeping the rest of its style.
pub open spec fn dim(s: SpanView) -> SpanView {
    SpanView { text: s.text, style: Style { bold: s.style.bold, dimmed: true, color: s.style.color } }
}

/// The width labels are padded to.
pub open spec fn label_width() -> nat {
    12
}

/// The banner both commands open with: a blank line, the name between two
/// marks, the subtitle dimmed, and a blank line.
pub open spec fn header_spec(subtitle: Seq<SpanView>) -> Seq<SpanView> {
    seq![
        pl("\n"@),
        pl("  "@),
        sp("⣿"@, color_style(Color::Cyan)),
        pl(" "@),
        sp("sculkr"@, Style { bold: true, dimmed: false, color: Color::Cyan }),
        pl(" "@),
        sp("⣿"@, color_style(Color::Cyan)),
        pl("\n"@),
        pl("  "@),
    ] + subtitle.map_values(|s: SpanView| dim(s)) + seq![pl("\n"@), pl("\n"@)]
}

/// One line of a report: the label, bold and padded, then the value.
pub open spec fn line_spec(label: Seq<char>, value: Seq<SpanView>) -> Seq<SpanView> {
    seq![pl("  "@), sp(pad_right_spec(label, label_width()), bold_style()), pl(" "@)] + value + seq![
        pl("\n"@),
    ]
}

/// Appends a span.
fn push_span(out: &mut Vec<Span>, text: String, style: Style)
    ensures
        spans_view(final(out)@) == spans_view(old(out)@).push(sp(text@, style)),
{
    let ghost before = spans_view(out@);
    out.push(Span { text, style });
    assert(spans_view(out@) =~= before.push(sp(text@, style)));
}

/// Appends an unstyled span.
fn push_plain(out: &mut Vec<Span>, text: &str)
    ensures
        spans_view(final(out)@) == spans_view(old(out)@).push(pl(text@)),
{
    push_span(out, String::from_str(text), Style { bold: false, dimmed: false, color: Color::Default });
}

/// Appends the start of a report line: indent, padded bold label, space.
fn push_label(out: &mut Vec<Span>, label: &str)
    ensures
        spans_view(final(out)@) == spans_view(old(out)@) + seq![
            pl("  "@),
            sp(pad_right_spec(label@, label_width()), bold_style()),
            pl(" "@),
        ],
{
    let ghost before = spans_view(out@);
    push_plain(out, "  ");
    push_span(out, pad_right(label, 12), Style { bold: true, dimmed: false, color: Color::Default });
    push_plain(out, " ");
    assert(spans_view(out@) =~= before + seq![
        pl("  "@),
        sp(pad_right_spec(label@, label_width()), bold_style()),
        pl(" "@),
    ]);
}

/// The opening banner, with `subtitle` dimmed.
pub fn write_fancy_header(subtitle: Vec<Span>) -> (r: Vec<Span>)
    ensures
        spans_view(r@) == header_spec(spans_view(subtitle@)),
{
    let mut out: Vec<Span> = Vec::new();
    let cyan = Style { bold: false, dimmed: false, color: Color::Cyan };
    push_plain(&mut out, "\n");
    push_plain(&mut out, "  ");
    push_span(&mut out, String::from_str("⣿"), cyan);
    push_plain(&mut out, " ");
    push_span(&mut out, String::from_str("sculkr"), Style { bold: true, dimmed: false, color: Color::Cyan });
    push_plain(&mut out, " ");
    push_span(&mut out, String::from_str("⣿"), cyan);
    push_plain(&mut out, "\n");
    push_plain(&mut out, "  ");
    let ghost prefix = spans_view(out@);
    let ghost sub = spans_view(subtitle@);
    let mut subtitle = subtitle;
    let mut i: usize = 0;
    let n = subtitle.len();
    let mut rest: Vec<Span> = Vec::new();
    std::mem::swap(&mut rest, &mut subtitle);
    assert(sub.take(0).map_values(|s: SpanView| dim(s)) =~= Seq::<SpanView>::empty());
    assert(prefix + Seq::<SpanView>::empty() =~= prefix);
    while i < n
        invariant
            n == sub.len(),
            i <= n,
            spans_view(rest@) == sub,
            spans_view(out@) == prefix + sub.take(i as int).map_values(|s: SpanView| dim(s)),
        decreases n - i,
    {
        let s = &rest[i];
        assert(spans_view(rest@)[i as int] == s@);
        let st = Style { bold: s.style.bold, dimmed: true, color: s.style.color };
        push_span(&mut out, s.text.clone(), st);
        assert(sub.take(i + 1).map_values(|s: SpanView| dim(s)) =~= sub.take(i as int).map_values(
            |s: SpanView| dim(s),
        ).push(dim(sub[i as int])));
        i = i + 1;
    }
    assert(sub.take(n as int) =~= sub);
    push_plain(&mut out, "\n");
    push_plain(&mut out, "\n");
    assert(spans_view(out@) =~= header_spec(sub));
    out
}

/// What the `config` command reports, gathered before any of it is
/// rendered. Every part that can fail to be found holds that absence rather
/// than an error: a missing key or an unreadable pack is the most useful
/// thing the command has to say.
pub struct Runtime {
    pub pack_root: String,
    /// Modrinth and CurseForge counts, or `None` when there is no pack to
    /// read.
    pub mods: Option<(usize, usize)>,
    pub cache: String,
    pub cache_entries: Option<usize>,
    /// The API key's fingerprint, never the key.
    pub api_key: Option<String>,
    pub output: Option<String>,
    pub format: String,
    pub verbosity: Verbosity,
}

impl Runtime {
    /// The mod counts worth reporting: a pack with none is reported like
    /// one that could not be read.
    pub fn mod_counts(counts: Option<(usize, usize)>) -> (r: Option<(usize, usize)>)
        ensures
            r == (match counts {
                Some((m, c)) => if m + c > 0 {
                    counts
                } else {
                    None
                },
                None => None,
            }),
    {
        match counts {
            Some((m, c)) => {
                if m > 0 || c > 0 {
                    counts
                } else {
                    None
                }
            },
            None => None,
        }
    }
}

/// The `Mods:` value: the total in green and the split, or a warning.
pub open spec fn mods_value_spec(mods: Option<(usize, usize)>) -> Seq<SpanView> {
    match mods {
        Some((m, c)) => seq![
            sp(decimal((m + c) as nat), color_style(Color::Green)),
            pl(" ("@ + decimal(m as nat) + " Modrinth, "@ + decimal(c as nat) + " CurseForge)"@),
        ],
        None => seq![sp("no *.pw.toml files found here"@, color_style(Color::Yellow))],
    }
}

/// The `Cache:` value: the path, and the entry count or a note that none
/// is written yet.
pub open spec fn cache_value_spec(cache: Seq<char>, entries: Option<usize>) -> Seq<SpanView> {
    match entries {
        Some(e) => seq![pl(cache), pl(" ("@ + decimal(e as nat) + " cached)"@)],
        None => seq![pl(cache), pl(" "@), sp("(not written yet)"@, dimmed_style())],
    }
}

/// The `CF_API_KEY:` value: the key's fingerprint in green, or a warning.
pub open spec fn key_value_spec(api_key: Option<Seq<char>>) -> Seq<SpanView> {
    match api_key {
        Some(fp) => seq![sp(fp, color_style(Color::Green))],
        None => seq![
            sp("not set"@, color_style(Color::Yellow)),
            pl(" "@),
            sp("(CurseForge mods will fail)"@, dimmed_style()),
        ],
    }
}

/// The `config` report for `rt`.
pub open spec fn config_spec(rt: Runtime) -> Seq<SpanView> {
    header_spec(seq![pl("Runtime Configuration"@)])
        + line_spec("Pack root:"@, seq![pl(rt.pack_root@)])
        + line_spec("Mods:"@, mods_value_spec(rt.mods))
        + line_spec("Cache:"@, cache_value_spec(rt.cache@, rt.cache_entries))
        + line_spec("CF_API_KEY:"@, key_value_spec(opt_view(rt.api_key)))
        + line_spec(
        "Output:"@,
        seq![
            pl(
                match rt.output {
                    Some(o) => o@,
                    None => "stdout"@,
                },
            ),
        ],
    ) + line_spec("Format:"@, seq![pl(rt.format@)]) + line_spec(
        "Log level:"@,
        seq![pl(level_name(level_filter_of(rt.verbosity)))],
    ) + seq![pl("\n"@)]
}

/// The `about` report for the given package details.
pub open spec fn about_spec(
    version: Seq<char>,
    authors: Seq<char>,
    description: Seq<char>,
    repository: Seq<char>,
    license: Seq<char>,
) -> Seq<SpanView> {
    header_spec(seq![pl("Companion CLI for "@), sp("packwiz"@, color_style(Color::Yellow))])
        + line_spec("Version:"@, seq![pl(version)]) + line_spec("Authors:"@, seq![pl(authors)])
        + line_spec("Description:"@, seq![pl(description)]) + line_spec(
        "Repository:"@,
        seq![pl(repository)],
    ) + line_spec("License:"@, seq![pl(license)]) + seq![pl("\n"@)]
}

/// Appends a whole report line: label, the value spans, newline.
fn push_line(out: &mut Vec<Span>, label: &str, value: Vec<Span>)
    ensures
        spans_view(final(out)@) == spans_view(old(out)@) + line_spec(label@, spans_view(value@)),
{
    let ghost before = spans_view(out@);
    push_label(out, label);
    let ghost mid = spans_view(out@);
    let mut value = value;
    let ghost vs = spans_view(value@);
    out.append(&mut value);
    assert(spans_view(out@) =~= mid + vs);
    push_plain(out, "\n");
    assert(spans_view(out@) =~= before + line_spec(label@, vs));
}

/// A single unstyled span.
fn one_plain(text: String) -> (r: Vec<Span>)
    ensures
        spans_view(r@) == seq![pl(text@)],
{
    let mut v: Vec<Span> = Vec::new();
    push_span(&mut v, text, Style { bold: false, dimmed: false, color: Color::Default });
    assert(spans_view(v@) =~= seq![pl(text@)]);
    v
}

/// The `Mods:` value spans.
fn mods_value(mods: Option<(usize, usize)>) -> (r: Vec<Span>)
    ensures
        spans_view(r@) == mods_value_spec(mods),
{
    let mut out: Vec<Span> = Vec::new();
    match mods {
        Some((m, c)) => {
            let mut total = String::new();
            push_decimal(&mut total, (m as u128) + (c as u128));
            push_span(&mut out, total, Style { bold: false, dimmed: false, color: Color::Green });
            let mut detail = String::from_str(" (");
            push_decimal(&mut detail, m as u128);
            detail.append(" Modrinth, ");
            push_decimal(&mut detail, c as u128);
            detail.append(" CurseForge)");
            push_span(&mut out, detail, Style { bold: false, dimmed: false, color: Color::Default });
        },
        None => {
            push_span(
                &mut out,
                String::from_str("no *.pw.toml files found here"),
                Style { bold: false, dimmed: false, color: Color::Yellow },
            );
        },
    }
    assert(spans_view(out@) =~= mods_value_spec(mods));
    out
}

/// The `Cache:` value spans.
fn cache_value(cache: &String, entries: Option<usize>) -> (r: Vec<Span>)
    ensures
        spans_view(r@) == cache_value_spec(cache@, entries),
{
    let plain = Style { bold: false, dimmed: false, color: Color::Default };
    let mut out: Vec<Span> = Vec::new();
    push_span(&mut out, cache.clone(), plain);
    match entries {
        Some(e) => {
            let mut detail = String::from_str(" (");
            push_decimal(&mut detail, e as u128);
            detail.append(" cached)");
            push_span(&mut out, detail, plain);
        },
        None => {
            push_span(&mut out, String::from_str(" "), plain);
            push_span(
                &mut out,
                String::from_str("(not written yet)"),
                Style { bold: false, dimmed: true, color: Color::Default },
            );
        },
    }
    assert(spans_view(out@) =~= cache_value_spec(cache@, entries));
    out
}

/// The `CF_API_KEY:` value spans.
fn key_value(api_key: &Option<String>) -> (r: Vec<Span>)
    ensures
        spans_view(r@) == key_value_spec(opt_view(*api_key)),
{
    let mut out: Vec<Span> = Vec::new();
    match api_key {
        Some(fp) => {
            push_span(&mut out, fp.clone(), Style { bold: false, dimmed: false, color: Color::Green });
        },
        None => {
            push_span(
                &mut out,
                String::from_str("not set"),
                Style { bold: false, dimmed: false, color: Color::Yellow },
            );
            push_span(&mut out, String::from_str(" "), Style { bold: false, dimmed: false, color: Color::Default });
            push_span(
                &mut out,
                String::from_str("(CurseForge mods will fail)"),
                Style { bold: false, dimmed: true, color: Color::Default },
            );
        },
    }
    assert(spans_view(out@) =~= key_value_spec(opt_view(*api_key)));
    out
}

/// Renders the `config` report.
pub fn render_config(rt: &Runtime) -> (r: Vec<Span>)
    ensures
        spans_view(r@) == config_spec(*rt),
{
    let mut out = write_fancy_header(one_plain(String::from_str("Runtime Configuration")));
    let ghost s0 = spans_view(out@);
    push_line(&mut out, "Pack root:", one_plain(rt.pack_root.clone()));
    let ghost s1 = spans_view(out@);
    push_line(&mut out, "Mods:", mods_value(rt.mods));
    let ghost s2 = spans_view(out@);
    push_line(&mut out, "Cache:", cache_value(&rt.cache, rt.cache_entries));
    let ghost s3 = spans_view(out@);
    push_line(&mut out, "CF_API_KEY:", key_value(&rt.api_key));
    let ghost s4 = spans_view(out@);
    let output = match &rt.output {
        Some(o) => o.clone(),
        None => String::from_str("stdout"),
    };
    push_line(&mut out, "Output:", one_plain(output));
    let ghost s5 = spans_view(out@);
    push_line(&mut out, "Format:", one_plain(rt.format.clone()));
    let ghost s6 = spans_view(out@);
    push_line(&mut out, "Log level:", one_plain(rt.verbosity.to_level_filter().name()));
    let ghost s7 = spans_view(out@);
    push_plain(&mut out, "\n");
    assert(spans_view(out@) == s7.push(pl("\n"@)));
    assert(s7.push(pl("\n"@)) =~= s7 + seq![pl("\n"@)]);
    out
}

/// Renders the `about` report for the given package details.
pub fn about(
    version: &str,
    authors: &str,
    description: &str,
    repository: &str,
    license: &str,
) -> (r: Vec<Span>)
    ensures
        spans_view(r@) == about_spec(version@, authors@, description@, repository@, license@),
{
    let mut subtitle: Vec<Span> = Vec::new();
    push_plain(&mut subtitle, "Companion CLI for ");
    push_span(
        &mut subtitle,
        String::from_str("packwiz"),
        Style { bold: false, dimmed: false, color: Color::Yellow },
    );
    assert(spans_view(subtitle@) =~= seq![pl("Companion CLI for "@), sp("packwiz"@, color_style(Color::Yellow))]);
    let mut out = write_fancy_header(subtitle);
    push_line(&mut out, "Version:", one_plain(String::from_str(version)));
    push_line(&mut out, "Authors:", one_plain(String::from_str(authors)));
    push_line(&mut out, "Description:", one_plain(String::from_str(description)));
    push_line(&mut out, "Repository:", one_plain(String::from_str(repository)));
    push_line(&mut out, "License:", one_plain(String::from_str(license)));
    push_plain(&mut out, "\n");
    assert(spans_view(out@) =~= about_spec(version@, authors@, description@, repository@, license@));
    out
}

} // verus!
