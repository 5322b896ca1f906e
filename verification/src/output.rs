//! Terminal colours and the text that the program prints.
use vstd::prelude::*;

use crate::managers::{or_empty, Fields};
use crate::order::{lemma_is_sorted_elements, sorted_elements, sorted_insert, strictly_sorted, texts};
use crate::text::{decimal, decimal_chars, str_eq, string_of};
use crate::types::{opt_view, tool_fields, LookupResult, ToolInfo};

verus! {

/// Terminal escape sequences for styles and colours.
pub const RESET: &'static str = "\x1b[0m";
pub const BOLD: &'static str = "\x1b[1m";
pub const DIM: &'static str = "\x1b[2m";
pub const GREEN: &'static str = "\x1b[32m";
pub const YELLOW: &'static str = "\x1b[33m";
pub const CYAN: &'static str = "\x1b[36m";
pub const RED: &'static str = "\x1b[31m";
pub const MAGENTA: &'static str = "\x1b[35m";

/// The colour in which a source is shown.
pub open spec fn colour_of(source: Seq<char>) -> Seq<char> {
    if source == "brew"@ {
        GREEN@
    } else if source == "cargo"@ {
        YELLOW@
    } else if source == "npm"@ || source == "pnpm"@ || source == "bun"@ {
        RED@
    } else if source == "go"@ {
        CYAN@
    } else if source == "pipx"@ || source == "uv"@ || source == "pip"@ {
        MAGENTA@
    } else if source == "macos-system"@ || source == "xcode-clt"@ {
        DIM@
    } else {
        RESET@
    }
}

/// The colour in which `source` is shown.
pub fn source_colour(source: &str) -> (r: &'static str)
    ensures
        r@ == colour_of(source@),
{
    if str_eq(source, "brew") {
        GREEN
    } else if str_eq(source, "cargo") {
        YELLOW
    } else if str_eq(source, "npm") || str_eq(source, "pnpm") || str_eq(source, "bun") {
        RED
    } else if str_eq(source, "go") {
        CYAN
    } else if str_eq(source, "pipx") || str_eq(source, "uv") || str_eq(source, "pip") {
        MAGENTA
    } else if str_eq(source, "macos-system") || str_eq(source, "xcode-clt") {
        DIM
    } else {
        RESET
    }
}

/// The first lines of a lookup: the name and the path.
pub open spec fn lookup_head(name: Seq<char>, path: Seq<char>) -> Seq<char> {
    "\n  "@ + BOLD@ + name + RESET@ + "\n"@ + "  "@ + DIM@ + "path:"@ + RESET@ + "    "@ + path + "\n"@
}

/// The target line of a lookup, when the binary is a symlink.
pub open spec fn target_line(t: Option<Seq<char>>) -> Seq<char> {
    match t {
        Some(t) => "  "@ + DIM@ + "target:"@ + RESET@ + "  "@ + t + "\n"@,
        None => seq![],
    }
}

/// The source line of a lookup, the source in its colour.
pub open spec fn source_line(source: Seq<char>) -> Seq<char> {
    "  "@ + DIM@ + "source:"@ + RESET@ + "  "@ + colour_of(source) + source + RESET@ + "\n"@
}

/// The text that a lookup prints.
pub open spec fn lookup_text(r: (Seq<char>, Seq<char>, Option<Seq<char>>, Seq<char>, Option<Seq<char>>)) -> Seq<char> {
    lookup_head(r.0, r.1) + target_line(r.2) + source_line(r.3) + version_line(r.4) + "\n"@
}

/// The text that a lookup prints: name, path, symlink target, source and version.
pub fn render_lookup(result: &LookupResult) -> (r: String)
    ensures
        r@ == lookup_text(result.fields()),
{
    let colour = source_colour(result.source.as_str());
    let mut out = String::new();
    out.append("\n  ");
    out.append(BOLD);
    out.append(result.binary.as_str());
    out.append(RESET);
    out.append("\n");
    out.append("  ");
    out.append(DIM);
    out.append("path:");
    out.append(RESET);
    out.append("    ");
    out.append(result.resolved_path.as_str());
    out.append("\n");
    let ghost a = out@;
    assert(a =~= lookup_head(result.binary@, result.resolved_path@));
    match &result.symlink_target {
        Some(t) => {
            out.append("  ");
            out.append(DIM);
            out.append("target:");
            out.append(RESET);
            out.append("  ");
            out.append(t.as_str());
            out.append("\n");
        },
        None => {},
    }
    let ghost b = out@;
    assert(b =~= a + target_line(opt_view(result.symlink_target)));
    out.append("  ");
    out.append(DIM);
    out.append("source:");
    out.append(RESET);
    out.append("  ");
    out.append(colour);
    out.append(result.source.as_str());
    out.append(RESET);
    out.append("\n");
    let ghost c = out@;
    assert(c =~= b + source_line(result.source@));
    match &result.version {
        Some(v) => {
            out.append("  ");
            out.append(DIM);
            out.append("version:");
            out.append(RESET);
            out.append(" ");
            out.append(v.as_str());
            out.append("\n");
        },
        None => {},
    }
    let ghost d = out@;
    assert(d =~= c + version_line(opt_view(result.version)));
    out.append("\n");
    out
}

/// The sources of a sequence of tools, as a set.
pub open spec fn sources_of(tools: Seq<Fields>) -> Set<Seq<char>> {
    tools.map_values(|t: Fields| t.2).to_set()
}

/// The tools of one source, in their order.
pub open spec fn of_source(tools: Seq<Fields>, source: Seq<char>) -> Seq<Fields> {
    tools.filter(from_source(source))
}

/// Whether a tool comes from `source`.
pub open spec fn from_source(source: Seq<char>) -> spec_fn(Fields) -> bool {
    |t: Fields| t.2 == source
}

/// The line that lists one tool: its name, and its version when it has a non-empty one.
pub open spec fn tool_line(t: Fields) -> Seq<char> {
    if or_empty(t.3).len() == 0 {
        "    "@ + t.0 + "\n"@
    } else {
        "    "@ + t.0 + " "@ + DIM@ + or_empty(t.3) + RESET@ + "\n"@
    }
}

/// The lines of a sequence of tools.
pub open spec fn tool_lines(ts: Seq<Fields>) -> Seq<char>
    decreases ts.len(),
{
    if ts.len() == 0 {
        seq![]
    } else {
        tool_lines(ts.drop_last()) + tool_line(ts.last())
    }
}

/// The block of one source: a heading with the number of its tools, then its tools.
pub open spec fn source_block(tools: Seq<Fields>, source: Seq<char>) -> Seq<char> {
    "\n  "@ + colour_of(source) + BOLD@ + source + RESET@ + " "@ + DIM@ + "("@ + decimal(
        of_source(tools, source).len(),
    ) + " tools)"@ + RESET@ + "\n"@ + tool_lines(of_source(tools, source))
}

/// The blocks of the given sources, in their order.
pub open spec fn source_blocks(tools: Seq<Fields>, sources: Seq<Seq<char>>) -> Seq<char>
    decreases sources.len(),
{
    if sources.len() == 0 {
        seq![]
    } else {
        source_blocks(tools, sources.drop_last()) + source_block(tools, sources.last())
    }
}

/// The text that `--all` prints: one block per source, the sources in the order of
/// `String`, then an empty line.
pub open spec fn all_text(tools: Seq<Fields>) -> Seq<char> {
    source_blocks(tools, sorted_elements(sources_of(tools))) + "\n"@
}

fn tool_line_text(out: &mut String, t: &ToolInfo)
    ensures
        final(out)@ == old(out)@ + tool_line(t.fields()),
{
    let empty = match &t.version {
        Some(v) => v.as_str().is_empty(),
        None => true,
    };
    out.append("    ");
    out.append(t.name.as_str());
    if !empty {
        match &t.version {
            Some(v) => {
                out.append(" ");
                out.append(DIM);
                out.append(v.as_str());
                out.append(RESET);
            },
            None => {},
        }
    }
    out.append("\n");
    assert(out@ =~= old(out)@ + tool_line(t.fields()));
}

fn source_block_text(out: &mut String, tools: &[ToolInfo], source: &str)
    ensures
        final(out)@ == old(out)@ + source_block(tool_fields(tools@), source@),
{
    let ghost ts = tool_fields(tools@);
    let ghost keep = from_source(source@);
    // count, then list
    let mut count: usize = 0;
    let mut i: usize = 0;
    while i < tools.len()
        invariant
            i <= tools@.len(),
            ts == tool_fields(tools@),
            keep == from_source(source@),
            count == ts.take(i as int).filter(keep).len(),
        decreases tools@.len() - i,
    {
        assert(ts.take(i + 1).drop_last() =~= ts.take(i as int));
        reveal_with_fuel(Seq::filter, 1);
        if str_eq(tools[i].source.as_str(), source) {
            count = count + 1;
        }
        i = i + 1;
    }
    assert(ts.take(i as int) =~= ts);
    let colour = source_colour(source);
    out.append("\n  ");
    out.append(colour);
    out.append(BOLD);
    out.append(source);
    out.append(RESET);
    out.append(" ");
    out.append(DIM);
    out.append("(");
    out.append(string_of(decimal_chars(count).as_slice()).as_str());
    out.append(" tools)");
    out.append(RESET);
    out.append("\n");
    let ghost head = out@;
    let mut i: usize = 0;
    while i < tools.len()
        invariant
            i <= tools@.len(),
            ts == tool_fields(tools@),
            keep == from_source(source@),
            out@ == head + tool_lines(ts.take(i as int).filter(keep)),
        decreases tools@.len() - i,
    {
        assert(ts.take(i + 1).drop_last() =~= ts.take(i as int));
        reveal_with_fuel(Seq::filter, 1);
        if str_eq(tools[i].source.as_str(), source) {
            assert(ts.take(i + 1).filter(keep) == ts.take(i as int).filter(keep).push(ts[i as int]));
            assert(ts.take(i + 1).filter(keep).drop_last() =~= ts.take(i as int).filter(keep));
            tool_line_text(out, &tools[i]);
        }
        i = i + 1;
    }
    assert(ts.take(i as int) =~= ts);
    assert(out@ =~= old(out)@ + source_block(ts, source@));
}

/// The text that `--all` prints: the tools grouped by source, the sources in the order of
/// `String`, each group in the order of the tools.
pub fn render_all(tools: &[ToolInfo]) -> (r: String)
    ensures
        r@ == all_text(tool_fields(tools@)),
{
    let ghost ts = tool_fields(tools@);
    let mut sources: Vec<String> = Vec::new();
    let mut i: usize = 0;
    while i < tools.len()
        invariant
            i <= tools@.len(),
            ts == tool_fields(tools@),
            strictly_sorted(texts(sources@)),
            texts(sources@).to_set() == sources_of(ts.take(i as int)),
        decreases tools@.len() - i,
    {
        assert(ts.take(i + 1).map_values(|t: Fields| t.2) =~= ts.take(i as int).map_values(|t: Fields| t.2).push(ts[i as int].2));
        proof {
            ts.take(i as int).map_values(|t: Fields| t.2).lemma_push_to_set_commute(ts[i as int].2);
        }
        sorted_insert(&mut sources, tools[i].source.clone());
        i = i + 1;
    }
    assert(ts.take(i as int) =~= ts);
    proof {
        lemma_is_sorted_elements(texts(sources@));
    }
    let mut out = String::new();
    let mut k: usize = 0;
    while k < sources.len()
        invariant
            k <= sources@.len(),
            ts == tool_fields(tools@),
            out@ == source_blocks(ts, texts(sources@).take(k as int)),
        decreases sources@.len() - k,
    {
        assert(texts(sources@).take(k + 1).drop_last() =~= texts(sources@).take(k as int));
        source_block_text(&mut out, tools, sources[k].as_str());
        k = k + 1;
    }
    assert(texts(sources@).take(k as int) =~= texts(sources@));
    out.append("\n");
    out
}

/// The line of one binary that no package manager claims.
pub open spec fn unmanaged_line(r: (Seq<char>, Seq<char>, Option<Seq<char>>, Seq<char>, Option<Seq<char>>)) -> Seq<char> {
    "    "@ + YELLOW@ + r.0 + RESET@ + "  "@ + DIM@ + r.1 + RESET@ + match r.2 {
        Some(t) => " "@ + DIM@ + "-> "@ + t + RESET@,
        None => seq![],
    } + "\n"@
}

/// The lines of a sequence of unmanaged binaries.
pub open spec fn unmanaged_lines(items: Seq<LookupResult>) -> Seq<char>
    decreases items.len(),
{
    if items.len() == 0 {
        seq![]
    } else {
        unmanaged_lines(items.drop_last()) + unmanaged_line(items.last().fields())
    }
}

/// The text that the search for unmanaged binaries prints.
pub open spec fn unmanaged_text(items: Seq<LookupResult>) -> Seq<char> {
    if items.len() == 0 {
        "\n  "@ + GREEN@ + "No unmanaged binaries found. Everything is claimed."@ + RESET@ + "\n\n"@
    } else {
        "\n  "@ + YELLOW@ + BOLD@ + "Unmanaged"@ + RESET@ + " "@ + DIM@ + "("@ + decimal(items.len())
            + " binaries not managed by any package manager)"@ + RESET@ + "\n\n"@ + unmanaged_lines(
            items,
        ) + "\n"@
    }
}

/// The text that lists the binaries that no package manager claims.
pub fn render_unmanaged(items: &[LookupResult]) -> (r: String)
    ensures
        r@ == unmanaged_text(items@),
{
    let mut out = String::new();
    if items.len() == 0 {
        out.append("\n  ");
        out.append(GREEN);
        out.append("No unmanaged binaries found. Everything is claimed.");
        out.append(RESET);
        out.append("\n\n");
        return out;
    }
    out.append("\n  ");
    out.append(YELLOW);
    out.append(BOLD);
    out.append("Unmanaged");
    out.append(RESET);
    out.append(" ");
    out.append(DIM);
    out.append("(");
    out.append(string_of(decimal_chars(items.len()).as_slice()).as_str());
    out.append(" binaries not managed by any package manager)");
    out.append(RESET);
    out.append("\n\n");
    let ghost head = out@;
    let mut i: usize = 0;
    while i < items.len()
        invariant
            i <= items@.len(),
            out@ == head + unmanaged_lines(items@.take(i as int)),
        decreases items@.len() - i,
    {
        assert(items@.take(i + 1).drop_last() =~= items@.take(i as int));
        let item = &items[i];
        let ghost before = out@;
        out.append("    ");
        out.append(YELLOW);
        out.append(item.binary.as_str());
        out.append(RESET);
        out.append("  ");
        out.append(DIM);
        out.append(item.resolved_path.as_str());
        out.append(RESET);
        match &item.symlink_target {
            Some(t) => {
                out.append(" ");
                out.append(DIM);
                out.append("-> ");
                out.append(t.as_str());
                out.append(RESET);
            },
            None => {},
        }
        out.append("\n");
        assert(out@ =~= before + unmanaged_line(item.fields()));
        i = i + 1;
    }
    assert(items@.take(i as int) =~= items@);
    out.append("\n");
    out
}

/// `s` followed by spaces up to `width` characters (`{:<width}`).
pub open spec fn padded(s: Seq<char>, width: nat) -> Seq<char> {
    if s.len() >= width {
        s
    } else {
        s + Seq::new((width - s.len()) as nat, |i: int| ' ')
    }
}

/// Appends `s` padded with spaces to `width` characters.
pub fn append_padded(out: &mut String, s: &str, width: usize)
    ensures
        final(out)@ == old(out)@ + padded(s@, width as nat),
{
    out.append(s);
    let n = s.unicode_len();
    let mut k = n;
    let ghost start = old(out)@ + s@;
    while k < width
        invariant
            n == s@.len(),
            n <= k <= width || (k == n && n >= width),
            out@ == start + Seq::new((k - n) as nat, |i: int| ' '),
        decreases width - k,
    {
        out.append(" ");
        proof {
            reveal_strlit(" ");
        }
        assert(Seq::new((k + 1 - n) as nat, |i: int| ' ') =~= Seq::new((k - n) as nat, |i: int| ' ') + " "@);
        k = k + 1;
    }
    if n >= width {
        assert(Seq::new((k - n) as nat, |i: int| ' ') =~= Seq::<char>::empty());
    }
    assert(out@ =~= old(out)@ + padded(s@, width as nat));
}

/// The texts joined with `", "` between them.
pub open spec fn comma_joined(items: Seq<Seq<char>>) -> Seq<char>
    decreases items.len(),
{
    if items.len() == 0 {
        seq![]
    } else if items.len() == 1 {
        items[0]
    } else {
        comma_joined(items.drop_last()) + ", "@ + items.last()
    }
}

/// The line of one recorded event.
pub open spec fn event_line(e: crate::history::EventFields) -> Seq<char> {
    "  "@ + DIM@ + e.0 + RESET@ + "  "@ + (if e.2 == "uninstall"@ {
        RED@
    } else {
        GREEN@
    }) + padded(e.2, 10) + RESET@ + " "@ + colour_of(e.1) + padded(e.1, 10) + RESET@ + " "@
        + comma_joined(e.3) + "\n"@
}

/// The lines of a sequence of events.
pub open spec fn event_lines(es: Seq<crate::history::EventFields>) -> Seq<char>
    decreases es.len(),
{
    if es.len() == 0 {
        seq![]
    } else {
        event_lines(es.drop_last()) + event_line(es.last())
    }
}

/// The text that the history prints when it holds events.
pub open spec fn history_text(es: Seq<crate::history::EventFields>) -> Seq<char> {
    "\n  "@ + BOLD@ + "Install history"@ + RESET@ + " "@ + DIM@ + "("@ + decimal(es.len()) + " events)"@
        + RESET@ + "\n\n"@ + event_lines(es) + "\n"@
}

fn append_joined(out: &mut String, items: &[String])
    ensures
        final(out)@ == old(out)@ + comma_joined(texts(items@)),
{
    let ghost t = texts(items@);
    let mut i: usize = 0;
    while i < items.len()
        invariant
            i <= items@.len(),
            t == texts(items@),
            out@ == old(out)@ + comma_joined(t.take(i as int)),
        decreases items@.len() - i,
    {
        assert(t.take(i + 1).drop_last() =~= t.take(i as int));
        if i > 0 {
            out.append(", ");
        }
        out.append(items[i].as_str());
        if i == 0 {
            assert(t.take(1) =~= seq![t[0]]);
        }
        i = i + 1;
    }
    assert(t.take(i as int) =~= t);
}

fn append_event_line(out: &mut String, e: &crate::types::InstallEvent)
    ensures
        final(out)@ == old(out)@ + event_line(e.fields()),
{
    let action_colour = if str_eq(e.action.as_str(), "uninstall") {
        RED
    } else {
        GREEN
    };
    let colour = source_colour(e.source.as_str());
    out.append("  ");
    out.append(DIM);
    out.append(e.timestamp.as_str());
    out.append(RESET);
    out.append("  ");
    out.append(action_colour);
    append_padded(out, e.action.as_str(), 10);
    out.append(RESET);
    out.append(" ");
    out.append(colour);
    append_padded(out, e.source.as_str(), 10);
    out.append(RESET);
    out.append(" ");
    append_joined(out, e.packages.as_slice());
    out.append("\n");
    assert(out@ =~= old(out)@ + event_line(e.fields()));
}

/// The text that the history prints: one line per event, with its time, action, source and
/// packages.
pub fn render_history(history: &[crate::types::InstallEvent]) -> (r: String)
    ensures
        r@ == history_text(crate::history::event_fields(history@)),
{
    let ghost es = crate::history::event_fields(history@);
    let mut out = String::new();
    out.append("\n  ");
    out.append(BOLD);
    out.append("Install history");
    out.append(RESET);
    out.append(" ");
    out.append(DIM);
    out.append("(");
    out.append(string_of(decimal_chars(history.len()).as_slice()).as_str());
    out.append(" events)");
    out.append(RESET);
    out.append("\n\n");
    let ghost head = out@;
    let mut i: usize = 0;
    while i < history.len()
        invariant
            i <= history@.len(),
            es == crate::history::event_fields(history@),
            out@ == head + event_lines(es.take(i as int)),
        decreases history@.len() - i,
    {
        assert(es.take(i + 1).drop_last() =~= es.take(i as int));
        let e = &history[i];
        append_event_line(&mut out, e);
        assert(es[i as int] == e.fields());
        i = i + 1;
    }
    assert(es.take(i as int) =~= es);
    out.append("\n");
    out
}

/// The first lines of one name that a wildcard found: the name and its source.
pub open spec fn match_head(name: Seq<char>, source: Seq<char>) -> Seq<char> {
    "\n  "@ + BOLD@ + name + RESET@ + "\n"@ + "  "@ + DIM@ + "source:"@ + RESET@ + "  "@ + colour_of(source)
        + source + RESET@ + "\n"@
}

/// The version line of a match, when it has a version.
pub open spec fn version_line(v: Option<Seq<char>>) -> Seq<char> {
    match v {
        Some(v) => "  "@ + DIM@ + "version:"@ + RESET@ + " "@ + v + "\n"@,
        None => seq![],
    }
}

/// The lines of one name that a wildcard found.
pub open spec fn match_text(d: (Seq<char>, Seq<char>, Option<Seq<char>>)) -> Seq<char> {
    match_head(d.0, d.1) + version_line(d.2)
}

/// The lines of a sequence of matches.
pub open spec fn match_texts(ds: Seq<(String, String, Option<String>)>) -> Seq<char>
    decreases ds.len(),
{
    if ds.len() == 0 {
        seq![]
    } else {
        match_texts(ds.drop_last()) + match_text(crate::scan::description_view(ds.last()))
    }
}

/// The text that a wildcard search prints: the pattern and the number of matches, then
/// each match with its source and version.
pub open spec fn matches_text(pattern: Seq<char>, ds: Seq<(String, String, Option<String>)>) -> Seq<char> {
    "\n  "@ + BOLD@ + "Pattern \""@ + pattern + "\""@ + RESET@ + " "@ + DIM@ + "— "@ + decimal(ds.len())
        + " matches"@ + RESET@ + "\n"@ + match_texts(ds) + "\n"@
}

fn append_match(out: &mut String, d: &(String, String, Option<String>))
    ensures
        final(out)@ == old(out)@ + match_text(crate::scan::description_view(*d)),
{
    let colour = source_colour(d.1.as_str());
    let ghost start = out@;
    out.append("\n  ");
    out.append(BOLD);
    out.append(d.0.as_str());
    out.append(RESET);
    out.append("\n");
    out.append("  ");
    out.append(DIM);
    out.append("source:");
    out.append(RESET);
    out.append("  ");
    out.append(colour);
    out.append(d.1.as_str());
    out.append(RESET);
    out.append("\n");
    assert(out@ =~= start + match_head(d.0@, d.1@));
    let ghost mid = out@;
    match &d.2 {
        Some(v) => {
            out.append("  ");
            out.append(DIM);
            out.append("version:");
            out.append(RESET);
            out.append(" ");
            out.append(v.as_str());
            out.append("\n");
        },
        None => {},
    }
    assert(out@ =~= mid + version_line(opt_view(d.2)));
    assert(out@ =~= start + (match_head(d.0@, d.1@) + version_line(opt_view(d.2))));
}

/// The text that a wildcard search prints.
pub fn render_matches(pattern: &str, descriptions: &[(String, String, Option<String>)]) -> (r: String)
    ensures
        r@ == matches_text(pattern@, descriptions@),
{
    let mut out = String::new();
    out.append("\n  ");
    out.append(BOLD);
    out.append("Pattern \"");
    out.append(pattern);
    out.append("\"");
    out.append(RESET);
    out.append(" ");
    out.append(DIM);
    out.append("— ");
    out.append(string_of(decimal_chars(descriptions.len()).as_slice()).as_str());
    out.append(" matches");
    out.append(RESET);
    out.append("\n");
    let ghost head = out@;
    let mut i: usize = 0;
    while i < descriptions.len()
        invariant
            i <= descriptions@.len(),
            out@ == head + match_texts(descriptions@.take(i as int)),
        decreases descriptions@.len() - i,
    {
        assert(descriptions@.take(i + 1).drop_last() =~= descriptions@.take(i as int));
        append_match(&mut out, &descriptions[i]);
        i = i + 1;
    }
    assert(descriptions@.take(i as int) =~= descriptions@);
    out.append("\n");
    out
}

} // verus!
