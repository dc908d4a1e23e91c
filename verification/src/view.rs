//! What the terminal views show: table titles, row cells, detail lines and
//! the hint bar.  Drawing them is left to the terminal front end.
use vstd::prelude::*;
use crate::model::{SearchResult, SourceOrigin, SymbolKind, format_lang_display, language_name, spec_lang_display};
use crate::output_model::{ShowOutput, SourceView};
use crate::text::join;
use crate::text::{chars_of, decimal, push_decimal, push_str, string_of};

verus! {

/// The view of an optional text.
pub open spec fn opt_view(o: Option<&str>) -> Option<Seq<char>> {
    match o { Some(s) => Some(s@), None => None }
}

/// The language shown for a result with source: the display name of its
/// language, `Java` when it has none.
pub open spec fn shown_language(r: SearchResult) -> Seq<char> {
    spec_lang_display(match r.source_language { Some(l) => language_name(l), None => "java"@ })
}

/// The source cell of a result: its language when it has source, else
/// `decompiled`.
pub open spec fn source_cell(r: SearchResult, decompiled: Seq<char>) -> Seq<char> {
    if r.source@ == "source_jar"@ { shown_language(r) } else { decompiled }
}

/// The source cell of a result in the search table and detail badge.
pub fn source_label(r: &SearchResult) -> (s: &'static str)
    ensures
        s@ == source_cell(*r, "Decompiled"@),
{
    if r.has_source() {
        match r.source_language {
            Some(l) => format_lang_display(l.as_str()),
            None => format_lang_display("java"),
        }
    } else {
        "Decompiled"
    }
}

/// The source cell of a result in the narrow symbols column.
pub fn short_source_label(r: &SearchResult) -> (s: &'static str)
    ensures
        s@ == source_cell(*r, "Decomp"@),
{
    if r.has_source() {
        match r.source_language {
            Some(l) => format_lang_display(l.as_str()),
            None => format_lang_display("java"),
        }
    } else {
        "Decomp"
    }
}

/// The one-letter badge of a kind.
pub open spec fn spec_kind_badge(k: SymbolKind) -> Seq<char> {
    match k {
        SymbolKind::Class => "C"@,
        SymbolKind::Method => "M"@,
        SymbolKind::Field => "F"@,
    }
}

/// The one-letter badge of a kind: `C`, `M` or `F`.
pub fn kind_badge(k: SymbolKind) -> (s: &'static str)
    ensures
        s@ == spec_kind_badge(k),
{
    match k {
        SymbolKind::Class => "C",
        SymbolKind::Method => "M",
        SymbolKind::Field => "F",
    }
}

/// The signature shown for a result: the Kotlin one when it has one, else
/// the Java one.
pub open spec fn shown_signature(r: SearchResult) -> Seq<char> {
    match r.signature.kotlin { Some(k) => k@, None => r.signature.java@ }
}

/// The signature shown for a result.
pub fn signature_text(r: &SearchResult) -> (s: String)
    ensures
        s@ == shown_signature(*r),
{
    match &r.signature.kotlin {
        Some(k) => string_of(&chars_of(k.as_str())),
        None => string_of(&chars_of(r.signature.java.as_str())),
    }
}

/// The title of the search table: the query and the number of results
/// shown, with the total when more matched.
pub open spec fn spec_search_title(query: Seq<char>, shown: nat, total: nat) -> Seq<char> {
    if total > shown {
        " Search: "@ + query + " ("@ + decimal(shown) + "/"@ + decimal(total) + " results) "@
    } else {
        " Search: "@ + query + " ("@ + decimal(shown) + " results) "@
    }
}

/// The title of the search table.
pub fn search_title(query: &str, shown: usize, total: usize) -> (s: String)
    ensures
        s@ == spec_search_title(query@, shown as nat, total as nat),
{
    let mut v: Vec<char> = Vec::new();
    push_str(&mut v, " Search: ");
    push_str(&mut v, query);
    push_str(&mut v, " (");
    push_decimal(&mut v, shown as u128);
    if total > shown {
        push_str(&mut v, "/");
        push_decimal(&mut v, total as u128);
    }
    push_str(&mut v, " results) ");
    string_of(&v)
}

/// Whether some result has a Kotlin signature.
pub open spec fn any_kotlin(results: Seq<SearchResult>) -> bool {
    exists|i: int| 0 <= i < results.len() && (#[trigger] results[i]).signature.kotlin is Some
}

/// The height of the search detail panel: 4 compact; otherwise 6 when a
/// result has a Kotlin signature (one more line), else 5.
pub fn search_detail_height(results: &Vec<SearchResult>, compact: bool) -> (h: u16)
    ensures
        h == (if compact { 4u16 } else if any_kotlin(results@) { 6u16 } else { 5u16 }),
{
    if compact {
        return 4;
    }
    let mut found = false;
    let mut i: usize = 0;
    while i < results.len()
        invariant
            0 <= i <= results@.len(),
            found ==> any_kotlin(results@),
            !found ==> forall|k: int| 0 <= k < i ==> (#[trigger] results@[k]).signature.kotlin is None,
        decreases results@.len() - i,
    {
        if results[i].signature.kotlin.is_some() {
            assert(results@[i as int].signature.kotlin is Some);
            found = true;
        }
        i = i + 1;
    }
    if found { 6 } else { 5 }
}

/// The cells of a search table row: the simple name and the source when
/// compact; else the FQN, the shown signature, the source and the GAV.
pub open spec fn spec_search_row(r: SearchResult, compact: bool) -> Seq<Seq<char>> {
    if compact {
        seq![r.simple_name@, source_cell(r, "Decompiled"@)]
    } else {
        seq![r.fqn@, shown_signature(r), source_cell(r, "Decompiled"@), r.gav@]
    }
}

/// The cells of a search table row.
pub fn search_row(r: &SearchResult, compact: bool) -> (cells: Vec<String>)
    ensures
        cells@.map_values(|c: String| c@) == spec_search_row(*r, compact),
{
    let src = string_of(&chars_of(source_label(r)));
    let cells = if compact {
        vec![string_of(&chars_of(r.simple_name.as_str())), src]
    } else {
        vec![
            string_of(&chars_of(r.fqn.as_str())),
            signature_text(r),
            src,
            string_of(&chars_of(r.gav.as_str())),
        ]
    };
    assert(cells@.map_values(|c: String| c@) =~= spec_search_row(*r, compact));
    cells
}

/// A detail line: a label (empty for the heading) and its value.
pub open spec fn line_views(lines: Seq<(String, String)>) -> Seq<(Seq<char>, Seq<char>)> {
    lines.map_values(|l: (String, String)| (l.0@, l.1@))
}

/// The detail lines of a search result: its FQN; unless compact, its Java
/// signature and its Kotlin one when it has one; then its GAV.
pub open spec fn spec_search_detail(r: SearchResult, compact: bool) -> Seq<(Seq<char>, Seq<char>)> {
    let head = seq![(Seq::<char>::empty(), r.fqn@)];
    let sigs = if compact {
        Seq::empty()
    } else {
        seq![("Signature(Java): "@, r.signature.java@)] + match r.signature.kotlin {
            Some(k) => seq![("Signature(Kotlin): "@, k@)],
            None => Seq::empty(),
        }
    };
    head + sigs + seq![("Dep: "@, r.gav@)]
}

fn line(label: &str, value: &str) -> (l: (String, String))
    ensures
        l.0@ == label@ && l.1@ == value@,
{
    (string_of(&chars_of(label)), string_of(&chars_of(value)))
}

/// The detail lines of a search result.
pub fn search_detail_lines(r: &SearchResult, compact: bool) -> (lines: Vec<(String, String)>)
    ensures
        line_views(lines@) == spec_search_detail(*r, compact),
{
    let mut lines: Vec<(String, String)> = Vec::new();
    lines.push(line("", r.fqn.as_str()));
    if !compact {
        lines.push(line("Signature(Java): ", r.signature.java.as_str()));
        match &r.signature.kotlin {
            Some(k) => lines.push(line("Signature(Kotlin): ", k.as_str())),
            None => {},
        }
    }
    lines.push(line("Dep: ", r.gav.as_str()));
    proof {
        reveal_strlit("");
        assert(""@ =~= Seq::<char>::empty());
    }
    assert(line_views(lines@) =~= spec_search_detail(*r, compact));
    lines
}

/// The title of a browser column: its name, the pattern it was filtered
/// by (quoted) when there is one, and its number of rows.
pub open spec fn spec_column_title(name: Seq<char>, pattern: Option<Seq<char>>, count: nat) -> Seq<char> {
    match pattern {
        Some(p) => " "@ + name + " '"@ + p + "' ("@ + decimal(count) + ") "@,
        None => " "@ + name + " ("@ + decimal(count) + ") "@,
    }
}

/// The title of the dependency or package column.
pub fn column_title(name: &str, pattern: Option<&str>, count: usize) -> (s: String)
    ensures
        s@ == spec_column_title(name@, opt_view(pattern), count as nat),
{
    let mut v: Vec<char> = Vec::new();
    push_str(&mut v, " ");
    push_str(&mut v, name);
    match pattern {
        Some(p) => {
            push_str(&mut v, " '");
            push_str(&mut v, p);
            push_str(&mut v, "' (");
        },
        None => push_str(&mut v, " ("),
    }
    push_decimal(&mut v, count as u128);
    push_str(&mut v, ") ");
    string_of(&v)
}

/// The title of the symbols column: the query when there is one, the
/// number loaded, and `/total+` while more remain.
pub open spec fn spec_symbols_title(query: Option<Seq<char>>, loaded: nat, total: nat, has_more: bool) -> Seq<char> {
    let head = match query { Some(q) => " Symbols '"@ + q + "' ("@, None => " Symbols ("@ };
    if has_more {
        head + decimal(loaded) + "/"@ + decimal(total) + "+) "@
    } else {
        head + decimal(loaded) + ") "@
    }
}

/// The title of the symbols column.
pub fn symbols_title(query: Option<&str>, loaded: usize, total: usize, has_more: bool) -> (s: String)
    ensures
        s@ == spec_symbols_title(opt_view(query), loaded as nat, total as nat, has_more),
{
    let mut v: Vec<char> = Vec::new();
    match query {
        Some(q) => {
            push_str(&mut v, " Symbols '");
            push_str(&mut v, q);
            push_str(&mut v, "' (");
        },
        None => push_str(&mut v, " Symbols ("),
    }
    push_decimal(&mut v, loaded as u128);
    if has_more {
        push_str(&mut v, "/");
        push_decimal(&mut v, total as u128);
        push_str(&mut v, "+) ");
    } else {
        push_str(&mut v, ") ");
    }
    string_of(&v)
}

/// The first cell of a dependency or package row: a `>` marker on the
/// selected row of a column that has lost the focus, else a space, then the
/// name.
pub open spec fn spec_marked(selected: bool, focused: bool, name: Seq<char>) -> Seq<char> {
    (if selected && !focused { ">"@ } else { " "@ }) + " "@ + name
}

/// The first cell of a dependency or package row.
pub fn marked_name(selected: bool, focused: bool, name: &str) -> (s: String)
    ensures
        s@ == spec_marked(selected, focused, name@),
{
    let mut v: Vec<char> = Vec::new();
    if selected && !focused {
        push_str(&mut v, ">");
    } else {
        push_str(&mut v, " ");
    }
    push_str(&mut v, " ");
    push_str(&mut v, name);
    string_of(&v)
}

/// The cells of a symbols column row: the kind badge, the simple name and
/// the short source.
pub open spec fn spec_symbol_row(r: SearchResult) -> Seq<Seq<char>> {
    seq![spec_kind_badge(r.symbol_kind), r.simple_name@, source_cell(r, "Decomp"@)]
}

/// The cells of a symbols column row.
pub fn symbol_row(r: &SearchResult) -> (cells: Vec<String>)
    ensures
        cells@.map_values(|c: String| c@) == spec_symbol_row(*r),
{
    let cells = vec![
        string_of(&chars_of(kind_badge(r.symbol_kind))),
        string_of(&chars_of(r.simple_name.as_str())),
        string_of(&chars_of(short_source_label(r))),
    ];
    assert(cells@.map_values(|c: String| c@) =~= spec_symbol_row(*r));
    cells
}

/// The detail lines of a dependency: its GAV, its symbol count, and its
/// classpaths joined with `, ` when it has any.
pub open spec fn spec_dep_detail(gav: Seq<char>, count: nat, classpaths: Seq<Seq<char>>) -> Seq<(Seq<char>, Seq<char>)> {
    seq![(Seq::<char>::empty(), gav), ("Symbols: "@, decimal(count))]
        + if classpaths.len() > 0 { seq![("Classpaths: "@, crate::text::join(classpaths, ", "@))] } else { Seq::empty() }
}

fn decimal_string(n: usize) -> (s: String)
    ensures
        s@ == decimal(n as nat),
{
    let mut v: Vec<char> = Vec::new();
    push_decimal(&mut v, n as u128);
    string_of(&v)
}

/// Classpath names joined with `, ` (empty when there are none).
pub fn format_classpaths(classpaths: &Vec<String>) -> (s: String)
    ensures
        s@ == join(classpaths@.map_values(|c: String| c@), ", "@),
{
    let mut parts: Vec<Vec<char>> = Vec::new();
    let mut i: usize = 0;
    while i < classpaths.len()
        invariant
            0 <= i <= classpaths@.len(),
            parts@.map_values(|p: Vec<char>| p@) == classpaths@.map_values(|c: String| c@).take(i as int),
        decreases classpaths@.len() - i,
    {
        let ghost before = parts@.map_values(|p: Vec<char>| p@);
        parts.push(chars_of(classpaths[i].as_str()));
        assert(parts@.map_values(|p: Vec<char>| p@) =~= before.push(classpaths@[i as int]@));
        assert(classpaths@.map_values(|c: String| c@).take(i + 1)
            =~= classpaths@.map_values(|c: String| c@).take(i as int).push(classpaths@[i as int]@));
        i = i + 1;
    }
    assert(classpaths@.map_values(|c: String| c@).take(classpaths@.len() as int) =~= classpaths@.map_values(|c: String| c@));
    string_of(&crate::text::join_vecs(&parts, ", "))
}

/// The detail lines of a dependency.
pub fn dep_detail_lines(gav: &str, count: usize, classpaths: &Vec<String>) -> (lines: Vec<(String, String)>)
    ensures
        line_views(lines@) == spec_dep_detail(gav@, count as nat, classpaths@.map_values(|c: String| c@)),
{
    let mut lines: Vec<(String, String)> = Vec::new();
    lines.push(line("", gav));
    lines.push((string_of(&chars_of("Symbols: ")), decimal_string(count)));
    if classpaths.len() > 0 {
        lines.push((string_of(&chars_of("Classpaths: ")), format_classpaths(classpaths)));
    }
    proof {
        reveal_strlit("");
        assert(""@ =~= Seq::<char>::empty());
    }
    assert(line_views(lines@) =~= spec_dep_detail(gav@, count as nat, classpaths@.map_values(|c: String| c@)));
    lines
}

/// The title of the dependency table: the pattern when there is one, and
/// the number of dependencies.
pub open spec fn spec_deps_title(query: Option<Seq<char>>, count: nat) -> Seq<char> {
    match query {
        Some(p) => " Dependencies matching '"@ + p + "' ("@ + decimal(count) + " total) "@,
        None => " Dependencies ("@ + decimal(count) + " total) "@,
    }
}

/// The title of the dependency table.
pub fn deps_title(query: Option<&str>, count: usize) -> (s: String)
    ensures
        s@ == spec_deps_title(opt_view(query), count as nat),
{
    let mut v: Vec<char> = Vec::new();
    match query {
        Some(p) => {
            push_str(&mut v, " Dependencies matching '");
            push_str(&mut v, p);
            push_str(&mut v, "' (");
        },
        None => push_str(&mut v, " Dependencies ("),
    }
    push_decimal(&mut v, count as u128);
    push_str(&mut v, " total) ");
    string_of(&v)
}

/// The cells of a dependency table row: the GAV, the symbol count and the
/// classpaths.
pub fn deps_row(gav: &str, count: usize, classpaths: &Vec<String>) -> (cells: Vec<String>)
    ensures
        cells@.map_values(|c: String| c@) == seq![gav@, decimal(count as nat), join(classpaths@.map_values(|c: String| c@), ", "@)],
{
    let cells = vec![string_of(&chars_of(gav)), decimal_string(count), format_classpaths(classpaths)];
    assert(cells@.map_values(|c: String| c@) =~= seq![gav@, decimal(count as nat), join(classpaths@.map_values(|c: String| c@), ", "@)]);
    cells
}

/// Where a table whose inner area is `inner_height` rows high, showing rows
/// from `offset`, marks hidden rows: above when rows precede the offset,
/// below when rows follow the visible ones (none for an empty area or table).
pub fn overflow_indicators(inner_height: u16, offset: usize, total_rows: usize) -> (r: (bool, bool))
    ensures
        r == (if inner_height == 0 || total_rows == 0 { (false, false) }
            else { (offset > 0, total_rows > offset + inner_height) }),
{
    if inner_height == 0 || total_rows == 0 {
        return (false, false);
    }
    let below = (total_rows as u128) > (offset as u128) + (inner_height as u128);
    (offset > 0, below)
}

/// The height of the metadata panel of a source view: two borders, the
/// language line, the GAV line, and the path line when there is a path.
pub fn metadata_panel_height(view: &SourceView) -> (h: u16)
    ensures
        h == (if view.source matches SourceOrigin::SourceJar { source_path: Some(_), .. } { 5u16 } else { 4u16 }),
{
    match view.source.source_path() {
        Some(_) => 5,
        None => 4,
    }
}

/// The language label of a source view: the display name of its language
/// when it comes from a source JAR, else `Java (Decompiled)`.
pub open spec fn spec_view_language(view: SourceView) -> Seq<char> {
    if view.source is SourceJar { spec_lang_display(view.language@) } else { "Java (Decompiled)"@ }
}

/// The lines of the metadata panel: the language and the source kind, the
/// GAV, and the path when there is one.
pub open spec fn spec_metadata_lines(gav: Seq<char>, view: SourceView) -> Seq<Seq<char>> {
    let first = if view.source is SourceJar {
        " Language: "@ + spec_view_language(view) + "    Source: Source JAR"@
    } else {
        " Language: "@ + spec_view_language(view) + "    Decompiled"@
    };
    seq![first, " GAV: "@ + gav] + match view.source {
        SourceOrigin::SourceJar { source_path: Some(p), .. } => seq![" Path: "@ + p@],
        _ => Seq::empty(),
    }
}

/// The lines of the metadata panel of a source view.
pub fn metadata_lines(gav: &str, view: &SourceView) -> (lines: Vec<String>)
    ensures
        lines@.map_values(|l: String| l@) == spec_metadata_lines(gav@, *view),
{
    let has = view.source.has_source();
    let label: &str = if has { format_lang_display(view.language.as_str()) } else { "Java (Decompiled)" };
    let mut first: Vec<char> = Vec::new();
    push_str(&mut first, " Language: ");
    push_str(&mut first, label);
    if has {
        push_str(&mut first, "    Source: Source JAR");
    } else {
        push_str(&mut first, "    Decompiled");
    }
    let mut g: Vec<char> = Vec::new();
    push_str(&mut g, " GAV: ");
    push_str(&mut g, gav);
    let mut lines = vec![string_of(&first), string_of(&g)];
    match view.source.source_path() {
        Some(p) => {
            let mut pv: Vec<char> = Vec::new();
            push_str(&mut pv, " Path: ");
            push_str(&mut pv, p);
            lines.push(string_of(&pv));
        },
        None => {},
    }
    assert(lines@.map_values(|l: String| l@) =~= spec_metadata_lines(gav@, *view));
    lines
}

/// The view shown: the secondary one when it is asked for and exists,
/// else the primary one.
pub fn current_view(output: &ShowOutput, showing_secondary: bool) -> (v: &SourceView)
    ensures
        *v == (if showing_secondary && output.secondary is Some { output.secondary->0 } else { output.primary }),
{
    if showing_secondary {
        match &output.secondary {
            Some(s) => s,
            None => &output.primary,
        }
    } else {
        &output.primary
    }
}

/// The title of the source panel: the FQN, `Source` or `Decompiled`, and
/// the language.
pub open spec fn spec_show_title(fqn: Seq<char>, view: SourceView) -> Seq<char> {
    " "@ + fqn + " — "@ + (if view.source is SourceJar { "Source"@ } else { "Decompiled"@ }) + " ("@ + view.language@ + ") "@
}

/// The title of the source panel.
pub fn show_title(fqn: &str, view: &SourceView) -> (s: String)
    ensures
        s@ == spec_show_title(fqn@, *view),
{
    let mut v: Vec<char> = Vec::new();
    push_str(&mut v, " ");
    push_str(&mut v, fqn);
    push_str(&mut v, " — ");
    if view.source.has_source() {
        push_str(&mut v, "Source");
    } else {
        push_str(&mut v, "Decompiled");
    }
    push_str(&mut v, " (");
    push_str(&mut v, view.language.as_str());
    push_str(&mut v, ") ");
    string_of(&v)
}

/// The hint bar of the source viewer: the scroll keys, the Tab key when
/// there is a second view, and how to leave (back and quit when embedded).
pub open spec fn spec_show_hint(has_secondary: bool, embedded: bool) -> Seq<char> {
    " ↑↓/PgUp/PgDn scroll | "@ + (if has_secondary { "Tab switch view | "@ } else { Seq::empty() })
        + (if embedded { "Esc back | q quit"@ } else { "q/Esc quit"@ }) + " "@
}

/// The hint bar of the source viewer.
pub fn show_hint(has_secondary: bool, embedded: bool) -> (s: String)
    ensures
        s@ == spec_show_hint(has_secondary, embedded),
{
    let mut v: Vec<char> = Vec::new();
    push_str(&mut v, " ↑↓/PgUp/PgDn scroll | ");
    if has_secondary {
        push_str(&mut v, "Tab switch view | ");
    }
    if embedded {
        push_str(&mut v, "Esc back | q quit");
    } else {
        push_str(&mut v, "q/Esc quit");
    }
    push_str(&mut v, " ");
    proof { assert(v@ =~= spec_show_hint(has_secondary, embedded)); }
    string_of(&v)
}

/// The scroll position clamped so that the last line stays at the bottom:
/// at most the number of lines beyond the visible height (panel height
/// less two borders).
pub fn clamp_scroll(scroll: u16, line_count: usize, panel_height: u16) -> (r: u16)
    ensures
        ({
            let visible = if panel_height >= 2 { panel_height - 2 } else { 0 };
            let max = if line_count >= visible { line_count - visible } else { 0 };
            r == (if (scroll as int) < (max as u16 as int) { scroll as int } else { max as u16 as int })
        }),
{
    let visible: usize = panel_height.saturating_sub(2) as usize;
    let max = line_count.saturating_sub(visible) as u16;
    if scroll < max { scroll } else { max }
}

/// The detail lines of a package: its name and its symbol count.
pub open spec fn spec_pkg_detail(package: Seq<char>, count: nat) -> Seq<(Seq<char>, Seq<char>)> {
    seq![(Seq::<char>::empty(), package), ("Symbols: "@, decimal(count))]
}

/// The detail lines of a package.
pub fn pkg_detail_lines(package: &str, count: usize) -> (lines: Vec<(String, String)>)
    ensures
        line_views(lines@) == spec_pkg_detail(package@, count as nat),
{
    let lines = vec![line("", package), (string_of(&chars_of("Symbols: ")), decimal_string(count))];
    proof {
        reveal_strlit("");
        assert(""@ =~= Seq::<char>::empty());
    }
    assert(line_views(lines@) =~= spec_pkg_detail(package@, count as nat));
    lines
}

/// The detail lines of a symbol in the browser: its FQN, its shown
/// signature and its GAV.
pub open spec fn spec_symbol_detail(r: SearchResult) -> Seq<(Seq<char>, Seq<char>)> {
    seq![(Seq::<char>::empty(), r.fqn@), ("Signature: "@, shown_signature(r)), ("Dep: "@, r.gav@)]
}

/// The detail lines of a symbol in the browser.
pub fn symbol_detail_lines(r: &SearchResult) -> (lines: Vec<(String, String)>)
    ensures
        line_views(lines@) == spec_symbol_detail(*r),
{
    let lines = vec![
        line("", r.fqn.as_str()),
        (string_of(&chars_of("Signature: ")), signature_text(r)),
        line("Dep: ", r.gav.as_str()),
    ];
    proof {
        reveal_strlit("");
        assert(""@ =~= Seq::<char>::empty());
    }
    assert(line_views(lines@) =~= spec_symbol_detail(*r));
    lines
}

/// The hint bar: the error when there is one, else the keys of the view
/// (the browser's include the column keys).
pub open spec fn spec_hint(error: Option<Seq<char>>, browser: bool) -> Seq<char> {
    match error {
        Some(e) => " Error: "@ + e + " "@,
        None => if browser {
            " ←→ columns | ↑↓ navigate | Enter show source | q quit "@
        } else {
            " ↑↓ navigate | Enter show source | q/Esc quit "@
        },
    }
}

/// The hint bar text.
pub fn hint_text(error: Option<&str>, browser: bool) -> (s: String)
    ensures
        s@ == spec_hint(opt_view(error), browser),
{
    match error {
        Some(e) => {
            let mut v: Vec<char> = Vec::new();
            push_str(&mut v, " Error: ");
            push_str(&mut v, e);
            push_str(&mut v, " ");
            string_of(&v)
        },
        None => if browser {
            string_of(&chars_of(" ←→ columns | ↑↓ navigate | Enter show source | q quit "))
        } else {
            string_of(&chars_of(" ↑↓ navigate | Enter show source | q/Esc quit "))
        },
    }
}

} // verus!
