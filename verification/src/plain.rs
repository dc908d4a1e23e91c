//! Plain-text output of the commands, for pipes and scripts: one
//! TAB-separated record per line on standard output, notes on standard
//! error.
use vstd::prelude::*;
use crate::cli::{format_scopes, spec_format_scopes};
use crate::model::{SearchResult, SourceOrigin, kind_name, language_name, spec_lang_display};
use crate::output_model::{
    CleanOutput, DepsOutput, InitOutput, PkgsOutput, RefreshOutput, SearchOutput, ShowOutput, SourceView, StatusOutput,
};
use crate::text::{chars_of, decimal, push_decimal, push_seq, push_str, split_chars, split_on, string_of};

verus! {

/// The lines a command prints: records on standard output, notes on
/// standard error, each in order.
pub struct Printed {
    /// Lines for standard output.
    pub out: Vec<String>,
    /// Lines for standard error.
    pub err: Vec<String>,
}

/// The texts of lines.
pub open spec fn texts(lines: Seq<String>) -> Seq<Seq<char>> {
    lines.map_values(|l: String| l@)
}

/// Whether `p` prints exactly `out` and `err`.
pub open spec fn prints(p: Printed, out: Seq<Seq<char>>, err: Seq<Seq<char>>) -> bool {
    texts(p.out@) == out && texts(p.err@) == err
}

/// The note of a page that has more after it.
pub open spec fn more_note(shown: nat, total: nat, what: Seq<char>, next: nat) -> Seq<char> {
    "Showing "@ + decimal(shown) + " of "@ + decimal(total) + " "@ + what + ". Use --offset "@ + decimal(next) + " to see more."@
}

fn more_line(shown: usize, total: usize, what: &[char], next: u128) -> (r: String)
    ensures
        r@ == more_note(shown as nat, total as nat, what@, next as nat),
{
    let mut v: Vec<char> = Vec::new();
    push_str(&mut v, "Showing ");
    push_decimal(&mut v, shown as u128);
    push_str(&mut v, " of ");
    push_decimal(&mut v, total as u128);
    push_str(&mut v, " ");
    crate::text::push_seq(&mut v, what);
    push_str(&mut v, ". Use --offset ");
    push_decimal(&mut v, next);
    push_str(&mut v, " to see more.");
    string_of(v.as_slice())
}

fn one_line(s: &str) -> (r: Vec<String>)
    ensures
        texts(r@) == seq![s@],
{
    let mut v: Vec<String> = Vec::new();
    v.push(string_of(crate::text::chars_of(s).as_slice()));
    assert(texts(v@) =~= seq![s@]);
    v
}

fn push_line(lines: &mut Vec<String>, v: Vec<char>)
    ensures
        texts(final(lines)@) == texts(old(lines)@).push(v@),
{
    let ghost before = texts(lines@);
    lines.push(string_of(v.as_slice()));
    assert(texts(lines@) =~= before.push(v@));
}

/// A line of a dependency listing: GAV, symbol count and classpaths.
pub open spec fn dep_line(gav: Seq<char>, count: nat, scopes: Seq<Seq<char>>) -> Seq<char> {
    gav + "\t"@ + decimal(count) + "\t"@ + spec_format_scopes(scopes)
}

/// The plain text of `search dep`.
pub open spec fn spec_deps_text(o: DepsOutput) -> (Seq<Seq<char>>, Seq<Seq<char>>) {
    if o.dependencies@.len() == 0 {
        (seq![match o.filter {
            Some(q) => "No dependencies matching '"@ + q@ + "'."@,
            None => "No dependencies found."@,
        }], Seq::empty())
    } else {
        (
            Seq::new(o.dependencies@.len(), |i: int| dep_line(
                o.dependencies@[i].gav@,
                o.dependencies@[i].symbol_count as nat,
                o.dependencies@[i].scopes@.map_values(|s: String| s@),
            )),
            if o.has_more {
                seq![more_note(o.dependencies@.len(), o.total_count as nat, "dependencies"@, (o.offset + o.dependencies@.len()) as nat)]
            } else {
                Seq::empty()
            },
        )
    }
}

/// The plain text of `search dep`.
pub fn deps_text(o: &DepsOutput) -> (r: Printed)
    ensures
        prints(r, spec_deps_text(*o).0, spec_deps_text(*o).1),
{
    let n = o.dependencies.len();
    if n == 0 {
        let out = match &o.filter {
            Some(q) => {
                let mut v: Vec<char> = Vec::new();
                push_str(&mut v, "No dependencies matching '");
                push_str(&mut v, q.as_str());
                push_str(&mut v, "'.");
                let mut lines: Vec<String> = Vec::new();
                push_line(&mut lines, v);
                assert(texts(lines@) =~= seq!["No dependencies matching '"@ + q@ + "'."@]);
                lines
            },
            None => one_line("No dependencies found."),
        };
        let err: Vec<String> = Vec::new();
        assert(texts(err@) =~= Seq::<Seq<char>>::empty());
        return Printed { out, err };
    }
    let ghost want = spec_deps_text(*o).0;
    let mut out: Vec<String> = Vec::new();
    let mut i: usize = 0;
    while i < n
        invariant
            0 <= i <= n,
            n == o.dependencies@.len(),
            want == spec_deps_text(*o).0,
            n > 0,
            texts(out@) == want.take(i as int),
        decreases n - i,
    {
        let d = &o.dependencies[i];
        let mut v: Vec<char> = Vec::new();
        push_str(&mut v, d.gav.as_str());
        push_str(&mut v, "\t");
        push_decimal(&mut v, d.symbol_count as u128);
        push_str(&mut v, "\t");
        let scopes = format_scopes(d.scopes.as_slice());
        push_str(&mut v, scopes.as_str());
        push_line(&mut out, v);
        assert(want.take(i as int + 1) =~= want.take(i as int).push(want[i as int]));
        i = i + 1;
    }
    assert(want.take(n as int) =~= want);
    let mut err: Vec<String> = Vec::new();
    if o.has_more {
        let mut what: Vec<char> = Vec::new();
        push_str(&mut what, "dependencies");
        let line = more_line(n, o.total_count, what.as_slice(), o.offset as u128 + n as u128);
        err.push(line);
        assert(texts(err@) =~= spec_deps_text(*o).1);
    } else {
        assert(texts(err@) =~= spec_deps_text(*o).1);
    }
    Printed { out, err }
}

/// A line of a package listing: package and symbol count.
pub open spec fn pkg_line(package: Seq<char>, count: nat) -> Seq<char> {
    package + "\t"@ + decimal(count)
}

/// The plain text of `search pkg`.
pub open spec fn spec_pkgs_text(o: PkgsOutput) -> (Seq<Seq<char>>, Seq<Seq<char>>) {
    if o.packages@.len() == 0 {
        (seq![match (o.filter, o.dependency) {
            (Some(q), Some(d)) => "No packages matching '"@ + q@ + "' in dependency '"@ + d@ + "'."@,
            (Some(q), None) => "No packages matching '"@ + q@ + "'."@,
            (None, Some(d)) => "No packages found in dependency '"@ + d@ + "'."@,
            (None, None) => "No packages found."@,
        }], Seq::empty())
    } else {
        (
            Seq::new(o.packages@.len(), |i: int| pkg_line(o.packages@[i].package@, o.packages@[i].symbol_count as nat)),
            if o.has_more {
                seq![more_note(o.packages@.len(), o.total_count as nat, "packages"@, (o.offset + o.packages@.len()) as nat)]
            } else {
                Seq::empty()
            },
        )
    }
}

/// The plain text of `search pkg`.
pub fn pkgs_text(o: &PkgsOutput) -> (r: Printed)
    ensures
        prints(r, spec_pkgs_text(*o).0, spec_pkgs_text(*o).1),
{
    let n = o.packages.len();
    if n == 0 {
        let mut v: Vec<char> = Vec::new();
        match (&o.filter, &o.dependency) {
            (Some(q), Some(d)) => {
                push_str(&mut v, "No packages matching '");
                push_str(&mut v, q.as_str());
                push_str(&mut v, "' in dependency '");
                push_str(&mut v, d.as_str());
                push_str(&mut v, "'.");
            },
            (Some(q), None) => {
                push_str(&mut v, "No packages matching '");
                push_str(&mut v, q.as_str());
                push_str(&mut v, "'.");
            },
            (None, Some(d)) => {
                push_str(&mut v, "No packages found in dependency '");
                push_str(&mut v, d.as_str());
                push_str(&mut v, "'.");
            },
            (None, None) => {
                push_str(&mut v, "No packages found.");
            },
        }
        let mut out: Vec<String> = Vec::new();
        push_line(&mut out, v);
        let err: Vec<String> = Vec::new();
        assert(texts(out@) =~= spec_pkgs_text(*o).0);
        assert(texts(err@) =~= spec_pkgs_text(*o).1);
        return Printed { out, err };
    }
    let ghost want = spec_pkgs_text(*o).0;
    let mut out: Vec<String> = Vec::new();
    let mut i: usize = 0;
    while i < n
        invariant
            0 <= i <= n,
            n == o.packages@.len(),
            want == spec_pkgs_text(*o).0,
            n > 0,
            texts(out@) == want.take(i as int),
        decreases n - i,
    {
        let p = &o.packages[i];
        let mut v: Vec<char> = Vec::new();
        push_str(&mut v, p.package.as_str());
        push_str(&mut v, "\t");
        push_decimal(&mut v, p.symbol_count as u128);
        push_line(&mut out, v);
        assert(want.take(i as int + 1) =~= want.take(i as int).push(want[i as int]));
        i = i + 1;
    }
    assert(want.take(n as int) =~= want);
    let mut err: Vec<String> = Vec::new();
    if o.has_more {
        let mut what: Vec<char> = Vec::new();
        push_str(&mut what, "packages");
        let line = more_line(n, o.total_count, what.as_slice(), o.offset as u128 + n as u128);
        err.push(line);
        assert(texts(err@) =~= spec_pkgs_text(*o).1);
    } else {
        assert(texts(err@) =~= spec_pkgs_text(*o).1);
    }
    Printed { out, err }
}

/// The plain text of `index status`.
pub open spec fn spec_status_text(o: StatusOutput) -> Seq<Seq<char>> {
    if !o.initialized {
        seq!["Not initialized. Run `classpath-surfer index init` first."@]
    } else if !o.has_index && o.dependency_count == 0 {
        seq!["No index built. Run `classpath-surfer index refresh` to build it."@]
    } else {
        seq![
            "Dependencies: "@ + decimal(o.dependency_count as nat),
            "  with source JARs: "@ + decimal(o.with_source_jars as nat),
            "  without source JARs: "@ + decimal(o.without_source_jars as nat),
            match o.indexed_symbols {
                Some(c) => "Indexed symbols: "@ + decimal(c as nat),
                None => "Index: not built"@,
            },
            "Stale: "@ + (if o.is_stale { "yes"@ } else { "no"@ }),
        ] + match o.index_size {
            Some(size) => seq!["Index size: "@ + size@],
            None => Seq::empty(),
        }
    }
}

fn counted_line(label: &str, n: usize) -> (r: Vec<char>)
    ensures
        r@ == label@ + decimal(n as nat),
{
    let mut v: Vec<char> = Vec::new();
    push_str(&mut v, label);
    push_decimal(&mut v, n as u128);
    v
}

/// The plain text of `index status`.
pub fn status_text(o: &StatusOutput) -> (r: Vec<String>)
    ensures
        texts(r@) == spec_status_text(*o),
{
    if !o.initialized {
        return one_line("Not initialized. Run `classpath-surfer index init` first.");
    }
    if !o.has_index && o.dependency_count == 0 {
        return one_line("No index built. Run `classpath-surfer index refresh` to build it.");
    }
    let mut out: Vec<String> = Vec::new();
    push_line(&mut out, counted_line("Dependencies: ", o.dependency_count));
    push_line(&mut out, counted_line("  with source JARs: ", o.with_source_jars));
    push_line(&mut out, counted_line("  without source JARs: ", o.without_source_jars));
    match o.indexed_symbols {
        Some(c) => push_line(&mut out, counted_line("Indexed symbols: ", c)),
        None => push_line(&mut out, crate::text::chars_of("Index: not built")),
    }
    let mut stale: Vec<char> = Vec::new();
    push_str(&mut stale, "Stale: ");
    push_str(&mut stale, if o.is_stale { "yes" } else { "no" });
    push_line(&mut out, stale);
    match &o.index_size {
        Some(size) => {
            let mut v: Vec<char> = Vec::new();
            push_str(&mut v, "Index size: ");
            push_str(&mut v, size.as_str());
            push_line(&mut out, v);
        },
        None => {},
    }
    assert(texts(out@) =~= spec_status_text(*o));
    out
}

/// The plain text of `index refresh`.
pub open spec fn spec_refresh_text(o: RefreshOutput) -> Seq<char> {
    if o.mode@ == "up_to_date"@ {
        "Nothing to refresh. Index is up to date."@
    } else {
        "Refresh complete: "@ + o.mode@ + " mode, "@ + decimal(o.dependencies_processed as nat)
            + " dependencies processed, "@ + decimal(o.symbols_indexed as nat) + " symbols indexed."@
    }
}

/// The plain text of `index refresh`.
pub fn refresh_text(o: &RefreshOutput) -> (r: Vec<String>)
    ensures
        texts(r@) == seq![spec_refresh_text(*o)],
{
    if crate::text::str_eq(o.mode.as_str(), "up_to_date") {
        return one_line("Nothing to refresh. Index is up to date.");
    }
    let mut v: Vec<char> = Vec::new();
    push_str(&mut v, "Refresh complete: ");
    push_str(&mut v, o.mode.as_str());
    push_str(&mut v, " mode, ");
    push_decimal(&mut v, o.dependencies_processed as u128);
    push_str(&mut v, " dependencies processed, ");
    push_decimal(&mut v, o.symbols_indexed as u128);
    push_str(&mut v, " symbols indexed.");
    let mut out: Vec<String> = Vec::new();
    push_line(&mut out, v);
    assert(texts(out@) =~= seq![spec_refresh_text(*o)]);
    out
}

/// Each item on a line of its own, indented by two spaces.
pub open spec fn indented(items: Seq<String>) -> Seq<Seq<char>> {
    items.map_values(|i: String| "  "@ + i@)
}

fn push_indented(lines: &mut Vec<String>, items: &Vec<String>)
    ensures
        texts(final(lines)@) == texts(old(lines)@) + indented(items@),
{
    let ghost start = texts(lines@);
    let mut i: usize = 0;
    while i < items.len()
        invariant
            0 <= i <= items@.len(),
            texts(lines@) == start + indented(items@).take(i as int),
        decreases items@.len() - i,
    {
        let mut v: Vec<char> = Vec::new();
        push_str(&mut v, "  ");
        push_str(&mut v, items[i].as_str());
        push_line(lines, v);
        assert(indented(items@).take(i as int + 1) =~= indented(items@).take(i as int).push(indented(items@)[i as int]));
        assert(start + indented(items@).take(i as int + 1) =~= (start + indented(items@).take(i as int)).push(indented(items@)[i as int]));
        i = i + 1;
    }
    assert(indented(items@).take(items@.len() as int) =~= indented(items@));
}

/// The plain text of `index init`: each action, then a closing line.
pub fn init_text(o: &InitOutput) -> (r: Vec<String>)
    ensures
        texts(r@) == indented(o.actions@).push("Initialization complete."@),
{
    let mut out: Vec<String> = Vec::new();
    push_indented(&mut out, &o.actions);
    push_line(&mut out, crate::text::chars_of("Initialization complete."));
    assert(texts(out@) =~= indented(o.actions@).push("Initialization complete."@));
    out
}

/// The plain text of `index clean`.
pub open spec fn spec_clean_text(o: CleanOutput) -> Seq<Seq<char>> {
    if o.items_removed@.len() == 0 {
        seq!["Nothing to clean."@]
    } else {
        indented(o.items_removed@).push("Clean complete."@)
    }
}

/// The plain text of `index clean`.
pub fn clean_text(o: &CleanOutput) -> (r: Vec<String>)
    ensures
        texts(r@) == spec_clean_text(*o),
{
    if o.items_removed.len() == 0 {
        return one_line("Nothing to clean.");
    }
    let mut out: Vec<String> = Vec::new();
    push_indented(&mut out, &o.items_removed);
    push_line(&mut out, crate::text::chars_of("Clean complete."));
    assert(texts(out@) =~= spec_clean_text(*o));
    out
}

/// A line of a symbol listing: FQN, kind, Java signature and GAV.
pub open spec fn list_line(r: SearchResult) -> Seq<char> {
    r.fqn@ + "\t"@ + kind_name(r.symbol_kind) + "\t"@ + r.signature.java@ + "\t"@ + r.gav@
}

/// What a symbol listing is for: its dependency pattern, or `*`.
pub open spec fn list_pattern(o: SearchOutput) -> Seq<char> {
    match o.dependency { Some(d) => d@, None => "*"@ }
}

/// The plain text of `search symbol` without a query.
pub open spec fn spec_search_list_text(o: SearchOutput) -> (Seq<Seq<char>>, Seq<Seq<char>>) {
    let pattern = list_pattern(o);
    if o.results@.len() == 0 {
        (seq![match o.package {
            Some(p) => "No symbols found for '"@ + pattern + "' in package '"@ + p@ + "'."@,
            None => "No symbols found for '"@ + pattern + "'."@,
        }], Seq::empty())
    } else {
        (
            Seq::new(o.results@.len(), |i: int| list_line(o.results@[i])),
            if o.has_more {
                seq![more_note(o.results@.len(), o.total_matches as nat, "symbols"@, (o.offset + o.results@.len()) as nat)]
            } else {
                Seq::empty()
            },
        )
    }
}

fn push_opt_or(v: &mut Vec<char>, o: &Option<String>, default: &str)
    ensures
        final(v)@ == old(v)@ + match *o { Some(s) => s@, None => default@ },
{
    match o {
        Some(s) => push_str(v, s.as_str()),
        None => push_str(v, default),
    }
}

fn no_results_line(head: &str, subject: &Option<String>, default: &str, package: &Option<String>) -> (r: Vec<String>)
    ensures
        texts(r@) == seq![match *package {
            Some(p) => head@ + (match *subject { Some(s) => s@, None => default@ }) + "' in package '"@ + p@ + "'."@,
            None => head@ + (match *subject { Some(s) => s@, None => default@ }) + "'."@,
        }],
{
    let mut v: Vec<char> = Vec::new();
    push_str(&mut v, head);
    push_opt_or(&mut v, subject, default);
    match package {
        Some(p) => {
            push_str(&mut v, "' in package '");
            push_str(&mut v, p.as_str());
            push_str(&mut v, "'.");
        },
        None => push_str(&mut v, "'."),
    }
    let mut out: Vec<String> = Vec::new();
    push_line(&mut out, v);
    out
}

/// The plain text of `search symbol` without a query.
pub fn search_list_text(o: &SearchOutput) -> (r: Printed)
    ensures
        prints(r, spec_search_list_text(*o).0, spec_search_list_text(*o).1),
{
    let n = o.results.len();
    if n == 0 {
        let out = no_results_line("No symbols found for '", &o.dependency, "*", &o.package);
        let err: Vec<String> = Vec::new();
        assert(texts(err@) =~= Seq::<Seq<char>>::empty());
        return Printed { out, err };
    }
    let ghost want = spec_search_list_text(*o).0;
    let mut out: Vec<String> = Vec::new();
    let mut i: usize = 0;
    while i < n
        invariant
            0 <= i <= n,
            n == o.results@.len(),
            want == spec_search_list_text(*o).0,
            n > 0,
            texts(out@) == want.take(i as int),
        decreases n - i,
    {
        let r = &o.results[i];
        let mut v: Vec<char> = Vec::new();
        push_str(&mut v, r.fqn.as_str());
        push_str(&mut v, "\t");
        push_str(&mut v, r.symbol_kind.as_str());
        push_str(&mut v, "\t");
        push_str(&mut v, r.signature.java.as_str());
        push_str(&mut v, "\t");
        push_str(&mut v, r.gav.as_str());
        push_line(&mut out, v);
        assert(want.take(i as int + 1) =~= want.take(i as int).push(want[i as int]));
        i = i + 1;
    }
    assert(want.take(n as int) =~= want);
    let mut err: Vec<String> = Vec::new();
    if o.has_more {
        let mut what: Vec<char> = Vec::new();
        push_str(&mut what, "symbols");
        let line = more_line(n, o.total_matches, what.as_slice(), o.offset as u128 + n as u128);
        err.push(line);
    }
    assert(texts(err@) =~= spec_search_list_text(*o).1);
    Printed { out, err }
}

/// A line of search results: FQN, kind, Java and Kotlin signatures, origin,
/// language (for a source JAR), GAV and classpaths.
pub open spec fn result_line(r: SearchResult) -> Seq<char> {
    let has_source = r.source@ == "source_jar"@;
    r.fqn@ + "\t"@ + kind_name(r.symbol_kind) + "\t"@ + r.signature.java@ + "\t"@
        + (match r.signature.kotlin { Some(k) => k@, None => Seq::empty() }) + "\t"@
        + (if has_source { "source"@ } else { "decompiled"@ }) + "\t"@
        + (if has_source {
            spec_lang_display(match r.source_language { Some(l) => language_name(l), None => "java"@ })
        } else {
            Seq::empty()
        })
        + "\t"@ + r.gav@ + "\t"@ + spec_format_scopes(r.classpaths@.map_values(|c: String| c@))
}

/// What a search was for: its query, or `*`.
pub open spec fn query_shown(o: SearchOutput) -> Seq<char> {
    match o.query { Some(q) => q@, None => "*"@ }
}

/// The plain text of `search symbol` with a query.
pub open spec fn spec_search_text(o: SearchOutput) -> (Seq<Seq<char>>, Seq<Seq<char>>) {
    let q = query_shown(o);
    let n = o.results@.len();
    if n == 0 {
        (seq![match o.package {
            Some(p) => "No matches found for '"@ + q + "' in package '"@ + p@ + "'."@,
            None => "No matches found for '"@ + q + "'."@,
        }], Seq::empty())
    } else {
        (
            Seq::new(n, |i: int| result_line(o.results@[i])),
            if o.has_more {
                seq![more_note(n, o.total_matches as nat, "matches for '"@ + q + "'"@, (o.offset + n) as nat)]
            } else if o.total_matches > n {
                seq!["Showing "@ + decimal(n) + " of "@ + decimal(o.total_matches as nat) + " matches for '"@ + q + "'."@]
            } else {
                Seq::empty()
            },
        )
    }
}

/// The plain text of `search symbol` with a query.
pub fn search_text(o: &SearchOutput) -> (r: Printed)
    ensures
        prints(r, spec_search_text(*o).0, spec_search_text(*o).1),
{
    let n = o.results.len();
    if n == 0 {
        let out = no_results_line("No matches found for '", &o.query, "*", &o.package);
        let err: Vec<String> = Vec::new();
        assert(texts(err@) =~= Seq::<Seq<char>>::empty());
        return Printed { out, err };
    }
    let ghost want = spec_search_text(*o).0;
    let mut out: Vec<String> = Vec::new();
    let mut i: usize = 0;
    while i < n
        invariant
            0 <= i <= n,
            n == o.results@.len(),
            want == spec_search_text(*o).0,
            n > 0,
            texts(out@) == want.take(i as int),
        decreases n - i,
    {
        let r = &o.results[i];
        let has_source = r.has_source();
        let mut v: Vec<char> = Vec::new();
        push_str(&mut v, r.fqn.as_str());
        push_str(&mut v, "\t");
        push_str(&mut v, r.symbol_kind.as_str());
        push_str(&mut v, "\t");
        push_str(&mut v, r.signature.java.as_str());
        push_str(&mut v, "\t");
        push_opt_or(&mut v, &r.signature.kotlin, "");
        push_str(&mut v, "\t");
        push_str(&mut v, if has_source { "source" } else { "decompiled" });
        push_str(&mut v, "\t");
        if has_source {
            let lang = match r.source_language { Some(l) => l.as_str(), None => "java" };
            push_str(&mut v, crate::model::format_lang_display(lang));
        } else {
            push_str(&mut v, "");
        }
        push_str(&mut v, "\t");
        push_str(&mut v, r.gav.as_str());
        push_str(&mut v, "\t");
        let scopes = format_scopes(r.classpaths.as_slice());
        push_str(&mut v, scopes.as_str());
        proof { reveal_strlit(""); }
        assert(v@ =~= result_line(o.results@[i as int]));
        push_line(&mut out, v);
        assert(want.take(i as int + 1) =~= want.take(i as int).push(want[i as int]));
        i = i + 1;
    }
    assert(want.take(n as int) =~= want);
    let mut err: Vec<String> = Vec::new();
    if o.has_more {
        let mut what: Vec<char> = Vec::new();
        push_str(&mut what, "matches for '");
        push_opt_or(&mut what, &o.query, "*");
        push_str(&mut what, "'");
        let line = more_line(n, o.total_matches, what.as_slice(), o.offset as u128 + n as u128);
        err.push(line);
    } else if o.total_matches > n {
        let mut v: Vec<char> = Vec::new();
        push_str(&mut v, "Showing ");
        push_decimal(&mut v, n as u128);
        push_str(&mut v, " of ");
        push_decimal(&mut v, o.total_matches as u128);
        push_str(&mut v, " matches for '");
        push_opt_or(&mut v, &o.query, "*");
        push_str(&mut v, "'.");
        push_line(&mut err, v);
    }
    assert(texts(err@) =~= spec_search_text(*o).1);
    Printed { out, err }
}

/// A line without the carriage return of a `\r\n` ending.
pub open spec fn without_cr(l: Seq<char>) -> Seq<char> {
    if l.len() > 0 && l.last() == '\r' { l.drop_last() } else { l }
}

/// The lines of a text as `str::lines` gives them: split at `\n`, a final
/// line ending adds no empty line, and a `\r` before a `\n` is dropped.
pub open spec fn text_lines(s: Seq<char>) -> Seq<Seq<char>> {
    let parts = split_on(s, '\n');
    let ended = parts.drop_last().map_values(|l: Seq<char>| without_cr(l));
    if parts.last().len() == 0 { ended } else { ended.push(parts.last()) }
}

fn lines_of(s: &str) -> (r: Vec<Vec<char>>)
    ensures
        r@.map_values(|l: Vec<char>| l@) == text_lines(s@),
{
    let v = chars_of(s);
    let parts = split_chars(v.as_slice(), '\n');
    let ghost pv = parts@.map_values(|p: Vec<char>| p@);
    let last = parts.len() - 1;
    let mut out: Vec<Vec<char>> = Vec::new();
    let mut i: usize = 0;
    while i < last
        invariant
            0 <= i <= last,
            last == parts@.len() - 1,
            pv == parts@.map_values(|p: Vec<char>| p@),
            pv == split_on(s@, '\n'),
            out@.map_values(|l: Vec<char>| l@) == pv.drop_last().map_values(|l: Seq<char>| without_cr(l)).take(i as int),
        decreases last - i,
    {
        let p = &parts[i];
        let line = if p.len() > 0 && p[p.len() - 1] == '\r' {
            crate::text::slice_vec(p.as_slice(), 0, p.len() - 1)
        } else {
            crate::text::slice_vec(p.as_slice(), 0, p.len())
        };
        assert(line@ =~= without_cr(pv[i as int]));
        let ghost before = out@.map_values(|l: Vec<char>| l@);
        out.push(line);
        assert(out@.map_values(|l: Vec<char>| l@) =~= before.push(without_cr(pv[i as int])));
        assert(pv.drop_last().map_values(|l: Seq<char>| without_cr(l)).take(i as int + 1)
            =~= pv.drop_last().map_values(|l: Seq<char>| without_cr(l)).take(i as int).push(without_cr(pv[i as int])));
        i = i + 1;
    }
    assert(pv.drop_last().map_values(|l: Seq<char>| without_cr(l)).take(last as int)
        =~= pv.drop_last().map_values(|l: Seq<char>| without_cr(l)));
    if parts[last].len() > 0 {
        let tail = crate::text::slice_vec(parts[last].as_slice(), 0, parts[last].len());
        assert(tail@ =~= pv[last as int]);
        assert(pv.last() == pv[last as int]);
        let ghost before = out@.map_values(|l: Vec<char>| l@);
        out.push(tail);
        assert(out@.map_values(|l: Vec<char>| l@) =~= before.push(pv.last()));
    }
    out
}

/// A number right-aligned in `width` columns.
pub open spec fn right_aligned(n: nat, width: nat) -> Seq<char> {
    let d = decimal(n);
    Seq::new(if d.len() < width { (width - d.len()) as nat } else { 0 }, |_i: int| ' ') + d
}

fn push_right_aligned(v: &mut Vec<char>, n: u128, width: usize)
    ensures
        final(v)@ == old(v)@ + right_aligned(n as nat, width as nat),
{
    let mut digits: Vec<char> = Vec::new();
    push_decimal(&mut digits, n);
    assert(digits@ =~= decimal(n as nat));
    let pad: usize = if digits.len() < width { width - digits.len() } else { 0 };
    let ghost start = v@;
    let mut i: usize = 0;
    while i < pad
        invariant
            0 <= i <= pad,
            v@ =~= start + Seq::new(i as nat, |_i: int| ' '),
        decreases pad - i,
    {
        v.push(' ');
        i = i + 1;
    }
    push_seq(v, digits.as_slice());
    assert(v@ =~= start + right_aligned(n as nat, width as nat));
}

/// The header line of a source view: where the source comes from.
pub open spec fn origin_line(v: SourceView) -> Seq<char> {
    let lang = spec_lang_display(v.language@);
    match v.source {
        SourceOrigin::SourceJar { source_path, .. } =>
            "// Source ("@ + lang + "): "@ + (match source_path { Some(p) => p@, None => "unknown"@ }),
        SourceOrigin::Decompiled { .. } => "// Decompiled ("@ + lang + ", no source JAR available)"@,
    }
}

/// The lines of a text numbered from `start`, right-aligned in five columns.
pub open spec fn numbered(lines: Seq<Seq<char>>, start: nat) -> Seq<Seq<char>> {
    Seq::new(lines.len(), |i: int| right_aligned((start + i) as nat, 5) + " | "@ + lines[i])
}

/// The plain text of `show` for its primary view: the source on standard
/// output, with header comments on standard error; a focused view numbers
/// its lines.
pub open spec fn spec_show_text(o: ShowOutput) -> (Seq<Seq<char>>, Seq<Seq<char>>) {
    let head = seq![origin_line(o.primary), "// GAV: "@ + o.gav@];
    match o.primary.focus {
        Some(f) => (
            numbered(text_lines(o.primary.content@), f.start_line as nat),
            head.push("// Lines "@ + decimal(f.start_line as nat) + "-"@ + decimal(f.end_line as nat) + " of "@
                + decimal(f.total_lines as nat) + " (focused on '"@
                + (match o.symbol_name { Some(n) => n@, None => o.fqn@ }) + "')"@),
        ),
        None => (seq![o.primary.content@], head),
    }
}

/// The plain text of `show` for its secondary view, printed after the
/// primary one: a blank line and a header on standard error, the source on
/// standard output; nothing without a secondary view.
pub open spec fn spec_show_secondary_text(o: ShowOutput) -> (Seq<Seq<char>>, Seq<Seq<char>>) {
    match o.secondary {
        Some(s) => (seq![s.content@], seq![Seq::empty(), "// Decompiled Java (secondary view):"@]),
        None => (Seq::empty(), Seq::empty()),
    }
}

/// The plain text of `show`: the primary view, then the secondary one.
pub fn show_text(o: &ShowOutput) -> (r: (Printed, Printed))
    ensures
        prints(r.0, spec_show_text(*o).0, spec_show_text(*o).1),
        prints(r.1, spec_show_secondary_text(*o).0, spec_show_secondary_text(*o).1),
{
    let mut err: Vec<String> = Vec::new();
    let lang = crate::model::format_lang_display(o.primary.language.as_str());
    let mut origin: Vec<char> = Vec::new();
    if o.primary.source.has_source() {
        push_str(&mut origin, "// Source (");
        push_str(&mut origin, lang);
        push_str(&mut origin, "): ");
        match o.primary.source.source_path() {
            Some(p) => push_str(&mut origin, p),
            None => push_str(&mut origin, "unknown"),
        }
    } else {
        push_str(&mut origin, "// Decompiled (");
        push_str(&mut origin, lang);
        push_str(&mut origin, ", no source JAR available)");
    }
    assert(origin@ =~= origin_line(o.primary));
    push_line(&mut err, origin);
    let mut gav_line: Vec<char> = Vec::new();
    push_str(&mut gav_line, "// GAV: ");
    push_str(&mut gav_line, o.gav.as_str());
    push_line(&mut err, gav_line);
    let mut out: Vec<String> = Vec::new();
    match &o.primary.focus {
        Some(f) => {
            let mut v: Vec<char> = Vec::new();
            push_str(&mut v, "// Lines ");
            push_decimal(&mut v, f.start_line as u128);
            push_str(&mut v, "-");
            push_decimal(&mut v, f.end_line as u128);
            push_str(&mut v, " of ");
            push_decimal(&mut v, f.total_lines as u128);
            push_str(&mut v, " (focused on '");
            match &o.symbol_name {
                Some(n) => push_str(&mut v, n.as_str()),
                None => push_str(&mut v, o.fqn.as_str()),
            }
            push_str(&mut v, "')");
            push_line(&mut err, v);
            let lines = lines_of(o.primary.content.as_str());
            let ghost lv = lines@.map_values(|l: Vec<char>| l@);
            let ghost want = numbered(lv, f.start_line as nat);
            let mut i: usize = 0;
            while i < lines.len()
                invariant
                    0 <= i <= lines@.len(),
                    lv == lines@.map_values(|l: Vec<char>| l@),
                    want == numbered(lv, f.start_line as nat),
                    texts(out@) == want.take(i as int),
                decreases lines@.len() - i,
            {
                let mut row: Vec<char> = Vec::new();
                push_right_aligned(&mut row, f.start_line as u128 + i as u128, 5);
                push_str(&mut row, " | ");
                push_seq(&mut row, lines[i].as_slice());
                push_line(&mut out, row);
                assert(want.take(i as int + 1) =~= want.take(i as int).push(want[i as int]));
                i = i + 1;
            }
            assert(want.take(lines@.len() as int) =~= want);
        },
        None => {
            push_line(&mut out, chars_of(o.primary.content.as_str()));
        },
    }
    assert(texts(out@) =~= spec_show_text(*o).0);
    assert(texts(err@) =~= spec_show_text(*o).1);
    let mut out2: Vec<String> = Vec::new();
    let mut err2: Vec<String> = Vec::new();
    match &o.secondary {
        Some(s) => {
            push_line(&mut err2, Vec::new());
            push_line(&mut err2, chars_of("// Decompiled Java (secondary view):"));
            push_line(&mut out2, chars_of(s.content.as_str()));
        },
        None => {},
    }
    assert(texts(out2@) =~= spec_show_secondary_text(*o).0);
    assert(texts(err2@) =~= spec_show_secondary_text(*o).1);
    (Printed { out, err }, Printed { out: out2, err: err2 })
}

} // verus!
