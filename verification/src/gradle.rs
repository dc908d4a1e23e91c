//! Gradle export task decisions: the command line, the outcome of the
//! process, and the subprojects named by a settings file.
use vstd::prelude::*;
use crate::error::{CliError, error_is};
use crate::jar::{spec_trim, trim};
use crate::kotlin_metadata::format::{push_signed, signed_decimal};
use crate::text::{
    chars_of, decimal, has_prefix, join, push_decimal, push_seq, push_str, replace_char,
    replace_char_vec, split_chars, split_on, starts_with_str_at, string_of,
};

verus! {

/// The Gradle command: the project's wrapper when it has one, else `gradle`.
pub fn find_gradle(gradlew: Option<&str>) -> (r: String)
    ensures
        r@ == (match gradlew { Some(p) => p@, None => "gradle"@ }),
{
    match gradlew {
        Some(p) => string_of(&chars_of(p)),
        None => string_of(&chars_of("gradle")),
    }
}

/// The arguments of the export task: the init script, the configurations
/// joined with `,` as a project property, the task, `--quiet`, `--parallel`.
pub open spec fn spec_export_args(init_script: Seq<char>, configurations: Seq<Seq<char>>) -> Seq<Seq<char>> {
    seq![
        "--init-script"@,
        init_script,
        "-PclasspathSurfer.configurations="@ + join(configurations, ","@),
        "classpathSurferExport"@,
        "--quiet"@,
        "--parallel"@,
    ]
}

/// Build the arguments of the export task.
pub fn export_args(init_script: &str, configurations: &Vec<String>) -> (r: Vec<String>)
    ensures
        r@.map_values(|s: String| s@) == spec_export_args(init_script@, configurations@.map_values(|s: String| s@)),
{
    let mut parts: Vec<Vec<char>> = Vec::new();
    let mut i: usize = 0;
    while i < configurations.len()
        invariant
            0 <= i <= configurations@.len(),
            parts@.map_values(|p: Vec<char>| p@) == configurations@.map_values(|s: String| s@).take(i as int),
        decreases configurations@.len() - i,
    {
        let ghost before = parts@.map_values(|p: Vec<char>| p@);
        parts.push(chars_of(configurations[i].as_str()));
        assert(parts@.map_values(|p: Vec<char>| p@) =~= before.push(configurations@[i as int]@));
        assert(configurations@.map_values(|s: String| s@).take(i + 1)
            =~= configurations@.map_values(|s: String| s@).take(i as int).push(configurations@[i as int]@));
        i = i + 1;
    }
    assert(configurations@.map_values(|s: String| s@).take(configurations@.len() as int) =~= configurations@.map_values(|s: String| s@));
    let mut prop: Vec<char> = Vec::new();
    push_str(&mut prop, "-PclasspathSurfer.configurations=");
    push_seq(&mut prop, &crate::text::join_vecs(&parts, ","));
    let r = vec![
        string_of(&chars_of("--init-script")),
        string_of(&chars_of(init_script)),
        string_of(&prop),
        string_of(&chars_of("classpathSurferExport")),
        string_of(&chars_of("--quiet")),
        string_of(&chars_of("--parallel")),
    ];
    assert(r@.map_values(|s: String| s@) =~= spec_export_args(init_script@, configurations@.map_values(|s: String| s@)));
    r
}

/// What polling the Gradle process found.
#[derive(Debug, Clone)]
pub enum PollEvent {
    /// Ctrl-C was pressed.
    Interrupted,
    /// The process exited.
    Exited {
        /// Whether it succeeded.
        success: bool,
        /// Its exit code, when it has one.
        code: Option<i32>,
        /// What it wrote to stderr.
        stderr: String,
    },
    /// The process is still running after this many nanoseconds.
    Running {
        /// Time since the process started.
        elapsed_nanos: u128,
    },
}

/// What the poll loop does next.
#[derive(Debug)]
pub enum PollStep {
    /// Kill the process and exit with status 130.
    KillAndExit,
    /// The task finished: success, or this error.
    Finished(Result<(), CliError>),
    /// Kill the process and fail with this error.
    KillAndFail(CliError),
    /// Sleep a little and poll again.
    Wait,
}

/// The message of a failed task: its exit code (-1 without one), then the
/// trimmed stderr when there is any.
pub open spec fn failure_message(code: Option<i32>, stderr: Seq<char>) -> Seq<char> {
    let head = "Gradle task failed with exit code: "@ + signed_decimal(match code { Some(c) => c as int, None => -1 });
    if spec_trim(stderr).len() == 0 { head } else { head + "\n\nGradle stderr:\n"@ + spec_trim(stderr) }
}

/// The message of a timed-out task.
pub open spec fn timeout_message(timeout_secs: u64) -> Seq<char> {
    "Gradle task timed out after "@ + decimal(timeout_secs as nat) + " seconds. Use --timeout to increase the limit."@
}

/// Decide what to do after polling the Gradle process: Ctrl-C kills it and
/// exits; a successful exit finishes; a failed one is a retryable
/// `GRADLE_FAILED`; running past the timeout kills it with a retryable
/// `GRADLE_TIMEOUT`; otherwise wait.
pub fn on_poll(event: PollEvent, timeout_secs: u64) -> (r: PollStep)
    ensures
        match event {
            PollEvent::Interrupted => r is KillAndExit,
            PollEvent::Exited { success, code, stderr } => if success {
                r matches PollStep::Finished(Ok(()))
            } else {
                r matches PollStep::Finished(Err(e)) && error_is(e, "GRADLE_FAILED"@, 1, failure_message(code, stderr@), true)
            },
            PollEvent::Running { elapsed_nanos } => if elapsed_nanos >= timeout_secs as int * 1_000_000_000 {
                r matches PollStep::KillAndFail(e) && error_is(e, "GRADLE_TIMEOUT"@, 1, timeout_message(timeout_secs), true)
            } else {
                r is Wait
            },
        },
{
    match event {
        PollEvent::Interrupted => PollStep::KillAndExit,
        PollEvent::Exited { success, code, stderr } => {
            if success {
                PollStep::Finished(Ok(()))
            } else {
                let mut msg: Vec<char> = Vec::new();
                push_str(&mut msg, "Gradle task failed with exit code: ");
                let c: i32 = match code { Some(c) => c, None => -1 };
                push_signed(&mut msg, c);
                let sv = chars_of(stderr.as_str());
                let t = trim(&sv);
                if t.len() > 0 {
                    push_str(&mut msg, "\n\nGradle stderr:\n");
                    push_seq(&mut msg, &t);
                }
                PollStep::Finished(Err(CliError::transient("GRADLE_FAILED", string_of(&msg))))
            }
        },
        PollEvent::Running { elapsed_nanos } => {
            if elapsed_nanos >= (timeout_secs as u128) * 1_000_000_000 {
                let mut msg: Vec<char> = Vec::new();
                push_str(&mut msg, "Gradle task timed out after ");
                push_decimal(&mut msg, timeout_secs as u128);
                push_str(&mut msg, " seconds. Use --timeout to increase the limit.");
                PollStep::KillAndFail(CliError::transient("GRADLE_TIMEOUT", string_of(&msg)))
            } else {
                PollStep::Wait
            }
        },
    }
}

/// The subproject paths named on one trimmed `include` line: the quoted
/// parts (split at `'` and `"`) that start with `:` after trimming, without
/// the `:` and with `:` written as `/`.
pub open spec fn include_paths(parts: Seq<Seq<char>>) -> Seq<Seq<char>>
    decreases parts.len(),
{
    if parts.len() == 0 {
        Seq::empty()
    } else {
        let rest = include_paths(parts.drop_last());
        let p = spec_trim(parts.last());
        if p.len() > 0 && p[0] == ':' { rest.push(replace_char(p.drop_first(), ':', '/')) } else { rest }
    }
}

/// The subproject paths named on a line: those of its quoted parts when
/// the trimmed line starts with `include`, else none.
pub open spec fn line_modules(line: Seq<char>) -> Seq<Seq<char>> {
    let t = spec_trim(line);
    if has_prefix(t, "include"@) { include_paths(split_on(replace_char(t, '"', '\''), '\'')) } else { Seq::empty() }
}

fn line_modules_exec(line: &[char]) -> (r: Vec<String>)
    ensures
        r@.map_values(|s: String| s@) == line_modules(line@),
{
    let t = trim(line);
    assert(t@.skip(0) =~= t@);
    if !starts_with_str_at(&t, 0, "include") {
        return Vec::new();
    }
    let unified = replace_char_vec(&t, '"', '\'');
    let parts = split_chars(&unified, '\'');
    let ghost pv = parts@.map_values(|p: Vec<char>| p@);
    let mut out: Vec<String> = Vec::new();
    let mut i: usize = 0;
    while i < parts.len()
        invariant
            pv == parts@.map_values(|p: Vec<char>| p@),
            0 <= i <= parts@.len(),
            out@.map_values(|s: String| s@) == include_paths(pv.take(i as int)),
        decreases parts@.len() - i,
    {
        assert(pv.take(i + 1).drop_last() =~= pv.take(i as int));
        assert(pv.take(i + 1).last() == parts@[i as int]@);
        let p = trim(parts[i].as_slice());
        if p.len() > 0 && p[0] == ':' {
            let rest = crate::text::slice_vec(&p, 1, p.len());
            assert(rest@ =~= p@.drop_first());
            let path = replace_char_vec(&rest, ':', '/');
            let ghost before = out@.map_values(|s: String| s@);
            out.push(string_of(&path));
            assert(out@.map_values(|s: String| s@) =~= before.push(path@));
        }
        i = i + 1;
    }
    assert(pv.take(parts@.len() as int) =~= pv);
    out
}

/// The subproject paths named by `include` lines of a settings file, in order.
pub open spec fn settings_modules(lines: Seq<Seq<char>>) -> Seq<Seq<char>>
    decreases lines.len(),
{
    if lines.len() == 0 {
        Seq::empty()
    } else {
        settings_modules(lines.drop_last()) + line_modules(lines.last())
    }
}

/// The subproject paths (relative, `/`-separated) named by the `include`
/// lines of a settings file, as `include ':app'` or `include(":lib:core")`.
pub fn submodule_paths(content: &str) -> (r: Vec<String>)
    ensures
        r@.map_values(|s: String| s@) == settings_modules(split_on(content@, '\n')),
{
    let v = chars_of(content);
    let lines = split_chars(&v, '\n');
    let ghost lv = lines@.map_values(|p: Vec<char>| p@);
    let mut out: Vec<String> = Vec::new();
    let mut i: usize = 0;
    while i < lines.len()
        invariant
            lv == lines@.map_values(|p: Vec<char>| p@),
            0 <= i <= lines@.len(),
            out@.map_values(|s: String| s@) == settings_modules(lv.take(i as int)),
        decreases lines@.len() - i,
    {
        assert(lv.take(i + 1).drop_last() =~= lv.take(i as int));
        assert(lv.take(i + 1).last() == lines@[i as int]@);
        let found = line_modules_exec(lines[i].as_slice());
        let ghost before = out@.map_values(|s: String| s@);
        let mut j: usize = 0;
        while j < found.len()
            invariant
                0 <= j <= found@.len(),
                out@.map_values(|s: String| s@) == before + found@.map_values(|s: String| s@).take(j as int),
            decreases found@.len() - j,
        {
            let ghost b2 = out@.map_values(|s: String| s@);
            out.push(found[j].clone());
            assert(out@.map_values(|s: String| s@) =~= b2.push(found@[j as int]@));
            assert(found@.map_values(|s: String| s@).take(j + 1) =~= found@.map_values(|s: String| s@).take(j as int).push(found@[j as int]@));
            j = j + 1;
        }
        assert(found@.map_values(|s: String| s@).take(found@.len() as int) =~= found@.map_values(|s: String| s@));
        i = i + 1;
    }
    assert(lv.take(lines@.len() as int) =~= lv);
    out
}

} // verus!
