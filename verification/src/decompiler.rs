//! Decisions around the external decompilers: which JAR runs, with which
//! arguments, and what a run gives back.
//!
//! Two backends are supported: CFR writes the Java source to stdout;
//! Vineflower writes a `.java` file into an output directory.  Both run as
//! `java -jar <decompiler.jar> <class file> [<output dir>]`.
use vstd::prelude::*;
use crate::error::{CliError, error_is};
use crate::jar::{decode_utf8_lossy, utf8_lossy};
use crate::text::{chars_of, has_extension, file_has_extension, push_str, str_eq, string_of};

verus! {

/// A decompiler backend.
#[derive(Debug, Clone, Copy, PartialEq, Eq, Structural)]
pub enum DecompilerBackend {
    /// CFR: source on stdout.
    Cfr,
    /// Vineflower: a `.java` file in an output directory.
    Vineflower,
}

/// The environment variable naming the JAR of a known decompiler.
pub open spec fn spec_env_var(decompiler: Seq<char>) -> Option<Seq<char>> {
    if decompiler == "cfr"@ { Some("CFR_JAR"@) }
    else if decompiler == "vineflower"@ { Some("VINEFLOWER_JAR"@) }
    else { None }
}

/// The environment variable that may name the decompiler's JAR:
/// `CFR_JAR` or `VINEFLOWER_JAR`; none for an unknown decompiler.
pub fn decompiler_env_var(decompiler: &str) -> (r: Option<&'static str>)
    ensures
        match spec_env_var(decompiler@) {
            Some(v) => r is Some && r->0@ == v,
            None => r is None,
        },
{
    if str_eq(decompiler, "cfr") {
        Some("CFR_JAR")
    } else if str_eq(decompiler, "vineflower") {
        Some("VINEFLOWER_JAR")
    } else {
        None
    }
}

/// The message when no decompiler JAR is known.
pub open spec fn not_found_message(decompiler: Seq<char>) -> Seq<char> {
    "Decompiler JAR not found. Set --decompiler-jar or install "@ + decompiler + "."@
}

/// The message for an unknown decompiler.
pub open spec fn unknown_message(decompiler: Seq<char>) -> Seq<char> {
    "Unknown decompiler: '"@ + decompiler + "'. Use 'cfr' or 'vineflower'."@
}

/// Pick the decompiler JAR and backend.  The JAR is the one given, else the
/// one the environment variable names (`env_jar`, when that file exists);
/// without one it is the `DECOMPILER_NOT_FOUND` error (not found, exit 3).
/// A decompiler other than `cfr` or `vineflower` is the `INVALID_ARGUMENT`
/// usage error (exit 2).
pub fn decompile_plan(decompiler: &str, jar_given: Option<&str>, env_jar: Option<&str>) -> (r: Result<(DecompilerBackend, String), CliError>)
    ensures
        ({
            let jar = match jar_given {
                Some(j) => Some(j@),
                None => if spec_env_var(decompiler@) is Some { match env_jar { Some(e) => Some(e@), None => None } } else { None },
            };
            match jar {
                None => r matches Err(e) && error_is(e, "DECOMPILER_NOT_FOUND"@, 3, not_found_message(decompiler@), false),
                Some(j) => if decompiler@ == "cfr"@ {
                    r matches Ok((b, p)) && b == DecompilerBackend::Cfr && p@ == j
                } else if decompiler@ == "vineflower"@ {
                    r matches Ok((b, p)) && b == DecompilerBackend::Vineflower && p@ == j
                } else {
                    r matches Err(e) && error_is(e, "INVALID_ARGUMENT"@, 2, unknown_message(decompiler@), false)
                },
            }
        }),
{
    let known = decompiler_env_var(decompiler).is_some();
    let jar: Option<&str> = match jar_given {
        Some(j) => Some(j),
        None => if known { env_jar } else { None },
    };
    let jar = match jar {
        Some(j) => j,
        None => {
            let mut msg: Vec<char> = Vec::new();
            push_str(&mut msg, "Decompiler JAR not found. Set --decompiler-jar or install ");
            push_str(&mut msg, decompiler);
            push_str(&mut msg, ".");
            return Err(CliError::resource_not_found("DECOMPILER_NOT_FOUND", string_of(&msg)));
        },
    };
    let path = string_of(&chars_of(jar));
    if str_eq(decompiler, "cfr") {
        Ok((DecompilerBackend::Cfr, path))
    } else if str_eq(decompiler, "vineflower") {
        Ok((DecompilerBackend::Vineflower, path))
    } else {
        let mut msg: Vec<char> = Vec::new();
        push_str(&mut msg, "Unknown decompiler: '");
        push_str(&mut msg, decompiler);
        push_str(&mut msg, "'. Use 'cfr' or 'vineflower'.");
        Err(CliError::usage("INVALID_ARGUMENT", string_of(&msg)))
    }
}

/// The arguments of `java` for a decompiler run: `-jar`, the decompiler
/// JAR, the class file, and for Vineflower the output directory.
pub open spec fn spec_decompiler_args(b: DecompilerBackend, jar: Seq<char>, class_file: Seq<char>, output_dir: Seq<char>) -> Seq<Seq<char>> {
    match b {
        DecompilerBackend::Cfr => seq!["-jar"@, jar, class_file],
        DecompilerBackend::Vineflower => seq!["-jar"@, jar, class_file, output_dir],
    }
}

/// The arguments of `java` for a decompiler run.
pub fn decompiler_args(b: DecompilerBackend, jar: &str, class_file: &str, output_dir: &str) -> (r: Vec<String>)
    ensures
        r@.map_values(|a: String| a@) == spec_decompiler_args(b, jar@, class_file@, output_dir@),
{
    let mut r = vec![string_of(&chars_of("-jar")), string_of(&chars_of(jar)), string_of(&chars_of(class_file))];
    match b {
        DecompilerBackend::Cfr => {},
        DecompilerBackend::Vineflower => r.push(string_of(&chars_of(output_dir))),
    }
    assert(r@.map_values(|a: String| a@) =~= spec_decompiler_args(b, jar@, class_file@, output_dir@));
    r
}

/// The name a backend's failures carry.
pub open spec fn backend_name(b: DecompilerBackend) -> Seq<char> {
    match b {
        DecompilerBackend::Cfr => "CFR"@,
        DecompilerBackend::Vineflower => "Vineflower"@,
    }
}

/// What a finished decompiler process means: a failure is the
/// `DECOMPILATION_FAILED` error (exit 1) with its stderr (decoded as lossy
/// UTF-8); a success of CFR is its stdout decoded the same way, and a
/// success of Vineflower is nothing yet (its output is a file).
pub fn decompiler_run_outcome(b: DecompilerBackend, success: bool, stdout: &[u8], stderr: &[u8]) -> (r: Result<Option<String>, CliError>)
    ensures
        !success ==> (r matches Err(e) && error_is(e, "DECOMPILATION_FAILED"@, 1,
            backend_name(b) + " decompilation failed: "@ + utf8_lossy(stderr@), false)),
        success && b == DecompilerBackend::Cfr ==> (r matches Ok(Some(s)) && s@ == utf8_lossy(stdout@)),
        success && b == DecompilerBackend::Vineflower ==> r matches Ok(None),
{
    if !success {
        let mut msg: Vec<char> = Vec::new();
        match b {
            DecompilerBackend::Cfr => push_str(&mut msg, "CFR"),
            DecompilerBackend::Vineflower => push_str(&mut msg, "Vineflower"),
        }
        push_str(&mut msg, " decompilation failed: ");
        let err = decode_utf8_lossy(stderr);
        push_str(&mut msg, err.as_str());
        return Err(CliError::general("DECOMPILATION_FAILED", string_of(&msg)));
    }
    match b {
        DecompilerBackend::Cfr => Ok(Some(decode_utf8_lossy(stdout))),
        DecompilerBackend::Vineflower => Ok(None),
    }
}

/// Whether a file of Vineflower's output directory is its Java output.
pub fn is_java_output(file_name: &str) -> (r: bool)
    ensures
        r == has_extension(file_name@, "java"@),
{
    file_has_extension(file_name, "java")
}

/// Vineflower's result: the content of its Java output file, or the
/// `DECOMPILATION_FAILED` error (exit 1) when it wrote none.
pub fn vineflower_output(content: Option<String>) -> (r: Result<String, CliError>)
    ensures
        match content {
            Some(c) => r matches Ok(s) && s == c,
            None => r matches Err(e) && error_is(e, "DECOMPILATION_FAILED"@, 1, "Vineflower did not produce output"@, false),
        },
{
    match content {
        Some(c) => Ok(c),
        None => Err(CliError::general("DECOMPILATION_FAILED", string_of(&chars_of("Vineflower did not produce output")))),
    }
}

} // verus!
