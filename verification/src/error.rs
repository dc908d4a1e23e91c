//! Classified CLI error type with exit code, error code, and retryability.
use vstd::prelude::*;

verus! {

/// A classified CLI error carrying structured metadata for agent-friendly diagnostics.
///
/// Each error encodes an `error_code` (machine-readable), an `exit_code` (for
/// process exit), and a `retryable` flag so that callers (especially AI agents)
/// can branch on the failure category without parsing human-readable text.
#[derive(Debug, Clone)]
pub struct CliError {
    /// Machine-readable error code (e.g. `INDEX_NOT_FOUND`).
    pub error_code: &'static str,
    /// Process exit code: 1 = general, 2 = usage, 3 = resource not found.
    pub exit_code: i32,
    /// Human-readable error message.
    pub message: String,
    /// Whether the operation may succeed if retried (e.g. transient network / process failures).
    pub retryable: bool,
    /// Suggested command for the agent to run to recover from this error.
    pub suggested_command: Option<String>,
}

/// An error with the given code, exit code, message and retryability, and
/// no suggested command.
pub open spec fn error_is(e: CliError, code: Seq<char>, exit: i32, msg: Seq<char>, retryable: bool) -> bool {
    &&& e.error_code@ == code
    &&& e.exit_code == exit
    &&& e.message@ == msg
    &&& e.retryable == retryable
    &&& e.suggested_command is None
}

impl CliError {
    /// Resource not found (exit 3, not retryable).
    pub fn resource_not_found(error_code: &'static str, msg: String) -> (r: Self)
        ensures
            error_is(r, error_code@, 3, msg@, false),
    {
        Self { error_code, exit_code: 3, message: msg, retryable: false, suggested_command: None }
    }

    /// General failure (exit 1, not retryable).
    pub fn general(error_code: &'static str, msg: String) -> (r: Self)
        ensures
            error_is(r, error_code@, 1, msg@, false),
    {
        Self { error_code, exit_code: 1, message: msg, retryable: false, suggested_command: None }
    }

    /// Usage error — bad arguments (exit 2, not retryable).
    pub fn usage(error_code: &'static str, msg: String) -> (r: Self)
        ensures
            error_is(r, error_code@, 2, msg@, false),
    {
        Self { error_code, exit_code: 2, message: msg, retryable: false, suggested_command: None }
    }

    /// Transient failure that may succeed on retry (exit 1, retryable).
    pub fn transient(error_code: &'static str, msg: String) -> (r: Self)
        ensures
            error_is(r, error_code@, 1, msg@, true),
    {
        Self { error_code, exit_code: 1, message: msg, retryable: true, suggested_command: None }
    }

    /// Attach a suggested recovery command for agent consumption.
    pub fn with_suggested_command(self, cmd: String) -> (r: Self)
        ensures
            r.error_code == self.error_code,
            r.exit_code == self.exit_code,
            r.message == self.message,
            r.retryable == self.retryable,
            r.suggested_command == Some(cmd),
    {
        let mut e = self;
        e.suggested_command = Some(cmd);
        e
    }

    /// The message, as the error displays itself.
    pub fn to_string(&self) -> (r: String)
        ensures
            r@ == self.message@,
    {
        self.message.clone()
    }
}

/// What an error reports in JSON output, and the process exit code.
#[derive(Debug)]
pub struct ErrorReport {
    /// Always `false`.
    pub success: bool,
    /// The error code (`UNKNOWN` for an unclassified error).
    pub error_code: &'static str,
    /// The error text.
    pub error: String,
    /// Whether a retry may succeed.
    pub retryable: bool,
    /// A command that may fix the error.
    pub suggested_command: Option<String>,
    /// The process exit code.
    pub exit_code: i32,
}

/// The report of an error with text `text`: the code, exit code,
/// retryability and suggested command of its classified error when it has
/// one, else `UNKNOWN`, exit 1, not retryable, no command.
pub fn error_report(classified: Option<&CliError>, text: &str) -> (r: ErrorReport)
    ensures
        !r.success,
        r.error@ == text@,
        match classified {
            Some(e) => r.error_code == e.error_code && r.exit_code == e.exit_code
                && r.retryable == e.retryable && r.suggested_command == e.suggested_command,
            None => r.error_code@ == "UNKNOWN"@ && r.exit_code == 1 && !r.retryable && r.suggested_command is None,
        },
{
    let error = crate::text::string_of(&crate::text::chars_of(text));
    match classified {
        Some(e) => ErrorReport {
            success: false,
            error_code: e.error_code,
            error,
            retryable: e.retryable,
            suggested_command: e.suggested_command.clone(),
            exit_code: e.exit_code,
        },
        None => ErrorReport {
            success: false,
            error_code: "UNKNOWN",
            error,
            retryable: false,
            suggested_command: None,
            exit_code: 1,
        },
    }
}
} // verus!
