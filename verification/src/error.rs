//! The closed set of errors, each with its stable code.

use vstd::prelude::*;
use crate::number::{int_decimal, push_int_decimal};
use crate::text::{chars_of, push_all, string_of};

verus! {

/// What can go wrong while a book is validated. The codes are stable.
#[derive(Debug, Clone)]
pub enum ValidatorError {
    /// E001: the configuration section is absent or malformed.
    Config { message: String },
    /// E002: the sandbox platform is unavailable or the image did not start.
    ContainerStartup { message: String },
    /// E003: an operation inside the sandbox failed at the platform level.
    ContainerExec { message: String },
    /// E004: the setup step ended with a non-zero exit code.
    SetupFailed { exit_code: i32, message: String },
    /// E005: the query step ended with a non-zero exit code.
    QueryFailed { exit_code: i32, message: String },
    /// E006: the host validator ended with a non-zero exit code.
    ValidationFailed { exit_code: i32, message: String },
    /// E007: a block names a validator that the configuration lacks.
    UnknownValidator { name: String },
    /// E008: a validator definition has an empty image or script.
    InvalidConfig { name: String, reason: String },
    /// E009: the fixtures directory is missing or no directory.
    FixturesError { message: String },
    /// E010: the configured host validator script does not exist.
    ScriptNotFound { path: String },
    /// E011: a block is marked both `hidden` and `skip`.
    MutuallyExclusiveAttributes,
}

/// An error with its texts as character sequences.
pub enum ErrorView {
    Config { message: Seq<char> },
    ContainerStartup { message: Seq<char> },
    ContainerExec { message: Seq<char> },
    SetupFailed { exit_code: int, message: Seq<char> },
    QueryFailed { exit_code: int, message: Seq<char> },
    ValidationFailed { exit_code: int, message: Seq<char> },
    UnknownValidator { name: Seq<char> },
    InvalidConfig { name: Seq<char>, reason: Seq<char> },
    FixturesError { message: Seq<char> },
    ScriptNotFound { path: Seq<char> },
    MutuallyExclusiveAttributes,
}

impl View for ValidatorError {
    type V = ErrorView;

    open spec fn view(&self) -> ErrorView {
        match *self {
            ValidatorError::Config { message } => ErrorView::Config { message: message@ },
            ValidatorError::ContainerStartup { message } => ErrorView::ContainerStartup {
                message: message@,
            },
            ValidatorError::ContainerExec { message } => ErrorView::ContainerExec {
                message: message@,
            },
            ValidatorError::SetupFailed { exit_code, message } => ErrorView::SetupFailed {
                exit_code: exit_code as int,
                message: message@,
            },
            ValidatorError::QueryFailed { exit_code, message } => ErrorView::QueryFailed {
                exit_code: exit_code as int,
                message: message@,
            },
            ValidatorError::ValidationFailed { exit_code, message } => ErrorView::ValidationFailed {
                exit_code: exit_code as int,
                message: message@,
            },
            ValidatorError::UnknownValidator { name } => ErrorView::UnknownValidator {
                name: name@,
            },
            ValidatorError::InvalidConfig { name, reason } => ErrorView::InvalidConfig {
                name: name@,
                reason: reason@,
            },
            ValidatorError::FixturesError { message } => ErrorView::FixturesError {
                message: message@,
            },
            ValidatorError::ScriptNotFound { path } => ErrorView::ScriptNotFound { path: path@ },
            ValidatorError::MutuallyExclusiveAttributes => ErrorView::MutuallyExclusiveAttributes,
        }
    }
}

/// The code of an error.
pub open spec fn code_spec(e: ValidatorError) -> Seq<char> {
    match e {
        ValidatorError::Config { .. } => "E001"@,
        ValidatorError::ContainerStartup { .. } => "E002"@,
        ValidatorError::ContainerExec { .. } => "E003"@,
        ValidatorError::SetupFailed { .. } => "E004"@,
        ValidatorError::QueryFailed { .. } => "E005"@,
        ValidatorError::ValidationFailed { .. } => "E006"@,
        ValidatorError::UnknownValidator { .. } => "E007"@,
        ValidatorError::InvalidConfig { .. } => "E008"@,
        ValidatorError::FixturesError { .. } => "E009"@,
        ValidatorError::ScriptNotFound { .. } => "E010"@,
        ValidatorError::MutuallyExclusiveAttributes => "E011"@,
    }
}

/// The line shown to the user: the code in brackets, the kind in words, and
/// what the error carries.
pub open spec fn display_spec(e: ValidatorError) -> Seq<char> {
    match e {
        ValidatorError::Config { message } => "[E001] Configuration error: "@ + message@,
        ValidatorError::ContainerStartup { message } => "[E002] Container startup failed: "@
            + message@,
        ValidatorError::ContainerExec { message } => "[E003] Container exec failed: "@ + message@,
        ValidatorError::SetupFailed { exit_code, message } => "[E004] Setup script failed (exit "@
            + int_decimal(exit_code as int) + "): "@ + message@,
        ValidatorError::QueryFailed { exit_code, message } =>
            "[E005] Query execution failed (exit "@ + int_decimal(exit_code as int) + "): "@
            + message@,
        ValidatorError::ValidationFailed { exit_code, message } =>
            "[E006] Validation failed (exit "@ + int_decimal(exit_code as int) + "): "@ + message@,
        ValidatorError::UnknownValidator { name } => "[E007] Unknown validator '"@ + name@ + "'"@,
        ValidatorError::InvalidConfig { name, reason } => "[E008] Invalid validator config for '"@
            + name@ + "': "@ + reason@,
        ValidatorError::FixturesError { message } => "[E009] Fixtures directory error: "@
            + message@,
        ValidatorError::ScriptNotFound { path } => "[E010] Script not found: "@ + path@,
        ValidatorError::MutuallyExclusiveAttributes =>
            "[E011] 'hidden' and 'skip' are mutually exclusive"@,
    }
}

/// Appends the characters of a string slice.
pub fn push_str(out: &mut Vec<char>, s: &str)
    ensures
        final(out)@ == old(out)@ + s@,
{
    let chars = chars_of(s);
    push_all(out, &chars);
}

fn with_message(head: &str, message: &String) -> (r: String)
    ensures
        r@ == head@ + message@,
{
    let mut out: Vec<char> = Vec::new();
    push_str(&mut out, head);
    push_str(&mut out, message.as_str());
    assert(out@ == head@ + message@);
    string_of(&out)
}

fn with_exit(head: &str, exit_code: i32, message: &String) -> (r: String)
    ensures
        r@ == head@ + int_decimal(exit_code as int) + "): "@ + message@,
{
    let mut out: Vec<char> = Vec::new();
    push_str(&mut out, head);
    push_int_decimal(&mut out, exit_code as i64);
    push_str(&mut out, "): ");
    push_str(&mut out, message.as_str());
    assert(out@ == head@ + int_decimal(exit_code as int) + "): "@ + message@);
    string_of(&out)
}

impl ValidatorError {
    /// The stable code of this error, `E001` to `E011`.
    #[must_use]
    pub fn code(&self) -> (r: &'static str)
        ensures
            r@ == code_spec(*self),
    {
        match self {
            ValidatorError::Config { .. } => "E001",
            ValidatorError::ContainerStartup { .. } => "E002",
            ValidatorError::ContainerExec { .. } => "E003",
            ValidatorError::SetupFailed { .. } => "E004",
            ValidatorError::QueryFailed { .. } => "E005",
            ValidatorError::ValidationFailed { .. } => "E006",
            ValidatorError::UnknownValidator { .. } => "E007",
            ValidatorError::InvalidConfig { .. } => "E008",
            ValidatorError::FixturesError { .. } => "E009",
            ValidatorError::ScriptNotFound { .. } => "E010",
            ValidatorError::MutuallyExclusiveAttributes => "E011",
        }
    }

    /// The message shown to the user, which begins with the code in brackets.
    pub fn to_string(&self) -> (r: String)
        ensures
            r@ == display_spec(*self),
    {
        match self {
            ValidatorError::Config { message } => with_message(
                "[E001] Configuration error: ",
                message,
            ),
            ValidatorError::ContainerStartup { message } => with_message(
                "[E002] Container startup failed: ",
                message,
            ),
            ValidatorError::ContainerExec { message } => with_message(
                "[E003] Container exec failed: ",
                message,
            ),
            ValidatorError::SetupFailed { exit_code, message } => with_exit(
                "[E004] Setup script failed (exit ",
                *exit_code,
                message,
            ),
            ValidatorError::QueryFailed { exit_code, message } => with_exit(
                "[E005] Query execution failed (exit ",
                *exit_code,
                message,
            ),
            ValidatorError::ValidationFailed { exit_code, message } => with_exit(
                "[E006] Validation failed (exit ",
                *exit_code,
                message,
            ),
            ValidatorError::UnknownValidator { name } => {
                let mut out: Vec<char> = Vec::new();
                push_str(&mut out, "[E007] Unknown validator '");
                push_str(&mut out, name.as_str());
                push_str(&mut out, "'");
                assert(out@ == "[E007] Unknown validator '"@ + name@ + "'"@);
                string_of(&out)
            },
            ValidatorError::InvalidConfig { name, reason } => {
                let mut out: Vec<char> = Vec::new();
                push_str(&mut out, "[E008] Invalid validator config for '");
                push_str(&mut out, name.as_str());
                push_str(&mut out, "': ");
                push_str(&mut out, reason.as_str());
                assert(out@ == "[E008] Invalid validator config for '"@ + name@ + "': "@
                    + reason@);
                string_of(&out)
            },
            ValidatorError::FixturesError { message } => with_message(
                "[E009] Fixtures directory error: ",
                message,
            ),
            ValidatorError::ScriptNotFound { path } => with_message(
                "[E010] Script not found: ",
                path,
            ),
            ValidatorError::MutuallyExclusiveAttributes => {
                let mut out: Vec<char> = Vec::new();
                push_str(&mut out, "[E011] 'hidden' and 'skip' are mutually exclusive");
                string_of(&out)
            },
        }
    }
}

} // verus!
