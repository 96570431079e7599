//! Failures of the command line and the exit codes of the process.

use vstd::prelude::*;

use crate::biometric::{BiometricError, ErrorView};

verus! {

/// Success.
pub const EXIT_OK: u32 = 0;

/// General or unexpected error.
pub const EXIT_GENERAL: u32 = 1;

/// Usage error.
pub const EXIT_USAGE: u32 = 2;

/// Not found.
pub const EXIT_NOT_FOUND: u32 = 3;

/// The user declined a confirmation prompt.
pub const EXIT_USER_DECLINED: u32 = 73;

/// Interactive input was required but is unavailable.
pub const EXIT_NEEDS_INTERACTIVE: u32 = 78;

/// Why a file could not be read.
#[derive(Debug)]
pub struct ReadFailure {
    /// Whether the file does not exist.
    pub missing: bool,
    /// The reason, for a human.
    pub why: String,
}

/// A [`ReadFailure`] with its text.
pub struct ReadFailureView {
    pub missing: bool,
    pub why: Seq<char>,
}

impl View for ReadFailure {
    type V = ReadFailureView;

    open spec fn view(&self) -> ReadFailureView {
        ReadFailureView { missing: self.missing, why: self.why@ }
    }
}

/// Failures that the command line itself detects.
#[derive(Debug)]
pub enum CliError {
    /// Bad arguments or an otherwise invalid request.
    InvalidConfig(String),
    /// No usable identity key was found.
    NoKeyFound,
    /// A key could not be decrypted or written out.
    Signing(String),
    /// A key file could not be read.
    Unreadable(ReadFailure),
}

/// A [`CliError`] with its text.
pub enum CliErrorView {
    InvalidConfig(Seq<char>),
    NoKeyFound,
    Signing(Seq<char>),
    Unreadable(ReadFailureView),
}

impl View for CliError {
    type V = CliErrorView;

    open spec fn view(&self) -> CliErrorView {
        match self {
            CliError::InvalidConfig(message) => CliErrorView::InvalidConfig(message@),
            CliError::NoKeyFound => CliErrorView::NoKeyFound,
            CliError::Signing(message) => CliErrorView::Signing(message@),
            CliError::Unreadable(failure) => CliErrorView::Unreadable(failure@),
        }
    }
}

impl CliErrorView {
    /// The exit code of the failure's kind.
    pub open spec fn kind_code(self) -> u32 {
        match self {
            CliErrorView::InvalidConfig(_) => EXIT_USAGE,
            CliErrorView::NoKeyFound => EXIT_NOT_FOUND,
            CliErrorView::Signing(_) => EXIT_GENERAL,
            CliErrorView::Unreadable(_) => EXIT_GENERAL,
        }
    }

    /// The exit code of the failure.  A key file that is missing is not found;
    /// otherwise the kind of failure decides.
    pub open spec fn code(self) -> u32 {
        match self {
            CliErrorView::Unreadable(failure) if failure.missing => EXIT_NOT_FOUND,
            _ => self.kind_code(),
        }
    }
}

/// `anvil_ssh::AnvilError::exit_code`: an invalid configuration exits with 2, a
/// missing key with 3, a signing failure and an I/O error with 1, whatever the
/// message.
#[verifier::external_body]
fn anvil_exit_code(error: &CliError) -> (r: u32)
    ensures
        r == error@.kind_code(),
{
    match error {
        CliError::InvalidConfig(message) => anvil_ssh::AnvilError::invalid_config(message.as_str()),
        CliError::NoKeyFound => anvil_ssh::AnvilError::no_key_found(),
        CliError::Signing(message) => anvil_ssh::AnvilError::signing(message.as_str()),
        CliError::Unreadable(failure) => anvil_ssh::AnvilError::from(
            std::io::Error::other(failure.why.as_str()),
        ),
    }.exit_code()
}

impl CliError {
    /// The exit code of the failure.
    pub fn exit_code(&self) -> (r: u32)
        ensures
            r == self@.code(),
    {
        match self {
            CliError::Unreadable(failure) if failure.missing => EXIT_NOT_FOUND,
            _ => anvil_exit_code(self),
        }
    }
}

/// The exit code of a biometric failure.
pub open spec fn code_for(error: ErrorView) -> u32 {
    match error {
        ErrorView::NotEnrolled => EXIT_NOT_FOUND,
        ErrorView::Cancelled => EXIT_USER_DECLINED,
        ErrorView::Unavailable(_) => EXIT_NEEDS_INTERACTIVE,
        ErrorView::Backend(_) => EXIT_GENERAL,
    }
}

/// Maps a [`BiometricError`] to its exit code.
pub fn exit_for(error: &BiometricError) -> (r: u32)
    ensures
        r == code_for(error@),
{
    match error {
        BiometricError::NotEnrolled => EXIT_NOT_FOUND,
        BiometricError::Cancelled => EXIT_USER_DECLINED,
        BiometricError::Unavailable(_) => EXIT_NEEDS_INTERACTIVE,
        BiometricError::Backend(_) => EXIT_GENERAL,
    }
}

/// The status byte that a process ends with: the code itself where it fits a
/// byte, and the general error otherwise.
pub fn process_status(code: u32) -> (r: u8)
    ensures
        r == (if code <= 255 {
            code
        } else {
            EXIT_GENERAL
        }),
{
    if code <= 255 {
        code as u8
    } else {
        1
    }
}

/// The four kinds of biometric failure end with four different codes, none of
/// which means success, and all of which reach the caller of the process.
pub proof fn biometric_codes_tell_failures_apart(a: ErrorView, b: ErrorView)
    ensures
        code_for(a) != EXIT_OK,
        code_for(a) <= 255,
        code_for(a) == code_for(b) <==> {
            ||| a is NotEnrolled && b is NotEnrolled
            ||| a is Cancelled && b is Cancelled
            ||| a is Unavailable && b is Unavailable
            ||| a is Backend && b is Backend
        },
{
}

/// The exit codes of the failures: they depend on the kind of failure, and on
/// whether a file is missing, but never on a message.
pub proof fn codes_depend_on_the_kind_only(why: Seq<char>, failure: ReadFailureView)
    ensures
        code_for(ErrorView::NotEnrolled) == 3,
        code_for(ErrorView::Cancelled) == 73,
        code_for(ErrorView::Unavailable(why)) == 78,
        code_for(ErrorView::Backend(why)) == 1,
        CliErrorView::InvalidConfig(why).code() == 2,
        CliErrorView::NoKeyFound.code() == 3,
        CliErrorView::Signing(why).code() == 1,
        failure.missing ==> CliErrorView::Unreadable(failure).code() == 3,
        !failure.missing ==> CliErrorView::Unreadable(failure).code() == 1,
{
}

/// The status of a process is the exit code where it fits a byte; a failure never
/// becomes a success.
pub proof fn failures_stay_failures(code: u32, status: u8)
    requires
        call_ensures(process_status, (code,), status),
    ensures
        code <= 255 ==> status == code,
        code > 255 ==> status == 1,
        status == 0 <==> code == 0,
{
}

/// A failure is seen as it is.
pub proof fn failures_are_seen_as_they_are(error: CliError)
    ensures
        match error {
            CliError::InvalidConfig(message) => error@ == CliErrorView::InvalidConfig(message@),
            CliError::NoKeyFound => error@ is NoKeyFound,
            CliError::Signing(message) => error@ == CliErrorView::Signing(message@),
            CliError::Unreadable(failure) => error@ == CliErrorView::Unreadable(
                ReadFailureView { missing: failure.missing, why: failure.why@ },
            ),
        },
{
}

} // verus!
