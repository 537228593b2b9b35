//! The unified failure and exit-code protocol.
//!
//! Every fallible operation in this library reports through [`VoltaError`],
//! a root error value that carries one concrete [`ErrorDetails`] variant
//! (which fixes the process exit code and the user-facing message) together
//! with a chain of lower-layer cause messages kept for diagnostics.

use vstd::prelude::*;

verus! {

/// Exit codes supported by the `VoltaFail` trait.
///
/// The numeric value of each code (see [`spec_exit_code_value`]) is a stable,
/// user-visible contract: scripts and CI depend on the exact numbers.
#[derive(Clone, Copy, Debug, PartialEq, Eq, Structural)]
pub enum ExitCode {
    /// No error occurred.
    Success,
    /// An unknown error occurred.
    UnknownError,
    /// An invalid combination of command-line arguments was supplied.
    InvalidArguments,
    /// No match could be found for the requested version string.
    NoVersionMatch,
    /// A network error occurred.
    NetworkError,
    /// A required environment variable was unset or invalid.
    EnvironmentError,
    /// A file could not be read or written.
    FileSystemError,
    /// Package configuration is missing or incorrect.
    ConfigurationError,
    /// The command or feature is not yet implemented.
    NotYetImplemented,
    /// The requested executable could not be run.
    ExecutionFailure,
    /// The requested executable is not available.
    ExecutableNotFound,
}

/// The process exit status that each [`ExitCode`] stands for.
pub open spec fn spec_exit_code_value(c: ExitCode) -> int {
    match c {
        ExitCode::Success => 0,
        ExitCode::UnknownError => 1,
        ExitCode::InvalidArguments => 3,
        ExitCode::NoVersionMatch => 4,
        ExitCode::NetworkError => 5,
        ExitCode::EnvironmentError => 6,
        ExitCode::FileSystemError => 7,
        ExitCode::ConfigurationError => 8,
        ExitCode::NotYetImplemented => 9,
        ExitCode::ExecutionFailure => 126,
        ExitCode::ExecutableNotFound => 127,
    }
}

impl ExitCode {
    /// The numeric status a process should terminate with for this code.
    ///
    /// The actual process termination is performed once, by the top-level
    /// driver outside this library, never inside the core components.
    pub fn code(self) -> (r: i32)
        ensures
            r == spec_exit_code_value(self),
    {
        match self {
            ExitCode::Success => 0,
            ExitCode::UnknownError => 1,
            ExitCode::InvalidArguments => 3,
            ExitCode::NoVersionMatch => 4,
            ExitCode::NetworkError => 5,
            ExitCode::EnvironmentError => 6,
            ExitCode::FileSystemError => 7,
            ExitCode::ConfigurationError => 8,
            ExitCode::NotYetImplemented => 9,
            ExitCode::ExecutionFailure => 126,
            ExitCode::ExecutableNotFound => 127,
        }
    }
}

/// The concrete domain failures of this library: one variant per failure
/// shape, each carrying its message payload. External or system errors that
/// have no more specific shape are wrapped into `UnknownError`.
#[derive(Clone, Debug)]
pub enum ErrorDetails {
    /// A version string did not conform to the semantic-versioning grammar.
    VersionParseError { error: String },
    /// A shim could not be created or removed, or a built-in was targeted.
    SymlinkError { error: String },
    /// A wrapped third-party or system error with no domain-specific shape.
    UnknownError { error: String },
}

/// The capability interface of every concrete failure: it reports the exit
/// code the process should terminate with, and a human-readable message.
pub trait VoltaFail {
    /// The exit code of this failure, as a specification-level value.
    spec fn spec_exit_code(&self) -> ExitCode;

    /// The message of this failure, as a specification-level value.
    spec fn spec_message(&self) -> Seq<char>;

    /// Returns the process exit code that should be returned if the process
    /// exits with this error.
    fn exit_code(&self) -> (r: ExitCode)
        ensures
            r == self.spec_exit_code(),
    ;

    /// Returns the human-readable message of this failure.
    fn message(&self) -> (r: String)
        ensures
            r@ == self.spec_message(),
    ;
}

impl VoltaFail for ErrorDetails {
    open spec fn spec_exit_code(&self) -> ExitCode {
        match self {
            ErrorDetails::VersionParseError { .. } => ExitCode::NoVersionMatch,
            ErrorDetails::SymlinkError { .. } => ExitCode::FileSystemError,
            ErrorDetails::UnknownError { .. } => ExitCode::UnknownError,
        }
    }

    open spec fn spec_message(&self) -> Seq<char> {
        match self {
            ErrorDetails::VersionParseError { error } => error@,
            ErrorDetails::SymlinkError { error } => error@,
            ErrorDetails::UnknownError { error } => error@,
        }
    }

    fn exit_code(&self) -> (r: ExitCode) {
        match self {
            ErrorDetails::VersionParseError { .. } => ExitCode::NoVersionMatch,
            ErrorDetails::SymlinkError { .. } => ExitCode::FileSystemError,
            ErrorDetails::UnknownError { .. } => ExitCode::UnknownError,
        }
    }

    fn message(&self) -> (r: String) {
        match self {
            ErrorDetails::VersionParseError { error } => error.clone(),
            ErrorDetails::SymlinkError { error } => error.clone(),
            ErrorDetails::UnknownError { error } => error.clone(),
        }
    }
}

/// The root error type: every failure in the library coerces into this.
///
/// An error value is created at the point of failure and immutable
/// afterwards; it is propagated by return value only. `details` is the
/// highest-level domain failure (it fixes message and exit code); `causes`
/// holds the messages of the wrapped lower-layer errors, outermost first.
#[derive(Clone, Debug)]
pub struct VoltaError {
    /// The concrete domain failure behind this error.
    pub details: ErrorDetails,
    /// Messages of the wrapped lower-layer errors, outermost first.
    pub causes: Vec<String>,
}

impl VoltaError {
    /// The cause-chain messages, as specification-level values.
    pub open spec fn cause_messages(&self) -> Seq<Seq<char>> {
        self.causes@.map_values(|s: String| s@)
    }

    /// Creates a root error from a domain failure, with an empty cause chain.
    pub fn new(details: ErrorDetails) -> (r: VoltaError)
        ensures
            r.details == details,
            r.cause_messages() =~= Seq::<Seq<char>>::empty(),
    {
        VoltaError { details, causes: Vec::new() }
    }

    /// Returns the process exit code that should be returned if the process
    /// exits with this error.
    pub fn exit_code(&self) -> (r: ExitCode)
        ensures
            r == self.details.spec_exit_code(),
    {
        self.details.exit_code()
    }

    /// Returns the user-facing message of this error.
    pub fn message(&self) -> (r: String)
        ensures
            r@ == self.details.spec_message(),
    {
        self.details.message()
    }
}

/// An extension trait allowing any lower-layer failure to be wrapped into a
/// root error: the result carries the higher-level domain failure, and the
/// lower layer's message is pushed onto the cause chain for diagnostics.
pub trait FailExt: Sized {
    /// The message of this lower-layer failure.
    spec fn lower_message(&self) -> Seq<char>;

    /// The cause chain already accumulated behind this failure.
    spec fn lower_causes(&self) -> Seq<Seq<char>>;

    /// Wraps this failure into a root error whose details (and hence message
    /// and exit code) are the given higher-level ones, and whose cause chain
    /// starts with this failure's own message.
    fn with_context(self, details: ErrorDetails) -> (r: VoltaError)
        ensures
            r.details == details,
            r.cause_messages() == seq![self.lower_message()] + self.lower_causes(),
    ;
}

/// A plain message from a lower layer (a rendered external or system error).
impl FailExt for String {
    open spec fn lower_message(&self) -> Seq<char> {
        self@
    }

    open spec fn lower_causes(&self) -> Seq<Seq<char>> {
        Seq::empty()
    }

    fn with_context(self, details: ErrorDetails) -> (r: VoltaError) {
        let mut causes: Vec<String> = Vec::new();
        let ghost message: Seq<char> = self@;
        causes.push(self);
        let r = VoltaError { details, causes };
        proof {
            assert(r.cause_messages() =~= seq![message] + Seq::<Seq<char>>::empty());
        }
        r
    }
}

/// A root error wrapped once more: its own message joins the cause chain.
impl FailExt for VoltaError {
    open spec fn lower_message(&self) -> Seq<char> {
        self.details.spec_message()
    }

    open spec fn lower_causes(&self) -> Seq<Seq<char>> {
        self.cause_messages()
    }

    fn with_context(self, details: ErrorDetails) -> (r: VoltaError) {
        let VoltaError { details: lower_details, causes: lower_causes } = self;
        let mut causes: Vec<String> = Vec::new();
        causes.push(lower_details.message());
        let mut rest = lower_causes;
        causes.append(&mut rest);
        let r = VoltaError { details, causes };
        proof {
            assert(r.cause_messages() =~= seq![lower_details.spec_message()]
                + lower_causes@.map_values(|s: String| s@));
        }
        r
    }
}

/// An extension trait for `Result` values: on failure, wrap the error into a
/// root error, pushing the lower-layer message onto the cause chain.
pub trait ResultExt<T>: Sized {
    /// The success value, if this result is a success.
    spec fn spec_ok(&self) -> Option<T>;

    /// The lower-layer error message, if this result is a failure.
    spec fn spec_err_message(&self) -> Seq<char>;

    /// Wraps a failing result in a higher-layer failing result, keeping the
    /// lower-layer error message reachable through the cause chain.
    fn with_context(self, details: ErrorDetails) -> (r: Result<T, VoltaError>)
        ensures
            match r {
                Ok(t) => self.spec_ok() == Some(t),
                Err(e) => {
                    &&& self.spec_ok() is None
                    &&& e.details == details
                    &&& e.cause_messages() == seq![self.spec_err_message()]
                },
            },
    ;
}

impl<T> ResultExt<T> for Result<T, String> {
    open spec fn spec_ok(&self) -> Option<T> {
        match self {
            Ok(t) => Some(*t),
            Err(_) => None,
        }
    }

    open spec fn spec_err_message(&self) -> Seq<char> {
        match self {
            Ok(_) => Seq::empty(),
            Err(m) => m@,
        }
    }

    fn with_context(self, details: ErrorDetails) -> (r: Result<T, VoltaError>) {
        match self {
            Ok(t) => Ok(t),
            Err(m) => Err(m.with_context(details)),
        }
    }
}

/// A convenient shorthand for `Result` types that produce `VoltaError`s.
pub type Fallible<T> = Result<T, VoltaError>;

/// Law: wrapping any lower-layer failure keeps that failure's own message
/// reachable through the cause chain of the wrapped error, while the message
/// and exit code of the result are those of the higher-level details.
pub proof fn lemma_with_context_preserves_cause<E: FailExt>(e: E, details: ErrorDetails, r: VoltaError)
    requires
        r.details == details,
        r.cause_messages() == seq![e.lower_message()] + e.lower_causes(),
    ensures
        r.cause_messages().contains(e.lower_message()),
        r.details.spec_message() == details.spec_message(),
        r.details.spec_exit_code() == details.spec_exit_code(),
{
    assert(r.cause_messages()[0] == e.lower_message());
}

} // verus!
