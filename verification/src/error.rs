//! What an operation fails with.
use vstd::prelude::*;
use crate::format::{cat2, cat3, cat4};
use crate::text::{copy, opt_str_view};

verus! {

/// What kind of fault the Launchpad client reported.
#[derive(Copy, Clone, Debug, Eq, PartialEq, Structural)]
pub enum FaultKind {
    NotAuthenticated,
    Api { status: u16 },
    NotFound,
    Other,
}

/// A fault that the Launchpad client reported, and its message.
#[derive(Debug)]
pub struct LaunchpadFault {
    pub kind: FaultKind,
    pub text: String,
}

/// What an operation fails with. Faults of other libraries are kept as their messages.
#[derive(Debug)]
pub enum Error {
    Command { program: String, source: String },
    Context { context: String, source: Box<Error> },
    CommandFailed { program: String, reason: String },
    HomeDirectory,
    Launchpad { source: LaunchpadFault },
    GitFileResponse { reason: String },
    HttpStatus { url: String, status: String },
    Io { path: String, source: String },
    InvalidRequest { reason: String },
    OutputEncoding { source: String },
    Url { url: String, source: String },
    UrlEncoding { reason: String },
    Web { url: String, source: String },
}

/// What an error holds.
#[verifier::ext_equal]
pub enum ErrorView {
    Command { program: Seq<char>, source: Seq<char> },
    Context { context: Seq<char>, source: Box<ErrorView> },
    CommandFailed { program: Seq<char>, reason: Seq<char> },
    HomeDirectory,
    Launchpad { kind: FaultKind, text: Seq<char> },
    GitFileResponse { reason: Seq<char> },
    HttpStatus { url: Seq<char>, status: Seq<char> },
    Io { path: Seq<char>, source: Seq<char> },
    InvalidRequest { reason: Seq<char> },
    OutputEncoding { source: Seq<char> },
    Url { url: Seq<char>, source: Seq<char> },
    UrlEncoding { reason: Seq<char> },
    Web { url: Seq<char>, source: Seq<char> },
}

/// What an error holds.
pub open spec fn error_view(error: Error) -> ErrorView
    decreases error,
{
    match error {
        Error::Command { program, source } => ErrorView::Command {
            program: program@,
            source: source@,
        },
        Error::Context { context, source } => ErrorView::Context {
            context: context@,
            source: Box::new(error_view(*source)),
        },
        Error::CommandFailed { program, reason } => ErrorView::CommandFailed {
            program: program@,
            reason: reason@,
        },
        Error::HomeDirectory => ErrorView::HomeDirectory,
        Error::Launchpad { source } => ErrorView::Launchpad {
            kind: source.kind,
            text: source.text@,
        },
        Error::GitFileResponse { reason } => ErrorView::GitFileResponse { reason: reason@ },
        Error::HttpStatus { url, status } => ErrorView::HttpStatus { url: url@, status: status@ },
        Error::Io { path, source } => ErrorView::Io { path: path@, source: source@ },
        Error::InvalidRequest { reason } => ErrorView::InvalidRequest { reason: reason@ },
        Error::OutputEncoding { source } => ErrorView::OutputEncoding { source: source@ },
        Error::Url { url, source } => ErrorView::Url { url: url@, source: source@ },
        Error::UrlEncoding { reason } => ErrorView::UrlEncoding { reason: reason@ },
        Error::Web { url, source } => ErrorView::Web { url: url@, source: source@ },
    }
}

impl View for Error {
    type V = ErrorView;

    open spec fn view(&self) -> ErrorView {
        error_view(*self)
    }
}

/// The error of an invalid request.
pub open spec fn invalid(reason: Seq<char>) -> ErrorView {
    ErrorView::InvalidRequest { reason }
}

/// The error with what was being done when it came up.
pub open spec fn in_context(context: Seq<char>, source: ErrorView) -> ErrorView {
    ErrorView::Context { context, source: Box::new(source) }
}

impl ErrorView {
    /// The message of the error.
    pub open spec fn message(self) -> Seq<char>
        decreases self,
    {
        match self {
            ErrorView::Command { program, source } => "cannot run "@ + program + ": "@ + source,
            ErrorView::Context { context, source } => context + ": "@ + source.message(),
            ErrorView::CommandFailed { program, reason } => "cannot complete "@ + program + ": "@
                + reason,
            ErrorView::HomeDirectory => "cannot determine the home directory"@,
            ErrorView::Launchpad { kind, text } => "cannot access Launchpad: "@ + text,
            ErrorView::GitFileResponse { reason } => "unexpected Git file response: "@ + reason,
            ErrorView::HttpStatus { url, status } => "cannot access "@ + url + ": HTTP "@ + status,
            ErrorView::Io { path, source } => "cannot read "@ + path + ": "@ + source,
            ErrorView::InvalidRequest { reason } => "invalid request: "@ + reason,
            ErrorView::OutputEncoding { source } => "cannot decode command output: "@ + source,
            ErrorView::Url { url, source } => "cannot parse URL "@ + url + ": "@ + source,
            ErrorView::UrlEncoding { reason } => "cannot decode URL path: "@ + reason,
            ErrorView::Web { url, source } => "cannot fetch "@ + url + ": "@ + source,
        }
    }

    /// Whether Launchpad credentials are missing or were rejected.
    pub open spec fn is_unauthenticated(self) -> bool
        decreases self,
    {
        match self {
            ErrorView::Launchpad { kind, text } => kind == FaultKind::NotAuthenticated || kind == (
            FaultKind::Api { status: 401 }),
            ErrorView::Context { context, source } => source.is_unauthenticated(),
            _ => false,
        }
    }

    /// The code of the error, where it has one.
    pub open spec fn code(self) -> Option<Seq<char>> {
        if self.is_unauthenticated() {
            Some("not_authenticated"@)
        } else {
            None
        }
    }

    /// The message of the error for the caller of the bridge, which says how to log in itself.
    pub open spec fn bridge_message(self) -> Seq<char>
        decreases self,
    {
        match self {
            ErrorView::Launchpad { kind: FaultKind::NotAuthenticated, text } =>
                "Launchpad credentials are missing"@,
            ErrorView::Launchpad { kind: FaultKind::Api { status }, text } => if status == 401 {
                "Launchpad authentication required or rejected (HTTP 401)"@
            } else {
                self.message()
            },
            ErrorView::Context { context, source } => context + ": "@ + source.bridge_message(),
            _ => self.message(),
        }
    }
}

/// What the outcome of an operation without a value holds.
pub open spec fn unit_outcome(r: Result<(), Error>) -> Result<(), ErrorView> {
    match r {
        Ok(_) => Ok(()),
        Err(error) => Err(error@),
    }
}

/// What an outcome with a plain number holds.
pub open spec fn number_outcome(r: Result<u64, Error>) -> Result<u64, ErrorView> {
    match r {
        Ok(value) => Ok(value),
        Err(error) => Err(error@),
    }
}

/// What an outcome with a text holds.
pub open spec fn text_outcome(r: Result<String, Error>) -> Result<Seq<char>, ErrorView> {
    match r {
        Ok(text) => Ok(text@),
        Err(error) => Err(error@),
    }
}

/// What an outcome with a borrowed text holds.
pub open spec fn str_outcome(r: Result<&str, Error>) -> Result<Seq<char>, ErrorView> {
    match r {
        Ok(text) => Ok(text@),
        Err(error) => Err(error@),
    }
}

impl Error {
    /// The error of an invalid request.
    pub fn invalid(reason: &str) -> (r: Error)
        ensures
            r@ == invalid(reason@),
    {
        Error::InvalidRequest { reason: copy(reason) }
    }

    /// An error with what was being done when it came up.
    pub fn context(context: &str, source: Error) -> (r: Error)
        ensures
            r@ == in_context(context@, source@),
    {
        Error::Context { context: copy(context), source: Box::new(source) }
    }

    /// A copy of the error.
    pub fn copy(&self) -> (r: Error)
        ensures
            r@ == self@,
        decreases self,
    {
        match self {
            Error::Command { program, source } => Error::Command {
                program: copy(program.as_str()),
                source: copy(source.as_str()),
            },
            Error::Context { context, source } => Error::Context {
                context: copy(context.as_str()),
                source: Box::new(source.copy()),
            },
            Error::CommandFailed { program, reason } => Error::CommandFailed {
                program: copy(program.as_str()),
                reason: copy(reason.as_str()),
            },
            Error::HomeDirectory => Error::HomeDirectory,
            Error::Launchpad { source } => Error::Launchpad {
                source: LaunchpadFault { kind: source.kind, text: copy(source.text.as_str()) },
            },
            Error::GitFileResponse { reason } => Error::GitFileResponse {
                reason: copy(reason.as_str()),
            },
            Error::HttpStatus { url, status } => Error::HttpStatus {
                url: copy(url.as_str()),
                status: copy(status.as_str()),
            },
            Error::Io { path, source } => Error::Io {
                path: copy(path.as_str()),
                source: copy(source.as_str()),
            },
            Error::InvalidRequest { reason } => Error::InvalidRequest {
                reason: copy(reason.as_str()),
            },
            Error::OutputEncoding { source } => Error::OutputEncoding {
                source: copy(source.as_str()),
            },
            Error::Url { url, source } => Error::Url {
                url: copy(url.as_str()),
                source: copy(source.as_str()),
            },
            Error::UrlEncoding { reason } => Error::UrlEncoding { reason: copy(reason.as_str()) },
            Error::Web { url, source } => Error::Web {
                url: copy(url.as_str()),
                source: copy(source.as_str()),
            },
        }
    }

    /// Whether Launchpad credentials are missing or were rejected.
    fn unauthenticated(&self) -> (r: bool)
        ensures
            r == self@.is_unauthenticated(),
        decreases self,
    {
        match self {
            Error::Launchpad { source } => match source.kind {
                FaultKind::NotAuthenticated => true,
                FaultKind::Api { status } => status == 401,
                _ => false,
            },
            Error::Context { context, source } => source.unauthenticated(),
            _ => false,
        }
    }

    /// The code of the error, where it has one.
    pub fn code(&self) -> (r: Option<&'static str>)
        ensures
            opt_str_view(r) == self@.code(),
    {
        if self.unauthenticated() {
            Some("not_authenticated")
        } else {
            None
        }
    }

    /// The message of the error.
    pub fn message(&self) -> (r: String)
        ensures
            r@ == self@.message(),
        decreases self,
    {
        match self {
            Error::Command { program, source } => cat4(
                "cannot run ",
                program.as_str(),
                ": ",
                source.as_str(),
            ),
            Error::Context { context, source } => cat3(
                context.as_str(),
                ": ",
                source.message().as_str(),
            ),
            Error::CommandFailed { program, reason } => cat4(
                "cannot complete ",
                program.as_str(),
                ": ",
                reason.as_str(),
            ),
            Error::HomeDirectory => copy("cannot determine the home directory"),
            Error::Launchpad { source } => cat2("cannot access Launchpad: ", source.text.as_str()),
            Error::GitFileResponse { reason } => cat2(
                "unexpected Git file response: ",
                reason.as_str(),
            ),
            Error::HttpStatus { url, status } => cat4(
                "cannot access ",
                url.as_str(),
                ": HTTP ",
                status.as_str(),
            ),
            Error::Io { path, source } => cat4("cannot read ", path.as_str(), ": ", source.as_str()),
            Error::InvalidRequest { reason } => cat2("invalid request: ", reason.as_str()),
            Error::OutputEncoding { source } => cat2(
                "cannot decode command output: ",
                source.as_str(),
            ),
            Error::Url { url, source } => cat4(
                "cannot parse URL ",
                url.as_str(),
                ": ",
                source.as_str(),
            ),
            Error::UrlEncoding { reason } => cat2("cannot decode URL path: ", reason.as_str()),
            Error::Web { url, source } => cat4("cannot fetch ", url.as_str(), ": ", source.as_str()),
        }
    }

    /// The message of the error for the caller of the bridge, which says how to log in itself.
    pub fn bridge_message(&self) -> (r: String)
        ensures
            r@ == self@.bridge_message(),
        decreases self,
    {
        match self {
            Error::Launchpad { source } => match source.kind {
                FaultKind::NotAuthenticated => copy("Launchpad credentials are missing"),
                FaultKind::Api { status } => if status == 401 {
                    copy("Launchpad authentication required or rejected (HTTP 401)")
                } else {
                    self.message()
                },
                _ => self.message(),
            },
            Error::Context { context, source } => cat3(
                context.as_str(),
                ": ",
                source.bridge_message().as_str(),
            ),
            _ => self.message(),
        }
    }
}

impl From<LaunchpadFault> for Error {
    fn from(source: LaunchpadFault) -> (r: Error) {
        Error::Launchpad { source }
    }
}

impl vstd::std_specs::convert::FromSpecImpl<LaunchpadFault> for Error {
    open spec fn obeys_from_spec() -> bool {
        true
    }

    open spec fn from_spec(source: LaunchpadFault) -> Error {
        Error::Launchpad { source }
    }
}

/// A context around an error changes neither its code nor, behind the context, its message for
/// the caller of the bridge.
pub proof fn lemma_context_keeps_code(context: Seq<char>, source: ErrorView)
    ensures
        in_context(context, source).code() == source.code(),
        in_context(context, source).bridge_message() == context + ": "@ + source.bridge_message(),
{
}

} // verus!
