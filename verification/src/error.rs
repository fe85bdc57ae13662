//! What can go wrong while a logger is configured, installed or run.

use vstd::prelude::*;

verus! {

/// `std::io::Error`, carried through unread.
#[verifier::external_type_specification]
#[verifier::external_body]
pub struct ExIoError(std::io::Error);

/// `log::SetLoggerError`, carried through unread.
#[verifier::external_type_specification]
#[verifier::external_body]
pub struct ExSetLoggerError(log::SetLoggerError);

/// A failure of configuration, installation or output.
#[derive(Debug)]
pub enum Error {
    /// A sink or the operating system refused an operation.
    Io(std::io::Error),
    /// A logger is already registered with the logging facade.
    Log(log::SetLoggerError),
    /// A configuration was refused; the text says why.
    Desc(String),
}

/// The text of `log::SetLoggerError`.
pub open spec fn set_logger_error_text() -> Seq<char> {
    "attempted to set a logger after the logging system was already initialized"@
}

/// Trusted: `Display` of `std::io::Error`. The text comes from the operating
/// system or from whoever made the error, so nothing is claimed of it.
#[verifier::external_body]
pub(crate) fn io_error_text(e: &std::io::Error) -> (text: String) {
    e.to_string()
}

/// Trusted: `Display` of `log::SetLoggerError`, which writes one fixed
/// sentence whatever the value.
#[verifier::external_body]
fn log_error_text(e: &log::SetLoggerError) -> (text: String)
    ensures
        text@ == set_logger_error_text(),
{
    e.to_string()
}

impl Error {
    /// A configuration error with the given explanation.
    pub fn desc(text: &str) -> (e: Error)
        ensures
            e matches Error::Desc(s) && s@ == text@,
    {
        Error::Desc(text.to_owned())
    }

    /// The message that the error displays: the inner error's own text, or the
    /// explanation itself.
    pub fn to_string(&self) -> (text: String)
        ensures
            self matches Error::Log(_) ==> text@ == set_logger_error_text(),
            self matches Error::Desc(s) ==> text@ == s@,
    {
        match self {
            Error::Io(io) => io_error_text(io),
            Error::Log(log) => log_error_text(log),
            Error::Desc(desc) => desc.clone(),
        }
    }
}

impl From<std::io::Error> for Error {
    fn from(e: std::io::Error) -> (r: Error) {
        Error::Io(e)
    }
}

impl vstd::std_specs::convert::FromSpecImpl<std::io::Error> for Error {
    open spec fn obeys_from_spec() -> bool {
        true
    }

    open spec fn from_spec(e: std::io::Error) -> Error {
        Error::Io(e)
    }
}

impl From<log::SetLoggerError> for Error {
    fn from(e: log::SetLoggerError) -> (r: Error) {
        Error::Log(e)
    }
}

impl vstd::std_specs::convert::FromSpecImpl<log::SetLoggerError> for Error {
    open spec fn obeys_from_spec() -> bool {
        true
    }

    open spec fn from_spec(e: log::SetLoggerError) -> Error {
        Error::Log(e)
    }
}

impl From<String> for Error {
    fn from(text: String) -> (r: Error) {
        Error::Desc(text)
    }
}

impl vstd::std_specs::convert::FromSpecImpl<String> for Error {
    open spec fn obeys_from_spec() -> bool {
        true
    }

    open spec fn from_spec(text: String) -> Error {
        Error::Desc(text)
    }
}

} // verus!
