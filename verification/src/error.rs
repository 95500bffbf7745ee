//! The error type shared by the whole library.

use vstd::prelude::*;
use vstd::string::StringExecFns;

verus! {

/// What can go wrong, each kind with a message for the operator.
#[derive(Debug, PartialEq, Eq)]
pub enum Error {
    /// A required input was not given.
    MissingInput(String),
    /// An external command ended with a failure status.
    CommandExecutionFailed(String),
    /// A transfer to a remote host failed.
    UploadFailed(String),
    /// A local path does not exist.
    FileNotFound(String),
    /// A local path names a directory where a file is expected.
    IsADirectory(String),
    /// A path that has to be relative is absolute.
    IsAbsolute(String),
    /// A string is not a host identifier.
    InvalidHostId(String),
    /// A string is not a host tag.
    InvalidHostTag(String),
    /// A tag query is malformed.
    InvalidToken(String),
    /// Any other failure, described by its message.
    Other(String),
    /// A failure of a collaborator of the library (the transport, the file
    /// system, a template engine), carried as the message that the
    /// collaborator gave. It is shown as that message alone.
    External(String),
}

/// The text that `{:?}` formatting gives for a string: the string between
/// double quotes, with the characters that need it escaped.
pub uninterp spec fn debug_quoted(s: Seq<char>) -> Seq<char>;

/// Formats a string with `{:?}` (`<str as Debug>::fmt`). Trusted: the result
/// is the text named by [`debug_quoted`].
#[verifier::external_body]
fn format_debug(s: &str) -> (r: String)
    ensures
        r@ == debug_quoted(s@),
{
    format!("{:?}", s)
}

impl Clone for Error {
    fn clone(&self) -> (r: Self)
        ensures
            r == *self,
    {
        match self {
            Error::MissingInput(m) => Error::MissingInput(m.clone()),
            Error::CommandExecutionFailed(m) => Error::CommandExecutionFailed(m.clone()),
            Error::UploadFailed(m) => Error::UploadFailed(m.clone()),
            Error::FileNotFound(m) => Error::FileNotFound(m.clone()),
            Error::IsADirectory(m) => Error::IsADirectory(m.clone()),
            Error::IsAbsolute(m) => Error::IsAbsolute(m.clone()),
            Error::InvalidHostId(m) => Error::InvalidHostId(m.clone()),
            Error::InvalidHostTag(m) => Error::InvalidHostTag(m.clone()),
            Error::InvalidToken(m) => Error::InvalidToken(m.clone()),
            Error::Other(m) => Error::Other(m.clone()),
            Error::External(m) => Error::External(m.clone()),
        }
    }
}

impl Error {
    /// The message carried by the error.
    pub open spec fn message(self) -> Seq<char> {
        match self {
            Error::MissingInput(m) => m@,
            Error::CommandExecutionFailed(m) => m@,
            Error::UploadFailed(m) => m@,
            Error::FileNotFound(m) => m@,
            Error::IsADirectory(m) => m@,
            Error::IsAbsolute(m) => m@,
            Error::InvalidHostId(m) => m@,
            Error::InvalidHostTag(m) => m@,
            Error::InvalidToken(m) => m@,
            Error::Other(m) => m@,
            Error::External(m) => m@,
        }
    }

    /// The name of the error's kind.
    pub open spec fn kind_name(self) -> Seq<char> {
        match self {
            Error::MissingInput(_) => "MissingInput"@,
            Error::CommandExecutionFailed(_) => "CommandExecutionFailed"@,
            Error::UploadFailed(_) => "UploadFailed"@,
            Error::FileNotFound(_) => "FileNotFound"@,
            Error::IsADirectory(_) => "IsADirectory"@,
            Error::IsAbsolute(_) => "IsAbsolute"@,
            Error::InvalidHostId(_) => "InvalidHostId"@,
            Error::InvalidHostTag(_) => "InvalidHostTag"@,
            Error::InvalidToken(_) => "InvalidToken"@,
            Error::Other(_) => "Other"@,
            Error::External(_) => "External"@,
        }
    }

    /// How the error reads in a report: the kind, then the quoted message in
    /// parentheses, as in `FileNotFound("No such file: motd")`; for an
    /// external error, the message as it came.
    pub open spec fn text(self) -> Seq<char> {
        match self {
            Error::External(m) => m@,
            _ => self.kind_name() + "("@ + debug_quoted(self.message()) + ")"@,
        }
    }

    /// The message carried by the error.
    pub fn get_message(&self) -> (m: &String)
        ensures
            m@ == self.message(),
    {
        match self {
            Error::MissingInput(m) => m,
            Error::CommandExecutionFailed(m) => m,
            Error::UploadFailed(m) => m,
            Error::FileNotFound(m) => m,
            Error::IsADirectory(m) => m,
            Error::IsAbsolute(m) => m,
            Error::InvalidHostId(m) => m,
            Error::InvalidHostTag(m) => m,
            Error::InvalidToken(m) => m,
            Error::Other(m) => m,
            Error::External(m) => m,
        }
    }

    /// The name of the error's kind.
    pub fn get_kind_name(&self) -> (n: &'static str)
        ensures
            n@ == self.kind_name(),
    {
        match self {
            Error::MissingInput(_) => "MissingInput",
            Error::CommandExecutionFailed(_) => "CommandExecutionFailed",
            Error::UploadFailed(_) => "UploadFailed",
            Error::FileNotFound(_) => "FileNotFound",
            Error::IsADirectory(_) => "IsADirectory",
            Error::IsAbsolute(_) => "IsAbsolute",
            Error::InvalidHostId(_) => "InvalidHostId",
            Error::InvalidHostTag(_) => "InvalidHostTag",
            Error::InvalidToken(_) => "InvalidToken",
            Error::Other(_) => "Other",
            Error::External(_) => "External",
        }
    }

    /// The error as it is shown to the operator and written into reports.
    pub fn to_string(&self) -> (s: String)
        ensures
            s@ == self.text(),
    {
        if let Error::External(m) = self {
            return m.clone();
        }
        let mut s = String::from_str(self.get_kind_name());
        s.append("(");
        let quoted = format_debug(self.get_message().as_str());
        s.append(quoted.as_str());
        s.append(")");
        s
    }
}

} // verus!
