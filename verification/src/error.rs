//! The error type of the library: one tagged sum, so that callers match on the
//! kind instead of parsing a message.

use vstd::prelude::*;
use vstd::string::*;

verus! {

/// Result of an operation of this library.
pub type VoiceResult<T> = Result<T, VoiceError>;

/// What can go wrong, by kind.
#[derive(Debug, Clone)]
pub enum VoiceError {
    /// An input was refused; `field` names it.
    Validation { field: String, message: String },
    /// The local store failed or holds something unexpected.
    Storage(String),
    /// The sync protocol was not followed by the other side.
    Sync(String),
    /// A peer could not be reached, or answered too late.
    Network(String),
    /// A certificate or a fingerprint was refused.
    Tls(String),
    /// The configuration holds something unusable.
    Config(String),
    /// The entity asked for does not exist.
    NotFound(String),
    /// Two divergent writes were observed.
    Conflict(String),
    /// Anything else.
    Other(String),
}

/// The mathematical model of a [`VoiceError`]: its kind and its texts.
pub enum ErrorView {
    Validation { field: Seq<char>, message: Seq<char> },
    Storage(Seq<char>),
    Sync(Seq<char>),
    Network(Seq<char>),
    Tls(Seq<char>),
    Config(Seq<char>),
    NotFound(Seq<char>),
    Conflict(Seq<char>),
    Other(Seq<char>),
}

impl View for VoiceError {
    type V = ErrorView;

    open spec fn view(&self) -> ErrorView {
        match *self {
            VoiceError::Validation { field, message } => ErrorView::Validation {
                field: field@,
                message: message@,
            },
            VoiceError::Storage(m) => ErrorView::Storage(m@),
            VoiceError::Sync(m) => ErrorView::Sync(m@),
            VoiceError::Network(m) => ErrorView::Network(m@),
            VoiceError::Tls(m) => ErrorView::Tls(m@),
            VoiceError::Config(m) => ErrorView::Config(m@),
            VoiceError::NotFound(m) => ErrorView::NotFound(m@),
            VoiceError::Conflict(m) => ErrorView::Conflict(m@),
            VoiceError::Other(m) => ErrorView::Other(m@),
        }
    }
}

impl ErrorView {
    /// The line that describes the error to a reader.
    pub open spec fn display(self) -> Seq<char> {
        match self {
            ErrorView::Validation { field, message } => "Validation error in "@ + field + ": "@
                + message,
            ErrorView::Storage(m) => "Database operation failed: "@ + m,
            ErrorView::Sync(m) => "Sync error: "@ + m,
            ErrorView::Network(m) => "Network error: "@ + m,
            ErrorView::Tls(m) => "TLS error: "@ + m,
            ErrorView::Config(m) => "Configuration error: "@ + m,
            ErrorView::NotFound(m) => "Not found: "@ + m,
            ErrorView::Conflict(m) => "Conflict: "@ + m,
            ErrorView::Other(m) => m,
        }
    }
}

/// `prefix` followed by `rest`.
pub fn prefixed(prefix: &str, rest: &str) -> (s: String)
    ensures
        s@ == prefix@ + rest@,
{
    let mut s = String::from_str(prefix);
    s.append(rest);
    s
}

impl VoiceError {
    /// A validation error on `field`.
    pub fn validation(field: &str, message: &str) -> (e: VoiceError)
        ensures
            e@ == (ErrorView::Validation { field: field@, message: message@ }),
    {
        VoiceError::Validation { field: String::from_str(field), message: String::from_str(message) }
    }

    /// A sync error.
    pub fn sync(message: &str) -> (e: VoiceError)
        ensures
            e@ == ErrorView::Sync(message@),
    {
        VoiceError::Sync(String::from_str(message))
    }

    /// A failure of an operation on the local store.
    pub fn database_op(message: &str) -> (e: VoiceError)
        ensures
            e@ == ErrorView::Storage(message@),
    {
        VoiceError::Storage(String::from_str(message))
    }

    /// The line that describes the error to a reader.
    pub fn to_string(&self) -> (s: String)
        ensures
            s@ == self@.display(),
    {
        match self {
            VoiceError::Validation { field, message } => {
                let mut s = String::from_str("Validation error in ");
                s.append(field.as_str());
                s.append(": ");
                s.append(message.as_str());
                s
            },
            VoiceError::Storage(m) => prefixed("Database operation failed: ", m.as_str()),
            VoiceError::Sync(m) => prefixed("Sync error: ", m.as_str()),
            VoiceError::Network(m) => prefixed("Network error: ", m.as_str()),
            VoiceError::Tls(m) => prefixed("TLS error: ", m.as_str()),
            VoiceError::Config(m) => prefixed("Configuration error: ", m.as_str()),
            VoiceError::NotFound(m) => prefixed("Not found: ", m.as_str()),
            VoiceError::Conflict(m) => prefixed("Conflict: ", m.as_str()),
            VoiceError::Other(m) => m.clone(),
        }
    }
}

/// A refused input: the field and why.
#[derive(Debug, Clone)]
pub struct ValidationError {
    pub field: String,
    pub message: String,
}

impl ValidationError {
    /// A refusal of `field` for the reason `message`.
    pub fn new(field: &str, message: &str) -> (e: ValidationError)
        ensures
            e.field@ == field@,
            e.message@ == message@,
    {
        ValidationError { field: String::from_str(field), message: String::from_str(message) }
    }

    /// The field, a colon and the reason.
    pub fn to_string(&self) -> (s: String)
        ensures
            s@ == self.field@ + ": "@ + self.message@,
    {
        let mut s = self.field.clone();
        s.append(": ");
        s.append(self.message.as_str());
        s
    }
}

impl From<ValidationError> for VoiceError {
    fn from(err: ValidationError) -> (e: VoiceError) {
        VoiceError::Validation { field: err.field, message: err.message }
    }
}

impl vstd::std_specs::convert::FromSpecImpl<ValidationError> for VoiceError {
    open spec fn obeys_from_spec() -> bool {
        true
    }

    open spec fn from_spec(err: ValidationError) -> VoiceError {
        VoiceError::Validation { field: err.field, message: err.message }
    }
}

} // verus!
