//! The two kinds of failure a session can end with.

use vstd::prelude::*;
use vstd::string::*;

verus! {

/// A failure of the session, with the message shown to the user.
#[derive(Debug)]
pub enum Error {
    /// A failure of the session's own rules: the launcher did not start, no
    /// sandbox instance matched, or its descriptor could not be used.
    Generic { message: String },
    /// A failed operation of the operating system, with its own message.
    IOError { message: String },
}

pub type Result<T> = std::result::Result<T, Error>;

/// What an [`Error`] says: its kind and the characters of its message.
pub enum ErrorView {
    Generic { message: Seq<char> },
    IOError { message: Seq<char> },
}

impl View for Error {
    type V = ErrorView;

    open spec fn view(&self) -> ErrorView {
        match self {
            Error::Generic { message } => ErrorView::Generic { message: message@ },
            Error::IOError { message } => ErrorView::IOError { message: message@ },
        }
    }
}

/// A result seen through the view of its error.
pub open spec fn result_view<T>(result: Result<T>) -> std::result::Result<T, ErrorView> {
    match result {
        Ok(value) => Ok(value),
        Err(error) => Err(error@),
    }
}

impl Error {
    /// A failure of the session's own rules, with the given message.
    pub fn generic(message: &str) -> (error: Error)
        ensures
            error@ == (ErrorView::Generic { message: message@ }),
    {
        Error::Generic { message: message.to_owned() }
    }

    /// A failed operation of the operating system, with the message it gave.
    pub fn io(message: String) -> (error: Error)
        ensures
            error@ == (ErrorView::IOError { message: message@ }),
    {
        Error::IOError { message }
    }

    /// The message, whatever the kind.
    pub fn message(&self) -> (message: &String)
        ensures
            message@ == match self@ {
                ErrorView::Generic { message } => message,
                ErrorView::IOError { message } => message,
            },
    {
        match self {
            Error::Generic { message } => message,
            Error::IOError { message } => message,
        }
    }

    /// The line that tells the user of the failure: the kind, then the
    /// message.
    pub open spec fn report_text(error: ErrorView) -> Seq<char> {
        match error {
            ErrorView::Generic { message } => "Error: "@ + message,
            ErrorView::IOError { message } => "IOError: "@ + message,
        }
    }

    /// The line that tells the user of the failure.
    pub fn report(&self) -> (line: String)
        ensures
            line@ == Error::report_text(self@),
    {
        match self {
            Error::Generic { message } => {
                let mut line = "Error: ".to_owned();
                line.append(message.as_str());
                line
            },
            Error::IOError { message } => {
                let mut line = "IOError: ".to_owned();
                line.append(message.as_str());
                line
            },
        }
    }

    /// A second error that says the same.
    pub fn duplicate(&self) -> (copy: Error)
        ensures
            copy@ == self@,
    {
        match self {
            Error::Generic { message } => Error::Generic { message: message.clone() },
            Error::IOError { message } => Error::IOError { message: message.clone() },
        }
    }
}

impl From<&'static str> for Error {
    fn from(value: &'static str) -> (error: Error)
        ensures
            error@ == (ErrorView::Generic { message: value@ }),
    {
        Error::generic(value)
    }
}

impl vstd::std_specs::convert::FromSpecImpl<&'static str> for Error {
    open spec fn obeys_from_spec() -> bool {
        false
    }

    open spec fn from_spec(value: &'static str) -> Error {
        arbitrary()
    }
}

} // verus!
