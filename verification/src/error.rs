use vstd::prelude::*;
use vstd::string::StringExecFns;

verus! {

/// What can end a run before the countdown is over.
#[derive(Clone, Debug, PartialEq, Eq)]
pub enum Error {
    /// The duration on the command line is no duration; the text says why.
    InvalidDuration(String),
    /// The terminal could not be polled or read.
    Terminal(String),
    /// A frame could not be drawn.
    Render(String),
}

/// An error as plain values: its kind and the text it carries.
pub enum ErrorView {
    InvalidDuration(Seq<char>),
    Terminal(Seq<char>),
    Render(Seq<char>),
}

impl View for Error {
    type V = ErrorView;

    open spec fn view(&self) -> ErrorView {
        match *self {
            Error::InvalidDuration(text) => ErrorView::InvalidDuration(text@),
            Error::Terminal(text) => ErrorView::Terminal(text@),
            Error::Render(text) => ErrorView::Render(text@),
        }
    }
}

impl ErrorView {
    /// The line shown to the user: the part of the program that failed, in
    /// square brackets, then the text.
    pub open spec fn line(self) -> Seq<char> {
        match self {
            ErrorView::InvalidDuration(text) => "[Cli] "@ + text,
            ErrorView::Terminal(text) => "[Terminal] "@ + text,
            ErrorView::Render(text) => "[Draw] "@ + text,
        }
    }
}

impl Error {
    /// The terminal could not say whether an event is waiting.
    pub fn poll_failed() -> (error: Error)
        ensures
            error@ == ErrorView::Terminal("Unable to poll for events"@),
    {
        Error::Terminal(String::from_str("Unable to poll for events"))
    }

    /// The terminal could not hand over the event that was waiting.
    pub fn read_failed() -> (error: Error)
        ensures
            error@ == ErrorView::Terminal("Unable to read events"@),
    {
        Error::Terminal(String::from_str("Unable to read events"))
    }

    /// The terminal refused a frame.
    pub fn draw_failed() -> (error: Error)
        ensures
            error@ == ErrorView::Render("Something went very wrong."@),
    {
        Error::Render(String::from_str("Something went very wrong."))
    }

    /// The line shown to the user for this error.
    pub fn message(&self) -> (line: String)
        ensures
            line@ == self@.line(),
    {
        match self {
            Error::InvalidDuration(text) => String::from_str("[Cli] ").concat(text.as_str()),
            Error::Terminal(text) => String::from_str("[Terminal] ").concat(text.as_str()),
            Error::Render(text) => String::from_str("[Draw] ").concat(text.as_str()),
        }
    }
}

} // verus!
