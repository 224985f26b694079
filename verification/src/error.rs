//! The single error type of the terminal-input reader.
//!
//! Every fallible operation of the reader reports an [`Error`]; one flat error
//! type lets a caller propagate any failure with `?`.
use std::io;
use std::sync::mpsc::SendError;
use vstd::prelude::*;
use vstd::string::*;

verus! {

/// std's channel send error, carried as an opaque value.
#[verifier::external_type_specification]
#[verifier::external_body]
#[verifier::reject_recursive_types(T)]
pub struct ExSendError<T>(std::sync::mpsc::SendError<T>);

/// std's I/O error, carried as an opaque value.
#[verifier::external_type_specification]
#[verifier::external_body]
pub struct ExIoError(std::io::Error);

/// What the reader sends over its event channel.
#[derive(Debug, Clone, Copy, PartialEq, Eq, Structural)]
pub enum Event {
    /// The channel is set up and the reader is running.
    ChannelReady,
}

/// Error reported by the terminal-input reader.
#[derive(Debug)]
pub enum Error {
    /// The receiving end of the event channel was dropped, so translated
    /// events can no longer be delivered.
    Channel(SendError<Event>),
    /// A terminal operation failed (polling, reading, or enabling/disabling
    /// raw mode).
    Terminal(io::Error),
    /// The reader thread panicked. Carries the panic message when the payload
    /// was a string, which is the case for every `panic!` with a message.
    ReaderPanicked(Option<String>),
}

/// A result whose error defaults to the reader's [`Error`].
pub type Result<T, E = Error> = std::result::Result<T, E>;

/// The inner error that caused an [`Error`].
pub enum ErrorSource<'a> {
    Channel(&'a SendError<Event>),
    Terminal(&'a io::Error),
}

/// The payload of a joined thread that panicked, as far as it is a message:
/// `panic!` yields a `String` for a formatted message and a `&'static str`
/// for a literal one.
pub enum PanicPayload<'a> {
    /// The payload was a `String`.
    Formatted(String),
    /// The payload was a `&str`.
    Literal(&'a str),
    /// Any other payload, which has no message to keep.
    Other,
}

impl Error {
    /// The inner error: the send error or the terminal error; none for a panic.
    pub fn source(&self) -> (r: Option<ErrorSource<'_>>)
        ensures
            match self {
                Error::Channel(e) => r == Some(ErrorSource::Channel(e)),
                Error::Terminal(e) => r == Some(ErrorSource::Terminal(e)),
                Error::ReaderPanicked(_) => r is None,
            },
    {
        match self {
            Error::Channel(e) => Some(ErrorSource::Channel(e)),
            Error::Terminal(e) => Some(ErrorSource::Terminal(e)),
            Error::ReaderPanicked(_) => None,
        }
    }

    /// The message of this error when its inner error displays as `detail`.
    pub open spec fn spec_message(&self, detail: Seq<char>) -> Seq<char> {
        match self {
            Error::Channel(_) => "event channel receiver was dropped: "@ + detail,
            Error::Terminal(_) => "terminal operation failed: "@ + detail,
            Error::ReaderPanicked(Some(message)) => "terminal input reader thread panicked: "@
                + message@,
            Error::ReaderPanicked(None) => "terminal input reader thread panicked"@,
        }
    }

    /// The message of this error, given the text that its inner error displays.
    pub fn message_with_detail(&self, detail: &str) -> (r: String)
        ensures
            r@ == self.spec_message(detail@),
    {
        match self {
            Error::Channel(_) => {
                let mut text = String::from_str("event channel receiver was dropped: ");
                text.append(detail);
                text
            },
            Error::Terminal(_) => {
                let mut text = String::from_str("terminal operation failed: ");
                text.append(detail);
                text
            },
            Error::ReaderPanicked(Some(message)) => {
                let mut text = String::from_str("terminal input reader thread panicked: ");
                text.append(message.as_str());
                text
            },
            Error::ReaderPanicked(None) => String::from_str("terminal input reader thread panicked"),
        }
    }

    /// The message of this error: what it describes, then what its inner error displays.
    pub fn to_string(&self) -> (r: String)
        ensures
            match self {
                Error::Channel(e) => exists|d: String|
                    #![trigger to_string_from_display_ensures::<SendError<Event>>(e, d)]
                    to_string_from_display_ensures::<SendError<Event>>(e, d) && r@ == self.spec_message(d@),
                Error::Terminal(e) => exists|d: String|
                    #![trigger to_string_from_display_ensures::<std::io::Error>(e, d)]
                    to_string_from_display_ensures::<std::io::Error>(e, d) && r@ == self.spec_message(d@),
                Error::ReaderPanicked(_) => r@ == self.spec_message(Seq::empty()),
            },
    {
        match self {
            Error::Channel(e) => {
                let detail = e.to_string();
                self.message_with_detail(detail.as_str())
            },
            Error::Terminal(e) => {
                let detail = e.to_string();
                self.message_with_detail(detail.as_str())
            },
            Error::ReaderPanicked(_) => self.message_with_detail(""),
        }
    }

    /// The error for a reader thread that panicked with `payload`: only its
    /// message is kept, and only when the payload is a string.
    pub fn from_panic(payload: PanicPayload<'_>) -> (r: Error)
        ensures
            match payload {
                PanicPayload::Formatted(m) => r == Error::ReaderPanicked(Some(m)),
                PanicPayload::Literal(m) => r matches Error::ReaderPanicked(Some(s)) && s@ == m@,
                PanicPayload::Other => r == Error::ReaderPanicked(None),
            },
    {
        match payload {
            PanicPayload::Formatted(m) => Error::ReaderPanicked(Some(m)),
            PanicPayload::Literal(m) => Error::ReaderPanicked(Some(m.to_owned())),
            PanicPayload::Other => Error::ReaderPanicked(None),
        }
    }
}

} // verus!
