//! The one error type of the message pipeline.

use crate::text::ParseError;
use vstd::prelude::*;
use vstd::string::*;

verus! {

/// Everything that ends a decode, an encode, an admission or a session.
#[derive(Debug)]
pub enum Error {
    /// More than `MAX_MESSAGE_LEN` bytes arrived without a complete message.
    TooMuchData,
    /// No variant of the schema has this code.
    UnknownCode(String),
    /// A field was expected and the arguments had run out.
    NotEnoughArgs,
    /// Arguments were left after the last field.
    TooManyArgs,
    /// An argument is not a value of its field's type.
    Parse(ParseError),
    /// The encoded message does not fit into the buffer's address range.
    MessageTooLong,
    /// No slot is free for another client.
    ServerFull,
    /// The client stayed silent for longer than the configured timeout.
    Timeout,
    /// The stream ended.
    Disconnected,
    /// A handler failed: what it said is kept.
    Handler(String),
    /// The master directory closed the connection.
    UnexpectedEnd,
}

/// An [`Error`] with its text as a sequence of characters.
pub ghost enum ErrorView {
    TooMuchData,
    UnknownCode(Seq<char>),
    NotEnoughArgs,
    TooManyArgs,
    Parse(ParseError),
    MessageTooLong,
    ServerFull,
    Timeout,
    Disconnected,
    Handler(Seq<char>),
    UnexpectedEnd,
}

impl View for Error {
    type V = ErrorView;

    open spec fn view(&self) -> ErrorView {
        match self {
            Error::TooMuchData => ErrorView::TooMuchData,
            Error::UnknownCode(code) => ErrorView::UnknownCode(code@),
            Error::NotEnoughArgs => ErrorView::NotEnoughArgs,
            Error::TooManyArgs => ErrorView::TooManyArgs,
            Error::Parse(e) => ErrorView::Parse(*e),
            Error::MessageTooLong => ErrorView::MessageTooLong,
            Error::ServerFull => ErrorView::ServerFull,
            Error::Timeout => ErrorView::Timeout,
            Error::Disconnected => ErrorView::Disconnected,
            Error::Handler(message) => ErrorView::Handler(message@),
            Error::UnexpectedEnd => ErrorView::UnexpectedEnd,
        }
    }
}

impl ErrorView {
    /// The text of the message for this error.
    pub open spec fn message_text(self) -> Seq<char> {
        match self {
            ErrorView::TooMuchData => "Too much data"@,
            ErrorView::UnknownCode(code) => "Unknown command code: "@ + code,
            ErrorView::NotEnoughArgs => "Not enough args"@,
            ErrorView::TooManyArgs => "Too many args"@,
            ErrorView::Parse(e) => e.message_text(),
            ErrorView::MessageTooLong => "Message too long"@,
            ErrorView::ServerFull => "This server is full!"@,
            ErrorView::Timeout => "Client disconnected because of timeout"@,
            ErrorView::Disconnected => "Client disconnected"@,
            ErrorView::Handler(message) => message,
            ErrorView::UnexpectedEnd => "unexpected end"@,
        }
    }
}

impl Error {
    /// Whether the error is logged as a fault.  A timeout is none: it ends
    /// the connection, and that is all.
    pub fn is_fault(&self) -> (r: bool)
        ensures
            r == !(self@ is Timeout),
    {
        match self {
            Error::Timeout => false,
            _ => true,
        }
    }

    /// A human-readable description of the error.
    pub fn message(&self) -> (r: String)
        ensures
            r@ == self@.message_text(),
    {
        match self {
            Error::TooMuchData => String::from_str("Too much data"),
            Error::UnknownCode(code) => {
                let mut text = String::from_str("Unknown command code: ");
                text.append(code.as_str());
                text
            },
            Error::NotEnoughArgs => String::from_str("Not enough args"),
            Error::TooManyArgs => String::from_str("Too many args"),
            Error::Parse(e) => e.message(),
            Error::MessageTooLong => String::from_str("Message too long"),
            Error::ServerFull => String::from_str("This server is full!"),
            Error::Timeout => String::from_str("Client disconnected because of timeout"),
            Error::Disconnected => String::from_str("Client disconnected"),
            Error::Handler(message) => message.clone(),
            Error::UnexpectedEnd => String::from_str("unexpected end"),
        }
    }
}

} // verus!
