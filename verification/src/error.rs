//! The ways in which a command can fail.

use vstd::prelude::*;
use vstd::string::*;

verus! {

/// Why a command did not give a result.
#[derive(Debug, Clone, PartialEq, Eq)]
pub enum Error {
    /// The command was asked for while no stream was open. Nothing was sent.
    NotConnected,
    /// The transport failed while connecting, writing, reading or shutting
    /// down; the text is the transport's own description of the failure.
    SocketError(String),
    /// A reply came, but it does not have the shape that the command expects.
    Protocol,
}

impl Error {
    /// The text of an error, for people to read.
    pub open spec fn message_text(&self) -> Seq<char> {
        match self {
            Error::NotConnected => "not connected"@,
            Error::SocketError(description) => "socket error: "@ + description@,
            Error::Protocol => "malformed reply"@,
        }
    }

    /// Renders the error as text.
    pub fn message(&self) -> (text: String)
        ensures
            text@ == self.message_text(),
    {
        match self {
            Error::NotConnected => String::from_str("not connected"),
            Error::SocketError(description) => {
                let mut text = String::from_str("socket error: ");
                text.append(description.as_str());
                text
            },
            Error::Protocol => String::from_str("malformed reply"),
        }
    }
}

} // verus!
