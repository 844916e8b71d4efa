//! Line-based JSON framing between the engine and its worker processes:
//! one JSON document per line.

use vstd::prelude::*;
use crate::text::{push_str, text_of};

verus! {

/// Why a message could not be exchanged.
pub enum ProtocolError {
    /// Reading or writing failed, with the system's message.
    Io(String),
    /// The JSON could not be written or read, with the parser's message.
    Serialization(String),
    /// The other side closed the connection.
    ConnectionClosed,
}

/// The text of a protocol error.
pub open spec fn protocol_error_text(e: ProtocolError) -> Seq<char> {
    match e {
        ProtocolError::Io(m) => "IO error: "@ + m@,
        ProtocolError::Serialization(m) => "Serialization error: "@ + m@,
        ProtocolError::ConnectionClosed => "Connection closed"@,
    }
}

impl ProtocolError {
    /// Describes the error.
    pub fn describe(&self) -> (s: String)
        ensures
            s@ == protocol_error_text(*self),
    {
        match self {
            ProtocolError::Io(m) => {
                let mut s = text_of("IO error: ");
                push_str(&mut s, m.as_str());
                s
            },
            ProtocolError::Serialization(m) => {
                let mut s = text_of("Serialization error: ");
                push_str(&mut s, m.as_str());
                s
            },
            ProtocolError::ConnectionClosed => text_of("Connection closed"),
        }
    }
}

/// Framing of JSON documents as lines.
pub struct JsonLineProtocol;

impl JsonLineProtocol {
    /// The line that carries a JSON document: the document and a newline.
    pub fn frame(json: &str) -> (line: String)
        ensures
            line@ == json@ + "\n"@,
    {
        let mut line = text_of(json);
        push_str(&mut line, "\n");
        line
    }

    /// What a read of one line gives: the line, or, when nothing was read,
    /// a closed connection.
    pub fn received_line(line: String, bytes_read: usize) -> (r: Result<String, ProtocolError>)
        ensures
            bytes_read == 0 ==> r matches Err(ProtocolError::ConnectionClosed),
            bytes_read != 0 ==> r == Ok::<String, ProtocolError>(line),
    {
        if bytes_read == 0 {
            Err(ProtocolError::ConnectionClosed)
        } else {
            Ok(line)
        }
    }
}

} // verus!
