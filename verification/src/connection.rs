//! One exchange with the engine: a command goes out, a stream of values comes
//! back and is read value by value up to the end-of-message byte.
//!
//! The socket itself is not here. `FtlConnectionType::connect` says what is to
//! be sent, `FtlConnection::receive` takes what came back.

use crate::error::{Expected, Found, FtlError};
use crate::string_map::StringMap;
use crate::wire::{
    decode_f32, decode_str, encode_str, lemma_read_within, read_float, read_text, wire_text,
    writable, END_OF_MESSAGE,
};
use vstd::prelude::*;
use vstd::slice::{slice_subrange, slice_to_vec};
use vstd::string::StringSliceAdditionalSpecFns;

verus! {

/// What a read for a string gave.
#[derive(Clone, Debug, PartialEq, Eq)]
pub enum TextRead {
    /// The string.
    Text(String),
    /// The list has ended: the end-of-message byte stood where the string would.
    EndOfMessage,
}

/// What a read for a string gives on the bytes `s`, with a buffer of
/// `capacity` bytes: the text, or none at the end of the message, and the
/// number of bytes that the read takes from `s`.
pub open spec fn next_text(s: Seq<u8>, capacity: nat) -> Result<(Option<Seq<char>>, nat), FtlError> {
    match read_text(s, capacity) {
        Ok((text, used)) => Ok((Some(text), used)),
        Err(found) => if found == Found::Marker(END_OF_MESSAGE) {
            Ok((None, 1))
        } else {
            Err(FtlError::DecodeError { expected: Expected::Text, found })
        },
    }
}

/// What a read for a float gives on the bytes `s`: the float's bits and the
/// number of bytes that the read takes from `s`. Here the end-of-message byte
/// is a marker like any other.
pub open spec fn next_float(s: Seq<u8>) -> Result<(u32, nat), FtlError> {
    match read_float(s) {
        Ok((bits, used)) => Ok((bits, used)),
        Err(found) => Err(FtlError::DecodeError { expected: Expected::Float32, found }),
    }
}

/// The response to one command, read from front to back. Its view is what has
/// not been read yet.
#[derive(Debug)]
pub struct FtlConnection {
    data: Vec<u8>,
    position: usize,
}

impl View for FtlConnection {
    type V = Seq<u8>;

    closed spec fn view(&self) -> Seq<u8> {
        self.data@.skip(self.position as int)
    }
}

impl FtlConnection {
    #[verifier::type_invariant]
    spec fn well_formed(&self) -> bool {
        self.position <= self.data@.len()
    }

    /// A reader at the start of `data`.
    pub fn new(data: Vec<u8>) -> (r: FtlConnection)
        ensures
            r@ == data@,
    {
        let r = FtlConnection { data, position: 0 };
        assert(r@ =~= data@);
        r
    }

    /// The number of bytes that have not been read yet.
    pub fn remaining(&self) -> (r: usize)
        ensures
            r == self@.len(),
    {
        proof {
            use_type_invariant(self);
        }
        self.data.len() - self.position
    }

    /// Reads a string into `buffer`, or finds the end of the message.
    ///
    /// The string is taken from the stream, and so is the end-of-message byte.
    /// On an error nothing is taken.
    pub fn read_str(&mut self, buffer: &mut Vec<u8>) -> (r: Result<TextRead, FtlError>)
        ensures
            final(buffer)@.len() == old(buffer)@.len(),
            match next_text(old(self)@, old(buffer)@.len() as nat) {
                Ok((Some(text), used)) => {
                    &&& r matches Ok(TextRead::Text(t))
                    &&& t@ == text
                    &&& final(self)@ == old(self)@.skip(used as int)
                },
                Ok((None, used)) => {
                    &&& r == Ok::<_, FtlError>(TextRead::EndOfMessage)
                    &&& final(self)@ == old(self)@.skip(used as int)
                },
                Err(e) => r == Err::<TextRead, _>(e) && final(self)@ == old(self)@,
            },
    {
        proof {
            use_type_invariant(&*self);
            lemma_read_within(self@, buffer@.len() as nat);
        }
        let ghost before = self@;
        let start = self.position;
        let input = slice_subrange(self.data.as_slice(), start, self.data.len());
        assert(input@ =~= before);
        match decode_str(input, buffer) {
            Ok((text, used)) => {
                self.position = start + used;
                assert(self@ =~= before.skip(used as int));
                Ok(TextRead::Text(text))
            },
            Err(Found::Marker(marker)) => {
                if marker == END_OF_MESSAGE {
                    self.position = start + 1;
                    assert(self@ =~= before.skip(1));
                    Ok(TextRead::EndOfMessage)
                } else {
                    Err(
                        FtlError::DecodeError {
                            expected: Expected::Text,
                            found: Found::Marker(marker),
                        },
                    )
                }
            },
            Err(found) => Err(FtlError::DecodeError { expected: Expected::Text, found }),
        }
    }

    /// Reads a 32-bit float and gives its IEEE-754 bits.
    ///
    /// The float is taken from the stream. On an error nothing is taken.
    pub fn read_f32(&mut self) -> (r: Result<u32, FtlError>)
        ensures
            match next_float(old(self)@) {
                Ok((bits, used)) => r == Ok::<_, FtlError>(bits) && final(self)@ == old(self)@.skip(
                    used as int,
                ),
                Err(e) => r == Err::<u32, _>(e) && final(self)@ == old(self)@,
            },
    {
        proof {
            use_type_invariant(&*self);
            lemma_read_within(self@, 0);
        }
        let ghost before = self@;
        let start = self.position;
        let input = slice_subrange(self.data.as_slice(), start, self.data.len());
        assert(input@ =~= before);
        match decode_f32(input) {
            Ok((bits, used)) => {
                self.position = start + used;
                assert(self@ =~= before.skip(used as int));
                Ok(bits)
            },
            Err(found) => Err(FtlError::DecodeError { expected: Expected::Float32, found }),
        }
    }

    /// Takes what the transport reports of the engine's answer: the stream to
    /// read from, or the error that stands for the failure.
    pub fn receive(reply: Reply) -> (r: Result<FtlConnection, FtlError>)
        ensures
            match reply {
                Reply::Unreachable => r == Err::<FtlConnection, _>(FtlError::ConnectionUnavailable),
                Reply::Rejected => r == Err::<FtlConnection, _>(FtlError::UnknownCommand),
                Reply::TimedOut => r == Err::<FtlConnection, _>(FtlError::Timeout),
                Reply::Stream(data) => r matches Ok(con) && con@ == data@,
            },
    {
        match reply {
            Reply::Unreachable => Err(FtlError::ConnectionUnavailable),
            Reply::Rejected => Err(FtlError::UnknownCommand),
            Reply::TimedOut => Err(FtlError::Timeout),
            Reply::Stream(data) => Ok(FtlConnection::new(data)),
        }
    }
}

/// What the transport reports once a command has been sent.
#[derive(Clone, Debug, PartialEq, Eq)]
pub enum Reply {
    /// The socket could not be opened, or the command could not be written.
    Unreachable,
    /// The engine did not take the command.
    Rejected,
    /// Nothing came within the bound.
    TimedOut,
    /// The bytes that came.
    Stream(Vec<u8>),
}

/// Where the answers to commands come from.
#[derive(Debug)]
pub enum FtlConnectionType {
    /// From the engine, over its socket.
    Socket,
    /// From fixed data: for each command the bytes of its response.
    Test(StringMap<Vec<u8>>),
}

/// What `connect` leaves to be done.
#[derive(Debug)]
pub enum Connect {
    /// Nothing: the response is here.
    Ready(FtlConnection),
    /// These bytes are to be sent to the engine; what comes back goes to
    /// `FtlConnection::receive`.
    Send(Vec<u8>),
}

/// The bytes that ask the engine for `command`: its name as a string of the
/// wire format.
pub open spec fn command_frame(command: Seq<char>) -> Seq<u8> {
    wire_text(command)
}

impl FtlConnectionType {
    /// Begins the exchange for `command`.
    ///
    /// With fixed data the response is at hand, unless the data holds nothing
    /// for the command. With the socket the command's frame is handed out to
    /// be sent; a name too long for a frame is no command that the engine knows.
    pub fn connect(&self, command: &str) -> (r: Result<Connect, FtlError>)
        ensures
            match *self {
                FtlConnectionType::Socket => if writable(command@) {
                    r matches Ok(Connect::Send(frame)) && frame@ == command_frame(command@)
                } else {
                    r == Err::<Connect, _>(FtlError::UnknownCommand)
                },
                FtlConnectionType::Test(responses) => if responses@.contains_key(command@) {
                    r matches Ok(Connect::Ready(con)) && con@ == responses@[command@]@
                } else {
                    r == Err::<Connect, _>(FtlError::UnknownCommand)
                },
            },
    {
        match self {
            FtlConnectionType::Socket => if command.as_bytes().len() <= u32::MAX as usize {
                Ok(Connect::Send(encode_str(command)))
            } else {
                Err(FtlError::UnknownCommand)
            },
            FtlConnectionType::Test(responses) => match responses.get(command) {
                Some(data) => Ok(Connect::Ready(FtlConnection::new(slice_to_vec(data.as_slice())))),
                None => Err(FtlError::UnknownCommand),
            },
        }
    }
}

} // verus!
