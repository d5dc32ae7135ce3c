//! Framing a byte stream into lines: bytes are gathered in a buffer of the
//! `bytes` crate, and a line is taken off its front once a `\r\n` has
//! arrived.

use vstd::prelude::*;
use vstd::utf8::{decode_utf8, valid_utf8};

use bytes::BytesMut;

use crate::message::{parse_message, Message, MessageView};

verus! {

/// The growable byte buffer of the `bytes` crate, seen by Verus only
/// through `bytes_mut_contents` and the wrappers below.
#[verifier::external_type_specification]
#[verifier::external_body]
pub struct ExBytesMut(bytes::BytesMut);

/// The bytes that a `BytesMut` holds.
pub uninterp spec fn bytes_mut_contents(b: BytesMut) -> Seq<u8>;

/// `BytesMut::with_capacity`: a buffer that holds no bytes.
#[verifier::external_body]
fn bytes_mut_with_capacity(capacity: usize) -> (res: BytesMut)
    ensures
        bytes_mut_contents(res) == Seq::<u8>::empty(),
{
    BytesMut::with_capacity(capacity)
}

/// `BytesMut::extend_from_slice`: the bytes of `data` are added at the end.
#[verifier::external_body]
fn bytes_mut_extend_from_slice(b: &mut BytesMut, data: &[u8])
    ensures
        bytes_mut_contents(*final(b)) == bytes_mut_contents(*old(b)) + data@,
{
    b.extend_from_slice(data)
}

/// `<BytesMut as Deref>::deref`: the bytes held, as a slice.
#[verifier::external_body]
fn bytes_mut_as_slice(b: &BytesMut) -> (res: &[u8])
    ensures
        res@ == bytes_mut_contents(*b),
{
    b
}

/// `<BytesMut as Buf>::advance`: the first `count` bytes are dropped; the
/// crate panics when fewer are held, which `requires` rules out.
#[verifier::external_body]
fn bytes_mut_advance(b: &mut BytesMut, count: usize)
    requires
        count <= bytes_mut_contents(*old(b)).len(),
    ensures
        bytes_mut_contents(*final(b)) == bytes_mut_contents(*old(b)).skip(count as int),
{
    bytes::Buf::advance(b, count)
}

/// `String::from_utf8`: the text that the bytes encode, when they are
/// valid UTF-8.
#[verifier::external_body]
fn string_from_utf8(bytes: Vec<u8>) -> (res: Option<String>)
    ensures
        res is Some <==> valid_utf8(bytes@),
        res matches Some(s) ==> s@ == decode_utf8(bytes@),
{
    String::from_utf8(bytes).ok()
}

/// The carriage return byte.
pub const CR: u8 = 13;

/// The line feed byte.
pub const LF: u8 = 10;

/// Where the first line of `b` ends, scanning from `pos`: a `\r` followed
/// by `\n` ends a line just after the `\n`; a `\r` followed by any other
/// byte is passed over together with that byte; a `\r` that is the last
/// byte ends no line yet.
pub open spec fn line_end_from(b: Seq<u8>, pos: int) -> Option<int>
    decreases b.len() - pos,
{
    if pos < 0 || pos >= b.len() {
        None
    } else if b[pos] != CR {
        line_end_from(b, pos + 1)
    } else if pos + 1 >= b.len() {
        None
    } else if b[pos + 1] != LF {
        line_end_from(b, pos + 2)
    } else {
        Some(pos + 2)
    }
}

/// Where the first complete line of `b` ends, if one has arrived.
pub open spec fn line_end(b: Seq<u8>) -> Option<int> {
    line_end_from(b, 0)
}

/// An error of a connection.
#[derive(Debug)]
pub enum ConnectionError {
    /// A line was not valid UTF-8.
    InvalidUtf8,
    /// The peer closed the connection in the middle of a line.
    ConnectionReset,
}

/// The outcome of looking for the next message.
#[derive(Debug)]
pub enum ReadStep {
    /// A line has arrived: the message it holds, or nothing when it holds
    /// no message.
    Ready(Option<Message>),
    /// No complete line has arrived yet.
    NeedMore,
}

/// The bytes received from a connection that have not been taken off as
/// lines yet.
#[derive(Debug)]
pub struct MessageBuffer {
    buffer: BytesMut,
}

impl View for MessageBuffer {
    type V = Seq<u8>;

    closed spec fn view(&self) -> Seq<u8> {
        bytes_mut_contents(self.buffer)
    }
}

impl MessageBuffer {
    /// An empty buffer, with room for 1024 bytes.
    pub fn new() -> (res: MessageBuffer)
        ensures
            res@ == Seq::<u8>::empty(),
    {
        MessageBuffer { buffer: bytes_mut_with_capacity(1024) }
    }

    /// Adds received bytes at the end.
    pub fn extend_from_slice(&mut self, data: &[u8])
        ensures
            final(self)@ == old(self)@ + data@,
    {
        bytes_mut_extend_from_slice(&mut self.buffer, data);
    }

    /// Tells whether the buffer holds no bytes.
    pub fn is_empty(&self) -> (res: bool)
        ensures
            res == (self@.len() == 0),
    {
        bytes_mut_as_slice(&self.buffer).len() == 0
    }

    /// Takes the first complete line off the buffer, `\r\n` included, and
    /// decodes it: nothing, and the buffer unchanged, when no line has
    /// arrived; the line's text when it is valid UTF-8, and an error when
    /// it is not (the line is taken off either way).
    pub fn parse_message(&mut self) -> (res: Result<Option<String>, ConnectionError>)
        ensures
            match line_end(old(self)@) {
                None => res matches Ok(None) && final(self)@ == old(self)@,
                Some(k) => {
                    &&& final(self)@ == old(self)@.skip(k)
                    &&& valid_utf8(old(self)@.take(k)) ==> (res matches Ok(Some(s)) && s@
                        == decode_utf8(old(self)@.take(k)))
                    &&& !valid_utf8(old(self)@.take(k)) ==> (res matches Err(
                        ConnectionError::InvalidUtf8,
                    ))
                },
            },
    {
        let ghost b = self@;
        let slice = bytes_mut_as_slice(&self.buffer);
        let len = slice.len();
        let mut pos: usize = 0;
        while pos < len
            invariant
                len == b.len(),
                slice@ == b,
                b == old(self)@,
                self@ == b,
                0 <= pos <= len,
                line_end(b) == line_end_from(b, pos as int),
            decreases len - pos,
        {
            let byte = slice[pos];
            pos = pos + 1;
            if byte != CR {
                continue;
            }
            if pos >= len {
                return Ok(None);
            }
            let byte = slice[pos];
            pos = pos + 1;
            if byte != LF {
                continue;
            }
            let line = vstd::slice::slice_to_vec(vstd::slice::slice_subrange(slice, 0, pos));
            assert(line@ =~= b.take(pos as int));
            bytes_mut_advance(&mut self.buffer, pos);
            return match string_from_utf8(line) {
                Some(s) => Ok(Some(s)),
                None => Err(ConnectionError::InvalidUtf8),
            };
        }
        Ok(None)
    }

    /// Looks for the next message: takes the first complete line off the
    /// buffer, as `parse_message` does, and reads a message from it.
    pub fn poll_message(&mut self) -> (res: Result<ReadStep, ConnectionError>)
        ensures
            match line_end(old(self)@) {
                None => res matches Ok(ReadStep::NeedMore) && final(self)@ == old(self)@,
                Some(k) => {
                    let line = old(self)@.take(k);
                    &&& final(self)@ == old(self)@.skip(k)
                    &&& !valid_utf8(line) ==> (res matches Err(ConnectionError::InvalidUtf8))
                    &&& valid_utf8(line) ==> (match parse_message(decode_utf8(line)) {
                        Ok(m) => (res matches Ok(ReadStep::Ready(Some(msg))) && msg@ == m),
                        Err(_) => (res matches Ok(ReadStep::Ready(None))),
                    })
                },
            },
    {
        match self.parse_message() {
            Err(e) => Err(e),
            Ok(None) => Ok(ReadStep::NeedMore),
            Ok(Some(line)) => match Message::try_from(line) {
                Ok(msg) => Ok(ReadStep::Ready(Some(msg))),
                Err(_) => Ok(ReadStep::Ready(None)),
            },
        }
    }

    /// What the end of the stream means: nothing more to read when the
    /// buffer is empty, a connection reset when part of a line is left.
    pub fn end_of_stream(&self) -> (res: Result<Option<Message>, ConnectionError>)
        ensures
            self@.len() == 0 ==> res matches Ok(None),
            self@.len() != 0 ==> res matches Err(ConnectionError::ConnectionReset),
    {
        if self.is_empty() {
            Ok(None)
        } else {
            Err(ConnectionError::ConnectionReset)
        }
    }
}

} // verus!
