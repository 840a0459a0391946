//! Datagram framing for a game client: one `getservers` message out per
//! send, one `getserversResponse` message in per receive.
//!
//! The codec keeps no state. A datagram is parsed as a whole, and the receive
//! buffer is empty after every call of [`GameClientCodec::decode`], so that
//! nothing of one datagram is ever mixed into the next. Errors are made in
//! the style of I/O errors, a kind and a message, so that a transport can
//! hand them on as such.
use crate::deserializer::getserversresponse_message;
use crate::grammar::{parse_getserversresponse_message, wire_getservers_message};
use crate::messages::{GetServersMessage, GetServersResponseMessage, GetServersResponseMessageView};
use crate::serializer::gen_getservers_message;
use bytes::BytesMut;
use vstd::prelude::*;

verus! {

/// `bytes::BytesMut`, a growable byte buffer whose inside is the outside crate's.
#[verifier::external_type_specification]
#[verifier::external_body]
pub struct ExBytesMut(BytesMut);

/// The bytes that the buffer holds, first to last.
pub uninterp spec fn buffered(buffer: BytesMut) -> Seq<u8>;

/// `BytesMut::len`: the number of bytes contained in the buffer.
pub assume_specification[ BytesMut::len ](buffer: &BytesMut) -> (len: usize)
    ensures
        len == buffered(*buffer).len(),
;

/// `BytesMut::is_empty`: whether the buffer has a length of 0.
pub assume_specification[ BytesMut::is_empty ](buffer: &BytesMut) -> (empty: bool)
    ensures
        empty == (buffered(*buffer).len() == 0),
;

/// `BytesMut::clear`: removes all data from the buffer.
pub assume_specification[ BytesMut::clear ](buffer: &mut BytesMut)
    ensures
        buffered(*final(buffer)) == Seq::<u8>::empty(),
;

/// `BytesMut::extend_from_slice`: appends the given bytes to the buffer,
/// which grows as needed. Growing panics where the new length overflows, so
/// the new length is asked to stay within `isize::MAX`, the largest
/// allocation there is.
pub assume_specification[ BytesMut::extend_from_slice ](buffer: &mut BytesMut, extend: &[u8])
    requires
        buffered(*old(buffer)).len() + extend@.len() <= isize::MAX,
    ensures
        buffered(*final(buffer)) == buffered(*old(buffer)) + extend@,
;

/// `Deref` of `BytesMut`: the bytes of the buffer as a slice.
#[verifier::external_body]
fn buffer_bytes<'a>(buffer: &'a BytesMut) -> (bytes: &'a [u8])
    ensures
        bytes@ == buffered(*buffer),
{
    &buffer[..]
}

/// The kind of a codec error, named as the kinds of I/O errors are.
#[derive(Debug, PartialEq, Eq, Clone, Copy)]
pub enum CodecErrorKind {
    /// An error of no more specific kind.
    Other,
}

/// The error of the codec, in the style of an I/O error: a kind and a
/// message that describes what went wrong.
#[derive(Debug, PartialEq, Eq, Clone, Copy)]
pub struct CodecError {
    pub kind: CodecErrorKind,
    pub message: &'static str,
}

/// The message of the error for a datagram that does not parse.
pub const MALFORMED_DATAGRAM: &'static str = "malformed getserversResponse datagram";

/// The message of the error for a buffer that cannot take a datagram.
pub const BUFFER_FULL: &'static str = "buffer too large for the datagram";

impl CodecError {
    /// The error for a datagram that does not parse.
    pub open spec fn malformed_datagram() -> CodecError {
        CodecError { kind: CodecErrorKind::Other, message: MALFORMED_DATAGRAM }
    }

    /// The error for a buffer that cannot take a datagram.
    pub open spec fn buffer_full() -> CodecError {
        CodecError { kind: CodecErrorKind::Other, message: BUFFER_FULL }
    }

    /// The kind of the error.
    pub fn kind(&self) -> (kind: CodecErrorKind)
        ensures
            kind == self.kind,
    {
        self.kind
    }

    /// The message of the error.
    pub fn message(&self) -> (message: &'static str)
        ensures
            message == self.message,
    {
        self.message
    }
}

/// What decoding the datagram `datagram` gives: nothing for no bytes at all,
/// else the message that the bytes parse to, or the error for a datagram
/// that does not parse.
pub open spec fn decoded(datagram: Seq<u8>) -> Result<
    Option<GetServersResponseMessageView>,
    CodecError,
> {
    if datagram.len() == 0 {
        Ok(None)
    } else {
        match parse_getserversresponse_message(datagram) {
            Ok((_, message)) => Ok(Some(message)),
            Err(_) => Err(CodecError::malformed_datagram()),
        }
    }
}

/// What a decoder returned, the message replaced by its view.
pub open spec fn decode_outcome(r: Result<Option<GetServersResponseMessage>, CodecError>) -> Result<
    Option<GetServersResponseMessageView>,
    CodecError,
> {
    match r {
        Ok(Some(message)) => Ok(Some(message@)),
        Ok(None) => Ok(None),
        Err(e) => Err(e),
    }
}

/// The codec of a game client: encodes `getservers` messages and decodes
/// `getserversResponse` messages.
pub struct GameClientCodec(());

impl GameClientCodec {
    /// A codec.
    pub fn new() -> Self {
        GameClientCodec(())
    }

    /// Decodes one datagram: `None` for an empty one, else the
    /// `getserversResponse` message that it holds; a datagram that does not
    /// parse is an error.
    pub fn decode_datagram(datagram: &[u8]) -> (r: Result<
        Option<GetServersResponseMessage>,
        CodecError,
    >)
        ensures
            decode_outcome(r) == decoded(datagram@),
    {
        if datagram.len() == 0 {
            Ok(None)
        } else {
            match getserversresponse_message(datagram) {
                Err(_) => Err(
                    CodecError { kind: CodecErrorKind::Other, message: MALFORMED_DATAGRAM },
                ),
                Ok((_, message)) => Ok(Some(message)),
            }
        }
    }

    /// Appends the datagram of `item` to `dst`. Fails, and leaves `dst` as it
    /// was, only where the buffer would grow beyond `isize::MAX` bytes.
    pub fn encode(&mut self, item: GetServersMessage, dst: &mut BytesMut) -> (r: Result<
        (),
        CodecError,
    >)
        ensures
            r is Ok <==> buffered(*old(dst)).len() + wire_getservers_message(item@).len()
                <= isize::MAX,
            r is Ok ==> buffered(*final(dst)) == buffered(*old(dst)) + wire_getservers_message(
                item@,
            ),
            r matches Err(e) ==> e == CodecError::buffer_full() && buffered(*final(dst))
                == buffered(*old(dst)),
    {
        let datagram = gen_getservers_message(&item);
        let len = dst.len();
        let max = isize::MAX as usize;
        if len <= max && datagram.len() <= max - len {
            dst.extend_from_slice(datagram.as_slice());
            Ok(())
        } else {
            Err(CodecError { kind: CodecErrorKind::Other, message: BUFFER_FULL })
        }
    }

    /// Decodes the datagram that `src` holds, as [`decode_datagram`](Self::decode_datagram)
    /// does. Whatever comes of it, `src` is empty afterwards.
    pub fn decode(&mut self, src: &mut BytesMut) -> (r: Result<
        Option<GetServersResponseMessage>,
        CodecError,
    >)
        ensures
            decode_outcome(r) == decoded(buffered(*old(src))),
            buffered(*final(src)) == Seq::<u8>::empty(),
    {
        if src.is_empty() {
            assert(buffered(*src) =~= Seq::<u8>::empty());
            Ok(None)
        } else {
            let r = Self::decode_datagram(buffer_bytes(src));
            src.clear();
            r
        }
    }
}

} // verus!
