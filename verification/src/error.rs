//! Error types: construction errors of the value types, and parse errors.
use crate::verbose::ErrorKind;
use vstd::prelude::*;

verus! {

/// A value that must not be empty was empty.
#[derive(Debug, PartialEq, Eq)]
pub struct EmptyError;

/// A value holds a byte that its type does not admit.
///
/// Carries the offset of the first such byte and the rejected bytes.
#[derive(Debug, PartialEq, Eq)]
pub struct InvalidByteError(usize, Vec<u8>);

impl InvalidByteError {
    #[verifier::type_invariant]
    spec fn in_bounds(self) -> bool {
        self.0 < self.1@.len()
    }

    /// The offset of the offending byte.
    pub closed spec fn spec_offset(&self) -> usize {
        self.0
    }

    /// The rejected bytes.
    pub closed spec fn spec_bytes(&self) -> Seq<u8> {
        self.1@
    }

    /// Records that `bytes[offset]` is not admitted.
    pub fn new(offset: usize, bytes: Vec<u8>) -> (e: Self)
        requires
            offset < bytes@.len(),
        ensures
            e.spec_offset() == offset,
            e.spec_bytes() == bytes@,
    {
        InvalidByteError(offset, bytes)
    }

    /// The offset of the offending byte, which lies inside the rejected bytes.
    #[verifier::when_used_as_spec(spec_offset)]
    pub fn offset(&self) -> (offset: usize)
        ensures
            offset == self.spec_offset(),
            offset < self.spec_bytes().len(),
    {
        proof {
            use_type_invariant(self);
        }
        self.0
    }

    /// The rejected bytes.
    pub fn bytes(&self) -> (bytes: &[u8])
        ensures
            bytes@ == self.spec_bytes(),
    {
        self.1.as_slice()
    }

    /// The offending byte itself.
    pub fn byte(&self) -> (byte: u8)
        ensures
            self.spec_offset() < self.spec_bytes().len(),
            byte == self.spec_bytes()[self.spec_offset() as int],
    {
        proof {
            use_type_invariant(self);
        }
        self.1[self.0]
    }
}

/// Why bytes were rejected as a [`Challenge`](crate::messages::Challenge).
#[derive(Debug, PartialEq, Eq)]
pub enum InvalidChallengeError {
    /// No bytes were given.
    Empty(EmptyError),
    /// A byte is not printable ASCII, or is one of `\`, `/`, `;`, `"`, `%`.
    InvalidByte(InvalidByteError),
}

/// Errors of the value types' constructors.
#[derive(Debug, PartialEq, Eq)]
pub enum ProtocolError {
    /// Invalid [`Challenge`](crate::messages::Challenge).
    InvalidChallenge(InvalidChallengeError),
    /// Invalid [`GameName`](crate::messages::GameName): `byte` stands at `offset`.
    InvalidGameName { byte: u8, offset: usize },
    /// Invalid [`GameType`](crate::messages::GameType): `byte` stands at `offset`.
    InvalidGameType { byte: u8, offset: usize },
    /// An end-of-transmission mark on a response without servers.
    InvalidEndOfTransmission,
}

/// What a parsing step expected when it failed.
#[derive(Debug, PartialEq, Eq, Hash, Clone, Copy)]
pub enum SyntaxKind {
    /// A fixed token was expected.
    Tag,
    /// The bytes of a field were read but its value type rejected them, or a
    /// number does not fit.
    MapRes,
    /// At least one byte of a class was expected.
    TakeWhile1,
    /// More bytes were expected.
    Eof,
    /// A single character was expected.
    Char,
    /// At least one repetition was expected.
    Many1,
    /// A repetition did not reach its terminator.
    ManyTill,
}

/// The error of the message parsers: the input that was left where parsing
/// failed, and what was expected there.
#[derive(Debug, PartialEq)]
pub enum DeserializationError<I> {
    /// A syntax-level failure.
    Nom(I, SyntaxKind),
    /// A domain-level failure.
    Dpmaster(I, ErrorKind),
}

impl<'a> View for DeserializationError<&'a [u8]> {
    type V = DeserializationError<Seq<u8>>;

    open spec fn view(&self) -> DeserializationError<Seq<u8>> {
        match *self {
            DeserializationError::Nom(input, kind) => DeserializationError::Nom(input@, kind),
            DeserializationError::Dpmaster(input, kind) => DeserializationError::Dpmaster(
                input@,
                kind,
            ),
        }
    }
}

impl<I> DeserializationError<I> {
    /// The input that was left at the point of failure.
    pub open spec fn spec_input(self) -> I {
        match self {
            DeserializationError::Nom(input, _) => input,
            DeserializationError::Dpmaster(input, _) => input,
        }
    }

    /// The error for a field's bytes that `_cause` made unusable: the cause is
    /// dropped, the place and the kind are kept.
    pub fn from_external_error<E>(input: I, kind: SyntaxKind, _cause: E) -> (e: Self)
        ensures
            e == DeserializationError::Nom(input, kind),
    {
        DeserializationError::Nom(input, kind)
    }
}

} // verus!
