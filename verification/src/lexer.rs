//! The scanning steps that the message parsers are made of: fixed tokens and
//! runs of bytes of one class.
use crate::error::{DeserializationError, SyntaxKind};
use crate::grammar::{
    lemma_run_len_unique, parse_run0, parse_run1, parse_tag, ByteClass, Parsed, BACKSLASH, SPACE,
};
use vstd::prelude::*;

verus! {

/// `nom::character::is_digit`: true exactly for the ASCII digits `0` to `9`.
pub assume_specification[ nom::character::is_digit ](chr: u8) -> (r: bool)
    ensures
        r == (0x30 <= chr <= 0x39),
;

/// `nom::character::is_newline`: true exactly for the byte `\n`.
pub assume_specification[ nom::character::is_newline ](chr: u8) -> (r: bool)
    ensures
        r == (chr == 0x0A),
;

/// Whether `chr` is the space byte.
pub fn is_space(chr: u8) -> (r: bool)
    ensures
        r == (chr == SPACE),
{
    SPACE == chr
}

impl ByteClass {
    /// Whether `byte` belongs to the class.
    pub fn contains(&self, byte: u8) -> (r: bool)
        ensures
            r == self.has(byte),
    {
        match self {
            ByteClass::Space => is_space(byte),
            ByteClass::Newline => nom::character::is_newline(byte),
            ByteClass::NotNewline => !nom::character::is_newline(byte),
            ByteClass::NotBackslash => BACKSLASH != byte,
            ByteClass::NotSpace => byte != SPACE,
            ByteClass::Digit => nom::character::is_digit(byte),
            ByteClass::NameByte => !(nom::character::is_digit(byte) || is_space(byte)),
        }
    }
}

/// What a parser returned, with every slice and value replaced by its view.
pub open spec fn outcome<'a, T: View>(
    r: Result<(&'a [u8], T), DeserializationError<&'a [u8]>>,
) -> Parsed<T::V> {
    match r {
        Ok((rest, value)) => Ok((rest@, value@)),
        Err(e) => Err(e@),
    }
}

/// Splits `input` at `mid`: the bytes from `mid` on, and the bytes before it.
pub fn split<'a>(input: &'a [u8], mid: usize) -> (r: (&'a [u8], &'a [u8]))
    requires
        mid <= input@.len(),
    ensures
        r.0@ == input@.skip(mid as int),
        r.1@ == input@.take(mid as int),
{
    let taken = &input[0..mid];
    let rest = &input[mid..input.len()];
    assert(rest@ =~= input@.skip(mid as int));
    assert(taken@ =~= input@.take(mid as int));
    (rest, taken)
}

/// Takes the fixed bytes `token` from the front of `input`.
pub fn tag<'a>(input: &'a [u8], token: &[u8]) -> (r: Result<
    (&'a [u8], &'a [u8]),
    DeserializationError<&'a [u8]>,
>)
    ensures
        outcome(r) == parse_tag(input@, token@),
{
    let n = token.len();
    if input.len() < n {
        return Err(DeserializationError::Nom(input, SyntaxKind::Tag));
    }
    let mut i: usize = 0;
    while i < n
        invariant
            0 <= i <= n,
            n == token@.len(),
            n <= input@.len(),
            forall|j: int| 0 <= j < i ==> input@[j] == token@[j],
        decreases n - i,
    {
        if input[i] != token[i] {
            assert(input@.take(n as int)[i as int] != token@[i as int]);
            return Err(DeserializationError::Nom(input, SyntaxKind::Tag));
        }
        i += 1;
    }
    assert(input@.take(n as int) =~= token@);
    Ok(split(input, n))
}

/// Whether `a` and `b` hold the same bytes.
pub fn bytes_equal(a: &[u8], b: &[u8]) -> (r: bool)
    ensures
        r == (a@ == b@),
{
    if a.len() != b.len() {
        return false;
    }
    let mut i: usize = 0;
    while i < a.len()
        invariant
            0 <= i <= a@.len(),
            a@.len() == b@.len(),
            forall|j: int| 0 <= j < i ==> a@[j] == b@[j],
        decreases a@.len() - i,
    {
        if a[i] != b[i] {
            return false;
        }
        i += 1;
    }
    assert(a@ =~= b@);
    true
}

/// The number of bytes at the front of `input` that belong to `class`.
pub fn run_length(input: &[u8], class: ByteClass) -> (n: usize)
    ensures
        n == crate::grammar::run_len(input@, class),
        n <= input@.len(),
{
    let mut i: usize = 0;
    while i < input.len() && class.contains(input[i])
        invariant
            0 <= i <= input@.len(),
            forall|j: int| 0 <= j < i ==> class.has(#[trigger] input@[j]),
        decreases input@.len() - i,
    {
        i += 1;
    }
    proof {
        lemma_run_len_unique(input@, class, i as nat);
    }
    i
}

/// Takes the longest run of bytes of `class`, which may be empty.
pub fn take_while<'a>(input: &'a [u8], class: ByteClass) -> (r: (&'a [u8], &'a [u8]))
    ensures
        (r.0@, r.1@) == parse_run0(input@, class),
{
    let n = run_length(input, class);
    split(input, n)
}

/// Takes the longest run of bytes of `class`, which must not be empty.
pub fn take_while1<'a>(input: &'a [u8], class: ByteClass) -> (r: Result<
    (&'a [u8], &'a [u8]),
    DeserializationError<&'a [u8]>,
>)
    ensures
        outcome(r) == parse_run1(input@, class),
{
    let n = run_length(input, class);
    if n == 0 {
        Err(DeserializationError::Nom(input, SyntaxKind::TakeWhile1))
    } else {
        Ok(split(input, n))
    }
}

} // verus!
