//! What the parsers ask of an error type, and the error types that answer:
//! one that keeps nothing, one that keeps the innermost failure, and one that
//! keeps the whole way up.
use crate::error::{DeserializationError, SyntaxKind};
use vstd::prelude::*;
use vstd::string::StringExecFns;

verus! {

/// Domain-level parse error codes.
#[derive(Debug, PartialEq, Eq, Hash, Clone, Copy)]
pub enum ErrorKind {
    /// The datagram does not start with `FF FF FF FF`.
    MessagePrefix,
}

/// The name under which a failure of [`message_prefix`] is recorded.
pub const MESSAGE_PREFIX_CONTEXT: &'static str = "message prefix";

/// What the parsers ask of an error type: to make an error for a place in
/// the input, and to add to an error that is passed up.
///
/// `trace` is the model of an error; for each constructor a spec function
/// says what trace it gives.
pub trait ParseError<I>: Sized {
    /// The model of an error.
    type Trace;

    /// The model of this error.
    spec fn trace(&self) -> Self::Trace;

    /// The trace of [`from_error_kind`](Self::from_error_kind).
    spec fn trace_from_error_kind(input: I, kind: SyntaxKind) -> Self::Trace;

    /// The trace of [`append`](Self::append).
    spec fn trace_append(input: I, kind: SyntaxKind, other: Self::Trace) -> Self::Trace;

    /// The trace of [`from_char`](Self::from_char).
    spec fn trace_from_char(input: I, c: char) -> Self::Trace;

    /// The trace of [`from_dpmaster_error_kind`](Self::from_dpmaster_error_kind).
    spec fn trace_from_dpmaster_error_kind(input: I, kind: ErrorKind) -> Self::Trace;

    /// The trace of [`append_dpmaster`](Self::append_dpmaster).
    spec fn trace_append_dpmaster(input: I, kind: ErrorKind, other: Self::Trace) -> Self::Trace;

    /// The trace of [`add_context`](Self::add_context).
    spec fn trace_add_context(input: I, ctx: &'static str, other: Self::Trace) -> Self::Trace;

    /// An error for a syntax-level failure at `input`.
    fn from_error_kind(input: I, kind: SyntaxKind) -> (e: Self)
        ensures
            e.trace() == Self::trace_from_error_kind(input, kind),
    ;

    /// `other`, passed up through a step of kind `kind` that began at `input`.
    fn append(input: I, kind: SyntaxKind, other: Self) -> (e: Self)
        ensures
            e.trace() == Self::trace_append(input, kind, other.trace()),
    ;

    /// An error for the character `c` that was expected at `input`.
    fn from_char(input: I, c: char) -> (e: Self)
        ensures
            e.trace() == Self::trace_from_char(input, c),
    ;

    /// An error for a domain-level failure at `input`.
    fn from_dpmaster_error_kind(input: I, kind: ErrorKind) -> (e: Self)
        ensures
            e.trace() == Self::trace_from_dpmaster_error_kind(input, kind),
    ;

    /// `other`, passed up through a step with the domain code `kind` that
    /// began at `input`.
    fn append_dpmaster(input: I, kind: ErrorKind, other: Self) -> (e: Self)
        ensures
            e.trace() == Self::trace_append_dpmaster(input, kind, other.trace()),
    ;

    /// `other`, passed up through the section named `ctx` that began at `input`.
    fn add_context(input: I, ctx: &'static str, other: Self) -> (e: Self)
        ensures
            e.trace() == Self::trace_add_context(input, ctx, other.trace()),
    ;
}

/// The error that keeps nothing.
impl<I> ParseError<I> for () {
    type Trace = ();

    open spec fn trace(&self) -> () {
        ()
    }

    open spec fn trace_from_error_kind(input: I, kind: SyntaxKind) -> () {
        ()
    }

    open spec fn trace_append(input: I, kind: SyntaxKind, other: ()) -> () {
        ()
    }

    open spec fn trace_from_char(input: I, c: char) -> () {
        ()
    }

    open spec fn trace_from_dpmaster_error_kind(input: I, kind: ErrorKind) -> () {
        ()
    }

    open spec fn trace_append_dpmaster(input: I, kind: ErrorKind, other: ()) -> () {
        ()
    }

    open spec fn trace_add_context(input: I, ctx: &'static str, other: ()) -> () {
        ()
    }

    fn from_error_kind(_input: I, _kind: SyntaxKind) -> (e: Self) {
        ()
    }

    fn append(_input: I, _kind: SyntaxKind, _other: Self) -> (e: Self) {
        ()
    }

    fn from_char(_input: I, _c: char) -> (e: Self) {
        ()
    }

    fn from_dpmaster_error_kind(_input: I, _kind: ErrorKind) -> (e: Self) {
        ()
    }

    fn append_dpmaster(_input: I, _kind: ErrorKind, _other: Self) -> (e: Self) {
        ()
    }

    fn add_context(_input: I, _ctx: &'static str, _other: Self) -> (e: Self) {
        ()
    }
}

/// The error that keeps the innermost failure and drops what is added on the
/// way up.
impl<I> ParseError<I> for DeserializationError<I> {
    type Trace = DeserializationError<I>;

    open spec fn trace(&self) -> DeserializationError<I> {
        *self
    }

    open spec fn trace_from_error_kind(input: I, kind: SyntaxKind) -> DeserializationError<I> {
        DeserializationError::Nom(input, kind)
    }

    open spec fn trace_append(
        input: I,
        kind: SyntaxKind,
        other: DeserializationError<I>,
    ) -> DeserializationError<I> {
        other
    }

    open spec fn trace_from_char(input: I, c: char) -> DeserializationError<I> {
        DeserializationError::Nom(input, SyntaxKind::Char)
    }

    open spec fn trace_from_dpmaster_error_kind(
        input: I,
        kind: ErrorKind,
    ) -> DeserializationError<I> {
        DeserializationError::Dpmaster(input, kind)
    }

    open spec fn trace_append_dpmaster(
        input: I,
        kind: ErrorKind,
        other: DeserializationError<I>,
    ) -> DeserializationError<I> {
        other
    }

    open spec fn trace_add_context(
        input: I,
        ctx: &'static str,
        other: DeserializationError<I>,
    ) -> DeserializationError<I> {
        other
    }

    fn from_error_kind(input: I, kind: SyntaxKind) -> (e: Self) {
        DeserializationError::Nom(input, kind)
    }

    fn append(_input: I, _kind: SyntaxKind, other: Self) -> (e: Self) {
        other
    }

    fn from_char(input: I, _c: char) -> (e: Self) {
        DeserializationError::Nom(input, SyntaxKind::Char)
    }

    fn from_dpmaster_error_kind(input: I, kind: ErrorKind) -> (e: Self) {
        DeserializationError::Dpmaster(input, kind)
    }

    fn append_dpmaster(_input: I, _kind: ErrorKind, other: Self) -> (e: Self) {
        other
    }

    fn add_context(_input: I, _ctx: &'static str, other: Self) -> (e: Self) {
        other
    }
}

/// One entry of a [`VerboseError`].
#[derive(Clone, Debug, PartialEq)]
pub enum VerboseErrorKind {
    /// The name of a section of the grammar.
    Context(&'static str),
    /// A character that was expected.
    Char(char),
    /// A syntax-level failure.
    Nom(SyntaxKind),
    /// A domain-level failure.
    Dpmaster(ErrorKind),
}

/// The error that keeps everything: the innermost failure first, then what
/// each step added on the way up, each with the input at which it stood.
#[derive(Clone, Debug, PartialEq)]
pub struct VerboseError<I> {
    pub errors: Vec<(I, VerboseErrorKind)>,
}

impl<I> VerboseError<I> {
    fn first(input: I, kind: VerboseErrorKind) -> (e: Self)
        ensures
            e.errors@ == seq![(input, kind)],
    {
        let mut errors = Vec::new();
        errors.push((input, kind));
        assert(errors@ =~= seq![(input, kind)]);
        VerboseError { errors }
    }

    fn followed_by(self, input: I, kind: VerboseErrorKind) -> (e: Self)
        ensures
            e.errors@ == self.errors@.push((input, kind)),
    {
        let mut errors = self.errors;
        errors.push((input, kind));
        VerboseError { errors }
    }
}

impl<I> ParseError<I> for VerboseError<I> {
    type Trace = Seq<(I, VerboseErrorKind)>;

    open spec fn trace(&self) -> Seq<(I, VerboseErrorKind)> {
        self.errors@
    }

    open spec fn trace_from_error_kind(input: I, kind: SyntaxKind) -> Seq<(I, VerboseErrorKind)> {
        seq![(input, VerboseErrorKind::Nom(kind))]
    }

    open spec fn trace_append(input: I, kind: SyntaxKind, other: Seq<(I, VerboseErrorKind)>) -> Seq<
        (I, VerboseErrorKind),
    > {
        other.push((input, VerboseErrorKind::Nom(kind)))
    }

    open spec fn trace_from_char(input: I, c: char) -> Seq<(I, VerboseErrorKind)> {
        seq![(input, VerboseErrorKind::Char(c))]
    }

    open spec fn trace_from_dpmaster_error_kind(input: I, kind: ErrorKind) -> Seq<
        (I, VerboseErrorKind),
    > {
        seq![(input, VerboseErrorKind::Dpmaster(kind))]
    }

    open spec fn trace_append_dpmaster(
        input: I,
        kind: ErrorKind,
        other: Seq<(I, VerboseErrorKind)>,
    ) -> Seq<(I, VerboseErrorKind)> {
        other.push((input, VerboseErrorKind::Dpmaster(kind)))
    }

    open spec fn trace_add_context(
        input: I,
        ctx: &'static str,
        other: Seq<(I, VerboseErrorKind)>,
    ) -> Seq<(I, VerboseErrorKind)> {
        other.push((input, VerboseErrorKind::Context(ctx)))
    }

    fn from_error_kind(input: I, kind: SyntaxKind) -> (e: Self) {
        VerboseError::first(input, VerboseErrorKind::Nom(kind))
    }

    fn append(input: I, kind: SyntaxKind, other: Self) -> (e: Self) {
        other.followed_by(input, VerboseErrorKind::Nom(kind))
    }

    fn from_char(input: I, c: char) -> (e: Self) {
        VerboseError::first(input, VerboseErrorKind::Char(c))
    }

    fn from_dpmaster_error_kind(input: I, kind: ErrorKind) -> (e: Self) {
        VerboseError::first(input, VerboseErrorKind::Dpmaster(kind))
    }

    fn append_dpmaster(input: I, kind: ErrorKind, other: Self) -> (e: Self) {
        other.followed_by(input, VerboseErrorKind::Dpmaster(kind))
    }

    fn add_context(input: I, ctx: &'static str, other: Self) -> (e: Self) {
        other.followed_by(input, VerboseErrorKind::Context(ctx))
    }
}

/// The name of a syntax kind.
pub open spec fn syntax_kind_name(kind: SyntaxKind) -> Seq<char> {
    match kind {
        SyntaxKind::Tag => "Tag"@,
        SyntaxKind::MapRes => "MapRes"@,
        SyntaxKind::TakeWhile1 => "TakeWhile1"@,
        SyntaxKind::Eof => "Eof"@,
        SyntaxKind::Char => "Char"@,
        SyntaxKind::Many1 => "Many1"@,
        SyntaxKind::ManyTill => "ManyTill"@,
    }
}

/// The name of a domain code.
pub open spec fn error_kind_name(kind: ErrorKind) -> Seq<char> {
    match kind {
        ErrorKind::MessagePrefix => "MessagePrefix"@,
    }
}

/// The line of text for one entry of a [`VerboseError`] over text input.
pub open spec fn verbose_line(input: &str, kind: VerboseErrorKind) -> Seq<char> {
    match kind {
        VerboseErrorKind::Dpmaster(e) => error_kind_name(e) + " at: "@ + input@ + "\n"@,
        VerboseErrorKind::Nom(e) => syntax_kind_name(e) + " at: "@ + input@ + "\n"@,
        VerboseErrorKind::Char(c) => "expected '"@ + seq![c] + "' at: "@ + input@ + "\n"@,
        VerboseErrorKind::Context(s) => "in section '"@ + s@ + "', at: "@ + input@ + "\n"@,
    }
}

/// The text for the entries of a [`VerboseError`] over text input: the line
/// `Parse error:` and one line for each entry, in order.
pub open spec fn verbose_text(errors: Seq<(&str, VerboseErrorKind)>) -> Seq<char>
    decreases errors.len(),
{
    if errors.len() == 0 {
        "Parse error:\n"@
    } else {
        verbose_text(errors.drop_last()) + verbose_line(errors.last().0, errors.last().1)
    }
}

/// `String::push`: appends the character to the end of the string.
#[verifier::external_body]
fn push_char(text: &mut String, c: char)
    ensures
        final(text)@ == old(text)@.push(c),
{
    text.push(c)
}

fn name_of_syntax_kind(kind: SyntaxKind) -> (name: &'static str)
    ensures
        name@ == syntax_kind_name(kind),
{
    match kind {
        SyntaxKind::Tag => "Tag",
        SyntaxKind::MapRes => "MapRes",
        SyntaxKind::TakeWhile1 => "TakeWhile1",
        SyntaxKind::Eof => "Eof",
        SyntaxKind::Char => "Char",
        SyntaxKind::Many1 => "Many1",
        SyntaxKind::ManyTill => "ManyTill",
    }
}

fn name_of_error_kind(kind: ErrorKind) -> (name: &'static str)
    ensures
        name@ == error_kind_name(kind),
{
    match kind {
        ErrorKind::MessagePrefix => "MessagePrefix",
    }
}

fn write_line(text: &mut String, input: &str, kind: &VerboseErrorKind)
    ensures
        final(text)@ == old(text)@ + verbose_line(input, *kind),
{
    match kind {
        VerboseErrorKind::Dpmaster(e) => {
            text.append(name_of_error_kind(*e));
            text.append(" at: ");
        },
        VerboseErrorKind::Nom(e) => {
            text.append(name_of_syntax_kind(*e));
            text.append(" at: ");
        },
        VerboseErrorKind::Char(c) => {
            text.append("expected '");
            push_char(text, *c);
            text.append("' at: ");
        },
        VerboseErrorKind::Context(s) => {
            text.append("in section '");
            text.append(s);
            text.append("', at: ");
        },
    }
    text.append(input);
    text.append("\n");
    assert(final(text)@ =~= old(text)@ + verbose_line(input, *kind));
}

impl<'a> VerboseError<&'a str> {
    /// The error as text: the line `Parse error:`, then a line for each
    /// entry that names what failed and the input at which it stood.
    pub fn to_text(&self) -> (text: String)
        ensures
            text@ == verbose_text(self.errors@),
    {
        let mut text = String::new();
        text.append("Parse error:\n");
        let mut i: usize = 0;
        assert(self.errors@.take(0).len() == 0);
        assert(text@ =~= verbose_text(self.errors@.take(0)));
        while i < self.errors.len()
            invariant
                0 <= i <= self.errors@.len(),
                text@ == verbose_text(self.errors@.take(i as int)),
            decreases self.errors@.len() - i,
        {
            let entry = &self.errors[i];
            write_line(&mut text, entry.0, &entry.1);
            proof {
                let next = self.errors@.take(i + 1);
                assert(next.drop_last() =~= self.errors@.take(i as int));
                assert(next.last() == self.errors@[i as int]);
            }
            i += 1;
        }
        assert(self.errors@.take(i as int) =~= self.errors@);
        text
    }
}

} // verus!
