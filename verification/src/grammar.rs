//! The wire format, as mathematical functions over byte sequences.
//!
//! Every datagram is the prefix `FF FF FF FF`, a case-sensitive ASCII command
//! token and a payload. For each message kind this module defines what a byte
//! sequence parses to (`parse_*`) and what a message is written as (`wire_*`).
//! The executable parser and serializer are specified by these functions.
use crate::decimal::{decimal, decimal_u32};
use crate::error::{DeserializationError, SyntaxKind};
use crate::messages::{
    is_challenge, is_game_name, FilterOptionView, FilterOptionsView, GetInfoMessageView,
    GetServersMessageView, GetServersResponseMessageView, HeartbeatMessageView,
    InfoResponseMessageView,
};
use crate::net::{Ipv4Addr, SocketAddrV4};
use crate::ordered::{with_entry, Entry};
use vstd::prelude::*;

verus! {

/// The byte ` `, which separates fields.
pub const SPACE: u8 = ' ' as u8;

/// The byte `\n`, which ends a heartbeat.
pub const NEWLINE: u8 = '\n' as u8;

/// The byte `\`, which starts every key and value of an info string and
/// every server address.
pub const BACKSLASH: u8 = '\\' as u8;

/// The four bytes that start every datagram.
pub const MESSAGE_PREFIX: [u8; 4] = [0xFF, 0xFF, 0xFF, 0xFF];

/// The command token `heartbeat`.
pub const HEARTBEAT: [u8; 9] = [
    'h' as u8, 'e' as u8, 'a' as u8, 'r' as u8, 't' as u8, 'b' as u8, 'e' as u8, 'a' as u8,
    't' as u8,
];

/// The command token `getinfo`.
pub const GETINFO: [u8; 7] = [
    'g' as u8, 'e' as u8, 't' as u8, 'i' as u8, 'n' as u8, 'f' as u8, 'o' as u8,
];

/// The command token `infoResponse`.
pub const INFORESPONSE: [u8; 12] = [
    'i' as u8, 'n' as u8, 'f' as u8, 'o' as u8, 'R' as u8, 'e' as u8, 's' as u8, 'p' as u8,
    'o' as u8, 'n' as u8, 's' as u8, 'e' as u8,
];

/// The command token `getservers`.
pub const GETSERVERS: [u8; 10] = [
    'g' as u8, 'e' as u8, 't' as u8, 's' as u8, 'e' as u8, 'r' as u8, 'v' as u8, 'e' as u8,
    'r' as u8, 's' as u8,
];

/// The command token `getserversResponse`.
pub const GETSERVERSRESPONSE: [u8; 18] = [
    'g' as u8, 'e' as u8, 't' as u8, 's' as u8, 'e' as u8, 'r' as u8, 'v' as u8, 'e' as u8,
    'r' as u8, 's' as u8, 'R' as u8, 'e' as u8, 's' as u8, 'p' as u8, 'o' as u8, 'n' as u8,
    's' as u8, 'e' as u8,
];

/// The start of the filter option `gametype=X`.
pub const GAMETYPE: [u8; 9] = [
    'g' as u8, 'a' as u8, 'm' as u8, 'e' as u8, 't' as u8, 'y' as u8, 'p' as u8, 'e' as u8,
    '=' as u8,
];

/// The filter option `empty`.
pub const EMPTY: [u8; 5] = ['e' as u8, 'm' as u8, 'p' as u8, 't' as u8, 'y' as u8];

/// The filter option `full`.
pub const FULL: [u8; 4] = ['f' as u8, 'u' as u8, 'l' as u8, 'l' as u8];

/// The end-of-transmission mark `\EOT\0\0\0`.
pub const EOT: [u8; 7] = [BACKSLASH, 'E' as u8, 'O' as u8, 'T' as u8, 0, 0, 0];

/// A class of bytes that a run of input is taken from.
#[derive(Debug, PartialEq, Eq, Clone, Copy)]
pub enum ByteClass {
    /// The space byte.
    Space,
    /// The newline byte.
    Newline,
    /// Every byte but the newline.
    NotNewline,
    /// Every byte but the backslash.
    NotBackslash,
    /// Every byte but the space.
    NotSpace,
    /// The ASCII digits `0` to `9`.
    Digit,
    /// Every byte that is neither an ASCII digit nor a space.
    NameByte,
}

/// Whether `byte` is an ASCII digit.
pub open spec fn is_digit_byte(byte: u8) -> bool {
    0x30 <= byte <= 0x39
}

impl ByteClass {
    /// Whether `byte` belongs to the class.
    pub open spec fn has(self, byte: u8) -> bool {
        match self {
            ByteClass::Space => byte == SPACE,
            ByteClass::Newline => byte == NEWLINE,
            ByteClass::NotNewline => byte != NEWLINE,
            ByteClass::NotBackslash => byte != BACKSLASH,
            ByteClass::NotSpace => byte != SPACE,
            ByteClass::Digit => is_digit_byte(byte),
            ByteClass::NameByte => !is_digit_byte(byte) && byte != SPACE,
        }
    }
}

/// What parsing a byte sequence gives: the input that is left and the value,
/// or the error.
pub type Parsed<T> = Result<(Seq<u8>, T), DeserializationError<Seq<u8>>>;

/// The outcome of a parse that gave `value` and left `rest`.
pub open spec fn parsed<T>(rest: Seq<u8>, value: T) -> Parsed<T> {
    Ok((rest, value))
}

/// The outcome of a parse that gave `value` and left nothing.
pub open spec fn all_parsed<T>(value: T) -> Parsed<T> {
    Ok((Seq::<u8>::empty(), value))
}

/// The outcome of a parse that cannot fail.
pub open spec fn always<T>(outcome: (Seq<u8>, T)) -> Parsed<T> {
    Ok(outcome)
}

/// Whether `s` begins with the bytes `token`.
pub open spec fn starts_with(s: Seq<u8>, token: Seq<u8>) -> bool {
    token.len() <= s.len() && s.take(token.len() as int) == token
}

/// Whether `tail` is what is left of `s` after some bytes were taken from its front.
pub open spec fn is_tail_of(tail: Seq<u8>, s: Seq<u8>) -> bool {
    tail.len() <= s.len() && tail == s.skip(s.len() - tail.len())
}

/// The length of the longest prefix of `s` whose bytes all belong to `class`.
pub open spec fn run_len(s: Seq<u8>, class: ByteClass) -> nat
    decreases s.len(),
{
    if s.len() > 0 && class.has(s[0]) {
        1 + run_len(s.skip(1), class)
    } else {
        0
    }
}

/// A run ends inside the sequence, holds only bytes of the class, and is
/// followed by a byte outside the class or by the end.
pub proof fn lemma_run_len(s: Seq<u8>, class: ByteClass)
    ensures
        run_len(s, class) <= s.len(),
        forall|j: int| 0 <= j < run_len(s, class) ==> class.has(#[trigger] s[j]),
        run_len(s, class) < s.len() ==> !class.has(s[run_len(s, class) as int]),
    decreases s.len(),
{
    if s.len() > 0 && class.has(s[0]) {
        let t = s.skip(1);
        lemma_run_len(t, class);
        assert forall|j: int| 0 <= j < run_len(s, class) implies class.has(#[trigger] s[j]) by {
            if j > 0 {
                assert(s[j] == t[j - 1]);
            }
        }
        if run_len(s, class) < s.len() {
            assert(s[run_len(s, class) as int] == t[run_len(t, class) as int]);
        }
    }
}

/// The run is the only prefix length with the properties of [`lemma_run_len`].
pub proof fn lemma_run_len_unique(s: Seq<u8>, class: ByteClass, n: nat)
    requires
        n <= s.len(),
        forall|j: int| 0 <= j < n ==> class.has(#[trigger] s[j]),
        n < s.len() ==> !class.has(s[n as int]),
    ensures
        run_len(s, class) == n,
    decreases s.len(),
{
    if n > 0 {
        let t = s.skip(1);
        assert(class.has(s[0]));
        assert forall|j: int| 0 <= j < n - 1 implies class.has(#[trigger] t[j]) by {
            assert(t[j] == s[j + 1]);
        }
        if n - 1 < t.len() {
            assert(t[n - 1] == s[n as int]);
        }
        lemma_run_len_unique(t, class, (n - 1) as nat);
    }
}

/// A fixed token: it is taken from the front of the input, or the input is
/// rejected where it stands.
pub open spec fn parse_tag(input: Seq<u8>, token: Seq<u8>) -> Parsed<Seq<u8>> {
    if starts_with(input, token) {
        Ok((input.skip(token.len() as int), token))
    } else {
        Err(DeserializationError::Nom(input, SyntaxKind::Tag))
    }
}

/// The longest run of bytes of `class`, which may be empty: what is left, and the run.
pub open spec fn parse_run0(input: Seq<u8>, class: ByteClass) -> (Seq<u8>, Seq<u8>) {
    let n = run_len(input, class) as int;
    (input.skip(n), input.take(n))
}

/// The longest run of bytes of `class`, which must not be empty.
pub open spec fn parse_run1(input: Seq<u8>, class: ByteClass) -> Parsed<Seq<u8>> {
    if run_len(input, class) == 0 {
        Err(DeserializationError::Nom(input, SyntaxKind::TakeWhile1))
    } else {
        Ok(parse_run0(input, class))
    }
}

/// The bytes `FF FF FF FF` that every datagram starts with.
pub open spec fn parse_message_prefix(input: Seq<u8>) -> Parsed<Seq<u8>> {
    parse_tag(input, MESSAGE_PREFIX@)
}

/// `parse` after the message prefix.
pub open spec fn after_message_prefix<T>(
    input: Seq<u8>,
    parse: spec_fn(Seq<u8>) -> Parsed<T>,
) -> Parsed<T> {
    match parse_message_prefix(input) {
        Err(e) => Err(e),
        Ok((rest, _)) => parse(rest),
    }
}

/// `parse` after the command token `command`.
pub open spec fn after_command<T>(
    input: Seq<u8>,
    command: Seq<u8>,
    parse: spec_fn(Seq<u8>) -> Parsed<T>,
) -> Parsed<T> {
    match parse_tag(input, command) {
        Err(e) => Err(e),
        Ok((rest, _)) => parse(rest),
    }
}

// ---------------------------------------------------------------- heartbeat

/// A protocol name: one byte or more, up to a newline or the end.
pub open spec fn parse_protocol_name(input: Seq<u8>) -> Parsed<Seq<u8>> {
    parse_run1(input, ByteClass::NotNewline)
}

/// The payload of a heartbeat: spaces, the protocol name, and any number of newlines.
pub open spec fn parse_heartbeat_payload(input: Seq<u8>) -> Parsed<HeartbeatMessageView> {
    match parse_run1(input, ByteClass::Space) {
        Err(e) => Err(e),
        Ok((rest, _)) => match parse_protocol_name(rest) {
            Err(e) => Err(e),
            Ok((rest, protocol_name)) => Ok(
                (parse_run0(rest, ByteClass::Newline).0, HeartbeatMessageView { protocol_name }),
            ),
        },
    }
}

/// `heartbeat` and its payload.
pub open spec fn parse_heartbeat(input: Seq<u8>) -> Parsed<HeartbeatMessageView> {
    after_command(input, HEARTBEAT@, |rest: Seq<u8>| parse_heartbeat_payload(rest))
}

/// A heartbeat datagram.
pub open spec fn parse_heartbeat_message(input: Seq<u8>) -> Parsed<HeartbeatMessageView> {
    after_message_prefix(input, |rest: Seq<u8>| parse_heartbeat(rest))
}

/// What a heartbeat is written as: `FF FF FF FF "heartbeat" SP name LF`.
pub open spec fn wire_heartbeat_message(message: HeartbeatMessageView) -> Seq<u8> {
    MESSAGE_PREFIX@ + HEARTBEAT@ + seq![SPACE] + message.protocol_name + seq![NEWLINE]
}

// ------------------------------------------------------------------ getinfo

/// A challenge: all the input that is left, which must satisfy
/// [`is_challenge`].
pub open spec fn parse_challenge(input: Seq<u8>) -> Parsed<Seq<u8>> {
    if is_challenge(input) {
        Ok((input.skip(input.len() as int), input))
    } else {
        Err(DeserializationError::Nom(input, SyntaxKind::MapRes))
    }
}

/// The payload of `getinfo`: spaces and the challenge.
pub open spec fn parse_getinfo_payload(input: Seq<u8>) -> Parsed<GetInfoMessageView> {
    match parse_run1(input, ByteClass::Space) {
        Err(e) => Err(e),
        Ok((rest, _)) => match parse_challenge(rest) {
            Err(e) => Err(e),
            Ok((rest, challenge)) => Ok((rest, GetInfoMessageView { challenge })),
        },
    }
}

/// `getinfo` and its payload.
pub open spec fn parse_getinfo(input: Seq<u8>) -> Parsed<GetInfoMessageView> {
    after_command(input, GETINFO@, |rest: Seq<u8>| parse_getinfo_payload(rest))
}

/// A `getinfo` datagram.
pub open spec fn parse_getinfo_message(input: Seq<u8>) -> Parsed<GetInfoMessageView> {
    after_message_prefix(input, |rest: Seq<u8>| parse_getinfo(rest))
}

/// What a `getinfo` message is written as: `FF FF FF FF "getinfo" SP challenge`.
pub open spec fn wire_getinfo_message(message: GetInfoMessageView) -> Seq<u8> {
    MESSAGE_PREFIX@ + GETINFO@ + seq![SPACE] + message.challenge
}

// ------------------------------------------------------------- infoResponse

/// A key or a value of an info string: one byte or more, up to a backslash
/// or the end.
pub open spec fn parse_info_word(input: Seq<u8>) -> Parsed<Seq<u8>> {
    parse_run1(input, ByteClass::NotBackslash)
}

/// One pair of an info string: `\` key `\` value.
pub open spec fn parse_info_kv(input: Seq<u8>) -> Parsed<Entry> {
    match parse_tag(input, seq![BACKSLASH]) {
        Err(e) => Err(e),
        Ok((rest, _)) => match parse_info_word(rest) {
            Err(e) => Err(e),
            Ok((rest, key)) => match parse_tag(rest, seq![BACKSLASH]) {
                Err(e) => Err(e),
                Ok((rest, _)) => match parse_info_word(rest) {
                    Err(e) => Err(e),
                    Ok((rest, value)) => Ok((rest, (key, value))),
                },
            },
        },
    }
}

/// A pair that was parsed took bytes from the input.
pub proof fn lemma_info_kv_consumes(input: Seq<u8>)
    ensures
        parse_info_kv(input) matches Ok((rest, _)) ==> rest.len() < input.len(),
{
    if let Ok((r1, _)) = parse_tag(input, seq![BACKSLASH]) {
        lemma_run_len(r1, ByteClass::NotBackslash);
        if let Ok((r2, _)) = parse_info_word(r1) {
            if let Ok((r3, _)) = parse_tag(r2, seq![BACKSLASH]) {
                lemma_run_len(r3, ByteClass::NotBackslash);
            }
        }
    }
}

/// The pairs that follow the first one: they are taken as long as they
/// parse and entered into `info` in turn, a repeated key overwriting its
/// value in place.
pub open spec fn parse_info_more(input: Seq<u8>, info: Seq<Entry>) -> (Seq<u8>, Seq<Entry>)
    decreases input.len(),
    via parse_info_more_decreases
{
    match parse_info_kv(input) {
        Err(_) => (input, info),
        Ok((rest, (key, value))) => parse_info_more(rest, with_entry(info, key, value)),
    }
}

#[via_fn]
proof fn parse_info_more_decreases(input: Seq<u8>, info: Seq<Entry>) {
    lemma_info_kv_consumes(input);
}

/// An info string: one pair or more.
pub open spec fn parse_info(input: Seq<u8>) -> Parsed<Seq<Entry>> {
    match parse_info_kv(input) {
        Err(e) => Err(e),
        Ok((rest, (key, value))) => Ok(
            parse_info_more(rest, with_entry(Seq::<Entry>::empty(), key, value)),
        ),
    }
}

/// The payload of `infoResponse`: one newline and the info string.
pub open spec fn parse_inforesponse_payload(input: Seq<u8>) -> Parsed<InfoResponseMessageView> {
    match parse_tag(input, seq![NEWLINE]) {
        Err(e) => Err(e),
        Ok((rest, _)) => match parse_info(rest) {
            Err(e) => Err(e),
            Ok((rest, info)) => Ok((rest, InfoResponseMessageView { info })),
        },
    }
}

/// `infoResponse` and its payload.
pub open spec fn parse_inforesponse(input: Seq<u8>) -> Parsed<InfoResponseMessageView> {
    after_command(input, INFORESPONSE@, |rest: Seq<u8>| parse_inforesponse_payload(rest))
}

/// An `infoResponse` datagram.
pub open spec fn parse_inforesponse_message(input: Seq<u8>) -> Parsed<InfoResponseMessageView> {
    after_message_prefix(input, |rest: Seq<u8>| parse_inforesponse(rest))
}

/// What one pair is written as: `\` key `\` value.
pub open spec fn wire_info_kv(entry: Entry) -> Seq<u8> {
    seq![BACKSLASH] + entry.0 + seq![BACKSLASH] + entry.1
}

/// What an info is written as: its pairs in order.
pub open spec fn wire_info(info: Seq<Entry>) -> Seq<u8>
    decreases info.len(),
{
    if info.len() == 0 {
        Seq::<u8>::empty()
    } else {
        wire_info(info.drop_last()) + wire_info_kv(info.last())
    }
}

/// What an `infoResponse` message is written as:
/// `FF FF FF FF "infoResponse" LF` and the pairs.
pub open spec fn wire_inforesponse_message(message: InfoResponseMessageView) -> Seq<u8> {
    MESSAGE_PREFIX@ + INFORESPONSE@ + seq![NEWLINE] + wire_info(message.info)
}

// --------------------------------------------------------------- getservers

/// An optional game name. A first byte that is a digit (or a space, or no
/// byte at all) means that there is none; otherwise the name is the bytes up
/// to the next digit or space, which must satisfy [`is_game_name`].
pub open spec fn parse_game_name(input: Seq<u8>) -> Parsed<Option<Seq<u8>>> {
    let n = run_len(input, ByteClass::NameByte) as int;
    if n == 0 {
        Ok((input, None))
    } else if is_game_name(input.take(n)) {
        Ok((input.skip(n), Some(input.take(n))))
    } else {
        Err(DeserializationError::Nom(input, SyntaxKind::MapRes))
    }
}

/// A protocol number: the run of digits at the front, read in decimal. No
/// digit, or a value of 2^32 or more, is an error.
pub open spec fn parse_protocol_number(input: Seq<u8>) -> Parsed<u32> {
    let (rest, digits) = parse_run0(input, ByteClass::Digit);
    match decimal_u32(digits) {
        Some(number) => Ok((rest, number)),
        None => Err(DeserializationError::Nom(input, SyntaxKind::MapRes)),
    }
}

/// The filter option `gametype=X`, where `X` is one byte or more up to a space.
pub open spec fn parse_filteroption_gametype(input: Seq<u8>) -> Parsed<FilterOptionView> {
    match parse_tag(input, GAMETYPE@) {
        Err(e) => Err(e),
        Ok((rest, _)) => match parse_run1(rest, ByteClass::NotSpace) {
            Err(e) => Err(e),
            Ok((rest, gametype)) => Ok((rest, FilterOptionView::GameType(gametype))),
        },
    }
}

/// The filter option `empty`.
pub open spec fn parse_filteroption_empty(input: Seq<u8>) -> Parsed<FilterOptionView> {
    match parse_tag(input, EMPTY@) {
        Err(e) => Err(e),
        Ok((rest, _)) => Ok((rest, FilterOptionView::Empty)),
    }
}

/// The filter option `full`.
pub open spec fn parse_filteroption_full(input: Seq<u8>) -> Parsed<FilterOptionView> {
    match parse_tag(input, FULL@) {
        Err(e) => Err(e),
        Ok((rest, _)) => Ok((rest, FilterOptionView::Full)),
    }
}

/// One filter option: `gametype=X`, else `empty`, else `full`; the error is
/// that of the last one tried.
pub open spec fn parse_filteroption(input: Seq<u8>) -> Parsed<FilterOptionView> {
    match parse_filteroption_gametype(input) {
        Ok(parsed) => Ok(parsed),
        Err(_) => match parse_filteroption_empty(input) {
            Ok(parsed) => Ok(parsed),
            Err(_) => parse_filteroption_full(input),
        },
    }
}

/// The filter without any option.
pub open spec fn no_filter() -> FilterOptionsView {
    FilterOptionsView { gametype: None, empty: false, full: false }
}

/// `filter` with `option` set: a later `gametype=` replaces an earlier one,
/// a repeated `empty` or `full` changes nothing.
pub open spec fn with_option(
    filter: FilterOptionsView,
    option: FilterOptionView,
) -> FilterOptionsView {
    match option {
        FilterOptionView::GameType(gametype) => FilterOptionsView {
            gametype: Some(gametype),
            ..filter
        },
        FilterOptionView::Empty => FilterOptionsView { empty: true, ..filter },
        FilterOptionView::Full => FilterOptionsView { full: true, ..filter },
    }
}

/// A filter option that was parsed took bytes from the input.
pub proof fn lemma_filteroption_consumes(input: Seq<u8>)
    ensures
        parse_filteroption(input) matches Ok((rest, _)) ==> rest.len() < input.len(),
{
    if let Ok((r1, _)) = parse_tag(input, GAMETYPE@) {
        lemma_run_len(r1, ByteClass::NotSpace);
    }
}

/// The filter options after the first: each is one space and an option, and
/// they are taken as long as both parse.
pub open spec fn parse_filteroptions_more(input: Seq<u8>, filter: FilterOptionsView) -> (
    Seq<u8>,
    FilterOptionsView,
)
    decreases input.len(),
    via parse_filteroptions_more_decreases
{
    match parse_tag(input, seq![SPACE]) {
        Err(_) => (input, filter),
        Ok((rest, _)) => match parse_filteroption(rest) {
            Err(_) => (input, filter),
            Ok((rest, option)) => parse_filteroptions_more(rest, with_option(filter, option)),
        },
    }
}

#[via_fn]
proof fn parse_filteroptions_more_decreases(input: Seq<u8>, filter: FilterOptionsView) {
    if let Ok((rest, _)) = parse_tag(input, seq![SPACE]) {
        lemma_filteroption_consumes(rest);
    }
}

/// The filter options: none, or options separated by single spaces. Parsing
/// stops, without an error, in front of what is no option.
pub open spec fn parse_filteroptions(input: Seq<u8>) -> (Seq<u8>, FilterOptionsView) {
    match parse_filteroption(input) {
        Err(_) => (input, no_filter()),
        Ok((rest, option)) => parse_filteroptions_more(rest, with_option(no_filter(), option)),
    }
}

/// The payload of `getservers`: spaces, the optional game name, spaces, the
/// protocol number, spaces and the filter options.
pub open spec fn parse_getservers_payload(input: Seq<u8>) -> Parsed<GetServersMessageView> {
    match parse_run1(input, ByteClass::Space) {
        Err(e) => Err(e),
        Ok((rest, _)) => match parse_game_name(rest) {
            Err(e) => Err(e),
            Ok((rest, game_name)) => match parse_protocol_number(
                parse_run0(rest, ByteClass::Space).0,
            ) {
                Err(e) => Err(e),
                Ok((rest, protocol_number)) => {
                    let (rest, filter_options) = parse_filteroptions(
                        parse_run0(rest, ByteClass::Space).0,
                    );
                    Ok((rest, GetServersMessageView { game_name, protocol_number, filter_options }))
                },
            },
        },
    }
}

/// `getservers` and its payload.
pub open spec fn parse_getservers(input: Seq<u8>) -> Parsed<GetServersMessageView> {
    after_command(input, GETSERVERS@, |rest: Seq<u8>| parse_getservers_payload(rest))
}

/// A `getservers` datagram.
pub open spec fn parse_getservers_message(input: Seq<u8>) -> Parsed<GetServersMessageView> {
    after_message_prefix(input, |rest: Seq<u8>| parse_getservers(rest))
}

/// What one filter option is written as: `gametype=X`, `empty` or `full`.
pub open spec fn wire_filter_option(option: FilterOptionView) -> Seq<u8> {
    match option {
        FilterOptionView::GameType(gametype) => GAMETYPE@ + gametype,
        FilterOptionView::Empty => EMPTY@,
        FilterOptionView::Full => FULL@,
    }
}

/// What a filter option is written as where it is set: a space and the option.
pub open spec fn wire_option(set: bool, option: FilterOptionView) -> Seq<u8> {
    if set {
        seq![SPACE] + wire_filter_option(option)
    } else {
        Seq::<u8>::empty()
    }
}

/// What filter options are written as: ` gametype=X`, ` empty`, ` full`, in
/// this order, each only where it is set.
pub open spec fn wire_filter_options(filter: FilterOptionsView) -> Seq<u8> {
    (match filter.gametype {
        Some(gametype) => wire_option(true, FilterOptionView::GameType(gametype)),
        None => Seq::<u8>::empty(),
    }) + wire_option(filter.empty, FilterOptionView::Empty) + wire_option(
        filter.full,
        FilterOptionView::Full,
    )
}

/// What an optional game name is written as: the name and a space, or nothing.
pub open spec fn wire_game_name(game_name: Option<Seq<u8>>) -> Seq<u8> {
    match game_name {
        Some(name) => name + seq![SPACE],
        None => Seq::<u8>::empty(),
    }
}

/// What a `getservers` message is written as:
/// `FF FF FF FF "getservers" SP [name SP] number` and the filter options.
pub open spec fn wire_getservers_message(message: GetServersMessageView) -> Seq<u8> {
    MESSAGE_PREFIX@ + GETSERVERS@ + seq![SPACE] + wire_game_name(message.game_name) + decimal(
        message.protocol_number as nat,
    ) + wire_filter_options(message.filter_options)
}

// ------------------------------------------------------- getserversResponse

/// The socket address that six bytes stand for: four octets and the port,
/// high byte first.
pub open spec fn socketaddr4_of(bytes: Seq<u8>) -> SocketAddrV4 {
    SocketAddrV4 {
        ip: Ipv4Addr { a: bytes[0], b: bytes[1], c: bytes[2], d: bytes[3] },
        port: (bytes[4] * 256 + bytes[5]) as u16,
    }
}

/// A socket address: six bytes. With fewer than four bytes the error stands
/// at the end of the input, with four or five of them behind the octets.
pub open spec fn parse_socketaddr4(input: Seq<u8>) -> Parsed<SocketAddrV4> {
    if input.len() < 4 {
        Err(DeserializationError::Nom(input.skip(input.len() as int), SyntaxKind::Eof))
    } else if input.len() < 6 {
        Err(DeserializationError::Nom(input.skip(4), SyntaxKind::Eof))
    } else {
        Ok((input.skip(6), socketaddr4_of(input.take(6))))
    }
}

/// One server of a list: `\` and the socket address.
pub open spec fn parse_server(input: Seq<u8>) -> Parsed<SocketAddrV4> {
    match parse_tag(input, seq![BACKSLASH]) {
        Err(e) => Err(e),
        Ok((rest, _)) => parse_socketaddr4(rest),
    }
}

/// The end of a server list: input that is exactly the end-of-transmission
/// mark gives `true`, input that is empty gives `false`, any other is an error.
pub open spec fn parse_eot(input: Seq<u8>) -> Parsed<bool> {
    if input == EOT@ {
        Ok((input.skip(7), true))
    } else if input.len() == 0 {
        Ok((input, false))
    } else {
        Err(DeserializationError::Nom(input, SyntaxKind::Tag))
    }
}

/// A server that was parsed took bytes from the input.
pub proof fn lemma_server_consumes(input: Seq<u8>)
    ensures
        parse_server(input) matches Ok((rest, _)) ==> rest.len() + 7 == input.len(),
{
}

/// The servers that follow `servers`, up to the end of the list. At each
/// place the end is tried first.
pub open spec fn parse_servers(input: Seq<u8>, servers: Seq<SocketAddrV4>) -> Parsed<
    GetServersResponseMessageView,
>
    decreases input.len(),
    via parse_servers_decreases
{
    match parse_eot(input) {
        Ok((rest, eot)) => Ok((rest, GetServersResponseMessageView { servers, eot })),
        Err(_) => match parse_server(input) {
            Err(e) => Err(e),
            Ok((rest, server)) => parse_servers(rest, servers.push(server)),
        },
    }
}

#[via_fn]
proof fn parse_servers_decreases(input: Seq<u8>, servers: Seq<SocketAddrV4>) {
    lemma_server_consumes(input);
}

/// The payload of `getserversResponse`: the server list and its end.
pub open spec fn parse_getserversresponse_payload(input: Seq<u8>) -> Parsed<
    GetServersResponseMessageView,
> {
    parse_servers(input, Seq::<SocketAddrV4>::empty())
}

/// `getserversResponse` and its payload.
pub open spec fn parse_getserversresponse(input: Seq<u8>) -> Parsed<GetServersResponseMessageView> {
    after_command(
        input,
        GETSERVERSRESPONSE@,
        |rest: Seq<u8>| parse_getserversresponse_payload(rest),
    )
}

/// A `getserversResponse` datagram.
pub open spec fn parse_getserversresponse_message(input: Seq<u8>) -> Parsed<
    GetServersResponseMessageView,
> {
    after_message_prefix(input, |rest: Seq<u8>| parse_getserversresponse(rest))
}

/// What a server is written as: `\`, the four octets, and the port, high
/// byte first.
pub open spec fn wire_socketaddr4(server: SocketAddrV4) -> Seq<u8> {
    seq![
        BACKSLASH,
        server.ip.a,
        server.ip.b,
        server.ip.c,
        server.ip.d,
        (server.port / 256) as u8,
        (server.port % 256) as u8,
    ]
}

/// What a server list is written as: its servers in order.
pub open spec fn wire_servers(servers: Seq<SocketAddrV4>) -> Seq<u8>
    decreases servers.len(),
{
    if servers.len() == 0 {
        Seq::<u8>::empty()
    } else {
        wire_servers(servers.drop_last()) + wire_socketaddr4(servers.last())
    }
}

/// What a `getserversResponse` message is written as:
/// `FF FF FF FF "getserversResponse"`, the servers, and the end-of-transmission
/// mark where `eot` is set.
pub open spec fn wire_getserversresponse_message(message: GetServersResponseMessageView) -> Seq<
    u8,
> {
    MESSAGE_PREFIX@ + GETSERVERSRESPONSE@ + wire_servers(message.servers) + (if message.eot {
        EOT@
    } else {
        Seq::<u8>::empty()
    })
}

} // verus!
