//! Parsers for the messages: from the bytes of a datagram to a message and
//! the input that is left, or an error that says where parsing failed.
//!
//! A parser named after a command (`heartbeat`) expects the command token
//! first; its `_message` variant expects the message prefix before that. Each
//! one computes the function of the same name in [`grammar`](crate::grammar),
//! never reads past its input and returns the first error it meets.
use crate::bounds::{
    lemma_getinfo_within, lemma_getservers_within, lemma_getserversresponse_within,
    lemma_heartbeat_within, lemma_inforesponse_within, stays_within,
};
use crate::decimal::parse_decimal;
use crate::error::{DeserializationError, SyntaxKind};
use crate::grammar::{
    always, parse_challenge, parse_eot, parse_filteroption, parse_filteroption_empty,
    parse_filteroption_full, parse_filteroption_gametype, parse_filteroptions,
    parse_filteroptions_more, parse_game_name, parse_getinfo, parse_getinfo_message,
    parse_getinfo_payload, parse_getservers, parse_getservers_message, parse_getservers_payload,
    parse_getserversresponse, parse_getserversresponse_message, parse_getserversresponse_payload,
    parse_heartbeat, parse_heartbeat_message, parse_heartbeat_payload, parse_info, parse_info_kv,
    parse_info_more, parse_info_word, parse_inforesponse, parse_inforesponse_message,
    parse_inforesponse_payload, parse_message_prefix, parse_protocol_name, parse_protocol_number,
    parse_server, parse_servers, parse_socketaddr4, parse_tag, starts_with,
    wire_getserversresponse_message, ByteClass, Parsed, BACKSLASH, EMPTY, EOT, FULL, GAMETYPE,
    GETINFO, GETSERVERS, GETSERVERSRESPONSE, HEARTBEAT, INFORESPONSE, MESSAGE_PREFIX, NEWLINE,
    SPACE,
};
use crate::laws::{
    is_wire_getinfo, is_wire_getservers, is_wire_getserversresponse, is_wire_heartbeat,
    is_wire_inforesponse, lemma_getinfo_parsed, lemma_getservers_parsed,
    lemma_getserversresponse_parsed, lemma_heartbeat_parsed, lemma_inforesponse_parsed,
};
use crate::lexer::{bytes_equal, outcome, run_length, split, tag, take_while, take_while1};
use crate::messages::{
    view_of, Challenge, FilterOption, FilterOptions, FilterOptionsView, GameName, GameType,
    GetInfoMessage, GetServersMessage, GetServersResponseMessage, HeartbeatMessage, Info, InfoKey,
    InfoResponseMessage, InfoValue, ProtocolName,
};
use crate::net::{Ipv4Addr, SocketAddrV4};
pub use crate::verbose::{
    ErrorKind, ParseError, VerboseError, VerboseErrorKind, MESSAGE_PREFIX_CONTEXT,
};
use vstd::prelude::*;
use vstd::slice::slice_to_vec;

verus! {

/// What a parser gives: the input that is left and the value, or the error.
pub type ParseResult<'a, T> = Result<(&'a [u8], T), DeserializationError<&'a [u8]>>;

/// The trace of an error of [`message_prefix`] at `input`: a missing token,
/// then the domain code, then the name of the section.
pub open spec fn message_prefix_trace<'a, E: ParseError<&'a [u8]>>(input: &'a [u8]) -> E::Trace {
    E::trace_add_context(
        input,
        MESSAGE_PREFIX_CONTEXT,
        E::trace_append_dpmaster(
            input,
            ErrorKind::MessagePrefix,
            E::trace_from_error_kind(input, SyntaxKind::Tag),
        ),
    )
}

/// Passes `result` up, an error with the domain code `kind` added for the
/// step that began at `input`.
fn append<I, O, E: ParseError<I>>(kind: ErrorKind, input: I, result: Result<O, E>) -> (r: Result<
    O,
    E,
>)
    ensures
        match result {
            Ok(value) => r == Ok::<O, E>(value),
            Err(e) => r is Err && r->Err_0.trace() == E::trace_append_dpmaster(
                input,
                kind,
                e.trace(),
            ),
        },
{
    match result {
        Ok(value) => Ok(value),
        Err(e) => Err(E::append_dpmaster(input, kind, e)),
    }
}

/// Passes `result` up, an error with the section name `ctx` added for the
/// step that began at `input`.
fn context<I, O, E: ParseError<I>>(ctx: &'static str, input: I, result: Result<O, E>) -> (r: Result<
    O,
    E,
>)
    ensures
        match result {
            Ok(value) => r == Ok::<O, E>(value),
            Err(e) => r is Err && r->Err_0.trace() == E::trace_add_context(input, ctx, e.trace()),
        },
{
    match result {
        Ok(value) => Ok(value),
        Err(e) => Err(E::add_context(input, ctx, e)),
    }
}

/// Parser for the `FF FF FF FF` message prefix: what follows the prefix, and
/// the prefix. The error, of any type `E`, has the trace
/// [`message_prefix_trace`].
pub fn message_prefix<'a, E: ParseError<&'a [u8]>>(input: &'a [u8]) -> (r: Result<
    (&'a [u8], &'a [u8]),
    E,
>)
    ensures
        match r {
            Ok((rest, prefix)) => {
                &&& starts_with(input@, MESSAGE_PREFIX@)
                &&& rest@ == input@.skip(4)
                &&& prefix@ == MESSAGE_PREFIX@
            },
            Err(e) => {
                &&& !starts_with(input@, MESSAGE_PREFIX@)
                &&& e.trace() == message_prefix_trace::<E>(input)
            },
        },
{
    let found = match tag(input, &MESSAGE_PREFIX) {
        Ok(found) => Ok(found),
        Err(_) => Err(E::from_error_kind(input, SyntaxKind::Tag)),
    };
    context(MESSAGE_PREFIX_CONTEXT, input, append(ErrorKind::MessagePrefix, input, found))
}

/// The message prefix, for the parsers of whole datagrams.
fn datagram<'a>(input: &'a [u8]) -> (r: ParseResult<'a, &'a [u8]>)
    ensures
        outcome(r) == parse_message_prefix(input@),
{
    message_prefix::<DeserializationError<&'a [u8]>>(input)
}

// ---------------------------------------------------------------- heartbeat

fn protocol_name<'a>(input: &'a [u8]) -> (r: ParseResult<'a, ProtocolName>)
    ensures
        outcome(r) == parse_protocol_name(input@),
{
    let (rest, name) = take_while1(input, ByteClass::NotNewline)?;
    Ok((rest, ProtocolName::new(slice_to_vec(name)).unwrap()))
}

fn heartbeat_command<'a>(input: &'a [u8]) -> (r: ParseResult<'a, &'a [u8]>)
    ensures
        outcome(r) == parse_tag(input@, HEARTBEAT@),
{
    tag(input, &HEARTBEAT)
}

fn heartbeat_payload<'a>(input: &'a [u8]) -> (r: ParseResult<'a, HeartbeatMessage>)
    ensures
        outcome(r) == parse_heartbeat_payload(input@),
{
    let (rest, _) = take_while1(input, ByteClass::Space)?;
    let (rest, protocol_name) = protocol_name(rest)?;
    let (rest, _) = take_while(rest, ByteClass::Newline);
    Ok((rest, HeartbeatMessage::new(protocol_name)))
}

/// Parses `heartbeat`, spaces, a protocol name and trailing newlines.
pub fn heartbeat<'a>(input: &'a [u8]) -> (r: ParseResult<'a, HeartbeatMessage>)
    ensures
        outcome(r) == parse_heartbeat(input@),
        stays_within(outcome(r), input@),
        r matches Ok((_, message)) ==> is_wire_heartbeat(message@),
{
    proof {
        lemma_heartbeat_within(input@);
        lemma_heartbeat_parsed(input@);
    }
    let (rest, _) = heartbeat_command(input)?;
    heartbeat_payload(rest)
}

/// Parses a heartbeat datagram: the message prefix and [`heartbeat`].
pub fn heartbeat_message<'a>(input: &'a [u8]) -> (r: ParseResult<'a, HeartbeatMessage>)
    ensures
        outcome(r) == parse_heartbeat_message(input@),
        stays_within(outcome(r), input@),
        r matches Ok((_, message)) ==> is_wire_heartbeat(message@),
{
    proof {
        lemma_heartbeat_within(input@);
        lemma_heartbeat_parsed(input@);
    }
    let (rest, _) = datagram(input)?;
    heartbeat(rest)
}

// ------------------------------------------------------------------ getinfo

fn getinfo_command<'a>(input: &'a [u8]) -> (r: ParseResult<'a, &'a [u8]>)
    ensures
        outcome(r) == parse_tag(input@, GETINFO@),
{
    tag(input, &GETINFO)
}

fn challenge<'a>(input: &'a [u8]) -> (r: ParseResult<'a, Challenge>)
    ensures
        outcome(r) == parse_challenge(input@),
{
    let (rest, bytes) = split(input, input.len());
    assert(bytes@ =~= input@);
    match Challenge::new(slice_to_vec(bytes)) {
        Ok(challenge) => Ok((rest, challenge)),
        Err(e) => Err(DeserializationError::from_external_error(input, SyntaxKind::MapRes, e)),
    }
}

fn getinfo_payload<'a>(input: &'a [u8]) -> (r: ParseResult<'a, GetInfoMessage>)
    ensures
        outcome(r) == parse_getinfo_payload(input@),
{
    let (rest, _) = take_while1(input, ByteClass::Space)?;
    let (rest, challenge) = challenge(rest)?;
    Ok((rest, GetInfoMessage::new(challenge)))
}

/// Parses `getinfo`, spaces and a challenge, which is all that is left.
pub fn getinfo<'a>(input: &'a [u8]) -> (r: ParseResult<'a, GetInfoMessage>)
    ensures
        outcome(r) == parse_getinfo(input@),
        stays_within(outcome(r), input@),
        r matches Ok((rest, message)) ==> rest@.len() == 0 && is_wire_getinfo(message@),
{
    proof {
        lemma_getinfo_within(input@);
        lemma_getinfo_parsed(input@);
    }
    let (rest, _) = getinfo_command(input)?;
    getinfo_payload(rest)
}

/// Parses a `getinfo` datagram: the message prefix and [`getinfo`].
pub fn getinfo_message<'a>(input: &'a [u8]) -> (r: ParseResult<'a, GetInfoMessage>)
    ensures
        outcome(r) == parse_getinfo_message(input@),
        stays_within(outcome(r), input@),
        r matches Ok((rest, message)) ==> rest@.len() == 0 && is_wire_getinfo(message@),
{
    proof {
        lemma_getinfo_within(input@);
        lemma_getinfo_parsed(input@);
    }
    let (rest, _) = datagram(input)?;
    getinfo(rest)
}

// ------------------------------------------------------------- infoResponse

fn inforesponse_command<'a>(input: &'a [u8]) -> (r: ParseResult<'a, &'a [u8]>)
    ensures
        outcome(r) == parse_tag(input@, INFORESPONSE@),
{
    tag(input, &INFORESPONSE)
}

fn info_key<'a>(input: &'a [u8]) -> (r: ParseResult<'a, InfoKey>)
    ensures
        outcome(r) == parse_info_word(input@),
{
    let (rest, key) = take_while1(input, ByteClass::NotBackslash)?;
    Ok((rest, InfoKey::new(slice_to_vec(key)).unwrap()))
}

fn info_value<'a>(input: &'a [u8]) -> (r: ParseResult<'a, InfoValue>)
    ensures
        outcome(r) == parse_info_word(input@),
{
    let (rest, value) = take_while1(input, ByteClass::NotBackslash)?;
    Ok((rest, InfoValue::new(slice_to_vec(value)).unwrap()))
}

fn info_kv<'a>(input: &'a [u8]) -> (r: ParseResult<'a, (InfoKey, InfoValue)>)
    ensures
        outcome(r) == parse_info_kv(input@),
{
    let separator = [BACKSLASH];
    assert(separator@ =~= seq![BACKSLASH]);
    let (rest, _) = tag(input, &separator)?;
    let (rest, key) = info_key(rest)?;
    let (rest, _) = tag(rest, &separator)?;
    let (rest, value) = info_value(rest)?;
    Ok((rest, (key, value)))
}

fn info<'a>(input: &'a [u8]) -> (r: ParseResult<'a, Info>)
    ensures
        outcome(r) == parse_info(input@),
{
    let (first_rest, (key, value)) = match info_kv(input) {
        Ok(parsed) => parsed,
        Err(e) => {
            return Err(DeserializationError::append(input, SyntaxKind::Many1, e));
        },
    };
    let mut info = Info::new();
    info.insert(key, value);
    let mut rest = first_rest;
    loop
        invariant
            parse_info(input@) == always(parse_info_more(rest@, info@)),
        decreases rest@.len(),
    {
        match info_kv(rest) {
            Err(_) => {
                return Ok((rest, info));
            },
            Ok((next, (key, value))) => {
                proof {
                    crate::grammar::lemma_info_kv_consumes(rest@);
                }
                info.insert(key, value);
                rest = next;
            },
        }
    }
}

fn inforesponse_payload<'a>(input: &'a [u8]) -> (r: ParseResult<'a, InfoResponseMessage>)
    ensures
        outcome(r) == parse_inforesponse_payload(input@),
{
    let newline = [NEWLINE];
    assert(newline@ =~= seq![NEWLINE]);
    let (rest, _) = tag(input, &newline)?;
    let (rest, info) = info(rest)?;
    Ok((rest, InfoResponseMessage::new(info)))
}

/// Parses `infoResponse`, one newline and one or more `\key\value` pairs.
/// What follows the last pair that parses is left over.
pub fn inforesponse<'a>(input: &'a [u8]) -> (r: ParseResult<'a, InfoResponseMessage>)
    ensures
        outcome(r) == parse_inforesponse(input@),
        stays_within(outcome(r), input@),
        r matches Ok((_, message)) ==> is_wire_inforesponse(message@),
{
    proof {
        lemma_inforesponse_within(input@);
        lemma_inforesponse_parsed(input@);
    }
    let (rest, _) = inforesponse_command(input)?;
    inforesponse_payload(rest)
}

/// Parses an `infoResponse` datagram: the message prefix and [`inforesponse`].
pub fn inforesponse_message<'a>(input: &'a [u8]) -> (r: ParseResult<'a, InfoResponseMessage>)
    ensures
        outcome(r) == parse_inforesponse_message(input@),
        stays_within(outcome(r), input@),
        r matches Ok((_, message)) ==> is_wire_inforesponse(message@),
{
    proof {
        lemma_inforesponse_within(input@);
        lemma_inforesponse_parsed(input@);
    }
    let (rest, _) = datagram(input)?;
    inforesponse(rest)
}

// --------------------------------------------------------------- getservers

fn getservers_command<'a>(input: &'a [u8]) -> (r: ParseResult<'a, &'a [u8]>)
    ensures
        outcome(r) == parse_tag(input@, GETSERVERS@),
{
    tag(input, &GETSERVERS)
}

/// The view of an optional game name that a parser returned.
pub open spec fn game_name_outcome<'a>(r: ParseResult<'a, Option<GameName>>) -> Parsed<
    Option<Seq<u8>>,
> {
    match r {
        Ok((rest, game_name)) => Ok((rest@, view_of(game_name))),
        Err(e) => Err(e@),
    }
}

fn game_name<'a>(input: &'a [u8]) -> (r: ParseResult<'a, Option<GameName>>)
    ensures
        game_name_outcome(r) == parse_game_name(input@),
{
    let n = run_length(input, ByteClass::NameByte);
    if n == 0 {
        return Ok((input, None));
    }
    let (rest, bytes) = split(input, n);
    match GameName::new(slice_to_vec(bytes)) {
        Ok(game_name) => Ok((rest, Some(game_name))),
        Err(e) => Err(DeserializationError::from_external_error(input, SyntaxKind::MapRes, e)),
    }
}

fn protocol_number<'a>(input: &'a [u8]) -> (r: ParseResult<'a, u32>)
    ensures
        outcome(r) == parse_protocol_number(input@),
{
    let (rest, digits) = take_while(input, ByteClass::Digit);
    match parse_decimal(digits) {
        Some(number) => Ok((rest, number)),
        None => Err(DeserializationError::from_external_error(input, SyntaxKind::MapRes, ())),
    }
}

fn filteroption_gametype<'a>(input: &'a [u8]) -> (r: ParseResult<'a, FilterOption>)
    ensures
        outcome(r) == parse_filteroption_gametype(input@),
{
    let (rest, _) = tag(input, &GAMETYPE)?;
    let (rest, gametype) = take_while1(rest, ByteClass::NotSpace)?;
    Ok((rest, FilterOption::GameType(GameType::new(slice_to_vec(gametype)).unwrap())))
}

fn filteroption_empty<'a>(input: &'a [u8]) -> (r: ParseResult<'a, FilterOption>)
    ensures
        outcome(r) == parse_filteroption_empty(input@),
{
    let (rest, _) = tag(input, &EMPTY)?;
    Ok((rest, FilterOption::Empty))
}

fn filteroption_full<'a>(input: &'a [u8]) -> (r: ParseResult<'a, FilterOption>)
    ensures
        outcome(r) == parse_filteroption_full(input@),
{
    let (rest, _) = tag(input, &FULL)?;
    Ok((rest, FilterOption::Full))
}

fn filteroption<'a>(input: &'a [u8]) -> (r: ParseResult<'a, FilterOption>)
    ensures
        outcome(r) == parse_filteroption(input@),
{
    match filteroption_gametype(input) {
        Ok(parsed) => Ok(parsed),
        Err(_) => match filteroption_empty(input) {
            Ok(parsed) => Ok(parsed),
            Err(_) => filteroption_full(input),
        },
    }
}

/// The filter that `gametype`, `empty` and `full` stand for.
pub open spec fn filter_of(
    gametype: Option<GameType>,
    empty: bool,
    full: bool,
) -> FilterOptionsView {
    FilterOptionsView { gametype: view_of(gametype), empty, full }
}

fn filteroptions<'a>(input: &'a [u8]) -> (r: ParseResult<'a, FilterOptions>)
    ensures
        outcome(r) == always(parse_filteroptions(input@)),
{
    let mut gametype: Option<GameType> = None;
    let mut empty: bool = false;
    let mut full: bool = false;

    let mut rest = input;
    match filteroption(rest) {
        Err(_) => {
            return Ok((rest, FilterOptions::new(gametype, empty, full)));
        },
        Ok((next, option)) => {
            match option {
                FilterOption::GameType(g) => {
                    gametype = Some(g);
                },
                FilterOption::Empty => {
                    empty = true;
                },
                FilterOption::Full => {
                    full = true;
                },
            }
            rest = next;
        },
    }
    let separator = [SPACE];
    assert(separator@ =~= seq![SPACE]);
    loop
        invariant
            separator@ == seq![SPACE],
            parse_filteroptions(input@) == parse_filteroptions_more(
                rest@,
                filter_of(gametype, empty, full),
            ),
        decreases rest@.len(),
    {
        let after_separator = match tag(rest, &separator) {
            Err(_) => {
                return Ok((rest, FilterOptions::new(gametype, empty, full)));
            },
            Ok((after_separator, _)) => after_separator,
        };
        match filteroption(after_separator) {
            Err(_) => {
                return Ok((rest, FilterOptions::new(gametype, empty, full)));
            },
            Ok((next, option)) => {
                proof {
                    crate::grammar::lemma_filteroption_consumes(after_separator@);
                }
                match option {
                    FilterOption::GameType(g) => {
                        gametype = Some(g);
                    },
                    FilterOption::Empty => {
                        empty = true;
                    },
                    FilterOption::Full => {
                        full = true;
                    },
                }
                rest = next;
            },
        }
    }
}

fn getservers_payload<'a>(input: &'a [u8]) -> (r: ParseResult<'a, GetServersMessage>)
    ensures
        outcome(r) == parse_getservers_payload(input@),
{
    let (rest, _) = take_while1(input, ByteClass::Space)?;
    let (rest, game_name) = game_name(rest)?;
    let (rest, _) = take_while(rest, ByteClass::Space);
    let (rest, protocol_number) = protocol_number(rest)?;
    let (rest, _) = take_while(rest, ByteClass::Space);
    let (rest, filteroptions) = filteroptions(rest)?;
    Ok((rest, GetServersMessage::new(game_name, protocol_number, filteroptions)))
}

/// Parses `getservers`, an optional game name, a protocol number and filter
/// options. What follows the last filter option that parses is left over.
pub fn getservers<'a>(input: &'a [u8]) -> (r: ParseResult<'a, GetServersMessage>)
    ensures
        outcome(r) == parse_getservers(input@),
        stays_within(outcome(r), input@),
        r matches Ok((_, message)) ==> is_wire_getservers(message@),
{
    proof {
        lemma_getservers_within(input@);
        lemma_getservers_parsed(input@);
    }
    let (rest, _) = getservers_command(input)?;
    getservers_payload(rest)
}

/// Parses a `getservers` datagram: the message prefix and [`getservers`].
pub fn getservers_message<'a>(input: &'a [u8]) -> (r: ParseResult<'a, GetServersMessage>)
    ensures
        outcome(r) == parse_getservers_message(input@),
        stays_within(outcome(r), input@),
        r matches Ok((_, message)) ==> is_wire_getservers(message@),
{
    proof {
        lemma_getservers_within(input@);
        lemma_getservers_parsed(input@);
    }
    let (rest, _) = datagram(input)?;
    getservers(rest)
}

// ------------------------------------------------------- getserversResponse

/// What a parser of a plain value returned, with every slice replaced by its view.
pub open spec fn plain_outcome<'a, T>(r: ParseResult<'a, T>) -> Parsed<T> {
    match r {
        Ok((rest, value)) => Ok((rest@, value)),
        Err(e) => Err(e@),
    }
}

fn socketaddr4<'a>(input: &'a [u8]) -> (r: ParseResult<'a, SocketAddrV4>)
    ensures
        plain_outcome(r) == parse_socketaddr4(input@),
{
    let len = input.len();
    if len < 4 {
        let (end, _) = split(input, len);
        return Err(DeserializationError::Nom(end, SyntaxKind::Eof));
    }
    let (after_octets, _) = split(input, 4);
    if len < 6 {
        return Err(DeserializationError::Nom(after_octets, SyntaxKind::Eof));
    }
    let ipv4addr = Ipv4Addr::new(input[0], input[1], input[2], input[3]);
    let port: u16 = (input[4] as u16) * 256 + input[5] as u16;
    let (rest, _) = split(input, 6);
    Ok((rest, SocketAddrV4::new(ipv4addr, port)))
}

fn socketaddr4_separator<'a>(input: &'a [u8]) -> (r: ParseResult<'a, &'a [u8]>)
    ensures
        outcome(r) == parse_tag(input@, seq![BACKSLASH]),
{
    let separator = [BACKSLASH];
    assert(separator@ =~= seq![BACKSLASH]);
    tag(input, &separator)
}

fn server<'a>(input: &'a [u8]) -> (r: ParseResult<'a, SocketAddrV4>)
    ensures
        plain_outcome(r) == parse_server(input@),
{
    let (rest, _) = socketaddr4_separator(input)?;
    socketaddr4(rest)
}

fn eot<'a>(input: &'a [u8]) -> (r: ParseResult<'a, bool>)
    ensures
        outcome(r) == parse_eot(input@),
{
    if bytes_equal(input, &EOT) {
        let (rest, _) = split(input, 7);
        Ok((rest, true))
    } else if input.len() == 0 {
        Ok((input, false))
    } else {
        Err(DeserializationError::Nom(input, SyntaxKind::Tag))
    }
}

fn getserversresponse_payload<'a>(input: &'a [u8]) -> (r: ParseResult<
    'a,
    GetServersResponseMessage,
>)
    ensures
        outcome(r) == parse_getserversresponse_payload(input@),
{
    let mut servers: Vec<SocketAddrV4> = Vec::new();
    let mut rest = input;
    loop
        invariant
            parse_getserversresponse_payload(input@) == parse_servers(rest@, servers@),
        decreases rest@.len(),
    {
        match eot(rest) {
            Ok((end, eot)) => {
                return Ok((end, GetServersResponseMessage::new(servers, eot)));
            },
            Err(_) => {},
        }
        match server(rest) {
            Err(e) => {
                return Err(DeserializationError::append(rest, SyntaxKind::ManyTill, e));
            },
            Ok((next, address)) => {
                proof {
                    crate::grammar::lemma_server_consumes(rest@);
                }
                servers.push(address);
                rest = next;
            },
        }
    }
}

fn getserversresponse_command<'a>(input: &'a [u8]) -> (r: ParseResult<'a, &'a [u8]>)
    ensures
        outcome(r) == parse_tag(input@, GETSERVERSRESPONSE@),
{
    tag(input, &GETSERVERSRESPONSE)
}

/// Parses `getserversResponse`, any number of `\` + address + port, and the
/// end: the end-of-transmission mark, or the end of the input. Nothing is
/// left over.
pub fn getserversresponse<'a>(input: &'a [u8]) -> (r: ParseResult<'a, GetServersResponseMessage>)
    ensures
        outcome(r) == parse_getserversresponse(input@),
        stays_within(outcome(r), input@),
        r matches Ok((rest, message)) ==> rest@.len() == 0 && is_wire_getserversresponse(message@),
{
    proof {
        lemma_getserversresponse_within(input@);
        lemma_getserversresponse_parsed(input@);
    }
    let (rest, _) = getserversresponse_command(input)?;
    getserversresponse_payload(rest)
}

/// Parses a `getserversResponse` datagram: the message prefix and
/// [`getserversresponse`].
pub fn getserversresponse_message<'a>(input: &'a [u8]) -> (r: ParseResult<
    'a,
    GetServersResponseMessage,
>)
    ensures
        outcome(r) == parse_getserversresponse_message(input@),
        stays_within(outcome(r), input@),
        r matches Ok((rest, message)) ==> {
            &&& rest@.len() == 0
            &&& is_wire_getserversresponse(message@)
            &&& wire_getserversresponse_message(message@) == input@
        },
{
    proof {
        lemma_getserversresponse_within(input@);
        lemma_getserversresponse_parsed(input@);
    }
    let (rest, _) = datagram(input)?;
    getserversresponse(rest)
}

} // verus!
