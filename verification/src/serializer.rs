//! Serializers for the messages: from a message to the bytes of its datagram.
//!
//! Each `gen_*_message` computes the function `wire_*_message` of
//! [`grammar`](crate::grammar): the field order and the delimiters are fixed,
//! and the parser of the same message accepts what is written.
use crate::decimal::write_decimal;
use crate::grammar::{
    all_parsed, parse_getinfo_message, parse_getservers_message, parse_getserversresponse_message,
    parse_heartbeat_message, parse_inforesponse_message,
};
use crate::laws::{
    is_wire_getservers, is_wire_getserversresponse, is_wire_heartbeat, is_wire_inforesponse,
    lemma_getinfo_round_trip, lemma_getservers_round_trip, lemma_getserversresponse_len,
    lemma_getserversresponse_round_trip, lemma_heartbeat_round_trip, lemma_inforesponse_round_trip,
};
use crate::grammar::{
    wire_filter_option, wire_filter_options, wire_getinfo_message, wire_getservers_message,
    wire_getserversresponse_message, wire_heartbeat_message, wire_info, wire_info_kv,
    wire_inforesponse_message, wire_servers, wire_socketaddr4, BACKSLASH, EMPTY, EOT, FULL,
    GAMETYPE, GETINFO, GETSERVERS, GETSERVERSRESPONSE, HEARTBEAT, INFORESPONSE, MESSAGE_PREFIX,
    NEWLINE, SPACE,
};
use crate::messages::{
    is_challenge, Challenge, FilterOption, FilterOptions, GameName, GameType, GetInfoMessage,
    GetServersMessage, GetServersResponseMessage, HeartbeatMessage, Info, InfoResponseMessage,
    ProtocolName, ProtocolNumber,
};
use crate::net::SocketAddrV4;
use vstd::prelude::*;

verus! {

/// Appends `bytes` to `out`.
fn slice(out: &mut Vec<u8>, bytes: &[u8])
    ensures
        final(out)@ == old(out)@ + bytes@,
{
    out.extend_from_slice(bytes);
    assert(final(out)@ =~= old(out)@ + bytes@);
}

fn gen_message_prefix(out: &mut Vec<u8>)
    ensures
        final(out)@ == old(out)@ + MESSAGE_PREFIX@,
{
    slice(out, &MESSAGE_PREFIX)
}

fn gen_protocol_name(protocol_name: &ProtocolName, out: &mut Vec<u8>)
    ensures
        final(out)@ == old(out)@ + protocol_name@,
{
    slice(out, protocol_name.as_bytes())
}

/// The datagram of a heartbeat: `FF FF FF FF "heartbeat" SP name LF`.
pub fn gen_heartbeat_message(message: &HeartbeatMessage) -> (out: Vec<u8>)
    ensures
        out@ == wire_heartbeat_message(message@),
        is_wire_heartbeat(message@) ==> parse_heartbeat_message(out@) == all_parsed(message@),
{
    proof {
        if is_wire_heartbeat(message@) {
            lemma_heartbeat_round_trip(message@);
        }
    }
    let mut out = Vec::new();
    gen_message_prefix(&mut out);
    slice(&mut out, &HEARTBEAT);
    out.push(SPACE);
    gen_protocol_name(message.protocol_name(), &mut out);
    out.push(NEWLINE);
    assert(out@ =~= wire_heartbeat_message(message@));
    out
}

fn gen_challenge(challenge: &Challenge, out: &mut Vec<u8>)
    ensures
        final(out)@ == old(out)@ + challenge@,
        is_challenge(challenge@),
{
    slice(out, challenge.as_bytes())
}

/// The datagram of a `getinfo` message: `FF FF FF FF "getinfo" SP challenge`.
pub fn gen_getinfo_message(message: &GetInfoMessage) -> (out: Vec<u8>)
    ensures
        out@ == wire_getinfo_message(message@),
        parse_getinfo_message(out@) == all_parsed(message@),
{
    let mut out = Vec::new();
    gen_message_prefix(&mut out);
    slice(&mut out, &GETINFO);
    out.push(SPACE);
    gen_challenge(message.challenge(), &mut out);
    assert(out@ =~= wire_getinfo_message(message@));
    proof {
        lemma_getinfo_round_trip(message@);
    }
    out
}

fn gen_info_kv(key: &[u8], value: &[u8], out: &mut Vec<u8>)
    ensures
        final(out)@ == old(out)@ + wire_info_kv((key@, value@)),
{
    out.push(BACKSLASH);
    slice(out, key);
    out.push(BACKSLASH);
    slice(out, value);
    assert(final(out)@ =~= old(out)@ + wire_info_kv((key@, value@)));
}

fn gen_info(info: &Info, out: &mut Vec<u8>)
    ensures
        final(out)@ == old(out)@ + wire_info(info@),
{
    let n = info.len();
    let mut i: usize = 0;
    assert(info@.take(0).len() == 0);
    assert(out@ =~= old(out)@ + wire_info(info@.take(0)));
    while i < n
        invariant
            0 <= i <= n,
            n == info@.len(),
            out@ == old(out)@ + wire_info(info@.take(i as int)),
        decreases n - i,
    {
        match info.get_index(i) {
            Some((key, value)) => {
                gen_info_kv(key, value, out);
                proof {
                    let next = info@.take(i + 1);
                    assert(next.drop_last() =~= info@.take(i as int));
                    assert(next.last() == (key@, value@));
                    assert(out@ =~= old(out)@ + wire_info(next));
                }
            },
            None => {},
        }
        i += 1;
    }
    assert(info@.take(n as int) =~= info@);
}

/// The datagram of an `infoResponse` message: `FF FF FF FF "infoResponse" LF`
/// and, for each pair in order, `\key\value`.
pub fn gen_inforesponse_message(message: &InfoResponseMessage) -> (out: Vec<u8>)
    ensures
        out@ == wire_inforesponse_message(message@),
        is_wire_inforesponse(message@) ==> parse_inforesponse_message(out@) == all_parsed(message@),
{
    proof {
        if is_wire_inforesponse(message@) {
            lemma_inforesponse_round_trip(message@);
        }
    }
    let mut out = Vec::new();
    gen_message_prefix(&mut out);
    slice(&mut out, &INFORESPONSE);
    out.push(NEWLINE);
    gen_info(message.info(), &mut out);
    assert(out@ =~= wire_inforesponse_message(message@));
    out
}

fn gen_game_name(game_name: &GameName, out: &mut Vec<u8>)
    ensures
        final(out)@ == old(out)@ + game_name@,
{
    slice(out, game_name.as_bytes())
}

fn gen_gametype(gametype: &GameType, out: &mut Vec<u8>)
    ensures
        final(out)@ == old(out)@ + gametype@,
{
    slice(out, gametype.as_bytes())
}

fn gen_protocol_number(protocol_number: ProtocolNumber, out: &mut Vec<u8>)
    ensures
        final(out)@ == old(out)@ + crate::decimal::decimal(protocol_number as nat),
{
    write_decimal(protocol_number, out)
}

/// Appends what one filter option is written as: `gametype=X`, `empty` or
/// `full`.
pub fn gen_filter_option(filter_option: &FilterOption, out: &mut Vec<u8>)
    ensures
        final(out)@ == old(out)@ + wire_filter_option(filter_option@),
{
    match filter_option {
        FilterOption::GameType(gametype) => {
            slice(out, &GAMETYPE);
            gen_gametype(gametype, out);
            assert(final(out)@ =~= old(out)@ + wire_filter_option(filter_option@));
        },
        FilterOption::Empty => slice(out, &EMPTY),
        FilterOption::Full => slice(out, &FULL),
    }
}

fn gen_filter_options(filter_options: &FilterOptions, out: &mut Vec<u8>)
    ensures
        final(out)@ == old(out)@ + wire_filter_options(filter_options@),
{
    match filter_options.gametype() {
        Some(gametype) => {
            out.push(SPACE);
            slice(out, &GAMETYPE);
            gen_gametype(gametype, out);
        },
        None => {},
    }
    if filter_options.empty() {
        out.push(SPACE);
        slice(out, &EMPTY);
    }
    if filter_options.full() {
        out.push(SPACE);
        slice(out, &FULL);
    }
    assert(final(out)@ =~= old(out)@ + wire_filter_options(filter_options@));
}

/// The datagram of a `getservers` message:
/// `FF FF FF FF "getservers" SP [name SP] number [SP "gametype=" X] [SP "empty"] [SP "full"]`.
pub fn gen_getservers_message(message: &GetServersMessage) -> (out: Vec<u8>)
    ensures
        out@ == wire_getservers_message(message@),
        is_wire_getservers(message@) ==> parse_getservers_message(out@) == all_parsed(message@),
{
    proof {
        if is_wire_getservers(message@) {
            lemma_getservers_round_trip(message@);
        }
    }
    let mut out = Vec::new();
    gen_message_prefix(&mut out);
    slice(&mut out, &GETSERVERS);
    out.push(SPACE);
    match message.game_name() {
        Some(game_name) => {
            gen_game_name(game_name, &mut out);
            out.push(SPACE);
        },
        None => {},
    }
    gen_protocol_number(message.protocol_number(), &mut out);
    gen_filter_options(message.filter_options(), &mut out);
    assert(out@ =~= wire_getservers_message(message@));
    out
}

fn gen_socketaddrv4(addr: &SocketAddrV4, out: &mut Vec<u8>)
    ensures
        final(out)@ == old(out)@ + wire_socketaddr4(*addr),
{
    let octets = addr.ip().octets();
    out.push(BACKSLASH);
    slice(out, &octets);
    let port = addr.port();
    out.push((port / 256) as u8);
    out.push((port % 256) as u8);
    assert(final(out)@ =~= old(out)@ + wire_socketaddr4(*addr));
}

/// The datagram of a `getserversResponse` message:
/// `FF FF FF FF "getserversResponse"`, for each server in order `\` with its
/// four octets and its port, high byte first, and the end-of-transmission
/// mark where `eot` is set.
pub fn gen_getserversresponse_message(message: &GetServersResponseMessage) -> (out: Vec<u8>)
    ensures
        out@ == wire_getserversresponse_message(message@),
        is_wire_getserversresponse(message@) ==> parse_getserversresponse_message(out@)
            == all_parsed(message@),
        out@.len() == 4 + 18 + 7 * message@.servers.len() + (if message@.eot {
            7nat
        } else {
            0nat
        }),
{
    proof {
        if is_wire_getserversresponse(message@) {
            lemma_getserversresponse_round_trip(message@);
        }
        lemma_getserversresponse_len(message@);
    }
    let mut out = Vec::new();
    gen_message_prefix(&mut out);
    slice(&mut out, &GETSERVERSRESPONSE);
    let servers = message.servers();
    let ghost start = out@;
    let mut i: usize = 0;
    assert(servers@.take(0).len() == 0);
    assert(out@ =~= start + wire_servers(servers@.take(0)));
    while i < servers.len()
        invariant
            0 <= i <= servers@.len(),
            out@ == start + wire_servers(servers@.take(i as int)),
        decreases servers@.len() - i,
    {
        gen_socketaddrv4(&servers[i], &mut out);
        proof {
            let next = servers@.take(i + 1);
            assert(next.drop_last() =~= servers@.take(i as int));
            assert(next.last() == servers@[i as int]);
            assert(out@ =~= start + wire_servers(next));
        }
        i += 1;
    }
    assert(servers@.take(servers@.len() as int) =~= servers@);
    if message.eot() {
        slice(&mut out, &EOT);
    }
    assert(out@ =~= wire_getserversresponse_message(message@));
    out
}

} // verus!
