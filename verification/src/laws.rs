//! The laws of the codec: parsing undoes serializing.
//!
//! A message can be carried by the wire format where each of its fields can
//! be told from what stands next to it: `is_wire_*` says so for each message
//! kind. For such a message, parsing its datagram gives the message back and
//! leaves nothing over; and every message that a parser returns is such a
//! message.
use crate::decimal::{decimal, lemma_decimal_digits, lemma_decimal_u32};
use crate::grammar::{
    all_parsed, is_digit_byte, lemma_run_len, lemma_run_len_unique, no_filter, parse_eot,
    parse_filteroption, parse_filteroptions, parse_filteroptions_more, parse_game_name,
    parse_getinfo, parse_getinfo_message, parse_getinfo_payload, parse_getservers,
    parse_getservers_message, parse_getservers_payload, parse_getserversresponse,
    parse_getserversresponse_message, parse_heartbeat, parse_heartbeat_message,
    parse_heartbeat_payload, parse_info_kv, parse_info_more, parse_info_word, parse_inforesponse,
    parse_inforesponse_message, parse_inforesponse_payload, parse_message_prefix,
    parse_protocol_number, parse_run0, parse_run1, parse_server, parse_servers, parse_tag, parsed,
    run_len, socketaddr4_of, wire_filter_option, wire_filter_options, wire_game_name,
    wire_getinfo_message, wire_getservers_message, wire_getserversresponse_message,
    wire_heartbeat_message, wire_info, wire_info_kv, wire_inforesponse_message, wire_option,
    wire_servers, wire_socketaddr4, with_option, ByteClass, BACKSLASH, EMPTY, EOT, FULL, GAMETYPE,
    GETINFO, GETSERVERS, GETSERVERSRESPONSE, HEARTBEAT, INFORESPONSE, MESSAGE_PREFIX, NEWLINE,
    SPACE,
};
use crate::messages::{
    is_challenge, is_game_name, FilterOptionView, FilterOptionsView, GetInfoMessageView,
    GetServersMessageView, GetServersResponseMessageView, HeartbeatMessageView,
    InfoResponseMessageView,
};
use crate::net::{Ipv4Addr, SocketAddrV4};
use crate::ordered::{index_of_key, keys_distinct, lemma_index_of_key, with_entry, Entry};
use vstd::prelude::*;

verus! {

/// Whether every byte of `s` belongs to `class`.
pub open spec fn all_in(s: Seq<u8>, class: ByteClass) -> bool {
    forall|i: int| 0 <= i < s.len() ==> class.has(#[trigger] s[i])
}

/// `token` in front of `rest` is taken as the token, and `rest` is left.
pub proof fn lemma_tag_then(token: Seq<u8>, rest: Seq<u8>)
    ensures
        parse_tag(token + rest, token) == parsed(rest, token),
{
    assert((token + rest).take(token.len() as int) =~= token);
    assert((token + rest).skip(token.len() as int) =~= rest);
}

/// Bytes of a class in front of `rest`, which does not go on with a byte of
/// the class, are taken as the run, and `rest` is left.
pub proof fn lemma_run_then(run: Seq<u8>, rest: Seq<u8>, class: ByteClass)
    requires
        all_in(run, class),
        rest.len() > 0 ==> !class.has(rest[0]),
    ensures
        run_len(run + rest, class) == run.len(),
        parse_run0(run + rest, class) == (rest, run),
{
    let s = run + rest;
    assert forall|j: int| 0 <= j < run.len() implies class.has(#[trigger] s[j]) by {
        assert(s[j] == run[j]);
    }
    if run.len() < s.len() {
        assert(s[run.len() as int] == rest[0]);
    }
    lemma_run_len_unique(s, class, run.len());
    assert(s.take(run.len() as int) =~= run);
    assert(s.skip(run.len() as int) =~= rest);
}

/// What a run took belongs to the class, and what is left does not go on
/// with a byte of the class.
pub proof fn lemma_run0_split(input: Seq<u8>, class: ByteClass)
    ensures
        all_in(parse_run0(input, class).1, class),
        parse_run0(input, class).1.len() == run_len(input, class),
        parse_run0(input, class).0.len() > 0 ==> !class.has(parse_run0(input, class).0[0]),
        parse_run0(input, class).1 + parse_run0(input, class).0 == input,
{
    lemma_run_len(input, class);
    let (rest, run) = parse_run0(input, class);
}

// ---------------------------------------------------------------- heartbeat

/// Whether the wire format can carry the heartbeat: the protocol name is
/// not empty, holds no newline and does not begin with a space.
pub open spec fn is_wire_heartbeat(message: HeartbeatMessageView) -> bool {
    &&& message.protocol_name.len() > 0
    &&& all_in(message.protocol_name, ByteClass::NotNewline)
    &&& message.protocol_name[0] != SPACE
}

/// Parsing the datagram of a heartbeat gives the heartbeat back and leaves
/// nothing over.
pub proof fn lemma_heartbeat_round_trip(message: HeartbeatMessageView)
    requires
        is_wire_heartbeat(message),
    ensures
        parse_heartbeat_message(wire_heartbeat_message(message)) == all_parsed(message),
{
    let name = message.protocol_name;
    let wire = wire_heartbeat_message(message);
    let r1 = HEARTBEAT@ + seq![SPACE] + name + seq![NEWLINE];
    let r2 = seq![SPACE] + name + seq![NEWLINE];
    let r3 = name + seq![NEWLINE];
    let r4 = seq![NEWLINE];
    let r5 = Seq::<u8>::empty();
    assert(wire =~= MESSAGE_PREFIX@ + r1);
    lemma_tag_then(MESSAGE_PREFIX@, r1);
    assert(r1 =~= HEARTBEAT@ + r2);
    lemma_tag_then(HEARTBEAT@, r2);
    assert(r2 =~= seq![SPACE] + r3);
    lemma_run_then(seq![SPACE], r3, ByteClass::Space);
    lemma_run_then(name, r4, ByteClass::NotNewline);
    lemma_run_then(r4, r5, ByteClass::Newline);
}

/// Every heartbeat that a parser returns can be carried by the wire format.
pub proof fn lemma_heartbeat_parsed(input: Seq<u8>)
    ensures
        parse_heartbeat_payload(input) matches Ok((_, message)) ==> is_wire_heartbeat(message),
        parse_heartbeat(input) matches Ok((_, message)) ==> is_wire_heartbeat(message),
        parse_heartbeat_message(input) matches Ok((_, message)) ==> is_wire_heartbeat(message),
{
    assert forall|input: Seq<u8>|
        (#[trigger] parse_heartbeat_payload(input) matches Ok((_, message)) ==> is_wire_heartbeat(
            message,
        )) by {
        lemma_run0_split(input, ByteClass::Space);
        if let Ok((r1, _)) = parse_run1(input, ByteClass::Space) {
            lemma_run0_split(r1, ByteClass::NotNewline);
        }
    }
}

// ------------------------------------------------------------------ getinfo

/// Whether the wire format can carry the `getinfo` message: its challenge
/// is one.
pub open spec fn is_wire_getinfo(message: GetInfoMessageView) -> bool {
    is_challenge(message.challenge)
}

/// Parsing the datagram of a `getinfo` message gives the message back and
/// leaves nothing over.
pub proof fn lemma_getinfo_round_trip(message: GetInfoMessageView)
    requires
        is_wire_getinfo(message),
    ensures
        parse_getinfo_message(wire_getinfo_message(message)) == all_parsed(message),
{
    let challenge = message.challenge;
    let wire = wire_getinfo_message(message);
    let r1 = GETINFO@ + seq![SPACE] + challenge;
    let r2 = seq![SPACE] + challenge;
    assert(wire =~= MESSAGE_PREFIX@ + r1);
    lemma_tag_then(MESSAGE_PREFIX@, r1);
    assert(r1 =~= GETINFO@ + r2);
    lemma_tag_then(GETINFO@, r2);
    lemma_run_then(seq![SPACE], challenge, ByteClass::Space);
    assert(challenge.skip(challenge.len() as int) =~= Seq::<u8>::empty());
}

/// Every `getinfo` message that a parser returns holds a challenge, and
/// nothing is left over behind it.
pub proof fn lemma_getinfo_parsed(input: Seq<u8>)
    ensures
        parse_getinfo_payload(input) matches Ok((rest, message)) ==> is_wire_getinfo(message)
            && rest.len() == 0,
        parse_getinfo(input) matches Ok((rest, message)) ==> is_wire_getinfo(message) && rest.len()
            == 0,
        parse_getinfo_message(input) matches Ok((rest, message)) ==> is_wire_getinfo(message)
            && rest.len() == 0,
{
}

// ------------------------------------------------------------- infoResponse

/// Whether `s` can stand as a key or a value of an info string: it is not
/// empty and holds no backslash.
pub open spec fn is_info_word(s: Seq<u8>) -> bool {
    s.len() > 0 && all_in(s, ByteClass::NotBackslash)
}

/// Whether every key and every value of `info` can stand in an info string.
pub open spec fn all_info_words(info: Seq<Entry>) -> bool {
    forall|i: int|
        0 <= i < info.len() ==> is_info_word((#[trigger] info[i]).0) && is_info_word(info[i].1)
}

/// Whether the wire format can carry the `infoResponse` message: there is
/// at least one pair, no key occurs twice, and every key and value is not
/// empty and holds no backslash.
pub open spec fn is_wire_inforesponse(message: InfoResponseMessageView) -> bool {
    &&& message.info.len() > 0
    &&& keys_distinct(message.info)
    &&& all_info_words(message.info)
}

/// An info is written as its first pair and then the others.
pub proof fn lemma_wire_info_front(first: Entry, others: Seq<Entry>)
    ensures
        wire_info(seq![first] + others) == wire_info_kv(first) + wire_info(others),
    decreases others.len(),
{
    let all = seq![first] + others;
    if others.len() == 0 {
        assert(wire_info(all.drop_last()) =~= Seq::<u8>::empty());
    } else {
        lemma_wire_info_front(first, others.drop_last());
        assert(all.drop_last() =~= seq![first] + others.drop_last());
    }
}

/// What an info is written as is empty or begins with a backslash.
pub proof fn lemma_wire_info_begins(info: Seq<Entry>)
    ensures
        info.len() == 0 ==> wire_info(info).len() == 0,
        info.len() > 0 ==> wire_info(info).len() > 0 && wire_info(info)[0] == BACKSLASH,
{
    if info.len() > 0 {
        assert(info =~= seq![info[0]] + info.skip(1));
        lemma_wire_info_front(info[0], info.skip(1));
    }
}

/// A pair in front of `tail`, which does not go on with the pair's value, is
/// parsed as the pair, and `tail` is left.
pub proof fn lemma_info_kv_then(entry: Entry, tail: Seq<u8>)
    requires
        is_info_word(entry.0),
        is_info_word(entry.1),
        tail.len() > 0 ==> tail[0] == BACKSLASH,
    ensures
        parse_info_kv(wire_info_kv(entry) + tail) == parsed(tail, entry),
{
    let separator = seq![BACKSLASH];
    let r1 = entry.0 + separator + entry.1 + tail;
    let r2 = separator + entry.1 + tail;
    let r3 = entry.1 + tail;
    assert(wire_info_kv(entry) + tail =~= separator + r1);
    lemma_tag_then(separator, r1);
    assert(r1 =~= entry.0 + r2);
    lemma_run_then(entry.0, r2, ByteClass::NotBackslash);
    assert(r2 =~= separator + r3);
    lemma_tag_then(separator, r3);
    lemma_run_then(entry.1, tail, ByteClass::NotBackslash);
}

/// Parsing what pairs with new keys are written as enters them behind those
/// that are there, and leaves nothing over.
pub proof fn lemma_info_more_round_trip(info: Seq<Entry>, others: Seq<Entry>)
    requires
        keys_distinct(info + others),
        all_info_words(others),
    ensures
        parse_info_more(wire_info(others), info) == (Seq::<u8>::empty(), info + others),
    decreases others.len(),
{
    if others.len() > 0 {
        let first = others[0];
        let tail = others.skip(1);
        assert(others =~= seq![first] + tail);
        lemma_wire_info_front(first, tail);
        lemma_wire_info_begins(tail);
        lemma_info_kv_then(first, wire_info(tail));
        // The key of `first` is new: the keys of `info + others` are distinct.
        let all = info + others;
        lemma_index_of_key(info, first.0);
        assert(all[info.len() as int] == first);
        if let Some(index) = index_of_key(info, first.0) {
            assert(all[index] == info[index]);
        }
        let next = with_entry(info, first.0, first.1);
        assert(next + tail =~= all);
        assert forall|i: int| 0 <= i < tail.len() implies is_info_word((#[trigger] tail[i]).0)
            && is_info_word(tail[i].1) by {
            assert(tail[i] == others[i + 1]);
        }
        lemma_info_more_round_trip(next, tail);
    }
}

/// Parsing the datagram of an `infoResponse` message gives the message back
/// and leaves nothing over.
pub proof fn lemma_inforesponse_round_trip(message: InfoResponseMessageView)
    requires
        is_wire_inforesponse(message),
    ensures
        parse_inforesponse_message(wire_inforesponse_message(message)) == all_parsed(message),
{
    let info = message.info;
    let wire = wire_inforesponse_message(message);
    let r1 = INFORESPONSE@ + seq![NEWLINE] + wire_info(info);
    let r2 = seq![NEWLINE] + wire_info(info);
    assert(wire =~= MESSAGE_PREFIX@ + r1);
    lemma_tag_then(MESSAGE_PREFIX@, r1);
    assert(r1 =~= INFORESPONSE@ + r2);
    lemma_tag_then(INFORESPONSE@, r2);
    lemma_tag_then(seq![NEWLINE], wire_info(info));
    let first = info[0];
    let tail = info.skip(1);
    assert(info =~= seq![first] + tail);
    lemma_wire_info_front(first, tail);
    lemma_wire_info_begins(tail);
    lemma_info_kv_then(first, wire_info(tail));
    let start = with_entry(Seq::<Entry>::empty(), first.0, first.1);
    assert forall|i: int| 0 <= i < tail.len() implies is_info_word((#[trigger] tail[i]).0)
        && is_info_word(tail[i].1) by {
        assert(tail[i] == info[i + 1]);
    }
    lemma_info_more_round_trip(start, tail);
}

/// A pair that was parsed is made of a key and a value that can stand in an
/// info string.
pub proof fn lemma_info_kv_parsed(input: Seq<u8>)
    ensures
        parse_info_kv(input) matches Ok((_, entry)) ==> is_info_word(entry.0) && is_info_word(
            entry.1,
        ),
{
    if let Ok((r1, _)) = parse_tag(input, seq![BACKSLASH]) {
        lemma_run0_split(r1, ByteClass::NotBackslash);
        if let Ok((r2, _)) = parse_info_word(r1) {
            if let Ok((r3, _)) = parse_tag(r2, seq![BACKSLASH]) {
                lemma_run0_split(r3, ByteClass::NotBackslash);
            }
        }
    }
}

/// Entering a pair of words keeps an info that the wire format can carry.
pub proof fn lemma_with_entry_wire(info: Seq<Entry>, key: Seq<u8>, value: Seq<u8>)
    requires
        keys_distinct(info),
        all_info_words(info),
        is_info_word(key),
        is_info_word(value),
    ensures
        with_entry(info, key, value).len() > 0,
        keys_distinct(with_entry(info, key, value)),
        all_info_words(with_entry(info, key, value)),
{
    crate::ordered::lemma_with_entry_distinct(info, key, value);
    lemma_index_of_key(info, key);
    let after = with_entry(info, key, value);
    assert forall|i: int| 0 <= i < after.len() implies is_info_word((#[trigger] after[i]).0)
        && is_info_word(after[i].1) by {
        match index_of_key(info, key) {
            Some(index) => {
                if i != index {
                    assert(after[i] == info[i]);
                }
            },
            None => {
                if i < info.len() {
                    assert(after[i] == info[i]);
                }
            },
        }
    }
}

/// The pairs after the first keep an info that the wire format can carry.
pub proof fn lemma_info_more_parsed(input: Seq<u8>, info: Seq<Entry>)
    requires
        info.len() > 0,
        keys_distinct(info),
        all_info_words(info),
    ensures
        parse_info_more(input, info).1.len() > 0,
        keys_distinct(parse_info_more(input, info).1),
        all_info_words(parse_info_more(input, info).1),
    decreases input.len(),
{
    crate::grammar::lemma_info_kv_consumes(input);
    lemma_info_kv_parsed(input);
    if let Ok((rest, (key, value))) = parse_info_kv(input) {
        lemma_with_entry_wire(info, key, value);
        lemma_info_more_parsed(rest, with_entry(info, key, value));
    }
}

/// Every `infoResponse` message that a parser returns can be carried by the
/// wire format.
pub proof fn lemma_inforesponse_parsed(input: Seq<u8>)
    ensures
        parse_inforesponse_payload(input) matches Ok((_, message)) ==> is_wire_inforesponse(
            message,
        ),
        parse_inforesponse(input) matches Ok((_, message)) ==> is_wire_inforesponse(message),
        parse_inforesponse_message(input) matches Ok((_, message)) ==> is_wire_inforesponse(
            message,
        ),
{
    assert forall|input: Seq<u8>|
        (#[trigger] parse_inforesponse_payload(input) matches Ok((_, message))
            ==> is_wire_inforesponse(message)) by {
        if let Ok((r1, _)) = parse_tag(input, seq![NEWLINE]) {
            lemma_info_kv_parsed(r1);
            if let Ok((r2, (key, value))) = parse_info_kv(r1) {
                let none = Seq::<Entry>::empty();
                lemma_with_entry_wire(none, key, value);
                lemma_info_more_parsed(r2, with_entry(none, key, value));
            }
        }
    }
}

// ------------------------------------------------------- getserversResponse

/// The server that is written as the end-of-transmission mark is:
/// `69.79.84.0:0`.
pub open spec fn eot_lookalike() -> SocketAddrV4 {
    SocketAddrV4 { ip: Ipv4Addr { a: 'E' as u8, b: 'O' as u8, c: 'T' as u8, d: 0 }, port: 0 }
}

/// Whether the wire format can carry the `getserversResponse` message.
/// It cannot where `eot` is not set and the last server is
/// [`eot_lookalike`]: such a list reads as one server fewer and the mark.
pub open spec fn is_wire_getserversresponse(message: GetServersResponseMessageView) -> bool {
    !(!message.eot && message.servers.len() > 0 && message.servers.last() == eot_lookalike())
}

/// What ends a server list: the end-of-transmission mark, or nothing.
pub open spec fn wire_eot(eot: bool) -> Seq<u8> {
    if eot {
        EOT@
    } else {
        Seq::<u8>::empty()
    }
}

/// A server list is written as its first server and then the others.
pub proof fn lemma_wire_servers_front(first: SocketAddrV4, others: Seq<SocketAddrV4>)
    ensures
        wire_servers(seq![first] + others) == wire_socketaddr4(first) + wire_servers(others),
    decreases others.len(),
{
    let all = seq![first] + others;
    if others.len() == 0 {
        assert(wire_servers(all.drop_last()) =~= Seq::<u8>::empty());
    } else {
        lemma_wire_servers_front(first, others.drop_last());
        assert(all.drop_last() =~= seq![first] + others.drop_last());
    }
}

/// Every server takes seven bytes.
pub proof fn lemma_wire_servers_len(servers: Seq<SocketAddrV4>)
    ensures
        wire_servers(servers).len() == 7 * servers.len(),
    decreases servers.len(),
{
    if servers.len() > 0 {
        lemma_wire_servers_len(servers.drop_last());
    }
}

/// The datagram of a `getserversResponse` message with `n` servers holds the
/// message prefix, the 18 bytes of the command token, 7 bytes for each
/// server, and 7 more where `eot` is set.
pub proof fn lemma_getserversresponse_len(message: GetServersResponseMessageView)
    ensures
        wire_getserversresponse_message(message).len() == 4 + 18 + 7 * message.servers.len() + (
        if message.eot {
            7nat
        } else {
            0nat
        }),
{
    lemma_wire_servers_len(message.servers);
}

/// The six bytes behind the backslash of what a server is written as stand
/// for that server.
pub proof fn lemma_socketaddr4_round_trip(server: SocketAddrV4)
    ensures
        socketaddr4_of(wire_socketaddr4(server).skip(1)) == server,
{
    let port = server.port;
    assert((port / 256) * 256 + port % 256 == port);
    assert(port / 256 < 256);
}

/// A server in front of `tail` is parsed as the server, and `tail` is left.
pub proof fn lemma_server_then(server: SocketAddrV4, tail: Seq<u8>)
    ensures
        parse_server(wire_socketaddr4(server) + tail) == parsed(tail, server),
{
    let wire = wire_socketaddr4(server);
    let r1 = wire.skip(1) + tail;
    assert(wire + tail =~= seq![BACKSLASH] + r1);
    lemma_tag_then(seq![BACKSLASH], r1);
    assert(r1.skip(6) =~= tail);
    lemma_socketaddr4_round_trip(server);
}

/// Parsing what servers and the end of a list are written as enters the
/// servers behind those that are there, and leaves nothing over.
pub proof fn lemma_servers_round_trip(
    servers: Seq<SocketAddrV4>,
    others: Seq<SocketAddrV4>,
    eot: bool,
)
    requires
        is_wire_getserversresponse(GetServersResponseMessageView { servers: others, eot }),
    ensures
        parse_servers(wire_servers(others) + wire_eot(eot), servers) == all_parsed(
            GetServersResponseMessageView { servers: servers + others, eot },
        ),
    decreases others.len(),
{
    let input = wire_servers(others) + wire_eot(eot);
    if others.len() == 0 {
        if eot {
            assert(input.skip(7) =~= Seq::<u8>::empty());
        }
    } else {
        let first = others[0];
        let tail = others.skip(1);
        assert(others =~= seq![first] + tail);
        lemma_wire_servers_front(first, tail);
        lemma_wire_servers_len(tail);
        let rest = wire_servers(tail) + wire_eot(eot);
        assert(input =~= wire_socketaddr4(first) + rest);
        assert(parse_eot(input) is Err) by {
            // Input that is the mark is seven bytes: one server, the last,
            // which would then be the server that is written as the mark.
            if input == EOT@ {
                lemma_socketaddr4_round_trip(first);
                lemma_socketaddr4_round_trip(eot_lookalike());
            }
        }
        lemma_server_then(first, rest);
        lemma_servers_round_trip(servers.push(first), tail, eot);
        assert(servers.push(first) + tail =~= servers + others);
    }
}

/// Parsing the datagram of a `getserversResponse` message gives the message
/// back and leaves nothing over.
pub proof fn lemma_getserversresponse_round_trip(message: GetServersResponseMessageView)
    requires
        is_wire_getserversresponse(message),
    ensures
        parse_getserversresponse_message(wire_getserversresponse_message(message)) == all_parsed(
            message,
        ),
{
    let wire = wire_getserversresponse_message(message);
    let r2 = wire_servers(message.servers) + wire_eot(message.eot);
    let r1 = GETSERVERSRESPONSE@ + r2;
    assert(wire =~= MESSAGE_PREFIX@ + r1);
    lemma_tag_then(MESSAGE_PREFIX@, r1);
    lemma_tag_then(GETSERVERSRESPONSE@, r2);
    let none = Seq::<SocketAddrV4>::empty();
    lemma_servers_round_trip(none, message.servers, message.eot);
}

/// A server that was parsed is written as the bytes that were taken.
pub proof fn lemma_server_parsed(input: Seq<u8>)
    ensures
        parse_server(input) matches Ok((rest, server)) ==> input == wire_socketaddr4(server)
            + rest,
{
    if let Ok((rest, server)) = parse_server(input) {
        let bytes = input.skip(1).take(6);
        assert(input[0] == seq![BACKSLASH][0]) by {
            assert(input.take(1)[0] == input[0]);
        }
        assert(bytes[0] == input[1] && bytes[1] == input[2] && bytes[2] == input[3]);
        assert(bytes[3] == input[4] && bytes[4] == input[5] && bytes[5] == input[6]);
        let port = server.port;
        assert(port == input[5] * 256 + input[6]);
        assert(port / 256 == input[5] && port % 256 == input[6]);
        assert(rest =~= input.skip(7));
        assert(input =~= wire_socketaddr4(server) + rest);
    }
}

/// A server list that was parsed was parsed to its end, what came of it can
/// be carried by the wire format, and it is written as the servers that
/// were there and the input.
pub proof fn lemma_servers_parsed(input: Seq<u8>, servers: Seq<SocketAddrV4>)
    requires
        servers.len() > 0 && servers.last() == eot_lookalike() ==> input.len() > 0,
    ensures
        parse_servers(input, servers) matches Ok((rest, message)) ==> {
            &&& rest.len() == 0
            &&& is_wire_getserversresponse(message)
            &&& wire_servers(message.servers) + wire_eot(message.eot) == wire_servers(servers)
                + input
        },
    decreases input.len(),
{
    if parse_eot(input) is Err {
        crate::grammar::lemma_server_consumes(input);
        lemma_server_parsed(input);
        if let Ok((rest, server)) = parse_server(input) {
            // A server that is written as the mark has more input behind
            // it, or the mark would have been found in its place.
            let next = servers.push(server);
            lemma_servers_parsed(rest, next);
            assert(next.drop_last() =~= servers);
        }
    }
}

/// Every datagram that parses as a `getserversResponse` message was parsed
/// to its end, to a message that the wire format can carry, and is what that
/// message is written as.
pub proof fn lemma_getserversresponse_parsed(input: Seq<u8>)
    ensures
        parse_getserversresponse_message(input) matches Ok((rest, message)) ==> {
            &&& rest.len() == 0
            &&& is_wire_getserversresponse(message)
            &&& wire_getserversresponse_message(message) == input
        },
        parse_getserversresponse(input) matches Ok((rest, message)) ==> {
            &&& rest.len() == 0
            &&& is_wire_getserversresponse(message)
            &&& MESSAGE_PREFIX@ + input == wire_getserversresponse_message(message)
        },
{
    let none = Seq::<SocketAddrV4>::empty();
    if let Ok((r1, _)) = parse_tag(input, GETSERVERSRESPONSE@) {
        lemma_servers_parsed(r1, none);
        assert(input =~= GETSERVERSRESPONSE@ + r1);
    }
    if let Ok((r0, _)) = parse_message_prefix(input) {
        assert(input =~= MESSAGE_PREFIX@ + r0);
        if let Ok((r1, _)) = parse_tag(r0, GETSERVERSRESPONSE@) {
            lemma_servers_parsed(r1, none);
            assert(r0 =~= GETSERVERSRESPONSE@ + r1);
        }
    }
}

// --------------------------------------------------------------- getservers

/// Whether `name` can stand as the game name of a `getservers` message: it
/// is not empty and holds no digit, no space and no NUL byte.
pub open spec fn is_wire_game_name(name: Seq<u8>) -> bool {
    name.len() > 0 && all_in(name, ByteClass::NameByte) && is_game_name(name)
}

/// Whether `gametype` can stand in the filter of a `getservers` message: it
/// is not empty and holds no space.
pub open spec fn is_wire_gametype(gametype: Seq<u8>) -> bool {
    gametype.len() > 0 && all_in(gametype, ByteClass::NotSpace)
}

/// Whether the wire format can carry the filter.
pub open spec fn is_wire_filter(filter: FilterOptionsView) -> bool {
    filter.gametype matches Some(gametype) ==> is_wire_gametype(gametype)
}

/// Whether the wire format can carry the `getservers` message: a game name,
/// if there is one, is not empty and holds no digit, space or NUL byte, and
/// a game type, if there is one, is not empty and holds no space.
pub open spec fn is_wire_getservers(message: GetServersMessageView) -> bool {
    &&& message.game_name matches Some(name) ==> is_wire_game_name(name)
    &&& is_wire_filter(message.filter_options)
}

/// `gametype=X` in front of `tail`, which does not go on with `X`, is parsed
/// as that option, and `tail` is left.
pub proof fn lemma_option_gametype_then(gametype: Seq<u8>, tail: Seq<u8>)
    requires
        is_wire_gametype(gametype),
        tail.len() > 0 ==> tail[0] == SPACE,
    ensures
        parse_filteroption(GAMETYPE@ + gametype + tail) == parsed(
            tail,
            FilterOptionView::GameType(gametype),
        ),
{
    let r1 = gametype + tail;
    assert(GAMETYPE@ + gametype + tail =~= GAMETYPE@ + r1);
    lemma_tag_then(GAMETYPE@, r1);
    lemma_run_then(gametype, tail, ByteClass::NotSpace);
}

/// `empty` in front of `tail` is parsed as that option, and `tail` is left.
pub proof fn lemma_option_empty_then(tail: Seq<u8>)
    ensures
        parse_filteroption(EMPTY@ + tail) == parsed(tail, FilterOptionView::Empty),
{
    let input = EMPTY@ + tail;
    lemma_tag_then(EMPTY@, tail);
    assert(parse_tag(input, GAMETYPE@) is Err);
}

/// `full` in front of `tail` is parsed as that option, and `tail` is left.
pub proof fn lemma_option_full_then(tail: Seq<u8>)
    ensures
        parse_filteroption(FULL@ + tail) == parsed(tail, FilterOptionView::Full),
{
    let input = FULL@ + tail;
    lemma_tag_then(FULL@, tail);
    assert(parse_tag(input, GAMETYPE@) is Err);
    assert(parse_tag(input, EMPTY@) is Err);
}

/// Whether the wire format can carry the filter option: a game type is not
/// empty and holds no space.
pub open spec fn is_wire_filter_option(option: FilterOptionView) -> bool {
    option matches FilterOptionView::GameType(gametype) ==> is_wire_gametype(gametype)
}

/// A filter option in front of `tail`, which does not go on with the option,
/// is parsed as that option, and `tail` is left.
pub proof fn lemma_filteroption_then(option: FilterOptionView, tail: Seq<u8>)
    requires
        is_wire_filter_option(option),
        tail.len() > 0 ==> tail[0] == SPACE,
    ensures
        parse_filteroption(wire_filter_option(option) + tail) == parsed(tail, option),
{
    match option {
        FilterOptionView::GameType(gametype) => lemma_option_gametype_then(gametype, tail),
        FilterOptionView::Empty => lemma_option_empty_then(tail),
        FilterOptionView::Full => lemma_option_full_then(tail),
    }
}

/// Parsing what `full` is written as, where it is set, sets it and leaves
/// nothing over.
pub proof fn lemma_full_round_trip(full: bool, filter: FilterOptionsView)
    ensures
        parse_filteroptions_more(wire_option(full, FilterOptionView::Full), filter) == (
            Seq::<u8>::empty(),
            FilterOptionsView { full: filter.full || full, ..filter },
        ),
{
    let none = Seq::<u8>::empty();
    if full {
        let r1 = FULL@ + none;
        lemma_tag_then(seq![SPACE], r1);
        lemma_option_full_then(none);
        let next = with_option(filter, FilterOptionView::Full);
        assert(parse_filteroptions_more(none, next) == (none, next));
    }
}

/// Parsing what `empty` and `full` are written as, where they are set, sets
/// them and leaves nothing over.
pub proof fn lemma_flags_round_trip(empty: bool, full: bool, filter: FilterOptionsView)
    ensures
        parse_filteroptions_more(
            wire_option(empty, FilterOptionView::Empty) + wire_option(full, FilterOptionView::Full),
            filter,
        )
            == (
            Seq::<u8>::empty(),
            FilterOptionsView { empty: filter.empty || empty, full: filter.full || full, ..filter },
        ),
{
    let tail = wire_option(full, FilterOptionView::Full);
    let input = wire_option(empty, FilterOptionView::Empty) + tail;
    if empty {
        let r1 = EMPTY@ + tail;
        assert(input =~= seq![SPACE] + r1);
        lemma_tag_then(seq![SPACE], r1);
        lemma_option_empty_then(tail);
        lemma_full_round_trip(full, with_option(filter, FilterOptionView::Empty));
    } else {
        lemma_full_round_trip(full, filter);
    }
}

/// What filter options are written as is empty or begins with a space; and
/// parsing it, the spaces in front skipped, gives the filter and leaves
/// nothing over.
pub proof fn lemma_filter_round_trip(filter: FilterOptionsView)
    requires
        is_wire_filter(filter),
    ensures
        wire_filter_options(filter).len() > 0 ==> wire_filter_options(filter)[0] == SPACE,
        parse_filteroptions(parse_run0(wire_filter_options(filter), ByteClass::Space).0) == (
            Seq::<u8>::empty(),
            filter,
        ),
{
    let none = Seq::<u8>::empty();
    let wire = wire_filter_options(filter);
    let flags = wire_option(filter.empty, FilterOptionView::Empty) + wire_option(
        filter.full,
        FilterOptionView::Full,
    );
    let space = seq![SPACE];
    match filter.gametype {
        Some(gametype) => {
            let r1 = GAMETYPE@ + gametype + flags;
            assert(wire =~= space + r1);
            lemma_run_then(space, r1, ByteClass::Space);
            lemma_option_gametype_then(gametype, flags);
            let first = with_option(no_filter(), FilterOptionView::GameType(gametype));
            lemma_flags_round_trip(filter.empty, filter.full, first);
        },
        None => {
            if filter.empty {
                let tail = wire_option(filter.full, FilterOptionView::Full);
                let r1 = EMPTY@ + tail;
                assert(wire =~= space + r1);
                lemma_run_then(space, r1, ByteClass::Space);
                lemma_option_empty_then(tail);
                lemma_full_round_trip(
                    filter.full,
                    with_option(no_filter(), FilterOptionView::Empty),
                );
            } else if filter.full {
                let r1 = FULL@ + none;
                lemma_run_then(space, r1, ByteClass::Space);
                lemma_option_full_then(none);
            }
        },
    }
}

/// An optional game name in front of a digit is parsed as that game name,
/// and after the spaces behind it the input from the digit on is left.
pub proof fn lemma_game_name_then(game_name: Option<Seq<u8>>, tail: Seq<u8>)
    requires
        game_name matches Some(name) ==> is_wire_game_name(name),
        tail.len() > 0,
        is_digit_byte(tail[0]),
    ensures
        (wire_game_name(game_name) + tail)[0] != SPACE,
        parse_game_name(wire_game_name(game_name) + tail) matches Ok((rest, parsed)) && parsed
            == game_name && parse_run0(rest, ByteClass::Space).0 == tail,
{
    let space = seq![SPACE];
    let none = Seq::<u8>::empty();
    let input = wire_game_name(game_name) + tail;
    match game_name {
        Some(name) => {
            let r1 = space + tail;
            assert(input =~= name + r1);
            lemma_run_then(name, r1, ByteClass::NameByte);
            lemma_run_then(space, tail, ByteClass::Space);
        },
        None => {
            lemma_run_then(none, tail, ByteClass::NameByte);
            lemma_run_then(none, tail, ByteClass::Space);
        },
    }
}

/// A protocol number in front of `tail`, which does not go on with a digit,
/// is parsed as that number, and `tail` is left.
pub proof fn lemma_protocol_number_then(number: u32, tail: Seq<u8>)
    requires
        tail.len() > 0 ==> !is_digit_byte(tail[0]),
    ensures
        decimal(number as nat).len() > 0,
        is_digit_byte(decimal(number as nat)[0]),
        parse_protocol_number(decimal(number as nat) + tail) == parsed(tail, number),
{
    let digits = decimal(number as nat);
    lemma_decimal_digits(number as nat);
    lemma_decimal_u32(number);
    lemma_run_then(digits, tail, ByteClass::Digit);
}

/// Parsing the payload of a `getservers` message, as it is written, gives
/// the message back and leaves nothing over.
pub proof fn lemma_getservers_payload_round_trip(message: GetServersMessageView)
    requires
        is_wire_getservers(message),
    ensures
        parse_getservers_payload(
            seq![SPACE] + wire_game_name(message.game_name) + decimal(
                message.protocol_number as nat,
            ) + wire_filter_options(message.filter_options),
        ) == all_parsed(message),
{
    let space = seq![SPACE];
    let number = decimal(message.protocol_number as nat);
    let filters = wire_filter_options(message.filter_options);
    let input = space + wire_game_name(message.game_name) + number + filters;
    let r2 = number + filters;
    let r1 = wire_game_name(message.game_name) + r2;
    lemma_filter_round_trip(message.filter_options);
    lemma_protocol_number_then(message.protocol_number, filters);
    lemma_game_name_then(message.game_name, r2);
    assert(input =~= space + r1);
    lemma_run_then(space, r1, ByteClass::Space);
}

/// Parsing the datagram of a `getservers` message gives the message back and
/// leaves nothing over.
pub proof fn lemma_getservers_round_trip(message: GetServersMessageView)
    requires
        is_wire_getservers(message),
    ensures
        parse_getservers_message(wire_getservers_message(message)) == all_parsed(message),
{
    let payload = seq![SPACE] + wire_game_name(message.game_name) + decimal(
        message.protocol_number as nat,
    ) + wire_filter_options(message.filter_options);
    let r1 = GETSERVERS@ + payload;
    assert(wire_getservers_message(message) =~= MESSAGE_PREFIX@ + r1);
    lemma_tag_then(MESSAGE_PREFIX@, r1);
    lemma_tag_then(GETSERVERS@, payload);
    lemma_getservers_payload_round_trip(message);
}

/// A filter option that was parsed keeps a filter that the wire format can carry.
pub proof fn lemma_filteroption_parsed(input: Seq<u8>, filter: FilterOptionsView)
    requires
        is_wire_filter(filter),
    ensures
        parse_filteroption(input) matches Ok((_, option)) ==> is_wire_filter(
            with_option(filter, option),
        ),
{
    if let Ok((r1, _)) = parse_tag(input, GAMETYPE@) {
        lemma_run0_split(r1, ByteClass::NotSpace);
    }
}

/// The filter options after the first keep a filter that the wire format can carry.
pub proof fn lemma_filteroptions_more_parsed(input: Seq<u8>, filter: FilterOptionsView)
    requires
        is_wire_filter(filter),
    ensures
        is_wire_filter(parse_filteroptions_more(input, filter).1),
    decreases input.len(),
{
    if let Ok((r1, _)) = parse_tag(input, seq![SPACE]) {
        crate::grammar::lemma_filteroption_consumes(r1);
        lemma_filteroption_parsed(r1, filter);
        if let Ok((r2, option)) = parse_filteroption(r1) {
            lemma_filteroptions_more_parsed(r2, with_option(filter, option));
        }
    }
}

/// Every `getservers` message that a parser returns can be carried by the
/// wire format.
pub proof fn lemma_getservers_parsed(input: Seq<u8>)
    ensures
        parse_getservers_payload(input) matches Ok((_, message)) ==> is_wire_getservers(message),
        parse_getservers(input) matches Ok((_, message)) ==> is_wire_getservers(message),
        parse_getservers_message(input) matches Ok((_, message)) ==> is_wire_getservers(message),
{
    assert forall|input: Seq<u8>|
        (#[trigger] parse_getservers_payload(input) matches Ok((_, message))
            ==> is_wire_getservers(message)) by {
        if let Ok((r1, _)) = parse_run1(input, ByteClass::Space) {
            lemma_run0_split(r1, ByteClass::NameByte);
            if let Ok((r2, _)) = parse_game_name(r1) {
                let r3 = parse_run0(r2, ByteClass::Space).0;
                if let Ok((r4, _)) = parse_protocol_number(r3) {
                    let r5 = parse_run0(r4, ByteClass::Space).0;
                    lemma_filteroption_parsed(r5, no_filter());
                    if let Ok((r6, option)) = parse_filteroption(r5) {
                        lemma_filteroptions_more_parsed(r6, with_option(no_filter(), option));
                    }
                }
            }
        }
    }
}

// ------------------------------------------------------------ re-serializing

/// Whether `input` is a datagram that a heartbeat is written as.
pub open spec fn is_heartbeat_datagram(input: Seq<u8>) -> bool {
    exists|sent: HeartbeatMessageView|
        is_wire_heartbeat(sent) && input == #[trigger] wire_heartbeat_message(sent)
}

/// A datagram that parses to a heartbeat with nothing left over is what that
/// heartbeat is written as exactly where it is a datagram that some heartbeat
/// is written as. Other datagrams parse too: with two spaces in front of the
/// protocol name, say, or with no newline behind it.
pub proof fn lemma_heartbeat_reserialize(input: Seq<u8>, message: HeartbeatMessageView)
    requires
        parse_heartbeat_message(input) == all_parsed(message),
    ensures
        wire_heartbeat_message(message) == input <==> is_heartbeat_datagram(input),
{
    lemma_heartbeat_parsed(input);
    if is_heartbeat_datagram(input) {
        let sent = choose|sent: HeartbeatMessageView|
            is_wire_heartbeat(sent) && input == #[trigger] wire_heartbeat_message(sent);
        lemma_heartbeat_round_trip(sent);
    }
}

/// Whether `input` is a datagram that a `getinfo` message is written as.
pub open spec fn is_getinfo_datagram(input: Seq<u8>) -> bool {
    exists|sent: GetInfoMessageView|
        is_wire_getinfo(sent) && input == #[trigger] wire_getinfo_message(sent)
}

/// A datagram that parses to a `getinfo` message with nothing left over is
/// what that message is written as exactly where it is a datagram that some
/// `getinfo` message is written as. Other datagrams parse too: with two
/// spaces in front of the challenge, say.
pub proof fn lemma_getinfo_reserialize(input: Seq<u8>, message: GetInfoMessageView)
    requires
        parse_getinfo_message(input) == all_parsed(message),
    ensures
        wire_getinfo_message(message) == input <==> is_getinfo_datagram(input),
{
    lemma_getinfo_parsed(input);
    if is_getinfo_datagram(input) {
        let sent = choose|sent: GetInfoMessageView|
            is_wire_getinfo(sent) && input == #[trigger] wire_getinfo_message(sent);
        lemma_getinfo_round_trip(sent);
    }
}

/// Whether `input` is a datagram that an `infoResponse` message is written as.
pub open spec fn is_inforesponse_datagram(input: Seq<u8>) -> bool {
    exists|sent: InfoResponseMessageView|
        is_wire_inforesponse(sent) && input == #[trigger] wire_inforesponse_message(sent)
}

/// A datagram that parses to an `infoResponse` message with nothing left
/// over is what that message is written as exactly where it is a datagram
/// that some `infoResponse` message is written as. Other datagrams parse too:
/// with a key that occurs twice, say.
pub proof fn lemma_inforesponse_reserialize(input: Seq<u8>, message: InfoResponseMessageView)
    requires
        parse_inforesponse_message(input) == all_parsed(message),
    ensures
        wire_inforesponse_message(message) == input <==> is_inforesponse_datagram(input),
{
    lemma_inforesponse_parsed(input);
    if is_inforesponse_datagram(input) {
        let sent = choose|sent: InfoResponseMessageView|
            is_wire_inforesponse(sent) && input == #[trigger] wire_inforesponse_message(sent);
        lemma_inforesponse_round_trip(sent);
    }
}

/// Whether `input` is a datagram that a `getservers` message is written as.
pub open spec fn is_getservers_datagram(input: Seq<u8>) -> bool {
    exists|sent: GetServersMessageView|
        is_wire_getservers(sent) && input == #[trigger] wire_getservers_message(sent)
}

/// A datagram that parses to a `getservers` message with nothing left over
/// is what that message is written as exactly where it is a datagram that
/// some `getservers` message is written as. Other datagrams parse too: with
/// `full` in front of `empty`, say, or with zeros in front of the number.
pub proof fn lemma_getservers_reserialize(input: Seq<u8>, message: GetServersMessageView)
    requires
        parse_getservers_message(input) == all_parsed(message),
    ensures
        wire_getservers_message(message) == input <==> is_getservers_datagram(input),
{
    lemma_getservers_parsed(input);
    if is_getservers_datagram(input) {
        let sent = choose|sent: GetServersMessageView|
            is_wire_getservers(sent) && input == #[trigger] wire_getservers_message(sent);
        lemma_getservers_round_trip(sent);
    }
}

/// Every datagram that parses as a `getserversResponse` message is what the
/// message is written as.
pub proof fn lemma_getserversresponse_reserialize(
    input: Seq<u8>,
    rest: Seq<u8>,
    message: GetServersResponseMessageView,
)
    requires
        parse_getserversresponse_message(input) == parsed(rest, message),
    ensures
        rest.len() == 0,
        wire_getserversresponse_message(message) == input,
{
    lemma_getserversresponse_parsed(input);
}

// ------------------------------------------------------------------ exactly

/// A heartbeat comes back from its datagram, with nothing left over, exactly
/// where the wire format can carry it.
pub proof fn lemma_heartbeat_round_trip_exactly(message: HeartbeatMessageView)
    ensures
        is_wire_heartbeat(message) <==> parse_heartbeat_message(wire_heartbeat_message(message))
            == all_parsed(message),
{
    if is_wire_heartbeat(message) {
        lemma_heartbeat_round_trip(message);
    }
    lemma_heartbeat_parsed(wire_heartbeat_message(message));
}

/// A `getinfo` message comes back from its datagram, with nothing left over, exactly
/// where the wire format can carry it.
pub proof fn lemma_getinfo_round_trip_exactly(message: GetInfoMessageView)
    ensures
        is_wire_getinfo(message) <==> parse_getinfo_message(wire_getinfo_message(message))
            == all_parsed(message),
{
    if is_wire_getinfo(message) {
        lemma_getinfo_round_trip(message);
    }
    lemma_getinfo_parsed(wire_getinfo_message(message));
}

/// An `infoResponse` message comes back from its datagram, with nothing left over, exactly
/// where the wire format can carry it.
pub proof fn lemma_inforesponse_round_trip_exactly(message: InfoResponseMessageView)
    ensures
        is_wire_inforesponse(message) <==> parse_inforesponse_message(
            wire_inforesponse_message(message),
        ) == all_parsed(message),
{
    if is_wire_inforesponse(message) {
        lemma_inforesponse_round_trip(message);
    }
    lemma_inforesponse_parsed(wire_inforesponse_message(message));
}

/// A `getservers` message comes back from its datagram, with nothing left over, exactly
/// where the wire format can carry it.
pub proof fn lemma_getservers_round_trip_exactly(message: GetServersMessageView)
    ensures
        is_wire_getservers(message) <==> parse_getservers_message(wire_getservers_message(message))
            == all_parsed(message),
{
    if is_wire_getservers(message) {
        lemma_getservers_round_trip(message);
    }
    lemma_getservers_parsed(wire_getservers_message(message));
}

/// A `getserversResponse` message comes back from its datagram, with nothing left over, exactly
/// where the wire format can carry it.
pub proof fn lemma_getserversresponse_round_trip_exactly(message: GetServersResponseMessageView)
    ensures
        is_wire_getserversresponse(message) <==> parse_getserversresponse_message(
            wire_getserversresponse_message(message),
        ) == all_parsed(message),
{
    if is_wire_getserversresponse(message) {
        lemma_getserversresponse_round_trip(message);
    }
    lemma_getserversresponse_parsed(wire_getserversresponse_message(message));
}

// ------------------------------------------------------------ one datagram each

/// No two heartbeats that the wire format can carry are written as the same
/// datagram.
pub proof fn lemma_heartbeat_wire_injective(one: HeartbeatMessageView, other: HeartbeatMessageView)
    requires
        is_wire_heartbeat(one),
        is_wire_heartbeat(other),
        wire_heartbeat_message(one) == wire_heartbeat_message(other),
    ensures
        one == other,
{
    lemma_heartbeat_round_trip(one);
    lemma_heartbeat_round_trip(other);
}

/// No two `getinfo` messages that the wire format can carry are written as the same
/// datagram.
pub proof fn lemma_getinfo_wire_injective(one: GetInfoMessageView, other: GetInfoMessageView)
    requires
        is_wire_getinfo(one),
        is_wire_getinfo(other),
        wire_getinfo_message(one) == wire_getinfo_message(other),
    ensures
        one == other,
{
    lemma_getinfo_round_trip(one);
    lemma_getinfo_round_trip(other);
}

/// No two `infoResponse` messages that the wire format can carry are written as the same
/// datagram.
pub proof fn lemma_inforesponse_wire_injective(
    one: InfoResponseMessageView,
    other: InfoResponseMessageView,
)
    requires
        is_wire_inforesponse(one),
        is_wire_inforesponse(other),
        wire_inforesponse_message(one) == wire_inforesponse_message(other),
    ensures
        one == other,
{
    lemma_inforesponse_round_trip(one);
    lemma_inforesponse_round_trip(other);
}

/// No two `getservers` messages that the wire format can carry are written as the same
/// datagram.
pub proof fn lemma_getservers_wire_injective(
    one: GetServersMessageView,
    other: GetServersMessageView,
)
    requires
        is_wire_getservers(one),
        is_wire_getservers(other),
        wire_getservers_message(one) == wire_getservers_message(other),
    ensures
        one == other,
{
    lemma_getservers_round_trip(one);
    lemma_getservers_round_trip(other);
}

/// No two `getserversResponse` messages that the wire format can carry are written as the same
/// datagram.
pub proof fn lemma_getserversresponse_wire_injective(
    one: GetServersResponseMessageView,
    other: GetServersResponseMessageView,
)
    requires
        is_wire_getserversresponse(one),
        is_wire_getserversresponse(other),
        wire_getserversresponse_message(one) == wire_getserversresponse_message(other),
    ensures
        one == other,
{
    lemma_getserversresponse_round_trip(one);
    lemma_getserversresponse_round_trip(other);
}

} // verus!
