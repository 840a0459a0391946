//! No parser reads past its input: what is left after parsing, and the place
//! that an error names, are always a tail of the input.

use crate::grammar::{
    after_command, after_message_prefix, is_tail_of, lemma_filteroption_consumes,
    lemma_info_kv_consumes, lemma_run_len, lemma_server_consumes, parse_challenge, parse_eot,
    parse_filteroption, parse_filteroptions, parse_filteroptions_more, parse_game_name,
    parse_getinfo, parse_getinfo_message, parse_getinfo_payload, parse_getservers,
    parse_getservers_message, parse_getservers_payload, parse_getserversresponse,
    parse_getserversresponse_message, parse_getserversresponse_payload, parse_heartbeat,
    parse_heartbeat_message, parse_heartbeat_payload, parse_info, parse_info_kv, parse_info_more,
    parse_info_word, parse_inforesponse, parse_inforesponse_message, parse_inforesponse_payload,
    parse_message_prefix, parse_protocol_name, parse_protocol_number, parse_run0, parse_run1,
    parse_server, parse_servers, parse_socketaddr4, parse_tag, ByteClass, Parsed, BACKSLASH,
    GAMETYPE, GETINFO, GETSERVERS, GETSERVERSRESPONSE, HEARTBEAT, INFORESPONSE, MESSAGE_PREFIX,
    NEWLINE, SPACE,
};
use crate::messages::FilterOptionsView;
use crate::net::SocketAddrV4;
use crate::ordered::Entry;
use vstd::prelude::*;

verus! {

/// Whether a parse of `input` stayed within it: the input that is left, or
/// the input at which the error stands, is a tail of `input`.
pub open spec fn stays_within<T>(parsed: Parsed<T>, input: Seq<u8>) -> bool {
    match parsed {
        Ok((rest, _)) => is_tail_of(rest, input),
        Err(e) => is_tail_of(e.spec_input(), input),
    }
}

/// A sequence is a tail of itself.
pub proof fn lemma_tail_refl(s: Seq<u8>)
    ensures
        is_tail_of(s, s),
{
    assert(s.skip(0) =~= s);
}

/// A tail of a tail is a tail.
pub proof fn lemma_tail_trans(a: Seq<u8>, b: Seq<u8>, c: Seq<u8>)
    requires
        is_tail_of(a, b),
        is_tail_of(b, c),
    ensures
        is_tail_of(a, c),
{
    assert(a =~= c.skip(c.len() - a.len()));
}

/// A parse that stayed within a tail of `input` stayed within `input`.
pub proof fn lemma_within_tail<T>(parsed: Parsed<T>, tail: Seq<u8>, input: Seq<u8>)
    requires
        stays_within(parsed, tail),
        is_tail_of(tail, input),
    ensures
        stays_within(parsed, input),
{
    match parsed {
        Ok((rest, _)) => lemma_tail_trans(rest, tail, input),
        Err(e) => lemma_tail_trans(e.spec_input(), tail, input),
    }
}

/// A fixed token stays within its input.
pub proof fn lemma_tag_within(input: Seq<u8>, token: Seq<u8>)
    ensures
        stays_within(parse_tag(input, token), input),
{
    lemma_tail_refl(input);
}

/// A run stays within its input.
pub proof fn lemma_run0_within(input: Seq<u8>, class: ByteClass)
    ensures
        is_tail_of(parse_run0(input, class).0, input),
{
    lemma_run_len(input, class);
}

/// A run that must not be empty stays within its input.
pub proof fn lemma_run1_within(input: Seq<u8>, class: ByteClass)
    ensures
        stays_within(parse_run1(input, class), input),
{
    lemma_run_len(input, class);
    lemma_tail_refl(input);
}

/// A parser that stays within what follows the command token stays within
/// the input.
pub proof fn lemma_after_command_within<T>(
    input: Seq<u8>,
    command: Seq<u8>,
    parse: spec_fn(Seq<u8>) -> Parsed<T>,
)
    requires
        forall|rest: Seq<u8>| #[trigger] stays_within(parse(rest), rest),
    ensures
        stays_within(after_command(input, command, parse), input),
{
    lemma_tag_within(input, command);
    if let Ok((rest, _)) = parse_tag(input, command) {
        assert(stays_within(parse(rest), rest));
        lemma_within_tail(parse(rest), rest, input);
    }
}

/// A parser that stays within what follows the message prefix stays within
/// the input.
pub proof fn lemma_after_message_prefix_within<T>(
    input: Seq<u8>,
    parse: spec_fn(Seq<u8>) -> Parsed<T>,
)
    requires
        forall|rest: Seq<u8>| #[trigger] stays_within(parse(rest), rest),
    ensures
        stays_within(after_message_prefix(input, parse), input),
{
    lemma_tag_within(input, MESSAGE_PREFIX@);
    if let Ok((rest, _)) = parse_message_prefix(input) {
        assert(stays_within(parse(rest), rest));
        lemma_within_tail(parse(rest), rest, input);
    }
}

/// No heartbeat parser reads past its input.
pub proof fn lemma_heartbeat_within(input: Seq<u8>)
    ensures
        stays_within(parse_heartbeat_payload(input), input),
        stays_within(parse_heartbeat(input), input),
        stays_within(parse_heartbeat_message(input), input),
{
    assert forall|input: Seq<u8>| #[trigger]
        stays_within(parse_heartbeat_payload(input), input) by {
        lemma_run1_within(input, ByteClass::Space);
        if let Ok((r1, _)) = parse_run1(input, ByteClass::Space) {
            lemma_run1_within(r1, ByteClass::NotNewline);
            lemma_within_tail(parse_protocol_name(r1), r1, input);
            if let Ok((r2, _)) = parse_protocol_name(r1) {
                lemma_run0_within(r2, ByteClass::Newline);
                lemma_tail_trans(parse_run0(r2, ByteClass::Newline).0, r2, input);
            }
        }
    }
    let payload = |rest: Seq<u8>| parse_heartbeat_payload(rest);
    assert forall|input: Seq<u8>| #[trigger] stays_within(parse_heartbeat(input), input) by {
        lemma_after_command_within(input, HEARTBEAT@, payload);
    }
    let command = |rest: Seq<u8>| parse_heartbeat(rest);
    lemma_after_message_prefix_within(input, command);
}

/// No `getinfo` parser reads past its input.
pub proof fn lemma_getinfo_within(input: Seq<u8>)
    ensures
        stays_within(parse_getinfo_payload(input), input),
        stays_within(parse_getinfo(input), input),
        stays_within(parse_getinfo_message(input), input),
{
    assert forall|input: Seq<u8>| #[trigger]
        stays_within(parse_getinfo_payload(input), input) by {
        lemma_run1_within(input, ByteClass::Space);
        if let Ok((r1, _)) = parse_run1(input, ByteClass::Space) {
            lemma_tail_refl(r1);
            lemma_within_tail(parse_challenge(r1), r1, input);
        }
    }
    let payload = |rest: Seq<u8>| parse_getinfo_payload(rest);
    assert forall|input: Seq<u8>| #[trigger] stays_within(parse_getinfo(input), input) by {
        lemma_after_command_within(input, GETINFO@, payload);
    }
    let command = |rest: Seq<u8>| parse_getinfo(rest);
    lemma_after_message_prefix_within(input, command);
}

/// One pair of an info string stays within its input.
pub proof fn lemma_info_kv_within(input: Seq<u8>)
    ensures
        stays_within(parse_info_kv(input), input),
{
    lemma_tag_within(input, seq![BACKSLASH]);
    if let Ok((r1, _)) = parse_tag(input, seq![BACKSLASH]) {
        lemma_run1_within(r1, ByteClass::NotBackslash);
        lemma_within_tail(parse_info_word(r1), r1, input);
        if let Ok((r2, _)) = parse_info_word(r1) {
            lemma_tag_within(r2, seq![BACKSLASH]);
            lemma_within_tail(parse_tag(r2, seq![BACKSLASH]), r2, input);
            if let Ok((r3, _)) = parse_tag(r2, seq![BACKSLASH]) {
                lemma_run1_within(r3, ByteClass::NotBackslash);
                lemma_within_tail(parse_info_word(r3), r3, input);
            }
        }
    }
}

/// The pairs after the first stay within their input.
pub proof fn lemma_info_more_within(input: Seq<u8>, info: Seq<Entry>)
    ensures
        is_tail_of(parse_info_more(input, info).0, input),
    decreases input.len(),
{
    lemma_info_kv_within(input);
    lemma_info_kv_consumes(input);
    match parse_info_kv(input) {
        Err(_) => lemma_tail_refl(input),
        Ok((rest, (key, value))) => {
            let next = crate::ordered::with_entry(info, key, value);
            lemma_info_more_within(rest, next);
            lemma_tail_trans(parse_info_more(rest, next).0, rest, input);
        },
    }
}

/// No `infoResponse` parser reads past its input.
pub proof fn lemma_inforesponse_within(input: Seq<u8>)
    ensures
        stays_within(parse_inforesponse_payload(input), input),
        stays_within(parse_inforesponse(input), input),
        stays_within(parse_inforesponse_message(input), input),
{
    assert forall|input: Seq<u8>| #[trigger] stays_within(parse_info(input), input) by {
        lemma_info_kv_within(input);
        if let Ok((rest, (key, value))) = parse_info_kv(input) {
            let first = crate::ordered::with_entry(Seq::<Entry>::empty(), key, value);
            lemma_info_more_within(rest, first);
            lemma_tail_trans(parse_info_more(rest, first).0, rest, input);
        }
    }
    assert forall|input: Seq<u8>| #[trigger]
        stays_within(parse_inforesponse_payload(input), input) by {
        lemma_tag_within(input, seq![NEWLINE]);
        if let Ok((r1, _)) = parse_tag(input, seq![NEWLINE]) {
            assert(stays_within(parse_info(r1), r1));
            lemma_within_tail(parse_info(r1), r1, input);
        }
    }
    let payload = |rest: Seq<u8>| parse_inforesponse_payload(rest);
    assert forall|input: Seq<u8>| #[trigger] stays_within(parse_inforesponse(input), input) by {
        lemma_after_command_within(input, INFORESPONSE@, payload);
    }
    let command = |rest: Seq<u8>| parse_inforesponse(rest);
    lemma_after_message_prefix_within(input, command);
}

/// One filter option stays within its input.
pub proof fn lemma_filteroption_within(input: Seq<u8>)
    ensures
        stays_within(parse_filteroption(input), input),
{
    lemma_tail_refl(input);
    if let Ok((r1, _)) = parse_tag(input, GAMETYPE@) {
        lemma_run_len(r1, ByteClass::NotSpace);
        if let Ok((r2, _)) = parse_run1(r1, ByteClass::NotSpace) {
            lemma_tail_trans(r2, r1, input);
        }
    }
}

/// The filter options after the first stay within their input.
pub proof fn lemma_filteroptions_more_within(input: Seq<u8>, filter: FilterOptionsView)
    ensures
        is_tail_of(parse_filteroptions_more(input, filter).0, input),
    decreases input.len(),
{
    lemma_tail_refl(input);
    if let Ok((r1, _)) = parse_tag(input, seq![SPACE]) {
        lemma_filteroption_within(r1);
        lemma_filteroption_consumes(r1);
        if let Ok((r2, option)) = parse_filteroption(r1) {
            let next = crate::grammar::with_option(filter, option);
            lemma_filteroptions_more_within(r2, next);
            lemma_tail_trans(r2, r1, input);
            lemma_tail_trans(parse_filteroptions_more(r2, next).0, r2, input);
        }
    }
}

/// The filter options stay within their input.
pub proof fn lemma_filteroptions_within(input: Seq<u8>)
    ensures
        is_tail_of(parse_filteroptions(input).0, input),
{
    lemma_tail_refl(input);
    lemma_filteroption_within(input);
    if let Ok((r1, option)) = parse_filteroption(input) {
        let first = crate::grammar::with_option(crate::grammar::no_filter(), option);
        lemma_filteroptions_more_within(r1, first);
        lemma_tail_trans(parse_filteroptions_more(r1, first).0, r1, input);
    }
}

/// No `getservers` parser reads past its input.
pub proof fn lemma_getservers_within(input: Seq<u8>)
    ensures
        stays_within(parse_getservers_payload(input), input),
        stays_within(parse_getservers(input), input),
        stays_within(parse_getservers_message(input), input),
{
    assert forall|input: Seq<u8>| #[trigger]
        stays_within(parse_getservers_payload(input), input) by {
        lemma_run1_within(input, ByteClass::Space);
        if let Ok((r1, _)) = parse_run1(input, ByteClass::Space) {
            lemma_run_len(r1, ByteClass::NameByte);
            lemma_tail_refl(r1);
            assert(stays_within(parse_game_name(r1), r1));
            lemma_within_tail(parse_game_name(r1), r1, input);
            if let Ok((r2, _)) = parse_game_name(r1) {
                let r3 = parse_run0(r2, ByteClass::Space).0;
                lemma_run0_within(r2, ByteClass::Space);
                lemma_tail_trans(r3, r2, input);
                lemma_run0_within(r3, ByteClass::Digit);
                lemma_tail_refl(r3);
                assert(stays_within(parse_protocol_number(r3), r3));
                lemma_within_tail(parse_protocol_number(r3), r3, input);
                if let Ok((r4, _)) = parse_protocol_number(r3) {
                    let r5 = parse_run0(r4, ByteClass::Space).0;
                    lemma_run0_within(r4, ByteClass::Space);
                    lemma_tail_trans(r5, r4, input);
                    lemma_filteroptions_within(r5);
                    lemma_tail_trans(parse_filteroptions(r5).0, r5, input);
                }
            }
        }
    }
    let payload = |rest: Seq<u8>| parse_getservers_payload(rest);
    assert forall|input: Seq<u8>| #[trigger] stays_within(parse_getservers(input), input) by {
        lemma_after_command_within(input, GETSERVERS@, payload);
    }
    let command = |rest: Seq<u8>| parse_getservers(rest);
    lemma_after_message_prefix_within(input, command);
}

/// One server stays within its input.
pub proof fn lemma_server_within(input: Seq<u8>)
    ensures
        stays_within(parse_server(input), input),
{
    lemma_tail_refl(input);
    if let Ok((r1, _)) = parse_tag(input, seq![BACKSLASH]) {
        assert(stays_within(parse_socketaddr4(r1), r1));
        lemma_within_tail(parse_socketaddr4(r1), r1, input);
    }
}

/// A server list stays within its input.
pub proof fn lemma_servers_within(input: Seq<u8>, servers: Seq<SocketAddrV4>)
    ensures
        stays_within(parse_servers(input, servers), input),
    decreases input.len(),
{
    lemma_tail_refl(input);
    if parse_eot(input) is Err {
        lemma_server_within(input);
        lemma_server_consumes(input);
        if let Ok((rest, server)) = parse_server(input) {
            lemma_servers_within(rest, servers.push(server));
            lemma_within_tail(parse_servers(rest, servers.push(server)), rest, input);
        }
    }
}

/// No `getserversResponse` parser reads past its input.
pub proof fn lemma_getserversresponse_within(input: Seq<u8>)
    ensures
        stays_within(parse_getserversresponse_payload(input), input),
        stays_within(parse_getserversresponse(input), input),
        stays_within(parse_getserversresponse_message(input), input),
{
    assert forall|input: Seq<u8>| #[trigger]
        stays_within(parse_getserversresponse_payload(input), input) by {
        lemma_servers_within(input, Seq::<SocketAddrV4>::empty());
    }
    let payload = |rest: Seq<u8>| parse_getserversresponse_payload(rest);
    assert forall|input: Seq<u8>| #[trigger]
        stays_within(parse_getserversresponse(input), input) by {
        lemma_after_command_within(input, GETSERVERSRESPONSE@, payload);
    }
    let command = |rest: Seq<u8>| parse_getserversresponse(rest);
    lemma_after_message_prefix_within(input, command);
}

} // verus!
