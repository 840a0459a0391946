//! The serializers write the same bytes as the same format written down with
//! cookie-factory's combinators.
use cookie_factory::bytes::{be_u16, be_u8};
use cookie_factory::combinator::{cond, slice, string};
use cookie_factory::multi::many_ref;
use cookie_factory::sequence::tuple;
use cookie_factory::{gen_simple, SerializeFn, WriteContext};
use dpmaster_proto::messages::{
    Challenge, FilterOptions, GameName, GameType, GetInfoMessage, GetServersMessage,
    GetServersResponseMessage, HeartbeatMessage, ProtocolName,
};
use dpmaster_proto::net::{Ipv4Addr, SocketAddrV4};
use dpmaster_proto::serializer::{
    gen_getinfo_message, gen_getservers_message, gen_getserversresponse_message,
    gen_heartbeat_message,
};
use std::io::Write;

fn written<F: SerializeFn<Vec<u8>>>(serializer: F) -> Vec<u8> {
    gen_simple(serializer, Vec::new()).unwrap()
}

fn cf_heartbeat<'a, W: Write + 'a>(message: &'a HeartbeatMessage) -> impl SerializeFn<W> + 'a {
    tuple((
        slice(b"\xFF\xFF\xFF\xFF"),
        slice(b"heartbeat "),
        slice(message.protocol_name().as_bytes()),
        slice(b"\n"),
    ))
}

fn cf_getinfo<'a, W: Write + 'a>(message: &'a GetInfoMessage) -> impl SerializeFn<W> + 'a {
    tuple((
        slice(b"\xFF\xFF\xFF\xFF"),
        slice(b"getinfo "),
        slice(message.challenge().as_bytes()),
    ))
}

fn cf_filter_options<'a, W: Write + 'a>(
    filter_options: &'a FilterOptions,
) -> impl SerializeFn<W> + 'a {
    tuple((
        move |out: WriteContext<W>| match filter_options.gametype() {
            Some(gametype) => {
                tuple((slice(b" "), slice(b"gametype="), slice(gametype.as_bytes())))(out)
            }
            None => Ok(out),
        },
        cond(filter_options.empty(), slice(b" empty")),
        cond(filter_options.full(), slice(b" full")),
    ))
}

fn cf_getservers<'a, W: Write + 'a>(message: &'a GetServersMessage) -> impl SerializeFn<W> + 'a {
    tuple((
        slice(b"\xFF\xFF\xFF\xFF"),
        slice(b"getservers "),
        move |out: WriteContext<W>| match message.game_name() {
            Some(game_name) => tuple((slice(game_name.as_bytes()), slice(b" ")))(out),
            None => Ok(out),
        },
        string(message.protocol_number().to_string()),
        cf_filter_options(message.filter_options()),
    ))
}

fn cf_socketaddrv4<'a, W: Write + 'a>(addr: &'a SocketAddrV4) -> impl SerializeFn<W> + 'a {
    let octets = addr.ip().octets();
    move |out: WriteContext<W>| {
        tuple((
            slice(b"\\"),
            many_ref(&octets[..], |&i| be_u8(i)),
            be_u16(addr.port()),
        ))(out)
    }
}

fn cf_getserversresponse<'a, W: Write + 'a>(
    message: &'a GetServersResponseMessage,
) -> impl SerializeFn<W> + 'a {
    tuple((
        slice(b"\xFF\xFF\xFF\xFF"),
        slice(b"getserversResponse"),
        many_ref(message.servers(), cf_socketaddrv4),
        cond(message.eot(), slice(b"\\EOT\0\0\0")),
    ))
}

#[test]
fn test_heartbeat_agrees_with_cookie_factory() {
    for name in [&b"DarkPlaces"[..], b"QuakeArena-1", b"", b"a b\nc", b"\xFF\0"] {
        let message = HeartbeatMessage::new(ProtocolName::new(name.to_vec()).unwrap());
        assert_eq!(gen_heartbeat_message(&message), written(cf_heartbeat(&message)));
    }
}

#[test]
fn test_getinfo_agrees_with_cookie_factory() {
    for challenge in [&b"A_ch4Lleng3"[..], b"x", b"!#$&'()*+,-.0123456789:<=>?@[]^_`{|}~"] {
        let message = GetInfoMessage::new(Challenge::new(challenge.to_vec()).unwrap());
        assert_eq!(gen_getinfo_message(&message), written(cf_getinfo(&message)));
    }
}

#[test]
fn test_getservers_agrees_with_cookie_factory() {
    let numbers = [
        0u32, 1, 9, 10, 11, 68, 99, 100, 101, 999, 1000, 27960, 65535, 65536, 99999, 100000,
        1234567, 99999999, 100000000, 999999999, 1000000000, 2147483647, 2147483648, 4294967294,
        4294967295,
    ];
    for number in numbers {
        for game_name in [None, Some(&b"Nexuiz"[..]), Some(b"Quake3Arena"), Some(b"")] {
            for gametype in [None, Some(&b"0"[..]), Some(b"a b"), Some(b"")] {
                for empty in [false, true] {
                    for full in [false, true] {
                        let message = GetServersMessage::new(
                            game_name.map(|n| GameName::new(n.to_vec()).unwrap()),
                            number,
                            FilterOptions::new(
                                gametype.map(|g| GameType::new(g.to_vec()).unwrap()),
                                empty,
                                full,
                            ),
                        );
                        assert_eq!(
                            gen_getservers_message(&message),
                            written(cf_getservers(&message))
                        );
                    }
                }
            }
        }
    }
}

#[test]
fn test_getserversresponse_agrees_with_cookie_factory() {
    let servers = [
        SocketAddrV4::new(Ipv4Addr::new(192, 0, 2, 1), 27960),
        SocketAddrV4::new(Ipv4Addr::new(0, 0, 0, 0), 0),
        SocketAddrV4::new(Ipv4Addr::new(255, 255, 255, 255), 65535),
        SocketAddrV4::new(Ipv4Addr::new(b'E', b'O', b'T', 0), 0),
        SocketAddrV4::new(Ipv4Addr::new(1, 2, 3, 4), 0x00FF),
        SocketAddrV4::new(Ipv4Addr::new(1, 2, 3, 4), 0xFF00),
        SocketAddrV4::new(Ipv4Addr::new(92, 92, 92, 92), 0x5C5C),
    ];
    for n in 0..=servers.len() {
        for eot in [false, true] {
            let message = GetServersResponseMessage::new(servers[..n].to_vec(), eot);
            assert_eq!(
                gen_getserversresponse_message(&message),
                written(cf_getserversresponse(&message))
            );
        }
    }
}
