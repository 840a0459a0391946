use dpmaster_proto::error::{InvalidChallengeError, ProtocolError};
use dpmaster_proto::messages::{
    is_ascii_printable, Challenge, FilterExtOptions, FilterOptions, GameName, GameType,
    GetInfoMessage, GetServersExtMessage, GetServersExtResponseMessage, GetServersMessage,
    GetServersResponseMessage, HeartbeatMessage, Info, InfoKey, InfoResponseMessage, InfoValue,
    ProtocolName,
};
use dpmaster_proto::net::{Ipv4Addr, Ipv6Addr, SocketAddr, SocketAddrV4, SocketAddrV6};
use std::str::FromStr;

#[test]
fn test_is_ascii_printable_bounds() {
    assert!(!is_ascii_printable(32));
    assert!(is_ascii_printable(33));
    assert!(is_ascii_printable(126));
    assert!(!is_ascii_printable(127));
    assert!(!is_ascii_printable(0));
    assert!(!is_ascii_printable(255));
}

#[test]
fn test_challenge_new() {
    let challenge = Challenge::new(b"A_ch4Lleng3".to_vec()).unwrap();
    assert_eq!(challenge.as_bytes(), b"A_ch4Lleng3");
}

#[test]
fn test_challenge_new_empty() {
    assert!(matches!(
        Challenge::new(b"".to_vec()).unwrap_err(),
        InvalidChallengeError::Empty(..)
    ));
}

#[test]
fn test_challenge_new_invalid_byte() {
    assert!(matches!(
        Challenge::new(b"\xFF".to_vec()).unwrap_err(),
        InvalidChallengeError::InvalidByte(..)
    ));
    assert!(matches!(
        Challenge::new(b"uhoh;".to_vec()).unwrap_err(),
        InvalidChallengeError::InvalidByte(..)
    ));
}

#[test]
fn test_challenge_new_reports_first_invalid_byte() {
    match Challenge::new(b"uh;oh%".to_vec()).unwrap_err() {
        InvalidChallengeError::InvalidByte(e) => {
            assert_eq!(e.offset(), 2);
            assert_eq!(e.byte(), b';');
            assert_eq!(e.bytes(), b"uh;oh%");
        }
        other => panic!("unexpected error {:?}", other),
    }
}

#[test]
fn test_challenge_new_rejects_each_forbidden_character() {
    for byte in [b'\\', b'/', b';', b'"', b'%', b' ', b'\n', 0u8, 127u8, 128u8] {
        let bytes = vec![b'a', byte];
        match Challenge::new(bytes.clone()).unwrap_err() {
            InvalidChallengeError::InvalidByte(e) => {
                assert_eq!(e.offset(), 1);
                assert_eq!(e.byte(), byte);
                assert_eq!(e.bytes(), &bytes[..]);
            }
            other => panic!("unexpected error {:?}", other),
        }
    }
}

#[test]
fn test_challenge_new_accepts_every_other_printable_character() {
    let bytes: Vec<u8> = (33u8..=126)
        .filter(|b| ![b'\\', b'/', b';', b'"', b'%'].contains(b))
        .collect();
    assert_eq!(bytes.len(), 89);
    assert_eq!(Challenge::new(bytes.clone()).unwrap().as_bytes(), &bytes[..]);
}

#[test]
fn test_game_name_new() {
    let game_name = GameName::new(b"Nexuiz".to_vec());
    assert!(game_name.is_ok());
    assert_eq!(game_name.unwrap().as_bytes(), b"Nexuiz");
}

#[test]
fn test_game_name_new_invalid() {
    let game_name = GameName::new(b"invalid example".to_vec());
    assert_eq!(
        game_name,
        Err(ProtocolError::InvalidGameName {
            byte: b' ',
            offset: 7
        })
    );
}

#[test]
fn test_game_name_new_reports_first_of_nul_and_space() {
    assert_eq!(
        GameName::new(b"ab\0cd ef".to_vec()),
        Err(ProtocolError::InvalidGameName { byte: 0, offset: 2 })
    );
    assert_eq!(
        GameName::new(b"ab cd\0ef".to_vec()),
        Err(ProtocolError::InvalidGameName {
            byte: b' ',
            offset: 2
        })
    );
    assert_eq!(
        GameName::new(b" ".to_vec()),
        Err(ProtocolError::InvalidGameName {
            byte: b' ',
            offset: 0
        })
    );
}

#[test]
fn test_game_name_new_takes_empty_and_digits() {
    assert_eq!(GameName::new(vec![]).unwrap().as_bytes(), b"");
    assert_eq!(
        GameName::new(b"Quake3Arena".to_vec()).unwrap().as_bytes(),
        b"Quake3Arena"
    );
}

#[test]
fn test_game_name_from_str() {
    assert_eq!(
        GameName::from_str("Nexuiz"),
        GameName::new(b"Nexuiz".to_vec())
    );
    assert_eq!(
        GameName::from_str("invalid example"),
        Err(ProtocolError::InvalidGameName {
            byte: b' ',
            offset: 7
        })
    );
}

#[test]
fn test_game_name_clone() {
    let game_name = GameName::new(b"qfusion".to_vec()).unwrap();
    assert_eq!(game_name.clone(), game_name);
}

#[test]
fn test_game_type_takes_any_bytes() {
    assert_eq!(GameType::new(b"4".to_vec()).unwrap().as_bytes(), b"4");
    assert_eq!(GameType::new(b" \0\\".to_vec()).unwrap().as_bytes(), b" \0\\");
    assert_eq!(GameType::from_str("ctf"), GameType::new(b"ctf".to_vec()));
    let gametype = GameType::new(b"dm".to_vec()).unwrap();
    assert_eq!(gametype.clone(), gametype);
}

#[test]
fn test_protocol_name_default_is_darkplaces() {
    assert_eq!(ProtocolName::default().as_bytes(), b"DarkPlaces");
    assert_eq!(
        ProtocolName::default(),
        ProtocolName::new(b"DarkPlaces".to_vec()).unwrap()
    );
}

#[test]
fn test_info_key_and_value_take_any_bytes() {
    assert_eq!(InfoKey::new(b"a\\b".to_vec()).unwrap().as_bytes(), b"a\\b");
    assert_eq!(InfoValue::new(vec![]).unwrap().as_bytes(), b"");
    assert_eq!(InfoKey::new(b"k".to_vec()).unwrap().into_bytes(), b"k".to_vec());
    assert_eq!(InfoValue::new(b"v".to_vec()).unwrap().into_bytes(), b"v".to_vec());
}

fn key(bytes: &[u8]) -> InfoKey {
    InfoKey::new(bytes.to_vec()).unwrap()
}

fn value(bytes: &[u8]) -> InfoValue {
    InfoValue::new(bytes.to_vec()).unwrap()
}

#[test]
fn test_info_keeps_insertion_order() {
    let mut info = Info::new();
    assert_eq!(info.len(), 0);
    assert_eq!(info.get_index(0), None);
    info.insert(key(b"sv_maxclients"), value(b"8"));
    info.insert(key(b"clients"), value(b"0"));
    info.insert(key(b"gamename"), value(b"Nexuiz"));
    assert_eq!(info.len(), 3);
    assert_eq!(info.get_index(0), Some((&b"sv_maxclients"[..], &b"8"[..])));
    assert_eq!(info.get_index(1), Some((&b"clients"[..], &b"0"[..])));
    assert_eq!(info.get_index(2), Some((&b"gamename"[..], &b"Nexuiz"[..])));
    assert_eq!(info.get_index(3), None);
    assert_eq!(
        info.iter(),
        vec![
            (key(b"sv_maxclients"), value(b"8")),
            (key(b"clients"), value(b"0")),
            (key(b"gamename"), value(b"Nexuiz")),
        ]
    );
}

#[test]
fn test_info_insert_overwrites_in_place() {
    let mut info = Info::new();
    info.insert(key(b"a"), value(b"1"));
    info.insert(key(b"b"), value(b"2"));
    info.insert(key(b"a"), value(b"3"));
    assert_eq!(info.len(), 2);
    assert_eq!(
        info.iter(),
        vec![(key(b"a"), value(b"3")), (key(b"b"), value(b"2"))]
    );
}

#[test]
fn test_info_equality_follows_order() {
    let mut ab = Info::new();
    ab.insert(key(b"a"), value(b"1"));
    ab.insert(key(b"b"), value(b"2"));
    let mut ab_again = Info::new();
    ab_again.insert(key(b"a"), value(b"1"));
    ab_again.insert(key(b"b"), value(b"2"));
    let mut ba = Info::new();
    ba.insert(key(b"b"), value(b"2"));
    ba.insert(key(b"a"), value(b"1"));
    let mut a = Info::new();
    a.insert(key(b"a"), value(b"1"));
    let mut ab_other = Info::new();
    ab_other.insert(key(b"a"), value(b"1"));
    ab_other.insert(key(b"b"), value(b"3"));
    assert_eq!(ab, ab_again);
    assert_ne!(ab, ba);
    assert_ne!(ab, a);
    assert_ne!(ab, ab_other);
    assert_eq!(Info::new(), Info::new());
}

#[test]
fn test_message_accessors() {
    let heartbeat = HeartbeatMessage::new(ProtocolName::new(b"DarkPlaces".to_vec()).unwrap());
    assert_eq!(heartbeat.protocol_name().as_bytes(), b"DarkPlaces");

    let getinfo = GetInfoMessage::new(Challenge::new(b"A_ch4Lleng3".to_vec()).unwrap());
    assert_eq!(getinfo.challenge().as_bytes(), b"A_ch4Lleng3");

    let mut info = Info::new();
    info.insert(key(b"clients"), value(b"0"));
    let inforesponse = InfoResponseMessage::new(info);
    assert_eq!(inforesponse.info().len(), 1);

    let filter = FilterOptions::new(Some(GameType::new(b"0".to_vec()).unwrap()), true, false);
    assert_eq!(filter.gametype().unwrap().as_bytes(), b"0");
    assert!(filter.empty());
    assert!(!filter.full());
    let getservers =
        GetServersMessage::new(Some(GameName::new(b"Nexuiz".to_vec()).unwrap()), 3, filter);
    assert_eq!(getservers.game_name().unwrap().as_bytes(), b"Nexuiz");
    assert_eq!(getservers.protocol_number(), 3);
    assert!(getservers.filter_options().empty());

    let none = GetServersMessage::new(None, 68, FilterOptions::new(None, false, true));
    assert!(none.game_name().is_none());
    assert!(none.filter_options().gametype().is_none());
    assert!(none.filter_options().full());

    let servers = vec![SocketAddrV4::new(Ipv4Addr::new(192, 0, 2, 1), 27960)];
    let response = GetServersResponseMessage::new(servers.clone(), true);
    assert_eq!(response.servers(), &servers[..]);
    assert!(response.eot());
}

#[test]
fn test_ext_message_accessors() {
    let filter = FilterExtOptions::new(
        Some(GameType::new(b"ctf".to_vec()).unwrap()),
        false,
        true,
        true,
        false,
    );
    assert_eq!(filter.gametype().unwrap().as_bytes(), b"ctf");
    assert!(!filter.empty());
    assert!(filter.full());
    assert!(filter.ipv4());
    assert!(!filter.ipv6());
    let message =
        GetServersExtMessage::new(GameName::new(b"Warsow".to_vec()).unwrap(), 15, filter);
    assert_eq!(message.game_name().as_bytes(), b"Warsow");
    assert_eq!(message.protocol_number(), 15);
    assert!(message.filter_options().ipv4());

    let v4 = SocketAddr::V4(SocketAddrV4::new(Ipv4Addr::new(192, 0, 2, 1), 27960));
    let v6 = SocketAddr::V6(SocketAddrV6::new(
        Ipv6Addr::new([0x2001, 0xdb8, 0, 0, 0, 0, 0, 1]),
        27964,
    ));
    let response = GetServersExtResponseMessage::new(vec![v4, v6], false);
    assert_eq!(response.servers(), &[v4, v6][..]);
    assert!(!response.eot());
    assert_eq!(v4.port(), 27960);
    assert_eq!(v6.port(), 27964);
}

#[test]
fn test_addresses() {
    let ip = Ipv4Addr::new(198, 51, 100, 2);
    assert_eq!(ip.octets(), [198, 51, 100, 2]);
    let addr = SocketAddrV4::new(ip, 27961);
    assert_eq!(*addr.ip(), ip);
    assert_eq!(addr.port(), 27961);
    let ip6 = Ipv6Addr::new([1, 2, 3, 4, 5, 6, 7, 8]);
    assert_eq!(ip6.segments(), [1, 2, 3, 4, 5, 6, 7, 8]);
    let addr6 = SocketAddrV6::new(ip6, 1);
    assert_eq!(*addr6.ip(), ip6);
    assert_eq!(addr6.port(), 1);
}
