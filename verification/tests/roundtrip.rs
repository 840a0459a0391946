use dpmaster_proto::deserializer::{
    getinfo_message, getservers_message, getserversresponse_message, heartbeat_message,
    inforesponse_message,
};
use dpmaster_proto::messages::{
    Challenge, FilterOptions, GameName, GameType, GetInfoMessage, GetServersMessage,
    GetServersResponseMessage, HeartbeatMessage, Info, InfoKey, InfoResponseMessage, InfoValue,
    ProtocolName,
};
use dpmaster_proto::net::{Ipv4Addr, SocketAddrV4};
use dpmaster_proto::serializer::{
    gen_getinfo_message, gen_getservers_message, gen_getserversresponse_message,
    gen_heartbeat_message, gen_inforesponse_message,
};

fn roundtrip_heartbeat(name: &[u8]) {
    let message = HeartbeatMessage::new(ProtocolName::new(name.to_vec()).unwrap());
    let buffer = gen_heartbeat_message(&message);
    let (rest, deserialized_message) = heartbeat_message(&buffer[..]).unwrap();
    assert_eq!(deserialized_message, message);
    assert!(rest.is_empty());
}

#[test]
fn test_roundtrip_heartbeat_message_dp() {
    roundtrip_heartbeat(b"DarkPlaces");
}

#[test]
fn test_roundtrip_heartbeat_message_q3a() {
    roundtrip_heartbeat(b"QuakeArena-1");
}

#[test]
fn test_roundtrip_heartbeat_message_rtcw() {
    roundtrip_heartbeat(b"Wolfenstein-1");
}

#[test]
fn test_roundtrip_heartbeat_message_woet() {
    roundtrip_heartbeat(b"EnemyTerritory-1");
}

#[test]
fn test_roundtrip_getinfo_message() {
    let message = GetInfoMessage::new(Challenge::new(b"A_ch4Lleng3".to_vec()).unwrap());
    let buffer = gen_getinfo_message(&message);
    let (rest, deserialized_message) = getinfo_message(&buffer[..]).unwrap();
    assert_eq!(deserialized_message, message);
    assert!(rest.is_empty());
}

#[test]
fn test_roundtrip_inforesponse_message() {
    let message = InfoResponseMessage::new({
        let mut info = Info::new();
        info.insert(
            InfoKey::new(b"sv_maxclients".to_vec()).unwrap(),
            InfoValue::new(b"8".to_vec()).unwrap(),
        );
        info.insert(
            InfoKey::new(b"clients".to_vec()).unwrap(),
            InfoValue::new(b"0".to_vec()).unwrap(),
        );
        info
    });
    let buffer = gen_inforesponse_message(&message);
    let (rest, deserialized_message) = inforesponse_message(&buffer[..]).unwrap();
    assert_eq!(deserialized_message, message);
    assert!(rest.is_empty());
}

fn roundtrip_getservers(message: GetServersMessage) {
    let buffer = gen_getservers_message(&message);
    let (rest, deserialized_message) = getservers_message(&buffer[..]).unwrap();
    assert_eq!(deserialized_message, message);
    assert!(rest.is_empty());
}

#[test]
fn test_roundtrip_getservers_message_q3a() {
    roundtrip_getservers(GetServersMessage::new(
        None,
        67,
        FilterOptions::new(Some(GameType::new(b"0".to_vec()).unwrap()), true, true),
    ));
}

#[test]
fn test_roundtrip_getservers_message_woet() {
    roundtrip_getservers(GetServersMessage::new(
        None,
        84,
        FilterOptions::new(None, false, false),
    ));
}

#[test]
fn test_roundtrip_getservers_message_nexuiz() {
    roundtrip_getservers(GetServersMessage::new(
        Some(GameName::new(b"Nexuiz".to_vec()).unwrap()),
        3,
        FilterOptions::new(None, false, false),
    ));
}

#[test]
fn test_roundtrip_getservers_message_qfusion() {
    roundtrip_getservers(GetServersMessage::new(
        Some(GameName::new(b"qfusion".to_vec()).unwrap()),
        39,
        FilterOptions::new(None, false, true),
    ));
}

#[test]
fn test_roundtrip_getservers_message_every_filter_combination() {
    for gametype in [None, Some(&b"ctf"[..])] {
        for empty in [false, true] {
            for full in [false, true] {
                for game_name in [None, Some(&b"Quake-III"[..])] {
                    roundtrip_getservers(GetServersMessage::new(
                        game_name.map(|n| GameName::new(n.to_vec()).unwrap()),
                        4294967295,
                        FilterOptions::new(
                            gametype.map(|g| GameType::new(g.to_vec()).unwrap()),
                            empty,
                            full,
                        ),
                    ));
                }
            }
        }
    }
}

fn roundtrip_getserversresponse(servers: Vec<SocketAddrV4>, eot: bool) {
    let message = GetServersResponseMessage::new(servers, eot);
    let buffer = gen_getserversresponse_message(&message);
    let (rest, deserialized_message) = getserversresponse_message(&buffer[..]).unwrap();
    assert_eq!(deserialized_message, message);
    assert!(rest.is_empty());
    assert_eq!(gen_getserversresponse_message(&deserialized_message), buffer);
}

#[test]
fn test_roundtrip_getserversresponse_message() {
    roundtrip_getserversresponse(vec![], false);
    roundtrip_getserversresponse(vec![], true);
    roundtrip_getserversresponse(
        vec![
            SocketAddrV4::new(Ipv4Addr::new(192, 0, 2, 1), 27960),
            SocketAddrV4::new(Ipv4Addr::new(255, 255, 255, 255), 65535),
            SocketAddrV4::new(Ipv4Addr::new(0, 0, 0, 0), 0),
        ],
        false,
    );
    roundtrip_getserversresponse(
        vec![SocketAddrV4::new(Ipv4Addr::new(92, 92, 92, 92), 0x5C5C)],
        true,
    );
}

#[test]
fn test_roundtrip_getserversresponse_lookalike_with_eot() {
    // 69.79.84.0:0 is written as the bytes of the end-of-transmission mark.
    let lookalike = SocketAddrV4::new(Ipv4Addr::new(b'E', b'O', b'T', 0), 0);
    roundtrip_getserversresponse(vec![lookalike], true);
    roundtrip_getserversresponse(
        vec![lookalike, SocketAddrV4::new(Ipv4Addr::new(1, 2, 3, 4), 5)],
        false,
    );
}

#[test]
fn test_getserversresponse_lookalike_last_without_eot_reads_as_eot() {
    let lookalike = SocketAddrV4::new(Ipv4Addr::new(b'E', b'O', b'T', 0), 0);
    let first = SocketAddrV4::new(Ipv4Addr::new(1, 2, 3, 4), 5);
    let message = GetServersResponseMessage::new(vec![first, lookalike], false);
    let buffer = gen_getserversresponse_message(&message);
    let (rest, deserialized_message) = getserversresponse_message(&buffer[..]).unwrap();
    assert!(rest.is_empty());
    assert_eq!(
        deserialized_message,
        GetServersResponseMessage::new(vec![first], true)
    );
    // what was parsed is written as the same bytes
    assert_eq!(gen_getserversresponse_message(&deserialized_message), buffer);
}

#[test]
fn test_heartbeat_not_canonical_is_normalized() {
    let data = b"\xFF\xFF\xFF\xFFheartbeat  DarkPlaces\n\n";
    let (rest, message) = heartbeat_message(&data[..]).unwrap();
    assert!(rest.is_empty());
    assert_eq!(
        &gen_heartbeat_message(&message)[..],
        &b"\xFF\xFF\xFF\xFFheartbeat DarkPlaces\n"[..]
    );
}

#[test]
fn test_getservers_game_name_with_digit_does_not_round_trip() {
    let message = GetServersMessage::new(
        Some(GameName::new(b"Quake3Arena".to_vec()).unwrap()),
        68,
        FilterOptions::new(None, false, false),
    );
    let buffer = gen_getservers_message(&message);
    assert_eq!(&buffer[..], &b"\xFF\xFF\xFF\xFFgetservers Quake3Arena 68"[..]);
    let (rest, deserialized_message) = getservers_message(&buffer[..]).unwrap();
    assert_eq!(rest, &b"Arena 68"[..]);
    assert_eq!(
        deserialized_message,
        GetServersMessage::new(
            Some(GameName::new(b"Quake".to_vec()).unwrap()),
            3,
            FilterOptions::new(None, false, false)
        )
    );
}
