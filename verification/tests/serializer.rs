use dpmaster_proto::messages::{
    Challenge, FilterOption, FilterOptions, GameName, GameType, GetInfoMessage, GetServersMessage,
    GetServersResponseMessage, HeartbeatMessage, Info, InfoKey, InfoResponseMessage, InfoValue,
    ProtocolName,
};
use dpmaster_proto::net::{Ipv4Addr, SocketAddrV4};
use dpmaster_proto::serializer::{
    gen_filter_option, gen_getinfo_message, gen_getservers_message, gen_getserversresponse_message,
    gen_heartbeat_message, gen_inforesponse_message,
};

#[test]
fn test_gen_heartbeat_message_dp() {
    let message = HeartbeatMessage::new(ProtocolName::new(b"DarkPlaces".to_vec()).unwrap());
    assert_eq!(
        &gen_heartbeat_message(&message)[..],
        &b"\xFF\xFF\xFF\xFFheartbeat DarkPlaces\x0A"[..]
    );
}

#[test]
fn test_gen_heartbeat_message_q3a() {
    let message = HeartbeatMessage::new(ProtocolName::new(b"QuakeArena-1".to_vec()).unwrap());
    assert_eq!(
        &gen_heartbeat_message(&message)[..],
        &b"\xFF\xFF\xFF\xFFheartbeat QuakeArena-1\x0A"[..]
    );
}

#[test]
fn test_gen_heartbeat_message_rtcw() {
    let message = HeartbeatMessage::new(ProtocolName::new(b"Wolfenstein-1".to_vec()).unwrap());
    assert_eq!(
        &gen_heartbeat_message(&message)[..],
        &b"\xFF\xFF\xFF\xFFheartbeat Wolfenstein-1\x0A"[..]
    );
}

#[test]
fn test_gen_heartbeat_message_woet() {
    let message = HeartbeatMessage::new(ProtocolName::new(b"EnemyTerritory-1".to_vec()).unwrap());
    assert_eq!(
        &gen_heartbeat_message(&message)[..],
        &b"\xFF\xFF\xFF\xFFheartbeat EnemyTerritory-1\x0A"[..]
    );
}

#[test]
fn test_gen_getinfo_message() {
    let message = GetInfoMessage::new(Challenge::new(b"A_ch4Lleng3".to_vec()).unwrap());
    assert_eq!(
        &gen_getinfo_message(&message)[..],
        &b"\xFF\xFF\xFF\xFFgetinfo A_ch4Lleng3"[..]
    );
}

#[test]
fn test_gen_inforesponse_message() {
    let mut info = Info::new();
    info.insert(
        InfoKey::new(b"sv_maxclients".to_vec()).unwrap(),
        InfoValue::new(b"8".to_vec()).unwrap(),
    );
    info.insert(
        InfoKey::new(b"clients".to_vec()).unwrap(),
        InfoValue::new(b"0".to_vec()).unwrap(),
    );
    let message = InfoResponseMessage::new(info);
    assert_eq!(
        &gen_inforesponse_message(&message)[..],
        &b"\xFF\xFF\xFF\xFFinfoResponse\x0A\\sv_maxclients\\8\\clients\\0"[..]
    );
}

#[test]
fn test_gen_getservers_message_q3a() {
    let message = GetServersMessage::new(
        None,
        67,
        FilterOptions::new(Some(GameType::new(b"0".to_vec()).unwrap()), true, true),
    );
    assert_eq!(
        &gen_getservers_message(&message)[..],
        &b"\xFF\xFF\xFF\xFFgetservers 67 gametype=0 empty full"[..]
    );
}

#[test]
fn test_gen_getservers_message_woet() {
    let message = GetServersMessage::new(None, 84, FilterOptions::new(None, false, false));
    assert_eq!(
        &gen_getservers_message(&message)[..],
        &b"\xFF\xFF\xFF\xFFgetservers 84"[..]
    );
}

#[test]
fn test_gen_getservers_message_nexuiz() {
    let message = GetServersMessage::new(
        Some(GameName::new(b"Nexuiz".to_vec()).unwrap()),
        3,
        FilterOptions::new(None, false, false),
    );
    assert_eq!(
        &gen_getservers_message(&message)[..],
        &b"\xFF\xFF\xFF\xFFgetservers Nexuiz 3"[..]
    );
}

#[test]
fn test_gen_getservers_message_qfusion() {
    let message = GetServersMessage::new(
        Some(GameName::new(b"qfusion".to_vec()).unwrap()),
        39,
        FilterOptions::new(None, false, true),
    );
    assert_eq!(
        &gen_getservers_message(&message)[..],
        &b"\xFF\xFF\xFF\xFFgetservers qfusion 39 full"[..]
    );
}

#[test]
fn test_gen_getservers_message_only_empty() {
    let message = GetServersMessage::new(None, 68, FilterOptions::new(None, true, false));
    assert_eq!(
        &gen_getservers_message(&message)[..],
        &b"\xFF\xFF\xFF\xFFgetservers 68 empty"[..]
    );
}

#[test]
fn test_gen_getservers_message_largest_protocol_number() {
    let message = GetServersMessage::new(None, u32::MAX, FilterOptions::new(None, false, false));
    assert_eq!(
        &gen_getservers_message(&message)[..],
        &b"\xFF\xFF\xFF\xFFgetservers 4294967295"[..]
    );
}

#[test]
fn test_gen_getservers_message_protocol_number_zero() {
    let message = GetServersMessage::new(None, 0, FilterOptions::new(None, false, false));
    assert_eq!(
        &gen_getservers_message(&message)[..],
        &b"\xFF\xFF\xFF\xFFgetservers 0"[..]
    );
}

#[test]
fn test_gen_getserversresponse_message() {
    let message = GetServersResponseMessage::new(
        vec![SocketAddrV4::new(Ipv4Addr::new(1, 2, 3, 4), 2048)],
        true,
    );
    assert_eq!(
        &gen_getserversresponse_message(&message)[..],
        &b"\xFF\xFF\xFF\xFFgetserversResponse\\\x01\x02\x03\x04\x08\x00\\EOT\0\0\0"[..]
    );
}

#[test]
fn test_gen_getserversresponse_message_without_eot() {
    let message = GetServersResponseMessage::new(
        vec![
            SocketAddrV4::new(Ipv4Addr::new(192, 0, 2, 1), 27960),
            SocketAddrV4::new(Ipv4Addr::new(198, 51, 100, 2), 27961),
            SocketAddrV4::new(Ipv4Addr::new(203, 0, 113, 3), 27962),
        ],
        false,
    );
    assert_eq!(
        &gen_getserversresponse_message(&message)[..],
        &b"\xFF\xFF\xFF\xFFgetserversResponse\\\xC0\x00\x02\x01\x6D\x38\\\xC6\x33\x64\x02\x6D\x39\\\xCB\x00\x71\x03\x6D\x3A"[..]
    );
}

#[test]
fn test_gen_getserversresponse_message_empty_list() {
    let message = GetServersResponseMessage::new(vec![], false);
    assert_eq!(
        &gen_getserversresponse_message(&message)[..],
        &b"\xFF\xFF\xFF\xFFgetserversResponse"[..]
    );
}

#[test]
fn test_getserversresponse_datagram_length() {
    for n in 0..5usize {
        for eot in [false, true] {
            let servers = (0..n)
                .map(|i| SocketAddrV4::new(Ipv4Addr::new(10, 0, 0, i as u8), 27960 + i as u16))
                .collect::<Vec<_>>();
            let message = GetServersResponseMessage::new(servers, eot);
            let datagram = gen_getserversresponse_message(&message);
            let payload = datagram.len() - 4;
            assert_eq!(
                payload,
                "getserversResponse".len() + 7 * n + if eot { 7 } else { 0 }
            );
        }
    }
}

#[test]
fn test_gen_filter_option() {
    let mut out = b"getservers 68 ".to_vec();
    gen_filter_option(
        &FilterOption::GameType(GameType::new(b"ctf".to_vec()).unwrap()),
        &mut out,
    );
    assert_eq!(&out[..], &b"getservers 68 gametype=ctf"[..]);
    out.push(b' ');
    gen_filter_option(&FilterOption::Empty, &mut out);
    assert_eq!(&out[..], &b"getservers 68 gametype=ctf empty"[..]);
    out.push(b' ');
    gen_filter_option(&FilterOption::Full, &mut out);
    assert_eq!(&out[..], &b"getservers 68 gametype=ctf empty full"[..]);
}
